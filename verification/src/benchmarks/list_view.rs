//! Layout of the benchmark leaderboard list: its title, the fixed indicator
//! columns, and which metric columns fit beside the name.

use vstd::prelude::*;
use crate::benchmarks::app::{BenchmarksApp, CreatorGrouping, CreatorRegion, CreatorType, SourceFilter, spec_sort_label, spec_region_of, spec_type_of};
use crate::benchmarks::schema::{MultiStore, SortKey};
use crate::formatting::{decimal, push_decimal};
use crate::text::{push_str, string_from_chars, push_padded_right, push_padded_left, pad_right_spec, pad_left_spec};
use crate::palette::{TextSpan, TextSpanView, span_view};
use crate::benchmarks::render::{compare_colors, spec_compare_color};

verus! {

pub open spec fn title_label(app: BenchmarksApp) -> Seq<char> {
    match app.spec_selected_slug() {
        Some(s) => app.spec_creator_display(s).0,
        None => "Benchmarks"@,
    }
}

/// `text` in brackets after a space, or nothing when `text` is empty.
pub open spec fn bracketed(open: Seq<char>, text: Seq<char>) -> Seq<char> {
    if text.len() == 0 { Seq::empty() } else { open + text + "]"@ }
}

pub open spec fn title_source(f: SourceFilter) -> Seq<char> {
    if f == SourceFilter::All { Seq::empty() } else { " ["@ + f.spec_label() + "]"@ }
}

pub open spec fn title_sort(descending: bool, label: Seq<char>) -> Seq<char> {
    seq![' ', if descending { '\u{2193}' } else { '\u{2191}' }] + label
}

pub open spec fn title_loading(loading: bool) -> Seq<char> {
    if loading { " loading..."@ } else { Seq::empty() }
}

/// Title of the leaderboard list: the selected creator (or "Benchmarks"),
/// the row count, the search query, the source and reasoning filters, the
/// sort direction and key, and a loading marker.
pub open spec fn spec_benchmark_title(app: BenchmarksApp, store: MultiStore) -> Seq<char> {
    spec_title_with(title_label(app), app, store)
}

/// A leaderboard title with the given label.
pub open spec fn spec_title_with(label: Seq<char>, app: BenchmarksApp, store: MultiStore) -> Seq<char> {
    " "@ + label + " ("@ + decimal(app.filtered_indices@.len()) + ")"@
        + bracketed(" [/"@, app.search_query@)
        + title_source(app.source_filter)
        + bracketed(" ["@, app.reasoning_filter.spec_label())
        + title_sort(app.sort_descending, spec_sort_label(store.spec_file(app.active_source as int), app.sort_key))
        + title_loading(store.spec_is_loading(app.active_source as int))
        + " "@
}

fn push_bracketed(v: &mut Vec<char>, open: &str, text: &str)
    ensures
        final(v)@ == old(v)@ + bracketed(open@, text@),
{
    let t = crate::text::chars_of(text);
    if t.len() > 0 {
        push_str(v, open);
        push_str(v, text);
        push_str(v, "]");
    }
}

fn push_label(v: &mut Vec<char>, app: &BenchmarksApp)
    ensures
        final(v)@ == old(v)@ + title_label(*app),
{
    match app.selected_creator_name() {
        Some(n) => push_str(v, n.as_str()),
        None => push_str(v, "Benchmarks"),
    }
}

fn push_sort(v: &mut Vec<char>, app: &BenchmarksApp, store: &MultiStore)
    ensures
        final(v)@ == old(v)@ + title_sort(app.sort_descending, spec_sort_label(store.spec_file(app.active_source as int), app.sort_key)),
{
    let ghost start = v@;
    v.push(' ');
    v.push(if app.sort_descending { '\u{2193}' } else { '\u{2191}' });
    let file = store.file(app.active_source);
    let sl = BenchmarksApp::sort_label(file, app.sort_key);
    proof {
        assert(match file { Some(f) => Some(*f), None => None } == store.spec_file(app.active_source as int));
    }
    push_str(v, sl.as_str());
    assert(v@ =~= start + title_sort(app.sort_descending, spec_sort_label(store.spec_file(app.active_source as int), app.sort_key)));
}

fn push_title_rest(v: &mut Vec<char>, app: &BenchmarksApp, store: &MultiStore)
    ensures
        final(v)@ == old(v)@ + " ("@ + decimal(app.filtered_indices@.len()) + ")"@
            + bracketed(" [/"@, app.search_query@)
            + title_source(app.source_filter)
            + bracketed(" ["@, app.reasoning_filter.spec_label())
            + title_sort(app.sort_descending, spec_sort_label(store.spec_file(app.active_source as int), app.sort_key))
            + title_loading(store.spec_is_loading(app.active_source as int))
            + " "@,
{
    let ghost start = v@;
    push_str(v, " (");
    push_decimal(v, app.filtered_indices.len() as u64);
    push_str(v, ")");
    push_bracketed(v, " [/", app.search_query.as_str());
    if app.source_filter != SourceFilter::All {
        push_str(v, " [");
        push_str(v, app.source_filter.label());
        push_str(v, "]");
    }
    push_bracketed(v, " [", app.reasoning_filter.label());
    push_sort(v, app, store);
    if BenchmarksApp::active_is_loading(store, app.active_source) {
        push_str(v, " loading...");
    }
    push_str(v, " ");
    assert(v@ =~= start + " ("@ + decimal(app.filtered_indices@.len()) + ")"@
            + bracketed(" [/"@, app.search_query@)
            + title_source(app.source_filter)
            + bracketed(" ["@, app.reasoning_filter.spec_label())
            + title_sort(app.sort_descending, spec_sort_label(store.spec_file(app.active_source as int), app.sort_key))
            + title_loading(store.spec_is_loading(app.active_source as int))
            + " "@);
}

/// Title of the leaderboard list.
pub fn benchmark_title(app: &BenchmarksApp, store: &MultiStore) -> (r: String)
    ensures
        r@ == spec_benchmark_title(*app, *store),
{
    let mut v: Vec<char> = Vec::new();
    push_str(&mut v, " ");
    push_label(&mut v, app);
    push_title_rest(&mut v, app, store);
    assert(v@ =~= spec_benchmark_title(*app, *store));
    string_from_chars(&v)
}

/// Title of the compact list shown beside the comparison views: as the
/// leaderboard's, labelled "Models".
pub fn compact_title(app: &BenchmarksApp, store: &MultiStore) -> (r: String)
    ensures
        r@ == spec_title_with("Models"@, *app, *store),
{
    let mut v: Vec<char> = Vec::new();
    push_str(&mut v, " ");
    push_str(&mut v, "Models");
    push_title_rest(&mut v, app, store);
    assert(v@ =~= spec_title_with("Models"@, *app, *store));
    string_from_chars(&v)
}

/// Width of the fixed columns left of the name: caret, reasoning and source
/// indicators, the selection marker when models are selected, and the region
/// or type tag while creators are grouped.
pub open spec fn spec_fixed_overhead(has_selections: bool, grouping: CreatorGrouping) -> nat {
    2 + (if has_selections { 2nat } else { 0nat }) + 3 + 2
        + (if grouping == CreatorGrouping::Ungrouped { 0nat } else { 4nat })
}

/// Width of the fixed columns left of the name.
pub fn fixed_overhead(has_selections: bool, grouping: CreatorGrouping) -> (r: u16)
    ensures
        r as nat == spec_fixed_overhead(has_selections, grouping),
{
    let sel: u16 = if has_selections { 2 } else { 0 };
    let grp: u16 = match grouping {
        CreatorGrouping::Ungrouped => 0,
        _ => 4,
    };
    2 + sel + 3 + 2 + grp
}

/// Width of one value column: an 11-wide value after a one-space gap.
pub const COL_W: u16 = 12;

/// Narrowest the name column gets.
pub const NAME_FLOOR: usize = 10;

/// `s` without the occurrences of `x`.
pub open spec fn without(s: Seq<usize>, x: usize) -> Seq<usize>
    decreases s.len(),
{
    if s.len() == 0 {
        s
    } else if s.last() == x {
        without(s.drop_last(), x)
    } else {
        without(s.drop_last(), x).push(s.last())
    }
}

pub open spec fn min_nat(a: int, b: int) -> int {
    if a < b { a } else { b }
}

/// How many value columns fit beside a name of at least ten cells.
pub open spec fn spec_max_cols(avail: int) -> int {
    if avail < NAME_FLOOR { 0 } else { (avail - NAME_FLOOR) / (COL_W as int) }
}

/// The metric columns and whether the release-date column are drawn, given
/// the columns asked for (`effective`, in order), the sort key, and room for
/// `max_cols` columns. Everything is drawn when it fits; otherwise the sort
/// column (the release date, or the sorted metric) is always kept and the
/// other columns are cut from the right.
pub open spec fn spec_pick_columns(effective: Seq<usize>, sort_key: SortKey, max_cols: int) -> (Seq<usize>, bool) {
    let has_release = sort_key == SortKey::ReleaseDate;
    let total = effective.len() + if has_release { 1int } else { 0int };
    let room_after_sort: int = if max_cols > 0 { max_cols - 1 } else { 0 };
    if total == 0 {
        (Seq::empty(), false)
    } else if total <= max_cols {
        (effective, has_release)
    } else if has_release {
        (effective.take(min_nat(room_after_sort, effective.len() as int)), true)
    } else if effective.len() > 0 {
        match sort_key {
            SortKey::Metric(s) => {
                let others = without(effective, s);
                (others.take(min_nat(room_after_sort, others.len() as int)).push(s), false)
            },
            _ => (effective.take(min_nat(max_cols, effective.len() as int)), false),
        }
    } else {
        (Seq::empty(), false)
    }
}

/// Columns and name width of the leaderboard list at inner width `inner`.
pub open spec fn spec_benchmark_columns(inner: nat, overhead: nat, effective: Seq<usize>, sort_key: SortKey) -> (Seq<usize>, bool, nat) {
    let avail: int = if inner > overhead { inner - overhead } else { 0 };
    let picked = spec_pick_columns(effective, sort_key, spec_max_cols(avail));
    let count: int = picked.0.len() + if picked.1 { 1int } else { 0int };
    let rest: int = inner - (overhead + count * COL_W);
    (picked.0, picked.1, if rest > NAME_FLOOR { rest as nat } else { NAME_FLOOR as nat })
}

proof fn lemma_without_len(s: Seq<usize>, x: usize)
    ensures
        without(s, x).len() <= s.len(),
        forall|i: int| 0 <= i < without(s, x).len() ==> without(s, x)[i] != x && s.contains(without(s, x)[i]),
    decreases s.len(),
{
    if s.len() > 0 {
        lemma_without_len(s.drop_last(), x);
        let w = without(s.drop_last(), x);
        assert forall|i: int| 0 <= i < without(s, x).len() implies without(s, x)[i] != x && s.contains(without(s, x)[i]) by {
            if i < w.len() {
                let k = choose|k: int| 0 <= k < s.drop_last().len() && s.drop_last()[k] == w[i];
                assert(s[k] == w[i]);
            } else {
                assert(s[s.len() - 1] == s.last());
            }
        }
    }
}

/// Which metric columns (and whether the release-date column) the
/// leaderboard list draws at inner width `inner`, and how wide the name
/// column is. The sort column always survives: the release-date column
/// under a date sort, the sorted metric under a metric sort.
pub fn benchmark_columns(inner: u16, overhead: u16, effective: &Vec<usize>, sort_key: SortKey) -> (r: (Vec<usize>, bool, usize))
    ensures
        (r.0@, r.1, r.2 as nat) == spec_benchmark_columns(inner as nat, overhead as nat, effective@, sort_key),
        r.2 >= NAME_FLOOR,
        sort_key == SortKey::ReleaseDate ==> r.1,
        sort_key matches SortKey::Metric(s) ==> (effective@.contains(s) ==> r.0@.contains(s)),
        forall|i: int| 0 <= i < r.0@.len() ==> effective@.contains(r.0@[i]) || sort_key == SortKey::Metric(r.0@[i]),
{
    let avail: u16 = inner.saturating_sub(overhead);
    let max_cols: usize = if avail < 10 { 0 } else { ((avail - 10) / COL_W) as usize };
    let has_release = match sort_key {
        SortKey::ReleaseDate => true,
        _ => false,
    };
    let rel: usize = if has_release { 1 } else { 0 };
    let nothing = effective.len() == 0 && !has_release;
    let fits = max_cols >= rel && effective.len() <= max_cols - rel;
    let room_after_sort: usize = if max_cols > 0 { max_cols - 1 } else { 0 };
    let mut cols: Vec<usize> = Vec::new();
    let mut release = false;
    if nothing {
    } else if fits {
        let mut i: usize = 0;
        while i < effective.len()
            invariant
                i <= effective@.len(),
                cols@ == effective@.take(i as int),
            decreases effective.len() - i,
        {
            cols.push(effective[i]);
            i = i + 1;
            assert(cols@ =~= effective@.take(i as int));
        }
        assert(effective@.take(i as int) =~= effective@);
        release = has_release;
    } else if has_release {
        let take = if room_after_sort < effective.len() { room_after_sort } else { effective.len() };
        let mut i: usize = 0;
        while i < take
            invariant
                take <= effective@.len(),
                i <= take,
                cols@ == effective@.take(i as int),
            decreases take - i,
        {
            cols.push(effective[i]);
            i = i + 1;
            assert(cols@ =~= effective@.take(i as int));
        }
        release = true;
    } else if effective.len() > 0 {
        match sort_key {
            SortKey::Metric(s) => {
                let mut others: Vec<usize> = Vec::new();
                let mut i: usize = 0;
                while i < effective.len()
                    invariant
                        i <= effective@.len(),
                        others@ == without(effective@.take(i as int), s),
                        others@.len() <= i,
                    decreases effective.len() - i,
                {
                    assert(effective@.take(i as int + 1).drop_last() =~= effective@.take(i as int));
                    if effective[i] != s {
                        others.push(effective[i]);
                    }
                    i = i + 1;
                }
                assert(effective@.take(i as int) =~= effective@);
                let take = if room_after_sort < others.len() { room_after_sort } else { others.len() };
                let mut k: usize = 0;
                while k < take
                    invariant
                        take <= others@.len(),
                        k <= take,
                        cols@ == others@.take(k as int),
                    decreases take - k,
                {
                    cols.push(others[k]);
                    k = k + 1;
                    assert(cols@ =~= others@.take(k as int));
                }
                cols.push(s);
                proof {
                    lemma_without_len(effective@, s);
                }
            },
            _ => {
                let take = if max_cols < effective.len() { max_cols } else { effective.len() };
                let mut i: usize = 0;
                while i < take
                    invariant
                        take <= effective@.len(),
                        i <= take,
                        cols@ == effective@.take(i as int),
                    decreases take - i,
                {
                    cols.push(effective[i]);
                    i = i + 1;
                    assert(cols@ =~= effective@.take(i as int));
                }
            },
        }
    }
    let ghost picked = spec_pick_columns(effective@, sort_key, spec_max_cols(avail as int));
    assert(avail as int == (if inner > overhead { inner - overhead } else { 0 }));
    assert(max_cols as int == spec_max_cols(avail as int));
    assert(cols@ == picked.0 && release == picked.1);
    assert(cols@.len() <= max_cols + 1);
    assert(max_cols <= 5462);
    let count: usize = cols.len() + if release { 1 } else { 0 };
    let used: usize = (overhead as usize) + count * (COL_W as usize);
    let rest: usize = if (inner as usize) > used { (inner as usize) - used } else { 0 };
    let name_width = if rest > NAME_FLOOR { rest } else { NAME_FLOOR };
    proof {
        if let SortKey::Metric(s) = sort_key {
            if effective@.len() > 0 && !fits {
                assert(cols@.last() == s);
                assert(cols@.contains(s));
            } else if effective@.contains(s) {
                let k = choose|k: int| 0 <= k < effective@.len() && effective@[k] == s;
                assert(cols@[k] == s);
            }
        }
        assert forall|i: int| 0 <= i < cols@.len() implies effective@.contains(cols@[i]) || sort_key == SortKey::Metric(cols@[i]) by {
            if !fits && !has_release && effective@.len() > 0 {
                if let SortKey::Metric(s) = sort_key {
                    lemma_without_len(effective@, s);
                    let others = without(effective@, s);
                    if i < cols@.len() - 1 {
                        assert(cols@[i] == others[i]);
                    }
                }
            } else {
                assert(cols@[i] == effective@[i]);
            }
        }
    }
    (cols, release, name_width)
}

/// Position of `model` among the selected models, if selected.
pub open spec fn selection_pos(selections: Seq<usize>, model: usize) -> Option<int>
    decreases selections.len(),
{
    if selections.len() == 0 {
        None
    } else if selections[0] == model {
        Some(0)
    } else {
        match selection_pos(selections.drop_first(), model) {
            Some(p) => Some(p + 1),
            None => None,
        }
    }
}

/// The selection marker of a row: a dot in the model's comparison color
/// when it is selected, else blanks when `pad` asks for alignment, else
/// nothing.
pub open spec fn spec_selection_marker(selections: Seq<usize>, model: usize, pad: bool) -> Option<TextSpanView> {
    match selection_pos(selections, model) {
        Some(p) => Some(TextSpanView { text: seq!['\u{25CF}', ' '], color: Some(spec_compare_color(p as usize)) }),
        None => if pad { Some(TextSpanView { text: seq![' ', ' '], color: None }) } else { None },
    }
}

/// The selection marker of a row.
pub fn selection_marker(selections: &Vec<usize>, model: usize, pad: bool) -> (r: Option<TextSpan>)
    ensures
        match r { Some(s) => Some(span_view(s)), None => None } == spec_selection_marker(selections@, model, pad),
{
    let mut i: usize = 0;
    assert(selections@.subrange(0, selections@.len() as int) =~= selections@);
    while i < selections.len()
        invariant
            i <= selections@.len(),
            forall|j: int| 0 <= j < i ==> selections@[j] != model,
            selection_pos(selections@, model) == match selection_pos(selections@.subrange(i as int, selections@.len() as int), model) {
                Some(p) => Some(p + i),
                None => None,
            },
        decreases selections.len() - i,
    {
        let ghost rest = selections@.subrange(i as int, selections@.len() as int);
        assert(rest.drop_first() =~= selections@.subrange(i as int + 1, selections@.len() as int));
        if selections[i] == model {
            assert(rest[0] == model);
            assert(selection_pos(rest, model) == Some(0int));
            let mut t: Vec<char> = Vec::new();
            t.push('\u{25CF}');
            t.push(' ');
            let r = TextSpan { text: string_from_chars(&t), color: Some(compare_colors(i)) };
            assert(t@ =~= seq!['\u{25CF}', ' ']);
            assert(selection_pos(selections@, model) == Some(i as int));
            assert(span_view(r) == TextSpanView { text: seq!['\u{25CF}', ' '], color: Some(spec_compare_color(i)) });
            return Some(r);
        }
        i = i + 1;
    }
    assert(selections@.subrange(i as int, selections@.len() as int) =~= Seq::<usize>::empty());
    assert(selection_pos(Seq::<usize>::empty(), model) is None);
    assert(selection_pos(selections@, model) is None);
    if pad {
        let mut t: Vec<char> = Vec::new();
        t.push(' ');
        t.push(' ');
        assert(t@ =~= seq![' ', ' ']);
        Some(TextSpan { text: string_from_chars(&t), color: None })
    } else {
        None
    }
}

/// The region or type tag of a row while creators are grouped: the short
/// label left-aligned in four cells, in the classification's color.
pub open spec fn spec_creator_tag(g: CreatorGrouping, creator: Seq<char>) -> Option<TextSpanView> {
    match g {
        CreatorGrouping::ByRegion => Some(TextSpanView {
            text: pad_right_spec(spec_region_of(creator).spec_short_label(), 4),
            color: Some(spec_region_of(creator).spec_color()),
        }),
        CreatorGrouping::ByType => Some(TextSpanView {
            text: pad_right_spec(spec_type_of(creator).spec_short_label(), 4),
            color: Some(spec_type_of(creator).spec_color()),
        }),
        _ => None,
    }
}

/// The region or type tag of a row while creators are grouped.
pub fn creator_tag(g: CreatorGrouping, creator: &str) -> (r: Option<TextSpan>)
    ensures
        match r { Some(s) => Some(span_view(s)), None => None } == spec_creator_tag(g, creator@),
{
    match g {
        CreatorGrouping::ByRegion => {
            let region = CreatorRegion::from_creator(creator);
            let mut t: Vec<char> = Vec::new();
            push_padded_right(&mut t, region.short_label(), 4);
            Some(TextSpan { text: string_from_chars(&t), color: Some(region.color()) })
        },
        CreatorGrouping::ByType => {
            let ct = CreatorType::from_creator(creator);
            let mut t: Vec<char> = Vec::new();
            push_padded_right(&mut t, ct.short_label(), 4);
            Some(TextSpan { text: string_from_chars(&t), color: Some(ct.color()) })
        },
        _ => None,
    }
}

/// Width left for names in the compact list: the row minus the marker,
/// caret, reasoning and source indicators, and the tag while grouped.
pub open spec fn spec_compact_name_width(inner: nat, g: CreatorGrouping) -> nat {
    let extra: nat = 9 + (if g == CreatorGrouping::Ungrouped { 0nat } else { 4nat });
    if inner > extra { (inner - extra) as nat } else { 0 }
}

/// Width left for names in the compact list.
pub fn compact_name_width(inner: u16, g: CreatorGrouping) -> (r: usize)
    ensures
        r as nat == spec_compact_name_width(inner as nat, g),
{
    let extra: u16 = 9 + match g {
        CreatorGrouping::Ungrouped => 0,
        _ => 4,
    };
    inner.saturating_sub(extra) as usize
}

/// A value cell of the leaderboard: the value right-aligned in eleven cells
/// after a gap, dimmed when it is the em dash of a missing value.
pub open spec fn spec_list_value_cell(value: Seq<char>) -> (Seq<char>, bool) {
    (seq![' '] + pad_left_spec(value, 11), value == seq!['\u{2014}'])
}

/// A value cell of the leaderboard, and whether it is dimmed.
pub fn list_value_cell(value: &str) -> (r: (String, bool))
    ensures
        (r.0@, r.1) == spec_list_value_cell(value@),
{
    let mut t: Vec<char> = Vec::new();
    t.push(' ');
    push_padded_left(&mut t, value, 11);
    let mut dash: Vec<char> = Vec::new();
    dash.push('\u{2014}');
    let v = crate::text::chars_of(value);
    let missing = crate::text::seq_eq(&v, &dash);
    (string_from_chars(&t), missing)
}

} // verus!

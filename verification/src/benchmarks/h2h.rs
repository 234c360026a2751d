//! The head-to-head comparison table: column layout, who wins each metric,
//! the win tally, and the model-info rows.

use vstd::prelude::*;
use crate::palette::TermColor;
use crate::benchmarks::app::{CreatorRegion, CreatorType, resolved_openness, spec_region_of, spec_type_of};
use crate::benchmarks::compare::{present_upto, value_views, ranks_of, rank_values,
    lemma_present_has, lemma_in_order, lemma_present_valid};
use crate::benchmarks::render::{compare_colors, spec_compare_color};
use crate::benchmarks::schema::{metric_cell, metric_score, ModelRow, OpennessMap, ReasoningStatus, SourceFile};
use crate::formatting::{decimal, push_decimal};
use crate::sorting::insertion_sorted;
use crate::text::{chars_of, display_width, pad_left_spec, pad_right_spec, push_padded_left, push_padded_right,
    str_width, string_from_chars, take_chars};

verus! {

/// Width of the metric-label column.
pub const LABEL_W: u16 = 14;

/// Width of each model column, or `None` when the table is not drawn: fewer
/// than two models, or an inner area narrower than 20 or lower than 3.
pub open spec fn spec_h2h_col_width(inner_w: nat, inner_h: nat, models: nat) -> Option<nat> {
    if models < 2 || inner_w < 20 || inner_h < 3 {
        None
    } else {
        let share = ((inner_w - LABEL_W) as nat) / models;
        Some(if share > 10 { share } else { 10 })
    }
}

/// Width of each model column, or `None` when the table is not drawn.
pub fn h2h_col_width(inner_w: u16, inner_h: u16, models: usize) -> (r: Option<usize>)
    ensures
        match r { Some(w) => Some(w as nat), None => None } == spec_h2h_col_width(inner_w as nat, inner_h as nat, models as nat),
{
    if models < 2 || inner_w < 20 || inner_h < 3 {
        None
    } else {
        let share = ((inner_w - LABEL_W) as usize) / models;
        Some(if share > 10 { share } else { 10 })
    }
}

/// A table cell: text wider than the column (in display cells) is cut to
/// `col_w - 2` characters, then right-aligned in `col_w` characters.
pub open spec fn spec_h2h_fit(text: Seq<char>, col_w: nat) -> Seq<char> {
    let room: int = col_w - 2;
    let cut = if str_width(text) > col_w - 1 && text.len() > room { text.take(room) } else { text };
    pad_left_spec(cut, col_w)
}

/// A table cell cut and right-aligned to `col_w`.
pub fn h2h_fit(text: &str, col_w: usize) -> (r: String)
    requires
        col_w >= 2,
    ensures
        r@ == spec_h2h_fit(text@, col_w as nat),
{
    let v = chars_of(text);
    let w = display_width(text);
    let cut: Vec<char> = if w > col_w - 1 && v.len() > col_w - 2 { take_chars(&v, col_w - 2) } else { v };
    let cs = string_from_chars(&cut);
    let mut out: Vec<char> = Vec::new();
    push_padded_left(&mut out, cs.as_str(), col_w);
    string_from_chars(&out)
}

/// A model's key for metric `mi`: its score's order key, if it has one.
pub open spec fn model_key(file: SourceFile, sel: Seq<usize>, i: int, mi: int) -> Option<i64> {
    if 0 <= i < sel.len() && sel[i] < file.models@.len() {
        match metric_cell(file, file.models@[sel[i] as int], mi) {
            Some(c) => Some(c.order_key),
            None => None,
        }
    } else {
        None
    }
}

/// Keys of the selected models for metric `mi`, in selection order.
pub open spec fn metric_keys(file: SourceFile, sel: Seq<usize>, mi: int) -> Seq<Option<i64>> {
    Seq::new(sel.len(), |i: int| model_key(file, sel, i, mi))
}

/// The best of the present values, first in selection order among equals.
pub open spec fn spec_winner(values: Seq<Option<i64>>, higher_is_better: bool) -> Option<usize> {
    let order = insertion_sorted(value_views(values), higher_is_better, present_upto(values, values.len()));
    if order.len() > 0 { Some(order[0]) } else { None }
}

/// Which selected model (by position) wins metric `mi`.
pub open spec fn metric_winner(file: SourceFile, sel: Seq<usize>, mi: int) -> Option<usize> {
    spec_winner(metric_keys(file, sel, mi), file.metrics@[mi].higher_is_better)
}

/// Number of the first `n` metrics that selected model `i` wins.
pub open spec fn wins_upto(file: SourceFile, sel: Seq<usize>, i: usize, n: nat) -> nat
    decreases n,
{
    if n == 0 {
        0
    } else {
        wins_upto(file, sel, i, (n - 1) as nat) + if metric_winner(file, sel, n - 1) == Some(i) { 1nat } else { 0nat }
    }
}

/// A value ranks first exactly when it leads the best-first order.
pub proof fn lemma_rank_one_is_winner(values: Seq<Option<i64>>, hib: bool, ranks: Seq<Option<u32>>, i: int)
    requires
        ranks_of(values, hib, ranks),
        values.len() < u32::MAX,
        0 <= i < values.len(),
    ensures
        (ranks[i] == Some(1u32)) <==> (spec_winner(values, hib) == Some(i as usize)),
{
    let present = present_upto(values, values.len());
    let order = insertion_sorted(value_views(values), hib, present);
    lemma_present_valid(values, values.len());
    if ranks[i] == Some(1u32) {
        assert(values[i] is Some);
        lemma_present_has(values, values.len(), i);
        let m = choose|m: int| 0 <= m < present.len() && present[m] == i;
        lemma_in_order(value_views(values), hib, present, order, m);
        let k = choose|k: int| 0 <= k < order.len() && order[k] == present[m];
        assert(ranks[order[k] as int] == Some((k + 1) as u32));
        assert(order.len() <= values.len()) by {
            vstd::seq_lib::to_multiset_len(order);
            vstd::seq_lib::to_multiset_len(present);
        }
        assert(k == 0);
    }
    if spec_winner(values, hib) == Some(i as usize) {
        assert(ranks[order[0] as int] == Some(1u32));
    }
}

/// The selected models' keys for metric `mi`.
fn keys_for(file: &SourceFile, sel: &Vec<usize>, mi: usize) -> (r: Vec<Option<i64>>)
    ensures
        r@ == metric_keys(*file, sel@, mi as int),
{
    let mut r: Vec<Option<i64>> = Vec::new();
    let mut i: usize = 0;
    while i < sel.len()
        invariant
            i <= sel@.len(),
            r@.len() == i,
            forall|j: int| 0 <= j < i ==> r@[j] == model_key(*file, sel@, j, mi as int),
        decreases sel.len() - i,
    {
        let k = if sel[i] < file.models.len() {
            match metric_score(file, &file.models[sel[i]], mi) {
                Some(c) => Some(c.order_key),
                None => None,
            }
        } else {
            None
        };
        r.push(k);
        i = i + 1;
    }
    assert(r@ =~= metric_keys(*file, sel@, mi as int));
    r
}

/// How many metrics each selected model wins (ranks first in), in selection
/// order.
pub fn win_counts(file: &SourceFile, selections: &Vec<usize>) -> (r: Vec<u32>)
    requires
        selections@.len() < u32::MAX,
        file.metrics@.len() < u32::MAX,
    ensures
        r@.len() == selections@.len(),
        forall|i: int| 0 <= i < r@.len() ==> r@[i] == wins_upto(*file, selections@, i as usize, file.metrics@.len()),
{
    let mut wins: Vec<u32> = Vec::new();
    let mut i: usize = 0;
    while i < selections.len()
        invariant
            i <= selections@.len(),
            wins@.len() == i,
            forall|j: int| 0 <= j < i ==> wins@[j] == 0,
        decreases selections.len() - i,
    {
        wins.push(0);
        i = i + 1;
    }
    let mut mi: usize = 0;
    while mi < file.metrics.len()
        invariant
            mi <= file.metrics@.len(),
            file.metrics@.len() < u32::MAX,
            selections@.len() < u32::MAX,
            wins@.len() == selections@.len(),
            forall|j: int| 0 <= j < wins@.len() ==> wins@[j] == wins_upto(*file, selections@, j as usize, mi as nat),
            forall|j: int| 0 <= j < wins@.len() ==> wins@[j] <= mi,
        decreases file.metrics.len() - mi,
    {
        let values = keys_for(file, selections, mi);
        let ranks = rank_values(&values, file.metrics[mi].higher_is_better);
        let ghost before = wins@;
        let mut j: usize = 0;
        while j < wins.len()
            invariant
                j <= wins@.len(),
                wins@.len() == before.len(),
                before.len() == selections@.len(),
                values@ == metric_keys(*file, selections@, mi as int),
                values@.len() == selections@.len(),
                selections@.len() < u32::MAX,
                mi < file.metrics@.len(),
                file.metrics@.len() < u32::MAX,
                ranks_of(values@, file.metrics@[mi as int].higher_is_better, ranks@),
                forall|k: int| 0 <= k < before.len() ==> before[k] == wins_upto(*file, selections@, k as usize, mi as nat),
                forall|k: int| 0 <= k < before.len() ==> before[k] <= mi,
                forall|k: int| j <= k < wins@.len() ==> wins@[k] == before[k],
                forall|k: int| 0 <= k < j ==> wins@[k] == wins_upto(*file, selections@, k as usize, (mi + 1) as nat),
                forall|k: int| 0 <= k < j ==> wins@[k] <= mi + 1,
            decreases wins.len() - j,
        {
            proof {
                lemma_rank_one_is_winner(values@, file.metrics@[mi as int].higher_is_better, ranks@, j as int);
            }
            let first = match ranks[j] {
                Some(r) => r == 1,
                None => false,
            };
            assert(wins@[j as int] == before[j as int]);
            assert(metric_winner(*file, selections@, mi as int) == spec_winner(values@, file.metrics@[mi as int].higher_is_better));
            assert(wins_upto(*file, selections@, j as usize, (mi + 1) as nat)
                == wins_upto(*file, selections@, j as usize, mi as nat)
                    + if metric_winner(*file, selections@, mi as int) == Some(j) { 1nat } else { 0nat });
            if first {
                let c = wins[j];
                wins.set(j, c + 1);
            }
            j = j + 1;
        }
        mi = mi + 1;
    }
    wins
}

/// A cell of the table with its color and weight.
#[derive(Debug, Clone, PartialEq, Eq)]
pub struct H2hCell {
    pub text: String,
    pub color: TermColor,
    pub bold: bool,
}

pub open spec fn max_of(s: Seq<u32>) -> u32
    decreases s.len(),
{
    if s.len() == 0 { 0 } else if max_of(s.drop_last()) >= s.last() { max_of(s.drop_last()) } else { s.last() }
}

/// The tally cell of model `i`: its count, starred and bold when it leads
/// (a tie for the lead stars every leader; nobody leads with zero wins).
pub open spec fn spec_wins_cell(count: u32, max: u32, i: int, col_w: nat) -> (Seq<char>, TermColor, bool) {
    let lead = count == max && max > 0;
    (pad_left_spec(if lead { decimal(count as nat) + seq![' ', '\u{2605}'] } else { decimal(count as nat) }, col_w),
     spec_compare_color(i as usize), lead)
}

/// The largest count.
pub fn max_count(s: &Vec<u32>) -> (m: u32)
    ensures
        m == max_of(s@),
        forall|i: int| 0 <= i < s@.len() ==> s@[i] <= m,
        s@.len() > 0 ==> exists|i: int| 0 <= i < s@.len() && s@[i] == m,
{
    let mut m: u32 = 0;
    let mut i: usize = 0;
    while i < s.len()
        invariant
            i <= s@.len(),
            m == max_of(s@.take(i as int)),
            forall|j: int| 0 <= j < i ==> s@[j] <= m,
            i > 0 ==> exists|j: int| 0 <= j < i && s@[j] == m,
            i == 0 ==> m == 0,
        decreases s.len() - i,
    {
        assert(s@.take(i as int + 1).drop_last() =~= s@.take(i as int));
        if s[i] > m {
            m = s[i];
        }
        i = i + 1;
    }
    assert(s@.take(i as int) =~= s@);
    m
}

/// The tally row under the model names, one cell per selected model.
pub fn wins_row(counts: &Vec<u32>, col_w: usize) -> (r: Vec<H2hCell>)
    ensures
        r@.len() == counts@.len(),
        forall|i: int| 0 <= i < r@.len() ==>
            (r@[i].text@, r@[i].color, r@[i].bold) == spec_wins_cell(counts@[i], max_of(counts@), i, col_w as nat),
        forall|i: int| 0 <= i < r@.len() ==> (r@[i].bold <==> counts@[i] > 0 && forall|j: int| 0 <= j < counts@.len() ==> counts@[j] <= counts@[i]),
{
    let m = max_count(counts);
    let mut r: Vec<H2hCell> = Vec::new();
    let mut i: usize = 0;
    while i < counts.len()
        invariant
            i <= counts@.len(),
            m == max_of(counts@),
            forall|j: int| 0 <= j < counts@.len() ==> counts@[j] <= m,
            counts@.len() > 0 ==> exists|j: int| 0 <= j < counts@.len() && counts@[j] == m,
            r@.len() == i,
            forall|k: int| 0 <= k < i ==>
                (r@[k].text@, r@[k].color, r@[k].bold) == spec_wins_cell(counts@[k], m, k, col_w as nat),
        decreases counts.len() - i,
    {
        let c = counts[i];
        let lead = c == m && m > 0;
        let mut label: Vec<char> = Vec::new();
        push_decimal(&mut label, c as u64);
        if lead {
            label.push(' ');
            label.push('\u{2605}');
        }
        let ls = string_from_chars(&label);
        let mut t: Vec<char> = Vec::new();
        push_padded_left(&mut t, ls.as_str(), col_w);
        r.push(H2hCell { text: string_from_chars(&t), color: compare_colors(i), bold: lead });
        i = i + 1;
    }
    r
}

/// The label cell of a row: the label left-aligned in the label column.
pub fn label_cell(label: &str) -> (r: String)
    ensures
        r@ == pad_right_spec(label@, LABEL_W as nat),
{
    let mut t: Vec<char> = Vec::new();
    push_padded_right(&mut t, label, LABEL_W as usize);
    string_from_chars(&t)
}

/// The selected model at position `i`, when its index is in range.
pub open spec fn selected_model(file: SourceFile, sel: Seq<usize>, i: int) -> Option<ModelRow> {
    if sel[i] < file.models@.len() { Some(file.models@[sel[i] as int]) } else { None }
}

/// Creator row value: the creator's name, its slug when the name is empty.
pub open spec fn spec_creator_value(m: Option<ModelRow>) -> (Seq<char>, TermColor) {
    match m {
        Some(model) => (if model.creator_name@.len() > 0 { model.creator_name@ } else { model.creator@ }, TermColor::White),
        None => (Seq::empty(), TermColor::White),
    }
}

/// Source row value: open or closed weights (the model's own flag, else its
/// creator's), or an em dash.
pub open spec fn spec_source_value(m: Option<ModelRow>, openness: OpennessMap) -> (Seq<char>, TermColor) {
    match m {
        Some(model) => match resolved_openness(model, openness) {
            Some(true) => ("Open"@, TermColor::Green),
            Some(false) => ("Closed"@, TermColor::Red),
            None => (seq!['\u{2014}'], TermColor::DarkGray),
        },
        None => (seq!['\u{2014}'], TermColor::DarkGray),
    }
}

/// Region row value: the creator's region in its color.
pub open spec fn spec_region_value(m: Option<ModelRow>) -> (Seq<char>, TermColor) {
    match m {
        Some(model) => (spec_region_of(model.creator@).spec_label(), spec_region_of(model.creator@).spec_color()),
        None => (Seq::empty(), TermColor::Reset),
    }
}

/// Type row value: the creator's type in its color.
pub open spec fn spec_type_value(m: Option<ModelRow>) -> (Seq<char>, TermColor) {
    match m {
        Some(model) => (spec_type_of(model.creator@).spec_label(), spec_type_of(model.creator@).spec_color()),
        None => (Seq::empty(), TermColor::Reset),
    }
}

/// Released row value: the release date, or an em dash.
pub open spec fn spec_release_value(m: Option<ModelRow>) -> (Seq<char>, TermColor) {
    match m {
        Some(model) => match model.release_date {
            Some(d) => (d@, TermColor::White),
            None => (seq!['\u{2014}'], TermColor::White),
        },
        None => (seq!['\u{2014}'], TermColor::White),
    }
}

/// Reasoning row value: the reasoning status in its color.
pub open spec fn spec_reasoning_value(m: Option<ModelRow>) -> (Seq<char>, TermColor) {
    match m {
        Some(model) => match model.reasoning_status {
            ReasoningStatus::Reasoning => ("Reasoning"@, TermColor::Cyan),
            ReasoningStatus::NonReasoning => ("Non-reasoning"@, TermColor::DarkGray),
            ReasoningStatus::Adaptive => ("Adaptive"@, TermColor::Yellow),
            ReasoningStatus::Unmarked => (seq!['\u{2014}'], TermColor::DarkGray),
        },
        None => (seq!['\u{2014}'], TermColor::DarkGray),
    }
}

/// The model-info rows of the table.
#[derive(Debug, Clone, Copy, PartialEq, Eq, Structural)]
pub enum InfoRow {
    Creator,
    Source,
    Region,
    Type,
    Released,
    Reasoning,
}

pub open spec fn spec_info_value(row: InfoRow, m: Option<ModelRow>, openness: OpennessMap) -> (Seq<char>, TermColor) {
    match row {
        InfoRow::Creator => spec_creator_value(m),
        InfoRow::Source => spec_source_value(m, openness),
        InfoRow::Region => spec_region_value(m),
        InfoRow::Type => spec_type_value(m),
        InfoRow::Released => spec_release_value(m),
        InfoRow::Reasoning => spec_reasoning_value(m),
    }
}

fn dash() -> (r: String)
    ensures
        r@ == seq!['\u{2014}'],
{
    let mut t: Vec<char> = Vec::new();
    t.push('\u{2014}');
    string_from_chars(&t)
}

/// The value (and its color) a model shows in an info row.
pub fn info_value(row: InfoRow, m: Option<&ModelRow>, openness: &OpennessMap) -> (r: (String, TermColor))
    ensures
        (r.0@, r.1) == spec_info_value(row, match m { Some(x) => Some(*x), None => None }, *openness),
{
    match m {
        None => match row {
            InfoRow::Creator => (String::new(), TermColor::White),
            InfoRow::Source => (dash(), TermColor::DarkGray),
            InfoRow::Region | InfoRow::Type => (String::new(), TermColor::Reset),
            InfoRow::Released => (dash(), TermColor::White),
            InfoRow::Reasoning => (dash(), TermColor::DarkGray),
        },
        Some(model) => match row {
            InfoRow::Creator => {
                let n = chars_of(model.creator_name.as_str());
                if n.len() > 0 {
                    (model.creator_name.clone(), TermColor::White)
                } else {
                    (model.creator.clone(), TermColor::White)
                }
            },
            InfoRow::Source => {
                let open = match model.open_weights {
                    Some(b) => Some(b),
                    None => openness.get(model.creator.as_str()),
                };
                match open {
                    Some(true) => ("Open".to_string(), TermColor::Green),
                    Some(false) => ("Closed".to_string(), TermColor::Red),
                    None => (dash(), TermColor::DarkGray),
                }
            },
            InfoRow::Region => {
                let r = CreatorRegion::from_creator(model.creator.as_str());
                (r.label().to_string(), r.color())
            },
            InfoRow::Type => {
                let t = CreatorType::from_creator(model.creator.as_str());
                (t.label().to_string(), t.color())
            },
            InfoRow::Released => match &model.release_date {
                Some(d) => (d.clone(), TermColor::White),
                None => (dash(), TermColor::White),
            },
            InfoRow::Reasoning => match model.reasoning_status {
                ReasoningStatus::Reasoning => ("Reasoning".to_string(), TermColor::Cyan),
                ReasoningStatus::NonReasoning => ("Non-reasoning".to_string(), TermColor::DarkGray),
                ReasoningStatus::Adaptive => ("Adaptive".to_string(), TermColor::Yellow),
                ReasoningStatus::Unmarked => (dash(), TermColor::DarkGray),
            },
        },
    }
}

/// The header cell of selected model `i`: its display name ("?" when the
/// index is out of range), cut and right-aligned, bold in its color.
pub open spec fn spec_name_header(file: SourceFile, sel: Seq<usize>, i: int, col_w: nat) -> (Seq<char>, TermColor, bool) {
    let name = match selected_model(file, sel, i) {
        Some(m) => m.display_name@,
        None => "?"@,
    };
    (spec_h2h_fit(name, col_w), spec_compare_color(i as usize), true)
}

/// The header cells naming the selected models.
pub fn name_headers(file: &SourceFile, selections: &Vec<usize>, col_w: usize) -> (r: Vec<H2hCell>)
    requires
        col_w >= 2,
    ensures
        r@.len() == selections@.len(),
        forall|i: int| 0 <= i < r@.len() ==>
            (r@[i].text@, r@[i].color, r@[i].bold) == spec_name_header(*file, selections@, i, col_w as nat),
{
    let mut r: Vec<H2hCell> = Vec::new();
    let mut i: usize = 0;
    while i < selections.len()
        invariant
            i <= selections@.len(),
            col_w >= 2,
            r@.len() == i,
            forall|k: int| 0 <= k < i ==>
                (r@[k].text@, r@[k].color, r@[k].bold) == spec_name_header(*file, selections@, k, col_w as nat),
        decreases selections.len() - i,
    {
        let idx = selections[i];
        let text = if idx < file.models.len() {
            h2h_fit(file.models[idx].display_name.as_str(), col_w)
        } else {
            h2h_fit("?", col_w)
        };
        r.push(H2hCell { text, color: compare_colors(i), bold: true });
        i = i + 1;
    }
    r
}

/// `c` shows model `m`'s value for `row`, cut and right-aligned, in the
/// value's color.
pub open spec fn info_cell_ok(c: H2hCell, row: InfoRow, m: Option<ModelRow>, openness: OpennessMap, col_w: nat) -> bool {
    let v = spec_info_value(row, m, openness);
    c.text@ == spec_h2h_fit(v.0, col_w) && c.color == v.1 && !c.bold
}

/// One cell per selected model for an info row.
pub fn info_cells(row: InfoRow, file: &SourceFile, selections: &Vec<usize>, openness: &OpennessMap, col_w: usize) -> (r: Vec<H2hCell>)
    requires
        col_w >= 2,
    ensures
        r@.len() == selections@.len(),
        forall|i: int| 0 <= i < r@.len() ==> info_cell_ok(#[trigger] r@[i], row, selected_model(*file, selections@, i), *openness, col_w as nat),
{
    let mut r: Vec<H2hCell> = Vec::new();
    let mut i: usize = 0;
    while i < selections.len()
        invariant
            i <= selections@.len(),
            col_w >= 2,
            r@.len() == i,
            forall|k: int| 0 <= k < i ==> info_cell_ok(#[trigger] r@[k], row, selected_model(*file, selections@, k), *openness, col_w as nat),
        decreases selections.len() - i,
    {
        let idx = selections[i];
        let m: Option<&ModelRow> = if idx < file.models.len() { Some(&file.models[idx]) } else { None };
        let (v, c) = info_value(row, m, openness);
        let text = h2h_fit(v.as_str(), col_w);
        r.push(H2hCell { text, color: c, bold: false });
        i = i + 1;
    }
    r
}

} // verus!

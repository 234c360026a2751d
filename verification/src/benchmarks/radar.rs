//! Radar chart axis selection, title and legend.

use vstd::prelude::*;
use crate::text::{chars_of, owned, push_str, slice_string, string_from_chars, utf8_len, char_utf8_len, lemma_encode_push};
use crate::palette::TermColor;
use crate::benchmarks::render::{compare_colors, spec_compare_color};
use crate::benchmarks::schema::{
    SourceFile, MetricDef, spec_radar_groups, radar_groups, group_indices,
    metric_indices_in_group,
};

verus! {

/// Maximum number of axes a single radar group can render.
pub const MAX_AXES: usize = 6;

/// An axis on the radar chart, derived from a single source metric.
#[derive(Debug, Clone, Copy, PartialEq, Eq, Structural)]
pub struct RadarAxis {
    /// Index into `file.metrics`.
    pub metric_idx: usize,
}

/// Among the first `n` entries of `idxs`, the indices of higher-is-better
/// metrics, in order.
pub open spec fn hib_only(ms: Seq<MetricDef>, idxs: Seq<usize>, n: nat) -> Seq<usize>
    decreases n,
{
    if n == 0 || n > idxs.len() {
        Seq::empty()
    } else {
        let acc = hib_only(ms, idxs, (n - 1) as nat);
        let mi = idxs[n - 1];
        if mi < ms.len() && ms[mi as int].higher_is_better {
            acc.push(mi)
        } else {
            acc
        }
    }
}

/// The metric indices a radar group draws: its higher-is-better metrics in
/// file order, at most [`MAX_AXES`] of them; none for an out-of-range group.
pub open spec fn spec_axes(file: SourceFile, radar_group: int) -> Seq<usize> {
    let groups = spec_radar_groups(file);
    if 0 <= radar_group < groups.len() {
        let idxs = group_indices(file.metrics@, groups[radar_group], file.metrics@.len());
        let h = hib_only(file.metrics@, idxs, idxs.len());
        if h.len() <= MAX_AXES { h } else { h.take(MAX_AXES as int) }
    } else {
        Seq::empty()
    }
}

/// Build the radar axes for the active group: the first [`MAX_AXES`]
/// higher-is-better metrics of the group selected by `radar_group`.
pub fn axes_for_group(file: &SourceFile, radar_group: usize) -> (r: Vec<RadarAxis>)
    ensures
        r@.map_values(|a: RadarAxis| a.metric_idx) == spec_axes(*file, radar_group as int),
{
    let groups = radar_groups(file);
    if radar_group >= groups.len() {
        let out: Vec<RadarAxis> = Vec::new();
        assert(out@.map_values(|a: RadarAxis| a.metric_idx) =~= Seq::<usize>::empty());
        return out;
    }
    let ghost gname = groups@[radar_group as int]@;
    assert(gname == spec_radar_groups(*file)[radar_group as int]) by {
        assert(groups@.map_values(|s: String| s@)[radar_group as int] == gname);
    }
    let idxs = metric_indices_in_group(file, groups[radar_group].as_str());
    let mut out: Vec<RadarAxis> = Vec::new();
    let mut i: usize = 0;
    while i < idxs.len() && out.len() < MAX_AXES
        invariant
            i <= idxs.len(),
            out@.map_values(|a: RadarAxis| a.metric_idx) == hib_only(file.metrics@, idxs@, i as nat),
            out.len() <= MAX_AXES,
        decreases idxs.len() - i,
    {
        let mi = idxs[i];
        if mi < file.metrics.len() && file.metrics[mi].higher_is_better {
            out.push(RadarAxis { metric_idx: mi });
            assert(out@.map_values(|a: RadarAxis| a.metric_idx) =~= hib_only(file.metrics@, idxs@, i as nat).push(mi));
        }
        i = i + 1;
    }
    proof {
        let h = hib_only(file.metrics@, idxs@, idxs@.len());
        lemma_hib_only_prefix(file.metrics@, idxs@, i as nat, idxs@.len());
        if i < idxs.len() {
            assert(out.len() == MAX_AXES);
            assert(h.take(MAX_AXES as int) =~= hib_only(file.metrics@, idxs@, i as nat));
        } else {
            assert(h =~= hib_only(file.metrics@, idxs@, i as nat));
        }
    }
    out
}

/// Filtering a prefix gives a prefix of the filtered whole.
pub proof fn lemma_hib_only_prefix(ms: Seq<MetricDef>, idxs: Seq<usize>, k: nat, n: nat)
    requires
        k <= n <= idxs.len(),
    ensures
        hib_only(ms, idxs, k).len() <= hib_only(ms, idxs, n).len(),
        hib_only(ms, idxs, n).take(hib_only(ms, idxs, k).len() as int) == hib_only(ms, idxs, k),
    decreases n,
{
    if k < n {
        lemma_hib_only_prefix(ms, idxs, k, (n - 1) as nat);
        let a = hib_only(ms, idxs, (n - 1) as nat);
        let b = hib_only(ms, idxs, n);
        let c = hib_only(ms, idxs, k);
        assert(b.take(c.len() as int) =~= a.take(c.len() as int));
    } else {
        assert(hib_only(ms, idxs, n).take(hib_only(ms, idxs, n).len() as int) =~= hib_only(ms, idxs, n));
    }
}

/// The em-dash shown for a missing value.
pub open spec fn em_dash() -> Seq<char> {
    seq!['\u{2014}']
}

/// An owned em-dash string.
pub fn em_dash_string() -> (r: String)
    ensures
        r@ == em_dash(),
{
    let mut v: Vec<char> = Vec::new();
    v.push('\u{2014}');
    assert(v@ =~= em_dash());
    string_from_chars(&v)
}

/// The active group name (used in the panel title), or an em-dash when the
/// index is out of range.
pub open spec fn spec_active_group_label(file: SourceFile, radar_group: int) -> Seq<char> {
    let groups = spec_radar_groups(file);
    if 0 <= radar_group < groups.len() { groups[radar_group] } else { em_dash() }
}

/// The active group name, or an em-dash when none.
pub fn active_group_label(file: &SourceFile, radar_group: usize) -> (r: String)
    ensures
        r@ == spec_active_group_label(*file, radar_group as int),
{
    let groups = radar_groups(file);
    if radar_group < groups.len() {
        assert(groups@.map_values(|s: String| s@)[radar_group as int] == groups@[radar_group as int]@);
        owned(groups[radar_group].as_str())
    } else {
        em_dash_string()
    }
}

/// Title of the radar panel: the active group in brackets.
pub fn radar_title(file: &SourceFile, radar_group: usize) -> (r: String)
    ensures
        r@ == " Radar ["@ + spec_active_group_label(*file, radar_group as int) + "] "@,
{
    let label = active_group_label(file, radar_group);
    let mut v: Vec<char> = Vec::new();
    push_str(&mut v, " Radar [");
    push_str(&mut v, label.as_str());
    push_str(&mut v, "] ");
    string_from_chars(&v)
}

/// A radar needs at least three axes and one selected model.
pub open spec fn spec_radar_drawable(axes: nat, selected: nat) -> bool {
    axes >= 3 && selected > 0
}

/// Whether the radar polygons are drawn (else only the titled frame).
pub fn radar_drawable(axes: usize, selected: usize) -> (r: bool)
    ensures
        r == spec_radar_drawable(axes as nat, selected as nat),
{
    axes >= 3 && selected > 0
}

/// Legend entries of the first `n` selections: the name of each selected
/// model that exists, in the color of its position among the selections.
pub open spec fn legend_upto(file: SourceFile, sel: Seq<usize>, n: nat) -> Seq<(Seq<char>, TermColor)>
    decreases n,
{
    if n == 0 || n > sel.len() {
        Seq::empty()
    } else {
        let prev = legend_upto(file, sel, (n - 1) as nat);
        if sel[n - 1] < file.models@.len() {
            prev.push((file.models@[sel[n - 1] as int].display_name@, spec_compare_color((n - 1) as usize)))
        } else {
            prev
        }
    }
}

/// The radar legend: one entry per selected model that exists.
pub fn radar_legend(file: &SourceFile, selections: &Vec<usize>) -> (r: Vec<(String, TermColor)>)
    ensures
        r@.map_values(|e: (String, TermColor)| (e.0@, e.1)) == legend_upto(*file, selections@, selections@.len()),
{
    let mut r: Vec<(String, TermColor)> = Vec::new();
    let mut i: usize = 0;
    while i < selections.len()
        invariant
            i <= selections@.len(),
            r@.map_values(|e: (String, TermColor)| (e.0@, e.1)) == legend_upto(*file, selections@, i as nat),
        decreases selections.len() - i,
    {
        let idx = selections[i];
        if idx < file.models.len() {
            let ghost before = r@;
            r.push((file.models[idx].display_name.clone(), compare_colors(i)));
            assert(r@.map_values(|e: (String, TermColor)| (e.0@, e.1))
                =~= before.map_values(|e: (String, TermColor)| (e.0@, e.1)).push((file.models@[idx as int].display_name@, spec_compare_color(i))));
        }
        i = i + 1;
    }
    r
}

/// Longest axis label, in bytes, kept on one line.
pub const AXIS_LABEL_BYTES: usize = 16;

/// From character `i` on, the first character count whose prefix encodes to
/// exactly `target` bytes, if the prefixes reach `target` exactly.
pub open spec fn cut_from(s: Seq<char>, target: nat, i: int) -> Option<int>
    decreases s.len() - i,
{
    if i < 0 || i > s.len() {
        None
    } else if utf8_len(s.take(i)) == target {
        Some(i)
    } else if utf8_len(s.take(i)) > target || i == s.len() {
        None
    } else {
        cut_from(s, target, i + 1)
    }
}

/// The last space among the first `k` characters.
pub open spec fn last_space(s: Seq<char>, k: int) -> Option<int>
    decreases k,
{
    if k <= 0 {
        None
    } else if s[k - 1] == ' ' {
        Some(k - 1)
    } else {
        last_space(s, k - 1)
    }
}

/// An axis label as drawn: on one line when it takes at most 16 bytes,
/// otherwise split at the last space within its first 16 bytes (the space
/// dropped), or on one line when there is none.
pub open spec fn spec_axis_label_lines(s: Seq<char>) -> Seq<Seq<char>> {
    if utf8_len(s) <= AXIS_LABEL_BYTES {
        seq![s]
    } else {
        match cut_from(s, AXIS_LABEL_BYTES as nat, 0) {
            Some(k) => match last_space(s, k) {
                Some(j) => seq![s.take(j), s.skip(j + 1)],
                None => seq![s],
            },
            None => seq![s],
        }
    }
}

/// The label's first 16 bytes end on a character boundary (always true of
/// a label of at most 16 bytes).
pub open spec fn splittable(s: Seq<char>) -> bool {
    utf8_len(s) <= AXIS_LABEL_BYTES || cut_from(s, AXIS_LABEL_BYTES as nat, 0) is Some
}

proof fn lemma_take_len(s: Seq<char>, i: int)
    requires
        0 <= i < s.len(),
    ensures
        utf8_len(s.take(i + 1)) == utf8_len(s.take(i)) + vstd::utf8::encode_scalar(s[i] as u32).len(),
{
    assert(s.take(i + 1) =~= s.take(i).push(s[i]));
    lemma_encode_push(s.take(i), s[i]);
}

/// The lines of an axis label around the radar.
pub fn axis_label_lines(label: &str) -> (r: Vec<String>)
    requires
        splittable(label@),
    ensures
        r@.map_values(|l: String| l@) == spec_axis_label_lines(label@),
{
    let v = chars_of(label);
    let total = label.as_bytes().len();
    let mut r: Vec<String> = Vec::new();
    if total <= AXIS_LABEL_BYTES {
        r.push(owned(label));
        assert(r@.map_values(|l: String| l@) =~= spec_axis_label_lines(label@));
        return r;
    }
    let ghost s = label@;
    let mut b: usize = 0;
    let mut i: usize = 0;
    assert(s.take(0) =~= Seq::<char>::empty());
    assert(vstd::utf8::encode_utf8(Seq::<char>::empty()) =~= Seq::<u8>::empty());
    while b < AXIS_LABEL_BYTES && i < v.len()
        invariant
            v@ == s,
            i <= v@.len(),
            b as nat == utf8_len(s.take(i as int)),
            b <= AXIS_LABEL_BYTES + 4,
            cut_from(s, AXIS_LABEL_BYTES as nat, 0) == cut_from(s, AXIS_LABEL_BYTES as nat, i as int),
        decreases v.len() - i,
    {
        proof {
            lemma_take_len(s, i as int);
        }
        b = b + char_utf8_len(v[i]);
        i = i + 1;
    }
    proof {
        assert(s.take(s.len() as int) =~= s);
    }
    assert(total as nat == utf8_len(s));
    assert(b == AXIS_LABEL_BYTES);
    let k = i;
    let mut j: usize = k;
    let mut found = false;
    while j > 0 && !found
        invariant
            v@ == s,
            j <= k <= v@.len(),
            !found ==> last_space(s, k as int) == last_space(s, j as int),
            found ==> j < k && s[j as int] == ' ' && last_space(s, k as int) == Some(j as int),
        decreases j + if found { 0int } else { 1int },
    {
        if v[j - 1] == ' ' {
            found = true;
            j = j - 1;
        } else {
            j = j - 1;
        }
    }
    if found {
        r.push(slice_string(&v, 0, j));
        r.push(slice_string(&v, j + 1, v.len()));
        assert(s.subrange(0, j as int) =~= s.take(j as int));
        assert(s.subrange(j + 1, s.len() as int) =~= s.skip(j + 1));
    } else {
        r.push(owned(label));
    }
    assert(r@.map_values(|l: String| l@) =~= spec_axis_label_lines(label@));
    r
}

} // verus!

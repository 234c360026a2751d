//! Content of the benchmark glossary: every metric of the active source in
//! display order, grouped by section.

use vstd::prelude::*;
use crate::benchmarks::schema::{SourceFile, MetricDef, spec_groups_in_order, groups_in_order};
use crate::benchmarks::render::{
    members, member_indices, spec_group_kind_blurb, group_kind_blurb, spec_kind_blurb, kind_blurb,
    spec_direction_blurb, direction_blurb,
};
use crate::text::{chars_of, owned, push_str, string_from_chars};

verus! {

/// One line of the glossary. Section headers are drawn by the view, which
/// pads them to the popup width.
#[derive(Debug, Clone, PartialEq, Eq)]
pub enum GlossaryLine {
    Blank,
    /// A metric group's title, with the scale its metrics share, if any.
    Section(String, Option<String>),
    /// A metric's label.
    Label(String),
    /// Scale and direction, and the date the metric was last updated.
    Meta(String),
    Description(String),
    /// A metric without a description.
    NoDescription,
    /// The source has no metrics.
    NoMetrics,
}

/// Ghost form of [`GlossaryLine`].
pub ghost enum GlossaryView {
    Blank,
    Section(Seq<char>, Option<Seq<char>>),
    Label(Seq<char>),
    Meta(Seq<char>),
    Description(Seq<char>),
    NoDescription,
    NoMetrics,
}

pub open spec fn glossary_view(l: GlossaryLine) -> GlossaryView {
    match l {
        GlossaryLine::Blank => GlossaryView::Blank,
        GlossaryLine::Section(t, k) => GlossaryView::Section(t@, match k { Some(s) => Some(s@), None => None }),
        GlossaryLine::Label(s) => GlossaryView::Label(s@),
        GlossaryLine::Meta(s) => GlossaryView::Meta(s@),
        GlossaryLine::Description(s) => GlossaryView::Description(s@),
        GlossaryLine::NoDescription => GlossaryView::NoDescription,
        GlossaryLine::NoMetrics => GlossaryView::NoMetrics,
    }
}

pub open spec fn glossary_views(v: Seq<GlossaryLine>) -> Seq<GlossaryView> {
    v.map_values(|l: GlossaryLine| glossary_view(l))
}

/// Length of the date part of a `last_updated` value: everything before
/// the first `T` or space (a full RFC 3339 timestamp keeps its date).
pub open spec fn date_len_from(u: Seq<char>, i: int) -> int
    decreases u.len() - i,
{
    if i < 0 || i >= u.len() {
        u.len() as int
    } else if u[i] == 'T' || u[i] == ' ' {
        i
    } else {
        date_len_from(u, i + 1)
    }
}

/// The date part of a `last_updated` value.
pub open spec fn date_part(u: Seq<char>) -> Seq<char> {
    u.take(date_len_from(u, 0))
}

proof fn lemma_date_len(u: Seq<char>, i: int)
    requires
        0 <= i <= u.len(),
    ensures
        i <= date_len_from(u, i) <= u.len(),
    decreases u.len() - i,
{
    if i < u.len() && !(u[i] == 'T' || u[i] == ' ') {
        lemma_date_len(u, i + 1);
    }
}

/// The meta line of a metric: scale blurb and direction, then the update
/// date when known.
pub open spec fn spec_meta(m: MetricDef) -> Seq<char> {
    let base = spec_kind_blurb(m.kind) + " \u{00B7} "@ + spec_direction_blurb(m.higher_is_better);
    match m.last_updated {
        Some(u) => base + "  updated "@ + date_part(u@),
        None => base,
    }
}

/// The four lines of a metric: label, meta, description (an em dash line
/// when missing or empty), blank.
pub open spec fn metric_lines(m: MetricDef) -> Seq<GlossaryView> {
    let desc = match m.description {
        Some(d) => if d@.len() > 0 { GlossaryView::Description(d@) } else { GlossaryView::NoDescription },
        None => GlossaryView::NoDescription,
    };
    seq![GlossaryView::Label(m.label@), GlossaryView::Meta(spec_meta(m)), desc, GlossaryView::Blank]
}

/// The lines of the first `n` metrics among `idx`.
pub open spec fn metrics_lines_upto(file: SourceFile, idx: Seq<usize>, n: nat) -> Seq<GlossaryView>
    decreases n,
{
    if n == 0 || n > idx.len() {
        seq![]
    } else {
        metrics_lines_upto(file, idx, (n - 1) as nat) + metric_lines(file.metrics@[idx[n - 1] as int])
    }
}

/// The lines of group `g`: a blank separator (except before the first
/// group), the section header, a blank, then its metrics.
pub open spec fn group_lines(file: SourceFile, g: Seq<char>, first: bool) -> Seq<GlossaryView> {
    let idx = members(file, g);
    (if first { seq![] } else { seq![GlossaryView::Blank] })
        + seq![GlossaryView::Section(g, spec_group_kind_blurb(file, g)), GlossaryView::Blank]
        + metrics_lines_upto(file, idx, idx.len())
}

/// The lines of the first `k` groups of `gs`.
pub open spec fn groups_lines_upto(file: SourceFile, gs: Seq<Seq<char>>, k: nat) -> Seq<GlossaryView>
    decreases k,
{
    if k == 0 || k > gs.len() {
        seq![]
    } else {
        groups_lines_upto(file, gs, (k - 1) as nat) + group_lines(file, gs[k - 1], k == 1)
    }
}

/// The glossary: each group in order of first appearance with its metrics
/// in file order; a single "no metrics" line when the source has none.
pub open spec fn spec_glossary(file: SourceFile) -> Seq<GlossaryView> {
    let gs = spec_groups_in_order(file);
    let lines = groups_lines_upto(file, gs, gs.len());
    if lines.len() == 0 { seq![GlossaryView::NoMetrics] } else { lines }
}

fn date_part_exec(u: &str) -> (r: String)
    ensures
        r@ == date_part(u@),
{
    let v = chars_of(u);
    let mut i: usize = 0;
    while i < v.len() && v[i] != 'T' && v[i] != ' '
        invariant
            i <= v@.len(),
            v@ == u@,
            date_len_from(u@, 0) == date_len_from(u@, i as int),
        decreases v.len() - i,
    {
        i = i + 1;
    }
    let mut out: Vec<char> = Vec::new();
    let mut k: usize = 0;
    while k < i
        invariant
            k <= i <= v@.len(),
            out@ == v@.take(k as int),
        decreases i - k,
    {
        out.push(v[k]);
        k = k + 1;
        assert(out@ =~= v@.take(k as int));
    }
    string_from_chars(&out)
}

fn meta_exec(m: &MetricDef) -> (r: String)
    ensures
        r@ == spec_meta(*m),
{
    let mut v: Vec<char> = Vec::new();
    push_str(&mut v, kind_blurb(m.kind));
    push_str(&mut v, " \u{00B7} ");
    push_str(&mut v, direction_blurb(m.higher_is_better));
    match &m.last_updated {
        Some(u) => {
            push_str(&mut v, "  updated ");
            let d = date_part_exec(u.as_str());
            push_str(&mut v, d.as_str());
        },
        None => {},
    }
    assert(v@ =~= spec_meta(*m));
    string_from_chars(&v)
}

fn push_line(out: &mut Vec<GlossaryLine>, l: GlossaryLine)
    ensures
        glossary_views(final(out)@) == glossary_views(old(out)@).push(glossary_view(l)),
{
    let ghost before = out@;
    out.push(l);
    assert(out@ =~= before.push(l));
    assert(glossary_views(out@) =~= glossary_views(before).push(glossary_view(l)));
}

fn push_metric_lines(out: &mut Vec<GlossaryLine>, m: &MetricDef)
    ensures
        glossary_views(final(out)@) == glossary_views(old(out)@) + metric_lines(*m),
{
    let ghost start = glossary_views(out@);
    push_line(out, GlossaryLine::Label(owned(m.label.as_str())));
    push_line(out, GlossaryLine::Meta(meta_exec(m)));
    let desc = match &m.description {
        Some(d) => {
            let dv = chars_of(d.as_str());
            if dv.len() > 0 { GlossaryLine::Description(owned(d.as_str())) } else { GlossaryLine::NoDescription }
        },
        None => GlossaryLine::NoDescription,
    };
    push_line(out, desc);
    push_line(out, GlossaryLine::Blank);
    assert(glossary_views(out@) =~= start + metric_lines(*m));
}

/// Build the glossary of a source (see [`spec_glossary`]).
pub fn glossary_lines(file: &SourceFile) -> (r: Vec<GlossaryLine>)
    ensures
        glossary_views(r@) == spec_glossary(*file),
{
    let groups = groups_in_order(file);
    let mut out: Vec<GlossaryLine> = Vec::new();
    let mut k: usize = 0;
    assert(glossary_views(out@) =~= groups_lines_upto(*file, groups@.map_values(|s: String| s@), 0));
    while k < groups.len()
        invariant
            k <= groups@.len(),
            groups@.map_values(|s: String| s@) == spec_groups_in_order(*file),
            glossary_views(out@) == groups_lines_upto(*file, spec_groups_in_order(*file), k as nat),
        decreases groups.len() - k,
    {
        let ghost gs = spec_groups_in_order(*file);
        let ghost before = glossary_views(out@);
        let g = &groups[k];
        assert(gs[k as int] == g@);
        if k > 0 {
            push_line(&mut out, GlossaryLine::Blank);
        }
        let kind = match group_kind_blurb(file, g.as_str()) {
            Some(b) => Some(owned(b)),
            None => None,
        };
        push_line(&mut out, GlossaryLine::Section(owned(g.as_str()), kind));
        push_line(&mut out, GlossaryLine::Blank);
        let idx = member_indices(file, g.as_str());
        let ghost head = glossary_views(out@);
        let mut j: usize = 0;
        while j < idx.len()
            invariant
                j <= idx@.len(),
                idx@ == members(*file, g@),
                forall|t: int| 0 <= t < idx@.len() ==> #[trigger] idx@[t] < file.metrics@.len(),
                glossary_views(out@) == head + metrics_lines_upto(*file, idx@, j as nat),
            decreases idx.len() - j,
        {
            push_metric_lines(&mut out, &file.metrics[idx[j]]);
            j = j + 1;
            assert(glossary_views(out@) =~= head + metrics_lines_upto(*file, idx@, j as nat));
        }
        assert(glossary_views(out@) =~= before + group_lines(*file, g@, k == 0));
        k = k + 1;
    }
    if out.len() == 0 {
        push_line(&mut out, GlossaryLine::NoMetrics);
        assert(glossary_views(out@) =~= seq![GlossaryView::NoMetrics]);
    }
    out
}

} // verus!

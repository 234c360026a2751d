//! The benchmark detail panel, assembled line by line: the identity block
//! (name, id, and the Creator/Released, Reasoning/Effort, Weights/Context,
//! Region/Type, Tools/Output and Variant rows), then one section per metric
//! group with a row per metric. Formatted scores, token counts and
//! comparator texts come in as text.

use vstd::prelude::*;
use crate::palette::{TermColor, TextSpan, TextSpanView, span_views};
use crate::text::{owned, str_width, display_width};
use crate::models::grouping::opt_view;
use crate::benchmarks::radar::{em_dash, em_dash_string};
use crate::benchmarks::schema::{
    ModelRow, ReasoningStatus, SourceFile, spec_groups_in_order, groups_in_order, group_indices,
    metric_indices_in_group, metric_cell, metric_score,
};
use crate::benchmarks::render::{spec_group_header_suffix, group_header_suffix};
use crate::benchmarks::detail::{
    ColumnWidths, MetricRowLayout, detail_grid_percentages, grid_widths, spec_meta_row, meta_row,
    spec_weights_value, weights_value, spec_region_type, region_type_values, spec_metric_label_width,
    metric_label_width, spec_metric_row, metric_row,
};

verus! {

/// One line of the benchmark detail panel.
pub enum BenchLine {
    /// The model's display name, bold white.
    Title(String),
    /// The model id, dimmed.
    Id(String),
    Row(Vec<TextSpan>),
    Blank,
    /// The rule of a metric group, with the group's scale and direction
    /// explanation when it has one.
    Header(String, Option<String>),
}

/// Ghost form of [`BenchLine`].
pub ghost enum BenchLineView {
    Title(Seq<char>),
    Id(Seq<char>),
    Row(Seq<TextSpanView>),
    Blank,
    Header(Seq<char>, Option<Seq<char>>),
}

pub open spec fn bench_line_view(l: BenchLine) -> BenchLineView {
    match l {
        BenchLine::Title(s) => BenchLineView::Title(s@),
        BenchLine::Id(s) => BenchLineView::Id(s@),
        BenchLine::Row(v) => BenchLineView::Row(span_views(v@)),
        BenchLine::Blank => BenchLineView::Blank,
        BenchLine::Header(g, s) => BenchLineView::Header(g@, opt_view(s)),
    }
}

pub open spec fn bench_line_views(v: Seq<BenchLine>) -> Seq<BenchLineView> {
    v.map_values(|l: BenchLine| bench_line_view(l))
}

/// What the panel shows of a model beyond its row: the effort level, tool
/// support, the context window as formatted text (shown when the row has
/// one), the maximum output as formatted text, and the variant tag.
pub struct BenchModelExtras {
    pub effort: Option<String>,
    pub supports_tools: Option<bool>,
    pub context_text: String,
    pub max_output: Option<String>,
    pub variant: Option<String>,
}

/// A metric's formatted value, its vote count (if any) and the comparator
/// text (when a comparator is shown).
pub struct MetricCellText {
    pub value: String,
    pub votes: Option<String>,
    pub comparator: Option<String>,
}

/// A value and its dash-or-color: the text in `c`, or a dimmed em dash.
pub open spec fn or_dash(v: Option<Seq<char>>, c: TermColor) -> (Seq<char>, TermColor) {
    match v {
        Some(t) => (t, c),
        None => (em_dash(), TermColor::DarkGray),
    }
}

/// The Reasoning value: the status word, or a dimmed em dash when unmarked.
pub open spec fn reasoning_value(s: ReasoningStatus) -> (Seq<char>, TermColor) {
    match s {
        ReasoningStatus::Reasoning => ("Reasoning"@, TermColor::Cyan),
        ReasoningStatus::NonReasoning => ("Non-reasoning"@, TermColor::DarkGray),
        ReasoningStatus::Adaptive => ("Adaptive"@, TermColor::Yellow),
        ReasoningStatus::Unmarked => (em_dash(), TermColor::DarkGray),
    }
}

/// The Tools value: "Yes" (green), "No" or an em dash (dimmed).
pub open spec fn tools_value(t: Option<bool>) -> (Seq<char>, TermColor) {
    match t {
        Some(true) => ("Yes"@, TermColor::Green),
        Some(false) => ("No"@, TermColor::DarkGray),
        None => (em_dash(), TermColor::DarkGray),
    }
}

pub open spec fn labeled(label: Seq<char>, v: (Seq<char>, TermColor)) -> (Seq<char>, Seq<char>, TermColor) {
    (label, v.0, v.1)
}

/// The columns of the panel's meta rows for a panel `width` cells wide.
pub open spec fn bench_columns(width: nat) -> ColumnWidths {
    ColumnWidths::spec_from_grid(grid_widths(if width > 2 { (width - 2) as u16 } else { 0 }, detail_grid_percentages()))
}

/// The identity block of the panel.
pub open spec fn spec_identity_block(width: nat, file: SourceFile, model: ModelRow, x: BenchModelExtras) -> Seq<BenchLineView> {
    spec_identity_block_with(bench_columns(width), file, model, x)
}

pub open spec fn cell_width(c: MetricCellText) -> nat {
    str_width(c.value@) + match c.votes { Some(v) => str_width(v@), None => 0 }
}

/// The widest value cell (value and votes) of the first `n` cells.
pub open spec fn widest_cell(cells: Seq<MetricCellText>, n: nat) -> nat
    decreases n,
{
    if n == 0 || n > cells.len() {
        0
    } else {
        let prev = widest_cell(cells, (n - 1) as nat);
        let w = cell_width(cells[n - 1]);
        if w > prev { w } else { prev }
    }
}

/// The value column: the widest value cell (one when there are no
/// metrics), capped two below the largest `usize`.
pub open spec fn value_column(cells: Seq<MetricCellText>) -> nat {
    let w: nat = if cells.len() == 0 { 1 } else { widest_cell(cells, cells.len()) };
    if w > usize::MAX - 2 { (usize::MAX - 2) as nat } else { w }
}

/// The layout of the metric rows.
pub open spec fn bench_row_layout(width: nat, file: SourceFile, cells: Seq<MetricCellText>) -> MetricRowLayout {
    let cw = bench_columns(width);
    MetricRowLayout {
        indent: cw.indent,
        label_w: spec_metric_label_width(file, width, cw.indent as nat) as usize,
        value_w: value_column(cells) as usize,
    }
}

/// The row of metric `mi`.
pub open spec fn metric_line(layout: MetricRowLayout, file: SourceFile, model: ModelRow, cells: Seq<MetricCellText>, mi: int) -> BenchLineView {
    BenchLineView::Row(spec_metric_row(
        layout,
        file.metrics@[mi].label@,
        cells[mi].value@,
        opt_view(cells[mi].votes),
        metric_cell(file, model, mi) is Some,
        opt_view(cells[mi].comparator),
    ))
}

/// The section of metric group `g`: a blank line, its rule, and its
/// metrics in source order.
pub open spec fn group_section(layout: MetricRowLayout, file: SourceFile, model: ModelRow, cells: Seq<MetricCellText>, g: Seq<char>) -> Seq<BenchLineView> {
    let idx = group_indices(file.metrics@, g, file.metrics@.len());
    seq![BenchLineView::Blank, BenchLineView::Header(g, spec_group_header_suffix(file, g))]
        + Seq::new(idx.len(), |t: int| metric_line(layout, file, model, cells, idx[t] as int))
}

/// The sections of the first `n` groups `gs`.
pub open spec fn sections_upto(layout: MetricRowLayout, file: SourceFile, model: ModelRow, cells: Seq<MetricCellText>, gs: Seq<Seq<char>>, n: nat) -> Seq<BenchLineView>
    decreases n,
{
    if n == 0 || n > gs.len() {
        seq![]
    } else {
        sections_upto(layout, file, model, cells, gs, (n - 1) as nat) + group_section(layout, file, model, cells, gs[n - 1])
    }
}

/// The benchmark detail panel of `model`, `width` cells wide; `cells[i]` is
/// the text of metric `i`.
pub open spec fn spec_benchmark_detail_lines(
    width: nat,
    file: SourceFile,
    model: ModelRow,
    x: BenchModelExtras,
    cells: Seq<MetricCellText>,
) -> Seq<BenchLineView> {
    let gs = spec_groups_in_order(file);
    spec_identity_block(width, file, model, x)
        + sections_upto(bench_row_layout(width, file, cells), file, model, cells, gs, gs.len())
}

fn push_line(out: &mut Vec<BenchLine>, l: BenchLine)
    ensures
        bench_line_views(final(out)@) == bench_line_views(old(out)@).push(bench_line_view(l)),
{
    out.push(l);
    assert(bench_line_views(final(out)@) =~= bench_line_views(old(out)@).push(bench_line_view(l)));
}

fn opt_str(o: &Option<String>) -> (r: Option<&str>)
    ensures
        match r { Some(t) => Some(t@), None => None::<Seq<char>> } == opt_view(*o),
{
    match o {
        Some(s) => Some(s.as_str()),
        None => None,
    }
}

fn copy_opt(o: &Option<String>) -> (r: Option<String>)
    ensures
        opt_view(r) == opt_view(*o),
{
    match o {
        Some(s) => Some(owned(s.as_str())),
        None => None,
    }
}

fn push_identity(out: &mut Vec<BenchLine>, cw: ColumnWidths, file: &SourceFile, model: &ModelRow, x: &BenchModelExtras)
    ensures
        bench_line_views(final(out)@) == bench_line_views(old(out)@) + spec_identity_block_with(cw, *file, *model, *x),
{
    let ghost start = bench_line_views(out@);
    let dash = em_dash_string();
    push_line(out, BenchLine::Title(owned(model.display_name.as_str())));
    push_line(out, BenchLine::Id(owned(model.id.as_str())));
    let creator: &str = if crate::text::chars_of(model.creator_name.as_str()).len() > 0 { model.creator_name.as_str() } else { model.creator.as_str() };
    let released: &str = match &model.release_date {
        Some(d) => d.as_str(),
        None => dash.as_str(),
    };
    push_line(out, BenchLine::Row(meta_row(cw, ("Creator", creator, TermColor::White), ("Released", released, TermColor::White))));
    let (rl, rc): (&str, TermColor) = match model.reasoning_status {
        ReasoningStatus::Reasoning => ("Reasoning", TermColor::Cyan),
        ReasoningStatus::NonReasoning => ("Non-reasoning", TermColor::DarkGray),
        ReasoningStatus::Adaptive => ("Adaptive", TermColor::Yellow),
        ReasoningStatus::Unmarked => (dash.as_str(), TermColor::DarkGray),
    };
    let (el, ec): (&str, TermColor) = match &x.effort {
        Some(e) => (e.as_str(), TermColor::White),
        None => (dash.as_str(), TermColor::DarkGray),
    };
    push_line(out, BenchLine::Row(meta_row(cw, ("Reasoning", rl, rc), ("Effort", el, ec))));
    let (wl, wc) = weights_value(file, model);
    let (cl, cc): (&str, TermColor) = match model.context_window {
        Some(_) => (x.context_text.as_str(), TermColor::White),
        None => (dash.as_str(), TermColor::DarkGray),
    };
    push_line(out, BenchLine::Row(meta_row(cw, ("Weights", wl.as_str(), wc), ("Context", cl, cc))));
    let ((gl, gc), (tl, tc)) = region_type_values(model);
    push_line(out, BenchLine::Row(meta_row(cw, ("Region", gl.as_str(), gc), ("Type", tl.as_str(), tc))));
    let (sl, sc): (&str, TermColor) = match x.supports_tools {
        Some(true) => ("Yes", TermColor::Green),
        Some(false) => ("No", TermColor::DarkGray),
        None => (dash.as_str(), TermColor::DarkGray),
    };
    let (ol, oc): (&str, TermColor) = match &x.max_output {
        Some(o) => (o.as_str(), TermColor::White),
        None => (dash.as_str(), TermColor::DarkGray),
    };
    push_line(out, BenchLine::Row(meta_row(cw, ("Tools", sl, sc), ("Output", ol, oc))));
    match &x.variant {
        Some(v) => {
            proof {
                reveal_strlit("");
            }
            push_line(out, BenchLine::Row(meta_row(cw, ("Variant", v.as_str(), TermColor::White), ("", "", TermColor::Reset))));
        },
        None => {},
    }
    proof {
        reveal_strlit("");
    }
    assert(bench_line_views(out@) =~= start + spec_identity_block_with(cw, *file, *model, *x));
}

/// The identity block with the meta-row columns `cw`.
pub open spec fn spec_identity_block_with(cw: ColumnWidths, file: SourceFile, model: ModelRow, x: BenchModelExtras) -> Seq<BenchLineView> {
    let creator = if model.creator_name@.len() > 0 { model.creator_name@ } else { model.creator@ };
    let rt = spec_region_type(model);
    let ctx = match model.context_window {
        Some(_) => (x.context_text@, TermColor::White),
        None => (em_dash(), TermColor::DarkGray),
    };
    let base = seq![
        BenchLineView::Title(model.display_name@),
        BenchLineView::Id(model.id@),
        BenchLineView::Row(spec_meta_row(cw,
            labeled("Creator"@, (creator, TermColor::White)),
            labeled("Released"@, match opt_view(model.release_date) { Some(d) => (d, TermColor::White), None => (em_dash(), TermColor::White) }))),
        BenchLineView::Row(spec_meta_row(cw,
            labeled("Reasoning"@, reasoning_value(model.reasoning_status)),
            labeled("Effort"@, or_dash(opt_view(x.effort), TermColor::White)))),
        BenchLineView::Row(spec_meta_row(cw,
            labeled("Weights"@, spec_weights_value(file, model)),
            labeled("Context"@, ctx))),
        BenchLineView::Row(spec_meta_row(cw, labeled("Region"@, rt.0), labeled("Type"@, rt.1))),
        BenchLineView::Row(spec_meta_row(cw,
            labeled("Tools"@, tools_value(x.supports_tools)),
            labeled("Output"@, or_dash(opt_view(x.max_output), TermColor::White)))),
    ];
    match x.variant {
        Some(v) => base.push(BenchLineView::Row(spec_meta_row(cw, ("Variant"@, v@, TermColor::White), (""@, ""@, TermColor::Reset)))),
        None => base,
    }
}

fn value_w_of(cells: &Vec<MetricCellText>) -> (r: usize)
    ensures
        r as nat == value_column(cells@),
{
    if cells.len() == 0 {
        return 1;
    }
    let mut widest: usize = 0;
    let mut i: usize = 0;
    while i < cells.len()
        invariant
            i <= cells@.len(),
            widest as nat == (if widest_cell(cells@, i as nat) > usize::MAX { usize::MAX as nat } else { widest_cell(cells@, i as nat) }),
        decreases cells.len() - i,
    {
        let a = display_width(cells[i].value.as_str());
        let w = match &cells[i].votes {
            Some(v) => {
                let b = display_width(v.as_str());
                if a > usize::MAX - b { usize::MAX } else { a + b }
            },
            None => a,
        };
        assert(w as nat == (if cell_width(cells@[i as int]) > usize::MAX { usize::MAX as nat } else { cell_width(cells@[i as int]) }));
        if w > widest {
            widest = w;
        }
        i = i + 1;
    }
    if widest > usize::MAX - 2 { usize::MAX - 2 } else { widest }
}

fn push_group(
    out: &mut Vec<BenchLine>,
    layout: MetricRowLayout,
    file: &SourceFile,
    model: &ModelRow,
    cells: &Vec<MetricCellText>,
    g: &str,
)
    requires
        cells@.len() == file.metrics@.len(),
        layout.value_w <= usize::MAX - 2,
    ensures
        bench_line_views(final(out)@) == bench_line_views(old(out)@) + group_section(layout, *file, *model, cells@, g@),
{
    let ghost start = bench_line_views(out@);
    push_line(out, BenchLine::Blank);
    push_line(out, BenchLine::Header(owned(g), group_header_suffix(file, g)));
    let idx = metric_indices_in_group(file, g);
    let ghost head = bench_line_views(out@);
    let ghost rows = Seq::new(idx@.len(), |t: int| metric_line(layout, *file, *model, cells@, idx@[t] as int));
    let nm = file.metrics.len();
    proof {
        crate::benchmarks::render::lemma_group_indices_valid(file.metrics@, g@, nm as nat);
    }
    let mut t: usize = 0;
    while t < idx.len()
        invariant
            t <= idx@.len(),
            idx@ == group_indices(file.metrics@, g@, file.metrics@.len()),
            forall|a: int| 0 <= a < idx@.len() ==> #[trigger] idx@[a] < file.metrics@.len(),
            cells@.len() == file.metrics@.len(),
            layout.value_w <= usize::MAX - 2,
            rows == Seq::new(idx@.len(), |t: int| metric_line(layout, *file, *model, cells@, idx@[t] as int)),
            bench_line_views(out@) == head + rows.take(t as int),
        decreases idx.len() - t,
    {
        let mi = idx[t];
        let present = metric_score(file, model, mi).is_some();
        let row = metric_row(
            layout,
            file.metrics[mi].label.as_str(),
            cells[mi].value.as_str(),
            opt_str(&cells[mi].votes),
            present,
            opt_str(&cells[mi].comparator),
        );
        push_line(out, BenchLine::Row(row));
        assert(rows.take(t as int + 1) =~= rows.take(t as int).push(rows[t as int]));
        t = t + 1;
    }
    assert(rows.take(idx@.len() as int) =~= rows);
    assert(bench_line_views(out@) =~= start + group_section(layout, *file, *model, cells@, g@));
}

/// The benchmark detail panel of `model` in `file`, `inner_width` cells
/// wide: [`spec_benchmark_detail_lines`].
pub fn benchmark_detail_lines(
    inner_width: u16,
    file: &SourceFile,
    model: &ModelRow,
    x: &BenchModelExtras,
    cells: &Vec<MetricCellText>,
) -> (r: Vec<BenchLine>)
    requires
        cells@.len() == file.metrics@.len(),
    ensures
        bench_line_views(r@) == spec_benchmark_detail_lines(inner_width as nat, *file, *model, *x, cells@),
{
    let cw = ColumnWidths::from_width(inner_width);
    let mut out: Vec<BenchLine> = Vec::new();
    push_identity(&mut out, cw, file, model, x);
    let label_w = metric_label_width(file, inner_width as usize, cw.indent);
    let layout = MetricRowLayout { indent: cw.indent, label_w, value_w: value_w_of(cells) };
    let groups = groups_in_order(file);
    let ghost gs = spec_groups_in_order(*file);
    let ghost ident = bench_line_views(out@);
    let mut k: usize = 0;
    while k < groups.len()
        invariant
            k <= groups@.len(),
            groups@.map_values(|s: String| s@) == gs,
            gs == spec_groups_in_order(*file),
            cells@.len() == file.metrics@.len(),
            layout.value_w <= usize::MAX - 2,
            bench_line_views(out@) == ident + sections_upto(layout, *file, *model, cells@, gs, k as nat),
        decreases groups.len() - k,
    {
        proof {
            assert(gs[k as int] == groups@[k as int]@);
        }
        push_group(&mut out, layout, file, model, cells, groups[k].as_str());
        proof {
            assert(ident + sections_upto(layout, *file, *model, cells@, gs, (k + 1) as nat)
                =~= ident + sections_upto(layout, *file, *model, cells@, gs, k as nat)
                    + group_section(layout, *file, *model, cells@, gs[k as int]));
        }
        k = k + 1;
    }
    proof {
        assert(layout == bench_row_layout(inner_width as nat, *file, cells@));
    }
    assert(bench_line_views(out@) =~= spec_benchmark_detail_lines(inner_width as nat, *file, *model, *x, cells@));
    out
}

} // verus!

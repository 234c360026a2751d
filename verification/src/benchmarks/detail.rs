//! Values of the benchmark detail panel that do not depend on score
//! formatting: the weights and classification rows, and the width of the
//! metric-label column.

use vstd::prelude::*;
use crate::palette::TermColor;
use crate::benchmarks::app::{CreatorRegion, CreatorType, resolved_openness, spec_region_of, spec_type_of};
use crate::benchmarks::schema::{creator_openness, spec_creator_openness, ModelRow, OpennessMap, SourceFile};
use crate::text::{chars_of, display_width, str_width, string_from_chars, push_padded_right, pad_right_spec, push_str, spaces, space_string, truncate, truncate_spec};
use crate::palette::{TextSpan, TextSpanView, span_views};
use crate::benchmarks::render::ComparatorMode;

verus! {

/// The Weights row: the model's own flag, else what its creator's other
/// models say (open if any is open, closed if they are only closed).
pub open spec fn detail_openness(file: SourceFile, model: ModelRow) -> Option<bool> {
    match model.open_weights {
        Some(b) => Some(b),
        None => spec_creator_openness(file.models@, model.creator@),
    }
}

/// The Weights row of the detail panel.
pub open spec fn spec_weights_value(file: SourceFile, model: ModelRow) -> (Seq<char>, TermColor) {
    match detail_openness(file, model) {
        Some(true) => ("Open"@, TermColor::Green),
        Some(false) => ("Closed"@, TermColor::Red),
        None => (seq!['\u{2014}'], TermColor::DarkGray),
    }
}

fn dash() -> (r: String)
    ensures
        r@ == seq!['\u{2014}'],
{
    let mut t: Vec<char> = Vec::new();
    t.push('\u{2014}');
    string_from_chars(&t)
}

/// The Weights row of the detail panel.
pub fn weights_value(file: &SourceFile, model: &ModelRow) -> (r: (String, TermColor))
    ensures
        (r.0@, r.1) == spec_weights_value(*file, *model),
{
    let open = match model.open_weights {
        Some(b) => Some(b),
        None => creator_openness(&file.models).get(model.creator.as_str()),
    };
    match open {
        Some(true) => ("Open".to_string(), TermColor::Green),
        Some(false) => ("Closed".to_string(), TermColor::Red),
        None => (dash(), TermColor::DarkGray),
    }
}

/// The detail panel never disagrees with the list and comparison
/// indicators: with the creator-openness map of the same source, the Weights
/// row resolves a model's openness exactly as the list's open/closed column
/// does.
pub proof fn lemma_detail_agrees_with_list(file: SourceFile, model: ModelRow, openness: OpennessMap)
    requires
        forall|c: Seq<char>| #[trigger] openness.spec_get(c) == spec_creator_openness(file.models@, c),
    ensures
        detail_openness(file, model) == resolved_openness(model, openness),
{
    assert(openness.spec_get(model.creator@) == spec_creator_openness(file.models@, model.creator@));
}

/// The Region and Type rows: the creator's classification in its colors, or
/// dimmed em dashes when the model names no creator.
pub open spec fn spec_region_type(model: ModelRow) -> ((Seq<char>, TermColor), (Seq<char>, TermColor)) {
    if model.creator@.len() == 0 {
        ((seq!['\u{2014}'], TermColor::DarkGray), (seq!['\u{2014}'], TermColor::DarkGray))
    } else {
        ((spec_region_of(model.creator@).spec_label(), spec_region_of(model.creator@).spec_color()),
         (spec_type_of(model.creator@).spec_label(), spec_type_of(model.creator@).spec_color()))
    }
}

/// The Region and Type rows of the detail panel.
pub fn region_type_values(model: &ModelRow) -> (r: ((String, TermColor), (String, TermColor)))
    ensures
        ((r.0.0@, r.0.1), (r.1.0@, r.1.1)) == spec_region_type(*model),
{
    let c = chars_of(model.creator.as_str());
    if c.len() == 0 {
        ((dash(), TermColor::DarkGray), (dash(), TermColor::DarkGray))
    } else {
        let region = CreatorRegion::from_creator(model.creator.as_str());
        let ctype = CreatorType::from_creator(model.creator.as_str());
        ((region.label().to_string(), region.color()), (ctype.label().to_string(), ctype.color()))
    }
}

/// The widest metric label of the first `n` metrics, in display cells.
pub open spec fn widest_label(file: SourceFile, n: nat) -> nat
    decreases n,
{
    if n == 0 || n > file.metrics@.len() {
        0
    } else {
        let prev = widest_label(file, (n - 1) as nat);
        let w = str_width(file.metrics@[n - 1].label@);
        if w > prev { w } else { prev }
    }
}

/// Width of the metric-label column: the widest label (eight when there are
/// no metrics), capped so at least twelve cells remain for values (but never
/// below eight), plus a four-cell gutter.
pub open spec fn spec_metric_label_width(file: SourceFile, width: nat, indent: nat) -> nat {
    let cap: nat = if width > indent + 12 && width - (indent + 12) > 8 { (width - (indent + 12)) as nat } else { 8 };
    let widest: nat = if file.metrics@.len() == 0 { 8 } else { widest_label(file, file.metrics@.len()) };
    (if widest < cap { widest } else { cap }) + 4
}

/// Width of the metric-label column of the detail panel.
pub fn metric_label_width(file: &SourceFile, width: usize, indent: u16) -> (r: usize)
    requires
        width < usize::MAX - 4,
    ensures
        r as nat == spec_metric_label_width(*file, width as nat, indent as nat),
{
    let reserve: usize = (indent as usize) + 12;
    let cap: usize = if width > reserve && width - reserve > 8 { width - reserve } else { 8 };
    let mut widest: usize = 0;
    let mut i: usize = 0;
    while i < file.metrics.len()
        invariant
            i <= file.metrics@.len(),
            widest as nat == widest_label(*file, i as nat),
        decreases file.metrics.len() - i,
    {
        let w = display_width(file.metrics[i].label.as_str());
        if w > widest {
            widest = w;
        }
        i = i + 1;
    }
    if file.metrics.len() == 0 {
        widest = 8;
    }
    let shown = if widest < cap { widest } else { cap };
    shown + 4
}

/// Widths of the four segments that ratatui's layout solver gives a row
/// `usable` cells wide under the percentage constraints `pcts`.
pub uninterp spec fn grid_widths(usable: u16, pcts: (u16, u16, u16, u16)) -> (u16, u16, u16, u16);

/// `Layout::split` of ratatui, horizontally, with the four percentage
/// constraints `pcts` over a one-row area `usable` cells wide: the four
/// segment widths. Percentage constraints are never required-strength, so
/// the solver cannot refuse them; with percentages that share out the whole
/// row its optimum is unique, which is what naming the result claims.
/// Nothing is claimed of the widths themselves.
#[verifier::external_body]
fn split_grid(usable: u16, pcts: (u16, u16, u16, u16)) -> (r: (u16, u16, u16, u16))
    requires
        pcts.0 + pcts.1 + pcts.2 + pcts.3 == 100,
    ensures
        r == grid_widths(usable, pcts),
{
    let chunks = ratatui::layout::Layout::default()
        .direction(ratatui::layout::Direction::Horizontal)
        .constraints([
            ratatui::layout::Constraint::Percentage(pcts.0),
            ratatui::layout::Constraint::Percentage(pcts.1),
            ratatui::layout::Constraint::Percentage(pcts.2),
            ratatui::layout::Constraint::Percentage(pcts.3),
        ])
        .split(ratatui::layout::Rect::new(0, 0, usable, 1));
    (chunks[0].width, chunks[1].width, chunks[2].width, chunks[3].width)
}

/// The detail panel's column shares, in percent: label, value, label, value.
pub open spec fn detail_grid_percentages() -> (u16, u16, u16, u16) {
    (28, 22, 28, 22)
}

/// Column layout of the detail panel's two-pair meta rows.
#[derive(Debug, Clone, Copy, PartialEq, Eq, Structural)]
pub struct ColumnWidths {
    pub indent: u16,
    pub label: u16,
    pub value: u16,
    pub label2: u16,
}

pub open spec fn max_u16(a: u16, b: u16) -> u16 {
    if a > b { a } else { b }
}

impl ColumnWidths {
    /// The layout from the four solver widths: an indent of 2, then the
    /// first three widths, floored at 8, 6 and 8.
    pub open spec fn spec_from_grid(w: (u16, u16, u16, u16)) -> ColumnWidths {
        ColumnWidths { indent: 2, label: max_u16(w.0, 8), value: max_u16(w.1, 6), label2: max_u16(w.2, 8) }
    }

    /// The layout from the four solver widths.
    pub fn from_grid(w: (u16, u16, u16, u16)) -> (r: ColumnWidths)
        ensures
            r == Self::spec_from_grid(w),
    {
        ColumnWidths {
            indent: 2,
            label: if w.0 > 8 { w.0 } else { 8 },
            value: if w.1 > 6 { w.1 } else { 6 },
            label2: if w.2 > 8 { w.2 } else { 8 },
        }
    }

    /// The layout of a panel `width` cells wide: the solver splits what the
    /// indent leaves into shares of 28, 22, 28 and 22 percent.
    pub fn from_width(width: u16) -> (r: ColumnWidths)
        ensures
            r == Self::spec_from_grid(
                grid_widths(if width > 2 { (width - 2) as u16 } else { 0 }, detail_grid_percentages()),
            ),
    {
        let usable = width.saturating_sub(2);
        let pcts: (u16, u16, u16, u16) = (28, 22, 28, 22);
        Self::from_grid(split_grid(usable, pcts))
    }
}

/// A meta row: the indented left label (gray) and value, then, when the
/// right label is not empty, the right label (gray) and value; labels and
/// the left value are left-aligned in their columns. Values in `Reset` are
/// drawn unstyled.
pub open spec fn spec_meta_row(
    cw: ColumnWidths,
    left: (Seq<char>, Seq<char>, TermColor),
    right: (Seq<char>, Seq<char>, TermColor),
) -> Seq<TextSpanView> {
    let style = |c: TermColor| if c == TermColor::Reset { None } else { Some(c) };
    let head = seq![
        TextSpanView { text: spaces(cw.indent as nat) + pad_right_spec(left.0, cw.label as nat), color: Some(TermColor::Gray) },
        TextSpanView { text: pad_right_spec(left.1, cw.value as nat), color: style(left.2) },
    ];
    if right.0.len() > 0 {
        head + seq![
            TextSpanView { text: pad_right_spec(right.0, cw.label2 as nat), color: Some(TermColor::Gray) },
            TextSpanView { text: right.1, color: style(right.2) },
        ]
    } else {
        head
    }
}

fn style_for(c: TermColor) -> (r: Option<TermColor>)
    ensures
        r == (if c == TermColor::Reset { None } else { Some(c) }),
{
    if c == TermColor::Reset { None } else { Some(c) }
}

/// A two-pair meta row of the detail panel.
pub fn meta_row(cw: ColumnWidths, left: (&str, &str, TermColor), right: (&str, &str, TermColor)) -> (r: Vec<TextSpan>)
    ensures
        span_views(r@) == spec_meta_row(cw, (left.0@, left.1@, left.2), (right.0@, right.1@, right.2)),
{
    let mut a: Vec<char> = Vec::new();
    let mut k: u16 = 0;
    while k < cw.indent
        invariant
            k <= cw.indent,
            a@ == spaces(k as nat),
        decreases cw.indent - k,
    {
        a.push(' ');
        k = k + 1;
        assert(a@ =~= spaces(k as nat));
    }
    push_padded_right(&mut a, left.0, cw.label as usize);
    let mut b: Vec<char> = Vec::new();
    push_padded_right(&mut b, left.1, cw.value as usize);
    let mut r: Vec<TextSpan> = Vec::new();
    r.push(TextSpan { text: string_from_chars(&a), color: Some(TermColor::Gray) });
    r.push(TextSpan { text: string_from_chars(&b), color: style_for(left.2) });
    let rl = chars_of(right.0);
    if rl.len() > 0 {
        let mut c: Vec<char> = Vec::new();
        push_padded_right(&mut c, right.0, cw.label2 as usize);
        r.push(TextSpan { text: string_from_chars(&c), color: Some(TermColor::Gray) });
        r.push(TextSpan { text: right.1.to_string(), color: style_for(right.2) });
    }
    assert(span_views(r@) =~= spec_meta_row(cw, (left.0@, left.1@, left.2), (right.0@, right.1@, right.2)));
    r
}

/// Column layout of the metric rows: indent, label column (gutter
/// included) and the width of the widest value cell.
#[derive(Debug, Clone, Copy, PartialEq, Eq, Structural)]
pub struct MetricRowLayout {
    pub indent: u16,
    pub label_w: usize,
    pub value_w: usize,
}

/// A metric row from its formatted value (and vote count): the indented
/// label, cut to the label column less two (at least six) and left-aligned
/// in it; the value (dimmed when the model has none); the votes, dimmed;
/// and, when a comparator is shown, the comparator text dimmed and aligned
/// two cells after the widest value cell.
pub open spec fn spec_metric_row(
    layout: MetricRowLayout,
    label: Seq<char>,
    value: Seq<char>,
    votes: Option<Seq<char>>,
    present: bool,
    comparator: Option<Seq<char>>,
) -> Seq<TextSpanView> {
    let room: nat = if layout.label_w > 8 { (layout.label_w - 2) as nat } else { 6 };
    let head = seq![
        TextSpanView { text: spaces(layout.indent as nat) + pad_right_spec(truncate_spec(label, room), layout.label_w as nat), color: Some(TermColor::Gray) },
        TextSpanView { text: value, color: Some(if present { TermColor::White } else { TermColor::DarkGray }) },
    ];
    let used: int = str_width(value) + match votes { Some(v) => str_width(v) as int, None => 0 };
    let with_votes = match votes {
        Some(v) => head.push(TextSpanView { text: v, color: Some(TermColor::DarkGray) }),
        None => head,
    };
    match comparator {
        Some(t) => {
            let pad: nat = (if layout.value_w > used { (layout.value_w - used) as nat } else { 0 }) + 2;
            with_votes + seq![
                TextSpanView { text: spaces(pad), color: None },
                TextSpanView { text: t, color: Some(TermColor::DarkGray) },
            ]
        },
        None => with_votes,
    }
}

/// A metric row of the detail panel from its formatted parts.
pub fn metric_row(
    layout: MetricRowLayout,
    label: &str,
    value: &str,
    votes: Option<&str>,
    present: bool,
    comparator: Option<&str>,
) -> (r: Vec<TextSpan>)
    requires
        layout.value_w <= usize::MAX - 2,
    ensures
        span_views(r@) == spec_metric_row(layout, label@, value@,
            match votes { Some(v) => Some(v@), None => None }, present,
            match comparator { Some(t) => Some(t@), None => None }),
{
    let room: usize = if layout.label_w > 8 { layout.label_w - 2 } else { 6 };
    let shown = truncate(label, room);
    let mut a: Vec<char> = Vec::new();
    let mut k: u16 = 0;
    while k < layout.indent
        invariant
            k <= layout.indent,
            a@ == spaces(k as nat),
        decreases layout.indent - k,
    {
        a.push(' ');
        k = k + 1;
        assert(a@ =~= spaces(k as nat));
    }
    push_padded_right(&mut a, shown.as_str(), layout.label_w);
    let mut r: Vec<TextSpan> = Vec::new();
    r.push(TextSpan { text: string_from_chars(&a), color: Some(TermColor::Gray) });
    r.push(TextSpan { text: value.to_string(), color: Some(if present { TermColor::White } else { TermColor::DarkGray }) });
    let w1 = display_width(value);
    let used: usize = match votes {
        Some(v) => {
            let w2 = display_width(v);
            r.push(TextSpan { text: v.to_string(), color: Some(TermColor::DarkGray) });
            if w1 > usize::MAX - w2 { usize::MAX } else { w1 + w2 }
        },
        None => w1,
    };
    match comparator {
        Some(t) => {
            let pad: usize = (if layout.value_w > used { layout.value_w - used } else { 0 }) + 2;
            r.push(TextSpan { text: space_string(pad), color: None });
            r.push(TextSpan { text: t.to_string(), color: Some(TermColor::DarkGray) });
        },
        None => {},
    }
    assert(span_views(r@) =~= spec_metric_row(layout, label@, value@,
        match votes { Some(v) => Some(v@), None => None }, present,
        match comparator { Some(t) => Some(t@), None => None }));
    r
}

/// Title of the detail panel, naming the active comparator.
pub fn detail_title(comparator: ComparatorMode) -> (r: String)
    ensures
        r@ == " Details"@ + comparator.spec_title_suffix() + " "@,
{
    let mut v: Vec<char> = Vec::new();
    push_str(&mut v, " Details");
    push_str(&mut v, comparator.title_suffix());
    push_str(&mut v, " ");
    string_from_chars(&v)
}

} // verus!

//! The model detail panel, assembled line by line from the pieces of
//! [`crate::models::detail`]: identity, family and description, the
//! providers of a grouped row, then the Capabilities, Pricing, Limits,
//! Modalities and Dates sections.

use vstd::prelude::*;
use crate::palette::{TermColor, TextSpan, TextSpanView, span_views};
use crate::formatting::{decimal, u64_to_decimal};
use crate::text::{push_str, string_from_chars, owned, str_eq};
use crate::models::app::{ListMode, ModelEntry, ModelsApp, ModelIdentityProvenance};
use crate::models::grouping::opt_view;
use crate::models::glossary::{spec_section_header, section_header_line};
use crate::models::detail::{
    spec_entry_identity, entry_identity, spec_group_identity, group_identity, spec_text_color, text_color,
    spec_meta_row, meta_row, Capabilities, spec_capability_rows, capability_rows, spec_two_pair_line,
    two_pair_line, LabelValue, spec_limits_line, spec_limit_cell, limits_line, spec_modality_text,
    modality_text, string_views, spec_date_rows, date_rows,
};

verus! {

/// One line of the detail panel.
pub enum DetailLine {
    /// The model name, bold, in the given color.
    Title(String, TermColor),
    /// A section rule, drawn dark gray and bold.
    Header(String),
    /// A line of colored spans.
    Spans(Vec<TextSpan>),
    Blank,
}

/// Ghost form of [`DetailLine`].
pub ghost enum DetailLineView {
    Title(Seq<char>, TermColor),
    Header(Seq<char>),
    Spans(Seq<TextSpanView>),
    Blank,
}

pub open spec fn detail_line_view(l: DetailLine) -> DetailLineView {
    match l {
        DetailLine::Title(s, c) => DetailLineView::Title(s@, c),
        DetailLine::Header(s) => DetailLineView::Header(s@),
        DetailLine::Spans(v) => DetailLineView::Spans(span_views(v@)),
        DetailLine::Blank => DetailLineView::Blank,
    }
}

pub open spec fn detail_line_views(v: Seq<DetailLine>) -> Seq<DetailLineView> {
    v.map_values(|l: DetailLine| detail_line_view(l))
}

/// Rows of spans, each as its ghost form.
pub open spec fn rows_view(v: Seq<Vec<TextSpan>>) -> Seq<Seq<TextSpanView>> {
    v.map_values(|r: Vec<TextSpan>| span_views(r@))
}

/// Rows of spans as panel lines.
pub open spec fn spans_lines(rows: Seq<Seq<TextSpanView>>) -> Seq<DetailLineView> {
    rows.map_values(|r: Seq<TextSpanView>| DetailLineView::Spans(r))
}

/// What the detail panel shows of a model beyond the list's own fields.
/// Prices are drawn by the caller; limits come formatted ("-" when unknown).
pub struct ModelDetail {
    pub family: Option<String>,
    pub status: Option<String>,
    pub description: Option<String>,
    pub temperature: bool,
    pub structured_output: Option<bool>,
    /// The reasoning controls, as (label, value).
    pub controls: Vec<(String, String)>,
    pub context: String,
    pub input_limit: String,
    pub output_limit: String,
    /// Input and output modalities, when the catalog lists them.
    pub modalities: Option<(Vec<String>, Vec<String>)>,
    pub knowledge: Option<String>,
    pub last_updated: Option<String>,
}

pub open spec fn controls_view(cs: Seq<(String, String)>) -> Seq<(Seq<char>, Seq<char>)> {
    cs.map_values(|c: (String, String)| (c.0@, c.1@))
}

/// A blank line, then the rule of section `title`.
pub open spec fn header_lines(width: nat, title: Seq<char>) -> Seq<DetailLineView> {
    seq![DetailLineView::Blank, DetailLineView::Header(spec_section_header(width, title))]
}

/// A gray label followed by a value in color `c`.
pub open spec fn label_line(label: Seq<char>, value: Seq<char>, c: TermColor) -> DetailLineView {
    DetailLineView::Spans(seq![
        TextSpanView { text: label, color: Some(TermColor::Gray) },
        TextSpanView { text: value, color: Some(c) },
    ])
}

/// The identity rows: in the grouped list the selected group's lab (when
/// known) and its identity line; otherwise the offering's identity line,
/// when it has one.
pub open spec fn spec_identity_lines(app: ModelsApp, e: ModelEntry, body: TermColor) -> Seq<DetailLineView> {
    if app.spec_list_mode() == ListMode::Grouped {
        if app.selected_group < app.groups@.len() {
            let g = app.groups@[app.selected_group as int];
            let id = spec_group_identity(g.member_provenance@);
            let lab = match opt_view(g.lab) {
                Some(l) => seq![label_line("Lab: "@, l, body)],
                None => seq![],
            };
            lab + seq![label_line("Identity: "@, id.0, id.1)]
        } else {
            seq![]
        }
    } else {
        match e.identity {
            Some(p) => {
                let id = spec_entry_identity(p);
                seq![label_line("Identity: "@, id.0, id.1)]
            },
            None => seq![],
        }
    }
}

/// A blank line and the description in gray, when there is a non-empty one.
pub open spec fn spec_description_lines(desc: Option<Seq<char>>) -> Seq<DetailLineView> {
    match desc {
        Some(t) => if t.len() > 0 {
            seq![DetailLineView::Blank, DetailLineView::Spans(seq![TextSpanView { text: t, color: Some(TermColor::Gray) }])]
        } else {
            seq![]
        },
        None => seq![],
    }
}

/// Color of a reasoning control, by its label.
pub open spec fn control_color(label: Seq<char>) -> TermColor {
    if label == "Budget"@ {
        TermColor::LightGreen
    } else if label == "Effort"@ {
        TermColor::LightMagenta
    } else if label == "Toggle"@ {
        TermColor::LightBlue
    } else {
        TermColor::Blue
    }
}

/// Row `k` of the reasoning controls: controls `2k` and `2k + 1` side by
/// side ("label: " and value), the right pair empty for a lone last one.
pub open spec fn control_row(cs: Seq<(Seq<char>, Seq<char>)>, k: int, col_w: nat) -> Seq<TextSpanView> {
    let l = cs[2 * k];
    if 2 * k + 1 < cs.len() {
        let r = cs[2 * k + 1];
        spec_two_pair_line(l.0 + ": "@, l.1, control_color(l.0), r.0 + ": "@, r.1, control_color(r.0), col_w)
    } else {
        spec_two_pair_line(l.0 + ": "@, l.1, control_color(l.0), ""@, ""@, TermColor::DarkGray, col_w)
    }
}

/// The reasoning controls, two to a row.
pub open spec fn spec_control_rows(cs: Seq<(Seq<char>, Seq<char>)>, col_w: nat) -> Seq<Seq<TextSpanView>> {
    Seq::new(((cs.len() + 1) / 2) as nat, |k: int| control_row(cs, k, col_w))
}

/// The modality rows: input and output modalities ("text" when none are
/// listed).
pub open spec fn spec_modality_lines(m: Option<(Seq<Seq<char>>, Seq<Seq<char>>)>, body: TermColor) -> Seq<DetailLineView> {
    let (i, o) = match m {
        Some((i, o)) => (spec_modality_text(i), spec_modality_text(o)),
        None => ("text"@, "text"@),
    };
    seq![label_line("Input:  "@, i, body), label_line("Output: "@, o, body)]
}

/// The top of the panel for entry `e`: name (bold), id, identity rows,
/// family row, description, and in the grouped list the selected group's
/// offering rows `providers` under a "Providers (n)" rule.
pub open spec fn spec_detail_head(
    app: ModelsApp,
    e: ModelEntry,
    d: ModelDetail,
    width: nat,
    providers: Seq<Seq<TextSpanView>>,
) -> Seq<DetailLineView> {
    let status = opt_view(d.status);
    let body = spec_text_color(status);
    let group_rows = if app.spec_list_mode() == ListMode::Grouped && app.selected_group < app.groups@.len() {
        let g = app.groups@[app.selected_group as int];
        header_lines(width, "Providers ("@ + decimal(g.provider_count as nat) + ")"@) + spans_lines(providers)
    } else {
        seq![]
    };
    seq![
        DetailLineView::Title(e.model.name@, body),
        DetailLineView::Spans(seq![TextSpanView { text: e.id@, color: Some(TermColor::DarkGray) }]),
    ]
        + spec_identity_lines(app, e, body)
        + seq![DetailLineView::Spans(spec_meta_row(opt_view(d.family), status))]
        + spec_description_lines(opt_view(d.description))
        + group_rows
}

/// The sections of the panel for entry `e`: Capabilities (with the
/// reasoning controls), Pricing (the rows `pricing`), Limits, Modalities and
/// Dates, each after a blank line and its rule.
pub open spec fn spec_detail_sections(
    e: ModelEntry,
    d: ModelDetail,
    width: nat,
    pricing: Seq<Seq<TextSpanView>>,
) -> Seq<DetailLineView> {
    let status = opt_view(d.status);
    let body = spec_text_color(status);
    let col_w = width / 2;
    let caps = Capabilities {
        reasoning: e.model.reasoning,
        tool_call: e.model.tool_call,
        attachment: e.model.attachment,
        open_weights: e.model.open_weights,
        temperature: d.temperature,
        structured_output: d.structured_output,
    };
    let mods = match d.modalities {
        Some((a, b)) => Some((string_views(a@), string_views(b@))),
        None => None,
    };
    header_lines(width, "Capabilities"@)
        + spans_lines(spec_capability_rows(caps, col_w))
        + spans_lines(spec_control_rows(controls_view(d.controls@), col_w))
        + header_lines(width, "Pricing"@)
        + spans_lines(pricing)
        + header_lines(width, "Limits"@)
        + seq![DetailLineView::Spans(spec_limits_line(
            width,
            spec_limit_cell(d.context@, body),
            spec_limit_cell(d.input_limit@, body),
            spec_limit_cell(d.output_limit@, body),
        ))]
        + header_lines(width, "Modalities"@)
        + spec_modality_lines(mods, body)
        + header_lines(width, "Dates"@)
        + spans_lines(spec_date_rows(
            opt_view(e.model.release_date),
            opt_view(d.knowledge),
            opt_view(d.last_updated),
            status == Some("deprecated"@),
            body,
            col_w,
        ))
}

/// The detail panel of the current model, `width` cells wide. `d` describes
/// the current model; `providers` are the offering rows of the selected
/// group (shown only in the grouped list) and `pricing` the rows of the
/// Pricing section. Without a current model the panel says so.
pub open spec fn spec_model_detail_lines(
    app: ModelsApp,
    d: ModelDetail,
    width: nat,
    providers: Seq<Seq<TextSpanView>>,
    pricing: Seq<Seq<TextSpanView>>,
) -> Seq<DetailLineView> {
    match app.spec_current_model() {
        None => seq![DetailLineView::Spans(seq![TextSpanView { text: "No model selected"@, color: Some(TermColor::DarkGray) }])],
        Some(i) => {
            let e = app.filtered_models@[i];
            spec_detail_head(app, e, d, width, providers) + spec_detail_sections(e, d, width, pricing)
        },
    }
}

fn opt_str(o: &Option<String>) -> (r: Option<&str>)
    ensures
        match r { Some(t) => Some(t@), None => None::<Seq<char>> } == opt_view(*o),
{
    match o {
        Some(s) => Some(s.as_str()),
        None => None,
    }
}

fn push_line(out: &mut Vec<DetailLine>, l: DetailLine)
    ensures
        detail_line_views(final(out)@) == detail_line_views(old(out)@).push(detail_line_view(l)),
{
    out.push(l);
    assert(detail_line_views(final(out)@) =~= detail_line_views(old(out)@).push(detail_line_view(l)));
}

fn push_rows(out: &mut Vec<DetailLine>, rows: Vec<Vec<TextSpan>>)
    ensures
        detail_line_views(final(out)@) == detail_line_views(old(out)@) + spans_lines(rows_view(rows@)),
{
    let ghost start = detail_line_views(out@);
    let mut i: usize = 0;
    let n = rows.len();
    let mut rest = rows;
    let ghost all = rows_view(rest@);
    let mut taken: Vec<Vec<TextSpan>> = Vec::new();
    while i < n
        invariant
            n == all.len(),
            i <= n,
            rest@.len() == n - i,
            forall|k: int| 0 <= k < rest@.len() ==> span_views(#[trigger] rest@[k]@) == all[i + k],
            detail_line_views(out@) == start + spans_lines(all.take(i as int)),
        decreases n - i,
    {
        let row = rest.remove(0);
        proof {
            assert(span_views(row@) == all[i as int]);
        }
        push_line(out, DetailLine::Spans(row));
        assert(spans_lines(all.take(i as int + 1)) =~= spans_lines(all.take(i as int)).push(DetailLineView::Spans(all[i as int])));
        i = i + 1;
    }
    assert(all.take(n as int) =~= all);
}

fn push_header(out: &mut Vec<DetailLine>, width: u16, title: &str)
    ensures
        detail_line_views(final(out)@) == detail_line_views(old(out)@) + header_lines(width as nat, title@),
{
    let ghost start = detail_line_views(out@);
    push_line(out, DetailLine::Blank);
    push_line(out, DetailLine::Header(section_header_line(width, title)));
    assert(detail_line_views(out@) =~= start + header_lines(width as nat, title@));
}

fn label_spans(label: &str, value: &str, c: TermColor) -> (r: DetailLine)
    ensures
        detail_line_view(r) == label_line(label@, value@, c),
{
    let mut v: Vec<TextSpan> = Vec::new();
    v.push(TextSpan { text: owned(label), color: Some(TermColor::Gray) });
    v.push(TextSpan { text: owned(value), color: Some(c) });
    assert(span_views(v@) =~= seq![
        TextSpanView { text: label@, color: Some(TermColor::Gray) },
        TextSpanView { text: value@, color: Some(c) },
    ]);
    DetailLine::Spans(v)
}

fn push_identity(out: &mut Vec<DetailLine>, app: &ModelsApp, e: &ModelEntry, body: TermColor)
    ensures
        detail_line_views(final(out)@) == detail_line_views(old(out)@) + spec_identity_lines(*app, *e, body),
{
    let ghost start = detail_line_views(out@);
    if app.list_mode() == ListMode::Grouped {
        match app.current_group() {
            Some(g) => {
                match &g.lab {
                    Some(l) => push_line(out, label_spans("Lab: ", l.as_str(), body)),
                    None => {},
                }
                let (t, c) = group_identity(&g.member_provenance);
                push_line(out, label_spans("Identity: ", t.as_str(), c));
            },
            None => {},
        }
    } else {
        match e.identity {
            Some(p) => {
                let (t, c) = entry_identity(p);
                push_line(out, label_spans("Identity: ", t.as_str(), c));
            },
            None => {},
        }
    }
    assert(detail_line_views(out@) =~= start + spec_identity_lines(*app, *e, body));
}

fn push_description(out: &mut Vec<DetailLine>, desc: &Option<String>)
    ensures
        detail_line_views(final(out)@) == detail_line_views(old(out)@) + spec_description_lines(opt_view(*desc)),
{
    let ghost start = detail_line_views(out@);
    match desc {
        Some(t) => {
            if crate::text::chars_of(t.as_str()).len() > 0 {
                push_line(out, DetailLine::Blank);
                let mut v: Vec<TextSpan> = Vec::new();
                v.push(TextSpan { text: owned(t.as_str()), color: Some(TermColor::Gray) });
                assert(span_views(v@) =~= seq![TextSpanView { text: t@, color: Some(TermColor::Gray) }]);
                push_line(out, DetailLine::Spans(v));
            }
        },
        None => {},
    }
    assert(detail_line_views(out@) =~= start + spec_description_lines(opt_view(*desc)));
}

fn control_color_of(label: &str) -> (r: TermColor)
    ensures
        r == control_color(label@),
{
    if str_eq(label, "Budget") {
        TermColor::LightGreen
    } else if str_eq(label, "Effort") {
        TermColor::LightMagenta
    } else if str_eq(label, "Toggle") {
        TermColor::LightBlue
    } else {
        TermColor::Blue
    }
}

fn colon_label(label: &str) -> (r: String)
    ensures
        r@ == label@ + ": "@,
{
    let mut v: Vec<char> = Vec::new();
    push_str(&mut v, label);
    push_str(&mut v, ": ");
    string_from_chars(&v)
}

/// The reasoning-control rows of the detail panel, two controls to a row.
pub fn control_rows(cs: &Vec<(String, String)>, col_w: usize) -> (r: Vec<Vec<TextSpan>>)
    ensures
        rows_view(r@) == spec_control_rows(controls_view(cs@), col_w as nat),
{
    let ghost cv = controls_view(cs@);
    let n = cs.len();
    let rows_n = n / 2 + n % 2;
    assert(rows_n == (n + 1) / 2);
    let mut r: Vec<Vec<TextSpan>> = Vec::new();
    let mut j: usize = 0;
    while j < rows_n
        invariant
            cv == controls_view(cs@),
            n == cs@.len(),
            rows_n == (n + 1) / 2,
            j <= rows_n,
            r@.len() == j,
            forall|t: int| 0 <= t < r@.len() ==> span_views(#[trigger] r@[t]@) == control_row(cv, t, col_w as nat),
        decreases rows_n - j,
    {
        let k = 2 * j;
        let ll = colon_label(cs[k].0.as_str());
        let lc = control_color_of(cs[k].0.as_str());
        let left = LabelValue { label: ll.as_str(), value: cs[k].1.as_str(), color: lc };
        let row = if k + 1 < n {
            let rl = colon_label(cs[k + 1].0.as_str());
            let rc = control_color_of(cs[k + 1].0.as_str());
            two_pair_line(&left, &LabelValue { label: rl.as_str(), value: cs[k + 1].1.as_str(), color: rc }, col_w)
        } else {
            proof {
                reveal_strlit("");
            }
            two_pair_line(&left, &LabelValue { label: "", value: "", color: TermColor::DarkGray }, col_w)
        };
        assert(span_views(row@) == control_row(cv, j as int, col_w as nat));
        r.push(row);
        j = j + 1;
    }
    assert(rows_view(r@) =~= spec_control_rows(cv, col_w as nat));
    r
}

fn push_modalities(out: &mut Vec<DetailLine>, m: &Option<(Vec<String>, Vec<String>)>, body: TermColor)
    ensures
        detail_line_views(final(out)@) == detail_line_views(old(out)@) + spec_modality_lines(
            match *m { Some((a, b)) => Some((string_views(a@), string_views(b@))), None => None },
            body,
        ),
{
    let ghost start = detail_line_views(out@);
    let (i, o) = match m {
        Some((a, b)) => (modality_text(a), modality_text(b)),
        None => (owned("text"), owned("text")),
    };
    push_line(out, label_spans("Input:  ", i.as_str(), body));
    push_line(out, label_spans("Output: ", o.as_str(), body));
    assert(detail_line_views(out@) =~= start + spec_modality_lines(
        match *m { Some((a, b)) => Some((string_views(a@), string_views(b@))), None => None },
        body,
    ));
}

fn push_head(out: &mut Vec<DetailLine>, app: &ModelsApp, e: &ModelEntry, d: &ModelDetail, width: u16, providers: Vec<Vec<TextSpan>>)
    ensures
        detail_line_views(final(out)@) == detail_line_views(old(out)@)
            + spec_detail_head(*app, *e, *d, width as nat, rows_view(providers@)),
{
    let ghost start = detail_line_views(out@);
    let status = opt_str(&d.status);
    let body = text_color(status);
    push_line(out, DetailLine::Title(owned(e.model.name.as_str()), body));
    let mut idv: Vec<TextSpan> = Vec::new();
    idv.push(TextSpan { text: owned(e.id.as_str()), color: Some(TermColor::DarkGray) });
    assert(span_views(idv@) =~= seq![TextSpanView { text: e.id@, color: Some(TermColor::DarkGray) }]);
    push_line(out, DetailLine::Spans(idv));
    push_identity(out, app, e, body);
    push_line(out, DetailLine::Spans(meta_row(opt_str(&d.family), status)));
    push_description(out, &d.description);
    let ghost before_group = detail_line_views(out@);
    if app.list_mode() == ListMode::Grouped {
        match app.current_group() {
            Some(g) => {
                let mut t: Vec<char> = Vec::new();
                push_str(&mut t, "Providers (");
                let count = u64_to_decimal(g.provider_count as u64);
                push_str(&mut t, count.as_str());
                push_str(&mut t, ")");
                let title = string_from_chars(&t);
                push_header(out, width, title.as_str());
                push_rows(out, providers);
            },
            None => {},
        }
    }
    assert(detail_line_views(out@) =~= start + spec_detail_head(*app, *e, *d, width as nat, rows_view(providers@)));
}

fn push_sections(out: &mut Vec<DetailLine>, e: &ModelEntry, d: &ModelDetail, width: u16, pricing: Vec<Vec<TextSpan>>)
    ensures
        detail_line_views(final(out)@) == detail_line_views(old(out)@)
            + spec_detail_sections(*e, *d, width as nat, rows_view(pricing@)),
{
    let ghost start = detail_line_views(out@);
    let status = opt_str(&d.status);
    let body = text_color(status);
    let col_w = (width as usize) / 2;
    push_header(out, width, "Capabilities");
    let caps = Capabilities {
        reasoning: e.model.reasoning,
        tool_call: e.model.tool_call,
        attachment: e.model.attachment,
        open_weights: e.model.open_weights,
        temperature: d.temperature,
        structured_output: d.structured_output,
    };
    let cap_rows = capability_rows(caps, col_w);
    assert(rows_view(cap_rows@) =~= spec_capability_rows(caps, col_w as nat));
    push_rows(out, cap_rows);
    push_rows(out, control_rows(&d.controls, col_w));
    let ghost s1 = detail_line_views(out@);
    push_header(out, width, "Pricing");
    push_rows(out, pricing);
    push_header(out, width, "Limits");
    push_line(out, DetailLine::Spans(limits_line(
        width,
        d.context.as_str(),
        d.input_limit.as_str(),
        d.output_limit.as_str(),
        body,
    )));
    push_header(out, width, "Modalities");
    push_modalities(out, &d.modalities, body);
    let ghost s2 = detail_line_views(out@);
    push_header(out, width, "Dates");
    let deprecated = match status {
        Some(s) => str_eq(s, "deprecated"),
        None => false,
    };
    let dr = date_rows(opt_str(&e.model.release_date), opt_str(&d.knowledge), opt_str(&d.last_updated), deprecated, body, col_w);
    let ghost dspec = spec_date_rows(
        opt_view(e.model.release_date), opt_view(d.knowledge), opt_view(d.last_updated),
        opt_view(d.status) == Some("deprecated"@), body, col_w as nat);
    assert(rows_view(dr@) =~= dspec);
    push_rows(out, dr);
    assert(detail_line_views(out@) =~= start + spec_detail_sections(*e, *d, width as nat, rows_view(pricing@)));
}

/// The detail panel of the current model, `width` cells wide: the lines of
/// [`spec_model_detail_lines`].
pub fn model_detail_lines(
    app: &ModelsApp,
    d: &ModelDetail,
    width: u16,
    providers: Vec<Vec<TextSpan>>,
    pricing: Vec<Vec<TextSpan>>,
) -> (r: Vec<DetailLine>)
    ensures
        detail_line_views(r@) == spec_model_detail_lines(*app, *d, width as nat, rows_view(providers@), rows_view(pricing@)),
{
    let mut out: Vec<DetailLine> = Vec::new();
    let ghost pv = rows_view(providers@);
    let ghost qv = rows_view(pricing@);
    match app.current_model() {
        Some(e) => {
            push_head(&mut out, app, e, d, width, providers);
            push_sections(&mut out, e, d, width, pricing);
            assert(detail_line_views(out@) =~= spec_model_detail_lines(*app, *d, width as nat, pv, qv));
        },
        None => {
            let mut v: Vec<TextSpan> = Vec::new();
            v.push(TextSpan { text: owned("No model selected"), color: Some(TermColor::DarkGray) });
            assert(span_views(v@) =~= seq![TextSpanView { text: "No model selected"@, color: Some(TermColor::DarkGray) }]);
            push_line(&mut out, DetailLine::Spans(v));
            assert(detail_line_views(out@) =~= spec_model_detail_lines(*app, *d, width as nat, pv, qv));
        },
    }
    out
}

} // verus!

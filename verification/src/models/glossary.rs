//! Content of the models glossary popup: what each column, capability,
//! reasoning control, price and limit in the detail panel means.

use vstd::prelude::*;
use crate::text::{chars_of, owned, string_from_chars};

verus! {

/// One line of the models glossary.
#[derive(Debug, Clone, PartialEq, Eq)]
pub enum ModelsGlossaryLine {
    /// A section rule, already padded to the popup width.
    Header(String),
    /// A term, drawn in bold.
    Term(String),
    /// What the term above it means.
    Desc(String),
    Blank,
}

/// Ghost form of [`ModelsGlossaryLine`].
pub ghost enum ModelsGlossaryView {
    Header(Seq<char>),
    Term(Seq<char>),
    Desc(Seq<char>),
    Blank,
}

pub open spec fn models_glossary_view(l: ModelsGlossaryLine) -> ModelsGlossaryView {
    match l {
        ModelsGlossaryLine::Header(s) => ModelsGlossaryView::Header(s@),
        ModelsGlossaryLine::Term(s) => ModelsGlossaryView::Term(s@),
        ModelsGlossaryLine::Desc(s) => ModelsGlossaryView::Desc(s@),
        ModelsGlossaryLine::Blank => ModelsGlossaryView::Blank,
    }
}

pub open spec fn models_glossary_views(v: Seq<ModelsGlossaryLine>) -> Seq<ModelsGlossaryView> {
    v.map_values(|l: ModelsGlossaryLine| models_glossary_view(l))
}

/// A section rule: two box-drawing dashes, the title between spaces, then
/// dashes up to `width` characters (none when the prefix is already wider).
pub open spec fn spec_section_header(width: nat, title: Seq<char>) -> Seq<char> {
    let prefix = seq!['\u{2500}', '\u{2500}', ' '] + title + seq![' '];
    let fill: nat = if width > prefix.len() { (width - prefix.len()) as nat } else { 0 };
    prefix + Seq::new(fill, |i: int| '\u{2500}')
}

/// The rule that opens a glossary section, padded to `width` characters.
pub fn section_header_line(width: u16, title: &str) -> (r: String)
    ensures
        r@ == spec_section_header(width as nat, title@),
{
    let mut v: Vec<char> = Vec::new();
    v.push('\u{2500}');
    v.push('\u{2500}');
    v.push(' ');
    let t = chars_of(title);
    let mut i: usize = 0;
    while i < t.len()
        invariant
            i <= t@.len(),
            t@ == title@,
            v@ == seq!['\u{2500}', '\u{2500}', ' '] + t@.take(i as int),
        decreases t.len() - i,
    {
        v.push(t[i]);
        i = i + 1;
        assert(v@ =~= seq!['\u{2500}', '\u{2500}', ' '] + t@.take(i as int));
    }
    assert(t@.take(i as int) =~= t@);
    v.push(' ');
    let ghost prefix = v@;
    let w = width as usize;
    let fill: usize = if w > v.len() { w - v.len() } else { 0 };
    let mut k: usize = 0;
    while k < fill
        invariant
            k <= fill,
            v@ == prefix + Seq::new(k as nat, |j: int| '\u{2500}'),
        decreases fill - k,
    {
        v.push('\u{2500}');
        k = k + 1;
        assert(v@ =~= prefix + Seq::new(k as nat, |j: int| '\u{2500}'));
    }
    string_from_chars(&v)
}

/// A term, its description and a blank line.
pub open spec fn spec_entry(term: Seq<char>, desc: Seq<char>) -> Seq<ModelsGlossaryView> {
    seq![ModelsGlossaryView::Term(term), ModelsGlossaryView::Desc(desc), ModelsGlossaryView::Blank]
}

pub open spec fn spec_header(width: nat, title: Seq<char>) -> Seq<ModelsGlossaryView> {
    seq![ModelsGlossaryView::Header(spec_section_header(width, title))]
}

/// The whole glossary at popup width `width`, sections in the order of the
/// detail panel, without the blank line after the last entry.
pub open spec fn spec_models_glossary(width: nat) -> Seq<ModelsGlossaryView> {
    (spec_header(width, "List column (RTFO)"@)
        + spec_entry("R T F O"@, "Compact capability flags in the model list: Reasoning, Tools, Files (attachments), Open weights (O green = open, C red = closed). A dot means the model lacks that capability."@)
        + spec_header(width, "Capabilities"@)
        + spec_entry("Reasoning"@, "The model performs internal step-by-step reasoning before answering."@)
        + spec_entry("Tools"@, "Supports tool / function calling."@)
        + spec_entry("Files"@, "Accepts file or image attachments (multimodal input)."@)
        + spec_entry("Source"@, "Open = open-weights (downloadable). Closed = proprietary, API-only."@)
        + spec_entry("Temp"@, "The sampling temperature parameter can be adjusted."@)
        + spec_entry("Structured"@, "Supports structured / JSON-schema-constrained output. An em-dash (\u{2014}) means models.dev does not report this capability for the model."@)
        + spec_header(width, "Reasoning controls"@)
        + spec_entry("Budget"@, "You set an explicit thinking-token budget; the range shows the min\u{2013}max allowed."@)
        + spec_entry("Effort"@, "You pick a reasoning-effort level (e.g. Low, Medium, High)."@)
        + spec_entry("Toggle"@, "Reasoning can only be turned on or off (no fine-grained control)."@)
        + spec_header(width, "Pricing (USD per 1M tokens)"@)
        + spec_entry("Input / Output"@, "Price per million prompt (input) and completion (output) tokens."@)
        + spec_entry("Cache Read / Write"@, "Prices for reading from and writing to the prompt cache (cheaper reuse of repeated context)."@)
        + spec_entry("Thinking"@, "Price for reasoning / thinking tokens \u{2014} often billed higher than output."@)
        + spec_entry("Audio In / Out"@, "Per-token prices for audio input and output (omni / speech models)."@)
        + spec_entry("Over {size}"@, "Tiered pricing: the rate that applies once a request exceeds the given context-size threshold."@)
        + spec_header(width, "Limits"@)
        + spec_entry("Context"@, "Maximum total tokens (input + output) the model accepts per request."@)
        + spec_entry("Input / Output"@, "Maximum input tokens accepted and maximum output tokens generated."@)).drop_last()
}

fn push_header(lines: &mut Vec<ModelsGlossaryLine>, width: u16, title: &str)
    ensures
        models_glossary_views(final(lines)@)
            == models_glossary_views(old(lines)@) + spec_header(width as nat, title@),
{
    let h = section_header_line(width, title);
    lines.push(ModelsGlossaryLine::Header(h));
    assert(models_glossary_views(lines@) =~= models_glossary_views(old(lines)@) + spec_header(width as nat, title@));
}

fn push_entry(lines: &mut Vec<ModelsGlossaryLine>, term: &str, desc: &str)
    ensures
        models_glossary_views(final(lines)@)
            == models_glossary_views(old(lines)@) + spec_entry(term@, desc@),
{
    lines.push(ModelsGlossaryLine::Term(owned(term)));
    lines.push(ModelsGlossaryLine::Desc(owned(desc)));
    lines.push(ModelsGlossaryLine::Blank);
    assert(models_glossary_views(lines@) =~= models_glossary_views(old(lines)@) + spec_entry(term@, desc@));
}

/// The static glossary text, with section rules padded to `width`.
pub fn build_glossary_lines(width: u16) -> (r: Vec<ModelsGlossaryLine>)
    ensures
        models_glossary_views(r@) == spec_models_glossary(width as nat),
{
    let w = width;
    let mut lines: Vec<ModelsGlossaryLine> = Vec::new();
    assert(models_glossary_views(lines@) =~= Seq::<ModelsGlossaryView>::empty());
    push_header(&mut lines, w, "List column (RTFO)");
    push_entry(&mut lines, "R T F O", "Compact capability flags in the model list: Reasoning, Tools, Files (attachments), Open weights (O green = open, C red = closed). A dot means the model lacks that capability.");
    push_header(&mut lines, w, "Capabilities");
    push_entry(&mut lines, "Reasoning", "The model performs internal step-by-step reasoning before answering.");
    push_entry(&mut lines, "Tools", "Supports tool / function calling.");
    push_entry(&mut lines, "Files", "Accepts file or image attachments (multimodal input).");
    push_entry(&mut lines, "Source", "Open = open-weights (downloadable). Closed = proprietary, API-only.");
    push_entry(&mut lines, "Temp", "The sampling temperature parameter can be adjusted.");
    push_entry(&mut lines, "Structured", "Supports structured / JSON-schema-constrained output. An em-dash (\u{2014}) means models.dev does not report this capability for the model.");
    push_header(&mut lines, w, "Reasoning controls");
    push_entry(&mut lines, "Budget", "You set an explicit thinking-token budget; the range shows the min\u{2013}max allowed.");
    push_entry(&mut lines, "Effort", "You pick a reasoning-effort level (e.g. Low, Medium, High).");
    push_entry(&mut lines, "Toggle", "Reasoning can only be turned on or off (no fine-grained control).");
    push_header(&mut lines, w, "Pricing (USD per 1M tokens)");
    push_entry(&mut lines, "Input / Output", "Price per million prompt (input) and completion (output) tokens.");
    push_entry(&mut lines, "Cache Read / Write", "Prices for reading from and writing to the prompt cache (cheaper reuse of repeated context).");
    push_entry(&mut lines, "Thinking", "Price for reasoning / thinking tokens \u{2014} often billed higher than output.");
    push_entry(&mut lines, "Audio In / Out", "Per-token prices for audio input and output (omni / speech models).");
    push_entry(&mut lines, "Over {size}", "Tiered pricing: the rate that applies once a request exceeds the given context-size threshold.");
    push_header(&mut lines, w, "Limits");
    push_entry(&mut lines, "Context", "Maximum total tokens (input + output) the model accepts per request.");
    push_entry(&mut lines, "Input / Output", "Maximum input tokens accepted and maximum output tokens generated.");
    let ghost full = models_glossary_views(lines@);
    let n = lines.len();
    if n > 0 {
        let last_blank = match &lines[n - 1] {
            ModelsGlossaryLine::Blank => true,
            _ => false,
        };
        if last_blank {
            lines.pop();
        }
    }
    assert(full.last() == ModelsGlossaryView::Blank);
    assert(models_glossary_views(lines@) =~= full.drop_last());
    lines
}

} // verus!

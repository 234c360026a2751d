//! Text of the creators sidebar: its title, the grouping toggles, and one
//! line per row (the "All" row, section rules, creators with their counts).

use vstd::prelude::*;
use crate::palette::{TermColor, TextSpan, TextSpanView, span_views};
use crate::benchmarks::app::{
    BenchmarksApp, CreatorGrouping, CreatorRegion, CreatorType, SourceFilter, spec_region_from_label,
    spec_region_of, spec_type_from_label, spec_type_of,
};
use crate::benchmarks::schema::ReasoningFilter;
use crate::formatting::{decimal, push_decimal};
use crate::text::{push_str, string_from_chars, truncate, truncate_spec};

verus! {

/// Sidebar title: "Creators" and the active source and reasoning filters.
pub open spec fn spec_creators_title(source: SourceFilter, reasoning: ReasoningFilter) -> Seq<char> {
    " Creators"@
        + (if source == SourceFilter::All { Seq::empty() } else { " ["@ + source.spec_label() + "]"@ })
        + (if reasoning.spec_label().len() == 0 { Seq::empty() } else { " ["@ + reasoning.spec_label() + "]"@ })
        + " "@
}

/// Sidebar title.
pub fn creators_title(source: SourceFilter, reasoning: ReasoningFilter) -> (r: String)
    ensures
        r@ == spec_creators_title(source, reasoning),
{
    let mut v: Vec<char> = Vec::new();
    push_str(&mut v, " Creators");
    if source != SourceFilter::All {
        push_str(&mut v, " [");
        push_str(&mut v, source.label());
        push_str(&mut v, "]");
    }
    let rl = crate::text::chars_of(reasoning.label());
    if rl.len() > 0 {
        push_str(&mut v, " [");
        push_str(&mut v, reasoning.label());
        push_str(&mut v, "]");
    }
    push_str(&mut v, " ");
    assert(v@ =~= spec_creators_title(source, reasoning));
    string_from_chars(&v)
}

/// The grouping toggles above the list: "[1]" lit yellow and spelled out
/// while grouping by region, "[2]" lit magenta while grouping by type.
pub open spec fn spec_grouping_toggles(g: CreatorGrouping) -> Seq<TextSpanView> {
    let rgn = g == CreatorGrouping::ByRegion;
    let typ = g == CreatorGrouping::ByType;
    seq![
        TextSpanView { text: "[1]"@, color: Some(if rgn { TermColor::Yellow } else { TermColor::DarkGray }) },
        TextSpanView { text: if rgn { "Region "@ } else { "Rgn "@ }, color: None },
        TextSpanView { text: "[2]"@, color: Some(if typ { TermColor::Magenta } else { TermColor::DarkGray }) },
        TextSpanView { text: "Type"@, color: None },
    ]
}

/// The grouping toggles above the list.
pub fn grouping_toggles(g: CreatorGrouping) -> (r: Vec<TextSpan>)
    ensures
        span_views(r@) == spec_grouping_toggles(g),
{
    let rgn = g == CreatorGrouping::ByRegion;
    let typ = g == CreatorGrouping::ByType;
    let mut r: Vec<TextSpan> = Vec::new();
    r.push(TextSpan { text: "[1]".to_string(), color: Some(if rgn { TermColor::Yellow } else { TermColor::DarkGray }) });
    r.push(TextSpan { text: if rgn { "Region ".to_string() } else { "Rgn ".to_string() }, color: None });
    r.push(TextSpan { text: "[2]".to_string(), color: Some(if typ { TermColor::Magenta } else { TermColor::DarkGray }) });
    r.push(TextSpan { text: "Type".to_string(), color: None });
    assert(span_views(r@) =~= spec_grouping_toggles(g));
    r
}

/// The "All" row: "All" in green and the creator count.
pub open spec fn spec_all_row(count: nat) -> Seq<TextSpanView> {
    seq![
        TextSpanView { text: "All"@, color: Some(TermColor::Green) },
        TextSpanView { text: " ("@ + decimal(count) + ")"@, color: None },
    ]
}

/// The "All" row.
pub fn all_row(count: usize) -> (r: Vec<TextSpan>)
    ensures
        span_views(r@) == spec_all_row(count as nat),
{
    let mut c: Vec<char> = Vec::new();
    push_str(&mut c, " (");
    push_decimal(&mut c, count as u64);
    push_str(&mut c, ")");
    let mut r: Vec<TextSpan> = Vec::new();
    r.push(TextSpan { text: "All".to_string(), color: Some(TermColor::Green) });
    r.push(TextSpan { text: string_from_chars(&c), color: None });
    assert(span_views(r@) =~= spec_all_row(count as nat));
    r
}

pub open spec fn byte_len(s: Seq<char>) -> int {
    vstd::utf8::encode_utf8(s).len() as int
}

/// A section rule of the grouped sidebar: "── label " then dashes up to
/// `item_width` (counting the label in bytes), in the group's color.
pub open spec fn spec_group_header(g: CreatorGrouping, label: Seq<char>, item_width: nat) -> (Seq<char>, TermColor) {
    let used = byte_len(label) + 4;
    let fill: nat = if item_width > used { (item_width - used) as nat } else { 0 };
    let color = match g {
        CreatorGrouping::ByRegion => match spec_region_from_label(label) {
            Some(r) => r.spec_color(),
            None => TermColor::DarkGray,
        },
        CreatorGrouping::ByType => match spec_type_from_label(label) {
            Some(t) => t.spec_color(),
            None => TermColor::DarkGray,
        },
        _ => TermColor::DarkGray,
    };
    (seq!['\u{2500}', '\u{2500}', ' '] + label + seq![' '] + Seq::new(fill, |i: int| '\u{2500}'), color)
}

/// A section rule of the grouped sidebar, with its color.
pub fn group_header(g: CreatorGrouping, label: &str, item_width: usize) -> (r: (String, TermColor))
    ensures
        (r.0@, r.1) == spec_group_header(g, label@, item_width as nat),
{
    let n = label.as_bytes().len();
    let fill: usize = if n < item_width && item_width - n > 4 { item_width - n - 4 } else { 0 };
    let mut v: Vec<char> = Vec::new();
    v.push('\u{2500}');
    v.push('\u{2500}');
    v.push(' ');
    push_str(&mut v, label);
    v.push(' ');
    let ghost prefix = v@;
    let mut k: usize = 0;
    while k < fill
        invariant
            k <= fill,
            v@ == prefix + Seq::new(k as nat, |i: int| '\u{2500}'),
        decreases fill - k,
    {
        v.push('\u{2500}');
        k = k + 1;
        assert(v@ =~= prefix + Seq::new(k as nat, |i: int| '\u{2500}'));
    }
    let color = match g {
        CreatorGrouping::ByRegion => match CreatorRegion::from_label(label) {
            Some(r) => r.color(),
            None => TermColor::DarkGray,
        },
        CreatorGrouping::ByType => match CreatorType::from_label(label) {
            Some(t) => t.color(),
            None => TermColor::DarkGray,
        },
        _ => TermColor::DarkGray,
    };
    assert(v@ =~= spec_group_header(g, label@, item_width as nat).0);
    (string_from_chars(&v), color)
}

/// The classification tag a grouped sidebar shows after each creator.
pub open spec fn spec_creator_tag(g: CreatorGrouping, slug: Seq<char>) -> Option<(Seq<char>, TermColor)> {
    match g {
        CreatorGrouping::ByRegion => Some((spec_region_of(slug).spec_label(), spec_region_of(slug).spec_color())),
        CreatorGrouping::ByType => Some((spec_type_of(slug).spec_label(), spec_type_of(slug).spec_color())),
        _ => None,
    }
}

/// A creator row: the display name cut so that the count (and the tag,
/// when grouped) still fit `item_width` bytes, then the count in gray, then
/// the tag in its color.
pub open spec fn spec_creator_row(name: Seq<char>, count: nat, tag: Option<(Seq<char>, TermColor)>, item_width: nat) -> Seq<TextSpanView> {
    let count_str = "("@ + decimal(count) + ")"@;
    let tag_len: int = match tag { Some((l, _)) => byte_len(l) + 1, None => 0 };
    let overhead = byte_len(count_str) + 1 + tag_len;
    let max_name: nat = if item_width > overhead { (item_width - overhead) as nat } else { 0 };
    let head = seq![
        TextSpanView { text: truncate_spec(name, max_name) + " "@, color: None },
        TextSpanView { text: count_str, color: Some(TermColor::Gray) },
    ];
    match tag {
        Some((l, c)) => head + seq![TextSpanView { text: " "@, color: None }, TextSpanView { text: l, color: Some(c) }],
        None => head,
    }
}

/// The row of creator `slug`, with its sidebar name and count.
pub fn creator_row(app: &BenchmarksApp, slug: &str, item_width: usize) -> (r: Vec<TextSpan>)
    ensures
        span_views(r@) == spec_creator_row(
            app.spec_creator_display(slug@).0, app.spec_creator_display(slug@).1 as nat,
            spec_creator_tag(app.creator_grouping, slug@), item_width as nat),
{
    let (display_name, count) = app.creator_display(slug);
    let tag: Option<(&'static str, TermColor)> = match app.creator_grouping {
        CreatorGrouping::ByRegion => {
            let r = CreatorRegion::from_creator(slug);
            Some((r.label(), r.color()))
        },
        CreatorGrouping::ByType => {
            let t = CreatorType::from_creator(slug);
            Some((t.label(), t.color()))
        },
        _ => None,
    };
    let mut cs: Vec<char> = Vec::new();
    push_str(&mut cs, "(");
    push_decimal(&mut cs, count as u64);
    push_str(&mut cs, ")");
    let count_str = string_from_chars(&cs);
    let count_len = count_str.as_str().as_bytes().len();
    let tag_len: usize = match tag {
        Some((l, _)) => {
            let n = l.as_bytes().len();
            if n < usize::MAX { n + 1 } else { usize::MAX }
        },
        None => 0,
    };
    let max_name: usize = if count_len < item_width && tag_len < item_width - count_len && item_width - count_len - tag_len > 1 {
        item_width - count_len - tag_len - 1
    } else {
        0
    };
    let name = truncate(display_name.as_str(), max_name);
    let mut first: Vec<char> = Vec::new();
    push_str(&mut first, name.as_str());
    push_str(&mut first, " ");
    let mut r: Vec<TextSpan> = Vec::new();
    r.push(TextSpan { text: string_from_chars(&first), color: None });
    r.push(TextSpan { text: count_str, color: Some(TermColor::Gray) });
    match tag {
        Some((l, c)) => {
            r.push(TextSpan { text: " ".to_string(), color: None });
            r.push(TextSpan { text: l.to_string(), color: Some(c) });
        },
        None => {},
    }
    assert(span_views(r@) =~= spec_creator_row(
        app.spec_creator_display(slug@).0, app.spec_creator_display(slug@).1 as nat,
        spec_creator_tag(app.creator_grouping, slug@), item_width as nat));
    r
}

} // verus!

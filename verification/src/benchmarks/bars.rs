//! The source bar and the comparison sub-tab bar of the benchmarks tab: what
//! they show, and the column range each clickable label covers.

use vstd::prelude::*;
use crate::palette::TermColor;
use crate::benchmarks::app::BottomView;
use crate::benchmarks::schema::{MultiStore, SourceLoad, SourceSlot};
use crate::text::{chars_of, push_str, string_from_chars};

verus! {

/// A span of a bar with its color and weight (`None`: unstyled).
#[derive(Debug, Clone, PartialEq, Eq)]
pub struct BarSpan {
    pub text: String,
    pub color: Option<TermColor>,
    pub bold: bool,
}

/// Ghost form of [`BarSpan`].
pub ghost struct BarSpanView {
    pub text: Seq<char>,
    pub color: Option<TermColor>,
    pub bold: bool,
}

pub open spec fn bar_view(s: BarSpan) -> BarSpanView {
    BarSpanView { text: s.text@, color: s.color, bold: s.bold }
}

pub open spec fn bar_views(v: Seq<BarSpan>) -> Seq<BarSpanView> {
    v.map_values(|s: BarSpan| bar_view(s))
}

/// `x` moved right past `text`, saturating at the last column.
pub open spec fn advance(x: u16, text: Seq<char>) -> u16 {
    let step = text.len() as u16;
    if x + step > u16::MAX { u16::MAX } else { (x + step) as u16 }
}

/// The label of source `name`: "[name] ".
pub open spec fn source_label(name: Seq<char>) -> Seq<char> {
    "["@ + name + "] "@
}

/// The state of a source slot as the bar draws it.
pub open spec fn load_kind(l: SourceLoad) -> int {
    match l {
        SourceLoad::Loading => 0,
        SourceLoad::Failed => 1,
        SourceLoad::Loaded(_) => 2,
    }
}

/// Spans of one source: its label (cyan and bold when active and loaded,
/// dimmed otherwise), then a spinner while loading or a cross when failed.
pub open spec fn source_spans(name: Seq<char>, kind: int, is_active: bool) -> Seq<BarSpanView> {
    if kind == 0 {
        seq![
            BarSpanView { text: source_label(name), color: Some(TermColor::DarkGray), bold: false },
            BarSpanView { text: seq!['\u{25D0}', ' '], color: Some(TermColor::Yellow), bold: false },
        ]
    } else if kind == 1 {
        seq![
            BarSpanView { text: source_label(name), color: Some(TermColor::DarkGray), bold: false },
            BarSpanView { text: seq!['\u{2717}', ' '], color: Some(TermColor::Red), bold: false },
        ]
    } else if is_active {
        seq![BarSpanView { text: source_label(name), color: Some(TermColor::Cyan), bold: true }]
    } else {
        seq![BarSpanView { text: source_label(name), color: Some(TermColor::DarkGray), bold: false }]
    }
}

/// Spans, clickable label ranges `(source, start, end)` and the next column
/// after the first `n` sources, the bar starting at column `x0`.
pub open spec fn bar_upto(names: Seq<Seq<char>>, kinds: Seq<int>, active: int, x0: u16, n: nat)
    -> (Seq<BarSpanView>, Seq<(usize, u16, u16)>, u16)
    decreases n,
{
    if n == 0 {
        (seq![BarSpanView { text: seq![' '], color: None, bold: false }], Seq::empty(), advance(x0, seq![' ']))
    } else {
        let prev = bar_upto(names, kinds, active, x0, (n - 1) as nat);
        let i = n - 1;
        let start = prev.2;
        let end = advance(start, source_label(names[i]));
        let after = if kinds[i] == 0 || kinds[i] == 1 { advance(end, seq![' ', ' ']) } else { end };
        (prev.0 + source_spans(names[i], kinds[i], i == active), prev.1.push(((i as usize), start, end)), after)
    }
}

/// The whole source bar: a leading space, one label per source, and the
/// switch hint; with each label's clickable column range.
pub open spec fn spec_source_bar(names: Seq<Seq<char>>, kinds: Seq<int>, active: int, x0: u16)
    -> (Seq<BarSpanView>, Seq<(usize, u16, u16)>)
{
    let b = bar_upto(names, kinds, active, x0, names.len());
    (b.0.push(BarSpanView { text: "{ } switch source"@, color: Some(TermColor::DarkGray), bold: false }), b.1)
}

pub open spec fn store_kinds(store: MultiStore) -> Seq<int> {
    store.sources@.map_values(|l: SourceSlot| load_kind(l.load))
}

fn advance_exec(x: u16, text: &Vec<char>) -> (r: u16)
    ensures
        r == advance(x, text@),
{
    let step = text.len() as u16;
    x.saturating_add(step)
}

/// The display names of the store's sources, slot by slot.
pub open spec fn store_names(store: MultiStore) -> Seq<Seq<char>> {
    store.sources@.map_values(|l: SourceSlot| l.descriptor.name@)
}

/// The source bar: one label per slot of `store`, named by its descriptor;
/// `active` is the active slot and the bar starts at column `x0`.
pub fn source_bar(store: &MultiStore, active: usize, x0: u16) -> (r: (Vec<BarSpan>, Vec<(usize, u16, u16)>))
    ensures
        (bar_views(r.0@), r.1@) == spec_source_bar(store_names(*store), store_kinds(*store), active as int, x0),
{
    let ghost nv = store_names(*store);
    let ghost kv = store_kinds(*store);
    let mut spans: Vec<BarSpan> = Vec::new();
    let mut ranges: Vec<(usize, u16, u16)> = Vec::new();
    let mut sp: Vec<char> = Vec::new();
    sp.push(' ');
    spans.push(BarSpan { text: string_from_chars(&sp), color: None, bold: false });
    let mut x = advance_exec(x0, &sp);
    assert(bar_views(spans@) =~= bar_upto(nv, kv, active as int, x0, 0).0);
    let mut i: usize = 0;
    while i < store.sources.len()
        invariant
            i <= store.sources@.len(),
            nv == store_names(*store),
            kv == store_kinds(*store),
            (bar_views(spans@), ranges@, x) == bar_upto(nv, kv, active as int, x0, i as nat),
        decreases store.sources.len() - i,
    {
        let mut label: Vec<char> = Vec::new();
        push_str(&mut label, "[");
        push_str(&mut label, store.sources[i].descriptor.name.as_str());
        push_str(&mut label, "] ");
        assert(label@ == source_label(nv[i as int]));
        let start = x;
        let end = advance_exec(start, &label);
        let ghost before = bar_views(spans@);
        let kind: u8 = match &store.sources[i].load {
            SourceLoad::Loading => 0,
            SourceLoad::Failed => 1,
            SourceLoad::Loaded(_) => 2,
        };
        assert(kind as int == kv[i as int]);
        let ls = string_from_chars(&label);
        if kind == 0 {
            let mut m: Vec<char> = Vec::new();
            m.push('\u{25D0}');
            m.push(' ');
            assert(m@ =~= seq!['\u{25D0}', ' ']);
            let s1 = BarSpan { text: ls, color: Some(TermColor::DarkGray), bold: false };
            let s2 = BarSpan { text: string_from_chars(&m), color: Some(TermColor::Yellow), bold: false };
            assert(seq![bar_view(s1), bar_view(s2)] =~= source_spans(nv[i as int], kv[i as int], i as int == active as int));
            spans.push(s1);
            spans.push(s2);
            assert(bar_views(spans@) =~= before + seq![bar_view(s1), bar_view(s2)]);
            x = advance_exec(end, &m);
        } else if kind == 1 {
            let mut m: Vec<char> = Vec::new();
            m.push('\u{2717}');
            m.push(' ');
            assert(m@ =~= seq!['\u{2717}', ' ']);
            let s1 = BarSpan { text: ls, color: Some(TermColor::DarkGray), bold: false };
            let s2 = BarSpan { text: string_from_chars(&m), color: Some(TermColor::Red), bold: false };
            assert(seq![bar_view(s1), bar_view(s2)] =~= source_spans(nv[i as int], kv[i as int], i as int == active as int));
            spans.push(s1);
            spans.push(s2);
            assert(bar_views(spans@) =~= before + seq![bar_view(s1), bar_view(s2)]);
            x = advance_exec(end, &m);
        } else {
            let s1 = if i == active {
                BarSpan { text: ls, color: Some(TermColor::Cyan), bold: true }
            } else {
                BarSpan { text: ls, color: Some(TermColor::DarkGray), bold: false }
            };
            assert(seq![bar_view(s1)] =~= source_spans(nv[i as int], kv[i as int], i as int == active as int));
            spans.push(s1);
            assert(bar_views(spans@) =~= before + seq![bar_view(s1)]);
            x = end;
        }
        ranges.push((i, start, end));
        assert(bar_views(spans@) =~= before + source_spans(nv[i as int], kv[i as int], i as int == active as int));
        i = i + 1;
    }
    let ghost before = bar_views(spans@);
    spans.push(BarSpan { text: "{ } switch source".to_string(), color: Some(TermColor::DarkGray), bold: false });
    assert(bar_views(spans@) =~= before.push(BarSpanView { text: "{ } switch source"@, color: Some(TermColor::DarkGray), bold: false }));
    (spans, ranges)
}

/// The comparison sub-tabs in order, with their labels.
pub open spec fn subtab_label(v: BottomView) -> Seq<char> {
    match v {
        BottomView::H2H => " [H2H] "@,
        BottomView::Scatter => " [Scatter] "@,
        _ => " [Radar] "@,
    }
}

/// The sub-tab bar: " [H2H] ", " [Scatter] ", " [Radar] " from column
/// `x0`, the active view cyan and bold; with each tab's column range.
pub open spec fn spec_subtab_bar(active: BottomView, x0: u16) -> (Seq<BarSpanView>, Seq<(BottomView, u16, u16)>) {
    let tab = |v: BottomView| BarSpanView {
        text: subtab_label(v),
        color: Some(if active == v { TermColor::Cyan } else { TermColor::DarkGray }),
        bold: active == v,
    };
    let x1 = advance(x0, subtab_label(BottomView::H2H));
    let x2 = advance(x1, subtab_label(BottomView::Scatter));
    let x3 = advance(x2, subtab_label(BottomView::Radar));
    (seq![tab(BottomView::H2H), tab(BottomView::Scatter), tab(BottomView::Radar)],
     seq![(BottomView::H2H, x0, x1), (BottomView::Scatter, x1, x2), (BottomView::Radar, x2, x3)])
}

fn subtab(v: BottomView, active: BottomView, x: u16) -> (r: (BarSpan, u16))
    requires
        v != BottomView::Detail,
    ensures
        bar_view(r.0) == (BarSpanView {
            text: subtab_label(v),
            color: Some(if active == v { TermColor::Cyan } else { TermColor::DarkGray }),
            bold: active == v,
        }),
        r.1 == advance(x, subtab_label(v)),
{
    let text: &str = match v {
        BottomView::H2H => " [H2H] ",
        BottomView::Scatter => " [Scatter] ",
        _ => " [Radar] ",
    };
    let t = chars_of(text);
    let is_active = active == v;
    (BarSpan { text: text.to_string(), color: Some(if is_active { TermColor::Cyan } else { TermColor::DarkGray }), bold: is_active },
     advance_exec(x, &t))
}

/// The comparison sub-tab bar starting at column `x0`.
pub fn subtab_bar(active: BottomView, x0: u16) -> (r: (Vec<BarSpan>, Vec<(BottomView, u16, u16)>))
    ensures
        (bar_views(r.0@), r.1@) == spec_subtab_bar(active, x0),
{
    let (a, x1) = subtab(BottomView::H2H, active, x0);
    let (b, x2) = subtab(BottomView::Scatter, active, x1);
    let (c, x3) = subtab(BottomView::Radar, active, x2);
    let mut spans: Vec<BarSpan> = Vec::new();
    spans.push(a);
    spans.push(b);
    spans.push(c);
    let mut ranges: Vec<(BottomView, u16, u16)> = Vec::new();
    ranges.push((BottomView::H2H, x0, x1));
    ranges.push((BottomView::Scatter, x1, x2));
    ranges.push((BottomView::Radar, x2, x3));
    assert(bar_views(spans@) =~= spec_subtab_bar(active, x0).0);
    assert(ranges@ =~= spec_subtab_bar(active, x0).1);
    (spans, ranges)
}

/// What the left column of the compare layout shows.
#[derive(Debug, Clone, Copy, PartialEq, Eq, Structural)]
pub enum CompareLeft {
    CompactList,
    Creators,
}

/// The arrangement of the benchmarks tab below the source bar.
#[derive(Debug, Clone, Copy, PartialEq, Eq, Structural)]
pub enum ScreenLayout {
    /// Creators (20%) | leaderboard (40%) | detail (40%).
    Browse,
    /// A left column of the given width, then the sub-tab bar over the
    /// comparison view.
    Compare { left: CompareLeft, left_width: u16, view: BottomView },
}

/// The popups drawn over the tab, bottom to top.
#[derive(Debug, Clone, Copy, PartialEq, Eq, Structural)]
pub struct Overlays {
    pub detail: bool,
    pub sort_picker: bool,
    pub column_picker: bool,
    pub glossary: bool,
}

/// Two or more selected models switch to the compare layout, whose left
/// column is 30% of the width but at least 35 cells.
pub open spec fn spec_screen_layout(selected: nat, width: u16, show_creators: bool, view: BottomView) -> ScreenLayout {
    if selected >= 2 {
        let w = width * 30 / 100;
        ScreenLayout::Compare {
            left: if show_creators { CompareLeft::Creators } else { CompareLeft::CompactList },
            left_width: (if w > 35 { w } else { 35 }) as u16,
            view,
        }
    } else {
        ScreenLayout::Browse
    }
}

/// The arrangement of the benchmarks tab.
pub fn screen_layout(selected: usize, width: u16, show_creators: bool, view: BottomView) -> (r: ScreenLayout)
    requires
        width * 30 <= u16::MAX,
    ensures
        r == spec_screen_layout(selected as nat, width, show_creators, view),
{
    if selected >= 2 {
        let w: u16 = width * 30 / 100;
        ScreenLayout::Compare {
            left: if show_creators { CompareLeft::Creators } else { CompareLeft::CompactList },
            left_width: if w > 35 { w } else { 35 },
            view,
        }
    } else {
        ScreenLayout::Browse
    }
}

/// The popups: the detail overlay only while comparing, the column picker
/// only while browsing.
pub open spec fn spec_overlays(selected: nat, detail: bool, sort_picker: bool, column_picker: bool, glossary: bool) -> Overlays {
    Overlays {
        detail: detail && selected >= 2,
        sort_picker,
        column_picker: column_picker && selected < 2,
        glossary,
    }
}

/// The popups drawn over the benchmarks tab.
pub fn overlays(selected: usize, detail: bool, sort_picker: bool, column_picker: bool, glossary: bool) -> (r: Overlays)
    ensures
        r == spec_overlays(selected as nat, detail, sort_picker, column_picker, glossary),
{
    Overlays {
        detail: detail && selected >= 2,
        sort_picker,
        column_picker: column_picker && selected < 2,
        glossary,
    }
}

} // verus!

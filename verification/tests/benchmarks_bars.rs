use models_tui::benchmarks::app::BottomView;
use models_tui::benchmarks::bars::{overlays, screen_layout, source_bar, subtab_bar, BarSpan, CompareLeft, Overlays, ScreenLayout};
use models_tui::benchmarks::schema::{ModelRow, MultiStore, ReasoningStatus, SourceDescriptor, SourceFile, SourceLoad, SourceMeta, SourceSlot};
use models_tui::benchmarks::render::source_state_line;
use models_tui::palette::{TermColor, TextSpan};

fn slot(name: &str, load: SourceLoad) -> SourceSlot {
    SourceSlot { descriptor: SourceDescriptor { id: name.to_lowercase(), name: name.to_string() }, load }
}
fn span(text: &str, color: Option<TermColor>, bold: bool) -> BarSpan {
    BarSpan { text: text.to_string(), color, bold }
}

fn empty_file() -> SourceFile {
    SourceFile {
        source: SourceMeta {
            id: "t".into(),
            name: "T".into(),
            url: "https://example.com".into(),
            fetched_at: "2026-06-10T00:00:00+00:00".into(),
            verified: true,
        },
        metrics: vec![],
        models: vec![],
    }
}

#[test]
fn source_bar_labels_states_and_click_ranges() {
    let store = MultiStore {
        sources: vec![
            slot("AA", SourceLoad::Loaded(empty_file())),
            slot("Epoch AI", SourceLoad::Loading),
            slot("LM", SourceLoad::Failed),
        ],
    };
    let (spans, ranges) = source_bar(&store, 0, 5);
    assert_eq!(
        spans,
        vec![
            span(" ", None, false),
            span("[AA] ", Some(TermColor::Cyan), true),
            span("[Epoch AI] ", Some(TermColor::DarkGray), false),
            span("\u{25D0} ", Some(TermColor::Yellow), false),
            span("[LM] ", Some(TermColor::DarkGray), false),
            span("\u{2717} ", Some(TermColor::Red), false),
            span("{ } switch source", Some(TermColor::DarkGray), false),
        ]
    );
    assert_eq!(ranges, vec![(0, 6, 11), (1, 11, 22), (2, 24, 29)]);
    let (inactive, _) = source_bar(&store, 2, 0);
    assert_eq!(inactive[1], span("[AA] ", Some(TermColor::DarkGray), false));
    let (_, edge) = source_bar(&MultiStore { sources: vec![slot("AA", SourceLoad::Failed)] }, 0, 65530);
    assert_eq!(edge, vec![(0, 65531, 65535)]);
}

#[test]
fn subtab_bar_ranges() {
    let (spans, ranges) = subtab_bar(BottomView::Scatter, 2);
    assert_eq!(
        spans,
        vec![
            span(" [H2H] ", Some(TermColor::DarkGray), false),
            span(" [Scatter] ", Some(TermColor::Cyan), true),
            span(" [Radar] ", Some(TermColor::DarkGray), false),
        ]
    );
    assert_eq!(
        ranges,
        vec![(BottomView::H2H, 2, 9), (BottomView::Scatter, 9, 20), (BottomView::Radar, 20, 29)]
    );
}

#[test]
fn benchmarks_screen_layout_and_popups() {
    assert_eq!(screen_layout(1, 200, false, BottomView::H2H), ScreenLayout::Browse);
    assert_eq!(
        screen_layout(2, 200, false, BottomView::Radar),
        ScreenLayout::Compare { left: CompareLeft::CompactList, left_width: 60, view: BottomView::Radar }
    );
    assert_eq!(
        screen_layout(3, 80, true, BottomView::H2H),
        ScreenLayout::Compare { left: CompareLeft::Creators, left_width: 35, view: BottomView::H2H }
    );
    assert_eq!(
        overlays(1, true, false, true, true),
        Overlays { detail: false, sort_picker: false, column_picker: true, glossary: true }
    );
    assert_eq!(
        overlays(2, true, true, true, false),
        Overlays { detail: true, sort_picker: true, column_picker: false, glossary: false }
    );
}

#[test]
fn source_state_line_names_the_failed_source() {
    let store = MultiStore {
        sources: vec![
            slot("Epoch AI", SourceLoad::Failed),
            slot("AA", SourceLoad::Loading),
            slot("LM", SourceLoad::Loaded(empty_file())),
        ],
    };
    assert_eq!(
        source_state_line(&store, 0),
        Some(TextSpan { text: "\u{2717} Failed to fetch Epoch AI data".to_string(), color: Some(TermColor::Red) })
    );
    assert_eq!(
        source_state_line(&store, 1),
        Some(TextSpan { text: "Loading...".to_string(), color: Some(TermColor::Yellow) })
    );
    assert_eq!(
        source_state_line(&store, 2),
        Some(TextSpan { text: "No models".to_string(), color: Some(TermColor::DarkGray) })
    );
    assert_eq!(
        source_state_line(&store, 7),
        Some(TextSpan { text: "Loading...".to_string(), color: Some(TermColor::Yellow) })
    );
}

#[test]
fn source_state_line_is_empty_for_a_source_with_rows() {
    let mut file = empty_file();
    file.models.push(ModelRow {
        id: "m".into(),
        name: "m".into(),
        display_name: "m".into(),
        creator: "c".into(),
        creator_name: "C".into(),
        release_date: None,
        reasoning_status: ReasoningStatus::Unmarked,
        open_weights: None,
        context_window: None,
        scores: vec![],
    });
    let store = MultiStore { sources: vec![slot("AA", SourceLoad::Loaded(file))] };
    assert_eq!(source_state_line(&store, 0), None);
}

use models_tui::benchmarks::app::{BenchmarksApp, CreatorGrouping, CreatorRegion, CreatorType, SourceFilter};
use models_tui::benchmarks::creators_view::{
    all_row, creator_row, creators_title, group_header, grouping_toggles,
};
use models_tui::benchmarks::schema::{
    MetricDef, MetricKind, ModelRow, ReasoningFilter, ReasoningStatus, SourceFile, SourceMeta,
};
use models_tui::palette::{TermColor, TextSpan};

fn span(text: &str, color: Option<TermColor>) -> TextSpan {
    TextSpan { text: text.to_string(), color }
}

fn file() -> SourceFile {
    let model = |id: &str| ModelRow {
        id: id.into(),
        name: id.into(),
        display_name: id.into(),
        creator: "mistral".into(),
        creator_name: "Mistral AI".into(),
        release_date: Some("2026-01-01".into()),
        reasoning_status: ReasoningStatus::Reasoning,
        open_weights: None,
        context_window: None,
        scores: vec![],
    };
    SourceFile {
        source: SourceMeta {
            id: "t".into(),
            name: "T".into(),
            url: "https://example.com".into(),
            fetched_at: "2026-06-10T00:00:00+00:00".into(),
            verified: true,
        },
        metrics: vec![MetricDef {
            id: "x".into(),
            label: "X".into(),
            short_label: None,
            kind: MetricKind::Index,
            group: "G".into(),
            higher_is_better: true,
            last_updated: None,
            description: None,
        }],
        models: vec![model("a"), model("b")],
    }
}

#[test]
fn creators_title_and_toggles() {
    assert_eq!(creators_title(SourceFilter::All, ReasoningFilter::All), " Creators ");
    assert_eq!(
        creators_title(SourceFilter::Open, ReasoningFilter::NonReasoning),
        " Creators [Open] [Non-reasoning] "
    );
    assert_eq!(
        grouping_toggles(CreatorGrouping::ByRegion),
        vec![
            span("[1]", Some(TermColor::Yellow)),
            span("Region ", None),
            span("[2]", Some(TermColor::DarkGray)),
            span("Type", None),
        ]
    );
    assert_eq!(grouping_toggles(CreatorGrouping::ByType)[1], span("Rgn ", None));
    assert_eq!(grouping_toggles(CreatorGrouping::ByType)[2], span("[2]", Some(TermColor::Magenta)));
    assert_eq!(all_row(12), vec![span("All", Some(TermColor::Green)), span(" (12)", None)]);
}

#[test]
fn sidebar_section_rules() {
    assert_eq!(
        group_header(CreatorGrouping::ByRegion, "US", 10),
        ("\u{2500}\u{2500} US \u{2500}\u{2500}\u{2500}\u{2500}".to_string(), CreatorRegion::US.color())
    );
    assert_eq!(
        group_header(CreatorGrouping::ByType, "Startup", 5),
        ("\u{2500}\u{2500} Startup ".to_string(), CreatorType::Startup.color())
    );
    assert_eq!(group_header(CreatorGrouping::ByRegion, "Mars", 0).1, TermColor::DarkGray);
}

#[test]
fn creator_rows_fit_count_and_tag() {
    let f = file();
    let mut app = BenchmarksApp::new(Some(&f));
    assert_eq!(creator_row(&app, "mistral", 30), vec![span("Mistral AI ", None), span("(2)", Some(TermColor::Gray))]);
    assert_eq!(creator_row(&app, "mistral", 12), vec![span("Mistr... ", None), span("(2)", Some(TermColor::Gray))]);
    app.creator_grouping = CreatorGrouping::ByRegion;
    assert_eq!(
        creator_row(&app, "mistral", 12),
        vec![
            span("M ", None),
            span("(2)", Some(TermColor::Gray)),
            span(" ", None),
            span("Europe", Some(CreatorRegion::Europe.color())),
        ]
    );
}

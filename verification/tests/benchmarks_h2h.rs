use models_tui::benchmarks::app::CreatorRegion;
use models_tui::benchmarks::h2h::{
    h2h_col_width, h2h_fit, info_cells, label_cell, name_headers, win_counts, wins_row, H2hCell, InfoRow,
};
use models_tui::benchmarks::render::compare_colors;
use models_tui::benchmarks::schema::{
    MetricDef, MetricKind, MetricScore, ModelRow, OpennessMap, ReasoningStatus, ScoreCell, SourceFile,
    SourceMeta,
};
use models_tui::palette::TermColor;

fn metric(id: &str, hib: bool) -> MetricDef {
    MetricDef {
        id: id.into(),
        label: id.to_uppercase(),
        short_label: None,
        kind: MetricKind::Index,
        group: "G".into(),
        higher_is_better: hib,
        last_updated: None,
        description: None,
    }
}

fn model(id: &str, creator: &str, open: Option<bool>, scores: &[(&str, i64)]) -> ModelRow {
    ModelRow {
        id: id.into(),
        name: id.into(),
        display_name: id.into(),
        creator: creator.into(),
        creator_name: String::new(),
        release_date: None,
        reasoning_status: ReasoningStatus::Adaptive,
        open_weights: open,
        context_window: None,
        scores: scores
            .iter()
            .map(|(m, v)| MetricScore { metric_id: (*m).to_string(), cell: ScoreCell { order_key: *v } })
            .collect(),
    }
}

fn file() -> SourceFile {
    SourceFile {
        source: SourceMeta {
            id: "t".into(),
            name: "T".into(),
            url: "https://example.com".into(),
            fetched_at: "2026-06-10T00:00:00+00:00".into(),
            verified: true,
        },
        metrics: vec![metric("score", true), metric("price", false), metric("tied", true)],
        models: vec![
            model("alpha-model-long-name", "mistral", Some(true), &[("score", 70), ("price", 2), ("tied", 5)]),
            model("beta", "openai", None, &[("score", 60), ("price", 1), ("tied", 5)]),
            model("gamma", "unknown-lab", None, &[]),
        ],
    }
}

#[test]
fn h2h_column_width() {
    assert_eq!(h2h_col_width(60, 10, 3), Some(15));
    assert_eq!(h2h_col_width(30, 10, 3), Some(10));
    assert_eq!(h2h_col_width(19, 10, 2), None);
    assert_eq!(h2h_col_width(60, 10, 1), None);
    assert_eq!(h2h_col_width(60, 2, 2), None);
}

#[test]
fn h2h_cells_cut_by_display_width() {
    assert_eq!(h2h_fit("abcdefghijkl", 10), "  abcdefgh");
    assert_eq!(h2h_fit("abcdefghi", 10), " abcdefghi");
    assert_eq!(h2h_fit("abc", 6), "   abc");
    assert_eq!(h2h_fit("\u{65e5}\u{672c}\u{8a9e}\u{30c6}\u{30ad}\u{30b9}\u{30c8}", 10), "   \u{65e5}\u{672c}\u{8a9e}\u{30c6}\u{30ad}\u{30b9}\u{30c8}");
    assert_eq!(label_cell("Creator"), "Creator       ");
}

#[test]
fn wins_tally_and_stars() {
    let f = file();
    let counts = win_counts(&f, &vec![0, 1, 2]);
    assert_eq!(counts, vec![2, 1, 0]);
    assert_eq!(win_counts(&f, &vec![1, 0]), vec![2, 1]);
    let row = wins_row(&counts, 6);
    assert_eq!(
        row,
        vec![
            H2hCell { text: "   2 \u{2605}".to_string(), color: compare_colors(0), bold: true },
            H2hCell { text: "     1".to_string(), color: compare_colors(1), bold: false },
            H2hCell { text: "     0".to_string(), color: compare_colors(2), bold: false },
        ]
    );
    let tie = wins_row(&vec![1, 1], 4);
    assert!(tie[0].bold && tie[1].bold);
    assert_eq!(tie[1].text, " 1 \u{2605}");
    assert!(!wins_row(&vec![0, 0], 4)[0].bold);
}

#[test]
fn h2h_names_and_info_rows() {
    let f = file();
    let names = name_headers(&f, &vec![0, 7], 10);
    assert_eq!(names[0].text, "  alpha-mo");
    assert_eq!(names[1], H2hCell { text: "         ?".to_string(), color: compare_colors(1), bold: true });
    let mut openness = OpennessMap { entries: vec![] };
    openness.entries.push(("openai".to_string(), false));
    let src = info_cells(InfoRow::Source, &f, &vec![0, 1, 2], &openness, 8);
    assert_eq!(src[0], H2hCell { text: "    Open".to_string(), color: TermColor::Green, bold: false });
    assert_eq!(src[1], H2hCell { text: "  Closed".to_string(), color: TermColor::Red, bold: false });
    assert_eq!(src[2], H2hCell { text: "       \u{2014}".to_string(), color: TermColor::DarkGray, bold: false });
    let creators = info_cells(InfoRow::Creator, &f, &vec![1], &openness, 8);
    assert_eq!(creators[0].text, "  openai");
    let regions = info_cells(InfoRow::Region, &f, &vec![0], &openness, 8);
    assert_eq!(regions[0], H2hCell { text: "  Europe".to_string(), color: CreatorRegion::Europe.color(), bold: false });
    let reasoning = info_cells(InfoRow::Reasoning, &f, &vec![0], &openness, 10);
    assert_eq!(reasoning[0], H2hCell { text: "  Adaptive".to_string(), color: TermColor::Yellow, bold: false });
}

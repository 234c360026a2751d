use models_tui::benchmarks::app::{CreatorRegion, CreatorType};
use models_tui::benchmarks::detail::{detail_title, meta_row, metric_label_width, metric_row, region_type_values, weights_value, ColumnWidths, MetricRowLayout};
use models_tui::palette::TextSpan;
use models_tui::benchmarks::render::ComparatorMode;
use models_tui::benchmarks::schema::{MetricDef, MetricKind, MetricScore, ModelRow, ReasoningStatus, ScoreCell, SourceFile, SourceMeta};
use models_tui::benchmarks::detail_lines::{benchmark_detail_lines, BenchLine, BenchModelExtras, MetricCellText};
use models_tui::palette::TermColor;

fn model(id: &str, creator: &str, open: Option<bool>) -> ModelRow {
    ModelRow {
        id: id.into(),
        name: id.into(),
        display_name: id.into(),
        creator: creator.into(),
        creator_name: String::new(),
        release_date: None,
        reasoning_status: ReasoningStatus::Reasoning,
        open_weights: open,
        context_window: None,
        scores: vec![],
    }
}

fn metric(label: &str) -> MetricDef {
    MetricDef {
        id: label.to_lowercase(),
        label: label.into(),
        short_label: None,
        kind: MetricKind::Index,
        group: "G".into(),
        higher_is_better: true,
        last_updated: None,
        description: None,
    }
}

fn file(models: Vec<ModelRow>, metrics: Vec<MetricDef>) -> SourceFile {
    SourceFile {
        source: SourceMeta {
            id: "t".into(),
            name: "T".into(),
            url: "https://example.com".into(),
            fetched_at: "2026-06-10T00:00:00+00:00".into(),
            verified: true,
        },
        metrics,
        models,
    }
}

#[test]
fn weights_resolve_from_siblings() {
    let f = file(
        vec![model("a", "x", None), model("b", "x", Some(false)), model("c", "x", Some(true)), model("d", "y", Some(false)), model("e", "z", None)],
        vec![],
    );
    assert_eq!(weights_value(&f, &f.models[0]), ("Open".to_string(), TermColor::Green));
    assert_eq!(weights_value(&f, &f.models[1]), ("Closed".to_string(), TermColor::Red));
    assert_eq!(weights_value(&f, &model("q", "y", None)), ("Closed".to_string(), TermColor::Red));
    assert_eq!(weights_value(&f, &f.models[4]), ("\u{2014}".to_string(), TermColor::DarkGray));
}

#[test]
fn region_and_type_rows() {
    let dash = ("\u{2014}".to_string(), TermColor::DarkGray);
    assert_eq!(region_type_values(&model("a", "", None)), (dash.clone(), dash));
    let t = CreatorType::from_creator("mistral");
    assert_eq!(
        region_type_values(&model("a", "mistral", None)),
        (("Europe".to_string(), CreatorRegion::Europe.color()), (t.label().to_string(), t.color()))
    );
}

#[test]
fn metric_label_column_width() {
    let f = file(vec![], vec![metric("SCORE"), metric("PRICE"), metric("LONGER LABEL")]);
    assert_eq!(metric_label_width(&f, 40, 2), 16);
    assert_eq!(metric_label_width(&f, 20, 2), 12);
    assert_eq!(metric_label_width(&file(vec![], vec![]), 40, 2), 12);
    assert_eq!(metric_label_width(&file(vec![], vec![metric("ab")]), 40, 2), 6);
}

#[test]
fn meta_grid_columns() {
    assert_eq!(ColumnWidths::from_grid((10, 5, 10, 3)), ColumnWidths { indent: 2, label: 10, value: 6, label2: 10 });
    assert_eq!(ColumnWidths::from_grid((3, 9, 4, 0)), ColumnWidths { indent: 2, label: 8, value: 9, label2: 8 });
    assert_eq!(ColumnWidths::from_width(102), ColumnWidths { indent: 2, label: 28, value: 22, label2: 28 });
    assert_eq!(ColumnWidths::from_width(0), ColumnWidths { indent: 2, label: 8, value: 6, label2: 8 });
}

#[test]
fn meta_rows() {
    let cw = ColumnWidths { indent: 2, label: 8, value: 6, label2: 8 };
    let t = |text: &str, color: Option<TermColor>| TextSpan { text: text.to_string(), color };
    assert_eq!(
        meta_row(cw, ("Creator", "Lab", TermColor::White), ("Released", "2025-01-01", TermColor::White)),
        vec![
            t("  Creator ", Some(TermColor::Gray)),
            t("Lab   ", Some(TermColor::White)),
            t("Released", Some(TermColor::Gray)),
            t("2025-01-01", Some(TermColor::White)),
        ]
    );
    assert_eq!(
        meta_row(cw, ("Variant", "fast", TermColor::White), ("", "", TermColor::Reset)),
        vec![t("  Variant ", Some(TermColor::Gray)), t("fast  ", Some(TermColor::White))]
    );
    assert_eq!(meta_row(cw, ("Type", "x", TermColor::Reset), ("", "", TermColor::Reset))[1], t("x     ", None));
}

#[test]
fn metric_rows_align_comparator() {
    let layout = MetricRowLayout { indent: 2, label_w: 10, value_w: 8 };
    let t = |text: &str, color: Option<TermColor>| TextSpan { text: text.to_string(), color };
    assert_eq!(
        metric_row(layout, "Intelligence Index", "71.3", None, true, Some("avg 60.1")),
        vec![
            t("  Intel...  ", Some(TermColor::Gray)),
            t("71.3", Some(TermColor::White)),
            t("      ", None),
            t("avg 60.1", Some(TermColor::DarkGray)),
        ]
    );
    assert_eq!(
        metric_row(layout, "Arena", "1402 \u{00B1}5", Some(" \u{00B7} 12k votes"), true, Some("#3/40")),
        vec![
            t("  Arena     ", Some(TermColor::Gray)),
            t("1402 \u{00B1}5", Some(TermColor::White)),
            t(" \u{00B7} 12k votes", Some(TermColor::DarkGray)),
            t("  ", None),
            t("#3/40", Some(TermColor::DarkGray)),
        ]
    );
    assert_eq!(
        metric_row(layout, "GPQA", "\u{2014}", None, false, None),
        vec![t("  GPQA      ", Some(TermColor::Gray)), t("\u{2014}", Some(TermColor::DarkGray))]
    );
}

#[test]
fn detail_panel_title() {
    assert_eq!(detail_title(ComparatorMode::Off), " Details ");
    assert_eq!(detail_title(ComparatorMode::Rank), " Details \u{00B7} rank ");
}

fn text_of(spans: &[TextSpan]) -> String {
    spans.iter().map(|s| s.text.as_str()).collect()
}

#[test]
fn detail_identity_unknown_creator_em_dashes_region_type() {
    let m = model("a", "", None);
    let ((region, rc), (ctype, tc)) = region_type_values(&m);
    let cw = ColumnWidths::from_width(80);
    let region_line = text_of(&meta_row(cw, ("Region", region.as_str(), rc), ("Type", ctype.as_str(), tc)));
    assert!(!region_line.contains("Other"), "got: {region_line}");
    assert!(!region_line.contains("Startup"), "got: {region_line}");
    assert!(region_line.contains('\u{2014}'), "got: {region_line}");
}

#[test]
fn comparator_cells_align_into_a_column() {
    // Value cells of different widths ("8.1%", "92.6%", em dash) put their
    // comparator cells in one column, two cells after the widest value.
    let values = ["8.1%", "92.6%", "\u{2014}"];
    let layout = MetricRowLayout { indent: 2, label_w: 12, value_w: 5 };
    let avg_cols: Vec<usize> = values
        .iter()
        .enumerate()
        .map(|(i, v)| {
            let row = metric_row(layout, "Metric", v, None, i < 2, Some("avg 50.0%"));
            let text = text_of(&row);
            text.chars().position(|c| c == 'a').unwrap()
        })
        .collect();
    assert_eq!(avg_cols.len(), 3);
    assert!(avg_cols.windows(2).all(|w| w[0] == w[1]), "comparator cells must share a column: {avg_cols:?}");
}

#[test]
fn detail_weights_agree_with_list_indicator() {
    let f = file(
        vec![model("a", "x", None), model("b", "x", Some(true)), model("c", "y", Some(false)), model("d", "z", None)],
        vec![],
    );
    let openness = models_tui::benchmarks::schema::creator_openness(&f.models);
    for m in &f.models {
        let (detail, _) = weights_value(&f, m);
        let (list, _) = models_tui::benchmarks::render::openness_span(m, &openness);
        let expected = match list {
            "O " => "Open",
            "C " => "Closed",
            _ => "\u{2014}",
        };
        assert_eq!(detail, expected, "model {}", m.id);
    }
}

fn row_text(l: &BenchLine) -> String {
    match l {
        BenchLine::Title(t) | BenchLine::Id(t) => t.clone(),
        BenchLine::Row(v) => v.iter().map(|s| s.text.as_str()).collect(),
        BenchLine::Blank => String::new(),
        BenchLine::Header(g, s) => format!("{g}|{}", s.clone().unwrap_or_default()),
    }
}

fn cell(v: &str) -> MetricCellText {
    MetricCellText { value: v.to_string(), votes: None, comparator: None }
}

#[test]
fn benchmark_detail_lines_identity_then_groups() {
    let mut m = model("gpt-x", "openai", Some(true));
    m.display_name = "GPT X".into();
    m.creator_name = "OpenAI".into();
    m.release_date = Some("2026-01-01".into());
    m.context_window = Some(128_000);
    m.scores = vec![MetricScore { metric_id: "score".into(), cell: ScoreCell { order_key: 7 } }];
    let mut price = metric("PRICE");
    price.group = "H".into();
    let f = file(vec![m.clone()], vec![metric("SCORE"), price, metric("OTHER")]);
    let extras = BenchModelExtras {
        effort: None,
        supports_tools: Some(true),
        context_text: "128K".into(),
        max_output: None,
        variant: Some("high".into()),
    };
    let cells = vec![
        MetricCellText { value: "71.0".into(), votes: Some(" (12)".into()), comparator: Some("+3.0".into()) },
        cell("$2.00"),
        cell("\u{2014}"),
    ];
    let lines = benchmark_detail_lines(60, &f, &m, &extras, &cells);
    let texts: Vec<String> = lines.iter().map(row_text).collect();
    assert!(matches!(&lines[0], BenchLine::Title(t) if t == "GPT X"));
    assert!(matches!(&lines[1], BenchLine::Id(t) if t == "gpt-x"));
    let cw = ColumnWidths::from_width(60);
    let expect = |l: (&str, &str, TermColor), r: (&str, &str, TermColor)| meta_row(cw, l, r);
    assert!(matches!(&lines[2], BenchLine::Row(v) if *v == expect(("Creator", "OpenAI", TermColor::White), ("Released", "2026-01-01", TermColor::White))));
    assert!(matches!(&lines[3], BenchLine::Row(v) if *v == expect(("Reasoning", "Reasoning", TermColor::Cyan), ("Effort", "\u{2014}", TermColor::DarkGray))));
    assert!(matches!(&lines[4], BenchLine::Row(v) if *v == expect(("Weights", "Open", TermColor::Green), ("Context", "128K", TermColor::White))));
    assert!(matches!(&lines[6], BenchLine::Row(v) if *v == expect(("Tools", "Yes", TermColor::Green), ("Output", "\u{2014}", TermColor::DarkGray))));
    assert!(matches!(&lines[7], BenchLine::Row(v) if *v == expect(("Variant", "high", TermColor::White), ("", "", TermColor::Reset))));
    assert!(matches!(lines[8], BenchLine::Blank));
    assert!(matches!(&lines[9], BenchLine::Header(g, _) if g == "G"));
    assert!(texts[10].contains("SCORE") && texts[10].contains("71.0 (12)") && texts[10].ends_with("+3.0"));
    assert!(texts[11].contains("OTHER"));
    assert!(matches!(&lines[11], BenchLine::Row(v) if v[1].color == Some(TermColor::DarkGray)));
    assert!(matches!(&lines[10], BenchLine::Row(v) if v[1].color == Some(TermColor::White)));
    assert!(matches!(lines[12], BenchLine::Blank));
    assert!(matches!(&lines[13], BenchLine::Header(g, _) if g == "H"));
    assert!(texts[14].contains("PRICE") && texts[14].contains("$2.00"));
    assert_eq!(lines.len(), 15);
}

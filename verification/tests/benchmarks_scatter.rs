use models_tui::benchmarks::scatter::{scatter_state, ScatterState};
use models_tui::benchmarks::radar::{axis_label_lines, radar_drawable, radar_legend, radar_title};
use models_tui::benchmarks::render::compare_colors;
use models_tui::benchmarks::schema::{
    MetricDef, MetricKind, MetricScore, ModelRow, ReasoningStatus, ScoreCell, SourceFile, SourceMeta,
};

fn metric(id: &str) -> MetricDef {
    MetricDef {
        id: id.into(),
        label: id.into(),
        short_label: None,
        kind: MetricKind::Index,
        group: "G".into(),
        higher_is_better: true,
        last_updated: None,
        description: None,
    }
}

fn model(id: &str, scores: &[&str]) -> ModelRow {
    ModelRow {
        id: id.into(),
        name: id.into(),
        display_name: id.into(),
        creator: "c".into(),
        creator_name: "C".into(),
        release_date: None,
        reasoning_status: ReasoningStatus::Reasoning,
        open_weights: None,
        context_window: None,
        scores: scores
            .iter()
            .map(|m| MetricScore { metric_id: (*m).to_string(), cell: ScoreCell { order_key: 1 } })
            .collect(),
    }
}

fn file(metrics: Vec<MetricDef>, models: Vec<ModelRow>) -> SourceFile {
    SourceFile {
        source: SourceMeta {
            id: "t".into(),
            name: "T".into(),
            url: "https://example.com".into(),
            fetched_at: "2026-06-10T00:00:00+00:00".into(),
            verified: true,
        },
        metrics,
        models,
    }
}

#[test]
fn scatter_states() {
    assert_eq!(scatter_state(None, 0, 1), ScatterState::NoFile);
    let one = file(vec![metric("m0")], vec![model("a", &["m0"])]);
    assert_eq!(scatter_state(Some(&one), 0, 1), ScatterState::NeedTwoMetrics);
    let empty = file(vec![metric("m0"), metric("m1")], vec![]);
    assert_eq!(scatter_state(Some(&empty), 0, 1), ScatterState::NoModels);
    let f = file(
        vec![metric("m0"), metric("m1"), metric("m2")],
        vec![model("a", &["m0", "m2"]), model("b", &["m0"]), model("c", &["m2", "m0"])],
    );
    assert_eq!(scatter_state(Some(&f), 0, 9), ScatterState::Plot { x: 0, y: 2, points: vec![0, 2] });
    assert_eq!(scatter_state(Some(&f), 1, 0), ScatterState::NoData);
}

#[test]
fn radar_title_gate_and_legend() {
    let f = file(vec![metric("m0"), metric("m1")], vec![model("a", &["m0"]), model("b", &[])]);
    assert_eq!(radar_title(&f, 99), " Radar [\u{2014}] ");
    assert!(radar_drawable(3, 1));
    assert!(!radar_drawable(2, 5));
    assert!(!radar_drawable(6, 0));
    assert_eq!(
        radar_legend(&f, &vec![1, 9, 0]),
        vec![("b".to_string(), compare_colors(0)), ("a".to_string(), compare_colors(2))]
    );
}

#[test]
fn radar_axis_labels_wrap_at_sixteen_bytes() {
    assert_eq!(axis_label_lines("GPQA Diamond"), vec!["GPQA Diamond"]);
    assert_eq!(axis_label_lines("Intelligence Index"), vec!["Intelligence", "Index"]);
    assert_eq!(axis_label_lines("HumanitysLastExamX"), vec!["HumanitysLastExamX"]);
    assert_eq!(axis_label_lines("\u{c9}preuve de code longue"), vec!["\u{c9}preuve de", "code longue"]);
    assert_eq!(axis_label_lines("Sixteen bytes ok"), vec!["Sixteen bytes ok"]);
}

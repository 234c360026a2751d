use models_tui::benchmarks::app::{BenchmarksApp, CreatorGrouping, SourceFilter};
use models_tui::benchmarks::list_view::{
    benchmark_columns, benchmark_title, compact_name_width, compact_title, creator_tag, fixed_overhead,
    list_value_cell, selection_marker,
};
use models_tui::benchmarks::app::{CreatorRegion, CreatorType};
use models_tui::benchmarks::render::compare_colors;
use models_tui::palette::TextSpan;
use models_tui::benchmarks::schema::{
    MetricDef, MetricKind, MetricScore, ModelRow, MultiStore, ReasoningFilter, ReasoningStatus, ScoreCell,
    SortKey, SourceFile, SourceDescriptor, SourceLoad, SourceMeta, SourceSlot,
};

fn slot(name: &str, load: SourceLoad) -> SourceSlot {
    SourceSlot { descriptor: SourceDescriptor { id: name.to_lowercase(), name: name.to_string() }, load }
}

fn file() -> SourceFile {
    let metric = |id: &str| MetricDef {
        id: id.into(),
        label: id.to_uppercase(),
        short_label: None,
        kind: MetricKind::Index,
        group: "Indexes".into(),
        higher_is_better: true,
        last_updated: None,
        description: None,
    };
    let model = |id: &str, release: &str| ModelRow {
        id: id.into(),
        name: id.into(),
        display_name: id.into(),
        creator: "lab".into(),
        creator_name: "Lab".into(),
        release_date: Some(release.into()),
        reasoning_status: ReasoningStatus::Reasoning,
        open_weights: None,
        context_window: None,
        scores: vec![],
    };
    SourceFile {
        source: SourceMeta {
            id: "t".into(),
            name: "T".into(),
            url: "https://example.com".into(),
            fetched_at: "2026-06-10T00:00:00+00:00".into(),
            verified: true,
        },
        metrics: vec![metric("intelligence"), metric("coding")],
        models: vec![model("a", "2026-01-01"), model("b", "2026-02-01")],
    }
}

#[test]
fn leaderboard_title_parts() {
    let f = file();
    let store = MultiStore { sources: vec![slot("AA", SourceLoad::Loaded(f.clone()))] };
    let mut app = BenchmarksApp::new(Some(&f));
    assert_eq!(benchmark_title(&app, &store), " Benchmarks (2) \u{2193}Date ");
    app.search_query = "a".to_string();
    app.source_filter = SourceFilter::Open;
    app.reasoning_filter = ReasoningFilter::Reasoning;
    app.sort_key = SortKey::Metric(1);
    app.sort_descending = false;
    assert_eq!(
        benchmark_title(&app, &store),
        " Benchmarks (2) [/a] [Open] [Reasoning] \u{2191}CODING "
    );
    let loading = MultiStore { sources: vec![slot("AA", SourceLoad::Loading)] };
    app.search_query.clear();
    app.source_filter = SourceFilter::All;
    app.reasoning_filter = ReasoningFilter::All;
    app.sort_key = SortKey::Name;
    assert_eq!(benchmark_title(&app, &loading), " Benchmarks (2) \u{2191}Name loading... ");
}

#[test]
fn leaderboard_fixed_overhead() {
    assert_eq!(fixed_overhead(false, CreatorGrouping::Ungrouped), 7);
    assert_eq!(fixed_overhead(true, CreatorGrouping::ByRegion), 13);
    assert_eq!(fixed_overhead(false, CreatorGrouping::ByType), 11);
}

#[test]
fn leaderboard_columns_keep_the_sort_column() {
    assert_eq!(benchmark_columns(60, 7, &vec![0, 1, 2], SortKey::Metric(2)), (vec![0, 1, 2], false, 17));
    assert_eq!(benchmark_columns(40, 7, &vec![0, 1, 2], SortKey::Metric(1)), (vec![1], false, 21));
    assert_eq!(benchmark_columns(50, 7, &vec![0, 1, 2, 3], SortKey::Metric(0)), (vec![1, 0], false, 19));
    assert_eq!(benchmark_columns(50, 7, &vec![4, 5], SortKey::ReleaseDate), (vec![4], true, 19));
    assert_eq!(benchmark_columns(50, 7, &vec![4, 5, 6], SortKey::Name), (vec![4, 5], false, 19));
    assert_eq!(benchmark_columns(12, 7, &vec![3], SortKey::Metric(3)), (vec![3], false, 10));
    assert_eq!(benchmark_columns(12, 7, &vec![], SortKey::ReleaseDate), (vec![], true, 10));
    assert_eq!(benchmark_columns(80, 7, &vec![], SortKey::Name), (vec![], false, 73));
}

#[test]
fn compact_list_title_and_row_parts() {
    let f = file();
    let store = MultiStore { sources: vec![slot("AA", SourceLoad::Loaded(f.clone()))] };
    let mut app = BenchmarksApp::new(Some(&f));
    app.search_query = "b".to_string();
    assert_eq!(compact_title(&app, &store), " Models (2) [/b] \u{2193}Date ");
    assert_eq!(compact_name_width(30, CreatorGrouping::Ungrouped), 21);
    assert_eq!(compact_name_width(30, CreatorGrouping::ByType), 17);
    assert_eq!(compact_name_width(5, CreatorGrouping::ByRegion), 0);
}

#[test]
fn selection_markers_and_tags() {
    let sel = vec![4, 9, 2];
    assert_eq!(
        selection_marker(&sel, 2, false),
        Some(TextSpan { text: "\u{25CF} ".to_string(), color: Some(compare_colors(2)) })
    );
    assert_eq!(selection_marker(&sel, 7, true), Some(TextSpan { text: "  ".to_string(), color: None }));
    assert_eq!(selection_marker(&sel, 7, false), None);
    assert_eq!(
        creator_tag(CreatorGrouping::ByRegion, "mistral"),
        Some(TextSpan { text: "EU  ".to_string(), color: Some(CreatorRegion::Europe.color()) })
    );
    let t = CreatorType::from_creator("google");
    assert_eq!(
        creator_tag(CreatorGrouping::ByType, "google"),
        Some(TextSpan { text: format!("{:<4}", t.short_label()), color: Some(t.color()) })
    );
    assert_eq!(creator_tag(CreatorGrouping::Ungrouped, "google"), None);
}

#[test]
fn leaderboard_value_cells() {
    assert_eq!(list_value_cell("71.3"), ("        71.3".to_string(), false));
    assert_eq!(list_value_cell("\u{2014}"), (format!("{}\u{2014}", " ".repeat(11)), true));
}

/// A source with `n` index metrics ("M{i}", id "m{i}") and one model scored on all of them.
fn file_with_n_metrics(n: usize) -> SourceFile {
    let metrics: Vec<MetricDef> = (0..n)
        .map(|i| MetricDef {
            id: format!("m{i}"),
            label: format!("M{i}"),
            short_label: None,
            kind: MetricKind::Index,
            group: "G".into(),
            higher_is_better: true,
            last_updated: None,
            description: None,
        })
        .collect();
    let scores = (0..n)
        .map(|i| MetricScore { metric_id: format!("m{i}"), cell: ScoreCell { order_key: i as i64 * 10 } })
        .collect();
    SourceFile {
        source: SourceMeta {
            id: "t".into(),
            name: "T".into(),
            url: "https://example.com".into(),
            fetched_at: "2026-06-10T00:00:00+00:00".into(),
            verified: true,
        },
        metrics,
        models: vec![ModelRow {
            id: "model-a".into(),
            name: "Model A".into(),
            display_name: "Model A".into(),
            creator: "openai".into(),
            creator_name: "OpenAI".into(),
            release_date: Some("2026-01-01".into()),
            reasoning_status: ReasoningStatus::Unmarked,
            open_weights: None,
            context_window: None,
            scores,
        }],
    }
}

/// The leaderboard's columns at `inner_width` with no selections and no grouping.
fn width_cap(app: &BenchmarksApp, inner_width: u16) -> (Vec<usize>, bool) {
    let (cols, rel, _) = benchmark_columns(
        inner_width,
        fixed_overhead(false, CreatorGrouping::Ungrouped),
        &app.effective_columns(),
        app.sort_key,
    );
    (cols, rel)
}

#[test]
fn effective_columns_sort_auto_appended() {
    let file = file_with_n_metrics(4);
    let mut app = BenchmarksApp::new(Some(&file));
    app.sort_key = SortKey::Metric(3);
    app.visible_columns = vec![1];
    assert_eq!(app.effective_columns(), vec![1, 3]);
}

#[test]
fn name_sort_renders_no_extra_column() {
    let file = file_with_n_metrics(3);
    let mut app = BenchmarksApp::new(Some(&file));
    app.sort_key = SortKey::Name;
    app.sort_descending = false;
    app.update_filtered(&file);
    app.visible_columns = vec![];
    assert!(app.effective_columns().is_empty());
    assert_eq!(width_cap(&app, 80), (vec![], false));
}

#[test]
fn width_cap_drops_rightmost_visible_first() {
    let file = file_with_n_metrics(5);
    let mut app = BenchmarksApp::new(Some(&file));
    app.sort_key = SortKey::Metric(4);
    app.visible_columns = vec![1, 2];
    assert_eq!(app.effective_columns(), vec![1, 2, 4]);
    let (cols, rel) = width_cap(&app, 30);
    assert!(!rel);
    assert_eq!(cols, vec![4], "sort col survives, visible cols dropped");
}

#[test]
fn width_cap_sort_col_already_in_visible_not_last() {
    let file = file_with_n_metrics(5);
    let mut app = BenchmarksApp::new(Some(&file));
    app.sort_key = SortKey::Metric(2);
    app.visible_columns = vec![1, 2, 3];
    assert_eq!(app.effective_columns(), vec![1, 2, 3]);
    let (cols, rel) = width_cap(&app, 30);
    assert!(!rel);
    assert!(cols.contains(&2), "sort col (2) must survive width cap; got {cols:?}");
    assert!(!cols.contains(&3), "non-sort rightmost col (3) should be dropped; got {cols:?}");
    assert_eq!(cols, vec![2], "only sort col survives at width=30");
}

#[test]
fn width_cap_release_date_keeps_released_col() {
    let file = file_with_n_metrics(4);
    let mut app = BenchmarksApp::new(Some(&file));
    app.sort_key = SortKey::ReleaseDate;
    app.visible_columns = vec![0, 1, 2];
    assert_eq!(app.effective_columns(), vec![0, 1, 2]);
    let (cols, rel) = width_cap(&app, 30);
    assert!(rel, "released column must be kept");
    assert!(cols.is_empty(), "metric visible cols dropped at width=30; got {cols:?}");
}

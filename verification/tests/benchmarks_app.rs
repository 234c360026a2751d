use models_tui::benchmarks::app::{
    BenchmarkFocus, BenchmarksApp, BottomView, CreatorGrouping, CreatorListItem, SourceFilter,
};
use models_tui::benchmarks::radar::axes_for_group;
use models_tui::benchmarks::schema::{
    radar_groups, MetricDef, MetricKind, MetricScore, ModelRow, MultiStore, OpennessMap,
    ReasoningFilter, ReasoningStatus, ScoreCell, SortKey, SourceFile, SourceDescriptor, SourceLoad, SourceMeta, SourceSlot,
};

fn slot(name: &str, load: SourceLoad) -> SourceSlot {
    SourceSlot { descriptor: SourceDescriptor { id: name.to_lowercase(), name: name.to_string() }, load }
}

fn meta() -> SourceMeta {
    SourceMeta {
        id: "test".into(),
        name: "Test".into(),
        url: "https://example.com".into(),
        fetched_at: "2026-06-10T00:00:00+00:00".into(),
        verified: true,
    }
}

fn metric(id: &str, kind: MetricKind, group: &str, hib: bool) -> MetricDef {
    MetricDef {
        id: id.into(),
        label: id.to_uppercase(),
        short_label: None,
        kind,
        group: group.into(),
        higher_is_better: hib,
        last_updated: None,
        description: None,
    }
}

fn model(
    id: &str,
    creator: &str,
    reasoning: ReasoningStatus,
    release: Option<&str>,
    scores: &[(&str, i64)],
) -> ModelRow {
    ModelRow {
        id: id.into(),
        name: id.into(),
        display_name: id.into(),
        creator: creator.into(),
        creator_name: creator.to_uppercase(),
        release_date: release.map(str::to_string),
        reasoning_status: reasoning,
        open_weights: None,
        context_window: None,
        scores: scores
            .iter()
            .map(|(mid, v)| MetricScore { metric_id: (*mid).to_string(), cell: ScoreCell { order_key: *v } })
            .collect(),
    }
}

/// Index + percentage + speed + price metrics, 3 models.
fn sample_file() -> SourceFile {
    SourceFile {
        source: meta(),
        metrics: vec![
            metric("intelligence_index", MetricKind::Index, "Indexes", true),
            metric("coding_index", MetricKind::Index, "Indexes", true),
            metric("math_index", MetricKind::Index, "Indexes", true),
            metric("gpqa", MetricKind::Percentage, "Academic", true),
            metric("mmlu_pro", MetricKind::Percentage, "Academic", true),
            metric("hle", MetricKind::Percentage, "Academic", true),
            metric("output_tps", MetricKind::TokensPerSec, "Performance", true),
            metric("price_input", MetricKind::UsdPerMTok, "Pricing", false),
        ],
        models: vec![
            model(
                "alpha-1",
                "openai",
                ReasoningStatus::Reasoning,
                Some("2026-01-01"),
                &[("intelligence_index", 70), ("output_tps", 120), ("price_input", 2)],
            ),
            model(
                "beta-1",
                "meta",
                ReasoningStatus::NonReasoning,
                Some("2026-02-01"),
                &[("intelligence_index", 60), ("price_input", 1)],
            ),
            model("gamma-1", "anthropic", ReasoningStatus::Unmarked, None, &[("coding_index", 80)]),
        ],
    }
}

fn store_with(file: SourceFile) -> MultiStore {
    MultiStore {
        sources: vec![
            slot("AA", SourceLoad::Loaded(file.clone())),
            slot("Epoch AI", SourceLoad::Loaded(file.clone())),
            slot("LM", SourceLoad::Loaded(file)),
        ],
    }
}

#[test]
fn new_with_no_file_is_empty() {
    let app = BenchmarksApp::new(None);
    assert!(app.filtered_indices.is_empty());
    assert_eq!(app.active_source, 0);
    assert_eq!(app.sort_key, SortKey::ReleaseDate);
    assert!(app.loading);
}

#[test]
fn new_builds_filtered_and_creators() {
    let file = sample_file();
    let app = BenchmarksApp::new(Some(&file));
    // Release-date sort drops the dateless gamma-1.
    assert_eq!(app.filtered_indices.len(), 2);
    // "All" + 3 creators.
    assert_eq!(app.creator_list_items.len(), 4);
}

#[test]
fn default_sort_release_date_descending() {
    let file = sample_file();
    let app = BenchmarksApp::new(Some(&file));
    assert_eq!(app.sort_key, SortKey::ReleaseDate);
    let first = app.current_model(&file).unwrap();
    assert_eq!(first.id, "beta-1");
    assert_eq!(app.filtered_indices.len(), 2);
}

#[test]
fn metric_sort_drops_missing() {
    let file = sample_file();
    let mut app = BenchmarksApp::new(Some(&file));
    app.quick_sort(SortKey::Metric(0), &file);
    assert_eq!(app.filtered_indices.len(), 2);
    let first = app.current_model(&file).unwrap();
    assert_eq!(first.id, "alpha-1");
}

#[test]
fn quick_sort_toggles_direction_when_same_key() {
    let file = sample_file();
    let mut app = BenchmarksApp::new(Some(&file));
    app.quick_sort(SortKey::Metric(0), &file);
    assert!(app.sort_descending);
    app.quick_sort(SortKey::Metric(0), &file);
    assert!(!app.sort_descending);
}

#[test]
fn quick_sort_speed_finds_tokens_per_sec() {
    let file = sample_file();
    assert_eq!(BenchmarksApp::quick_sort_speed(&file), Some(SortKey::Metric(6)));
}

#[test]
fn quick_sort_speed_none_without_tokens_metric() {
    let mut file = sample_file();
    file.metrics.retain(|m| m.kind != MetricKind::TokensPerSec);
    assert_eq!(BenchmarksApp::quick_sort_speed(&file), None);
}

#[test]
fn quick_sort_metric_first_present() {
    let file = sample_file();
    assert_eq!(BenchmarksApp::quick_sort_metric_first(&file), Some(SortKey::Metric(0)));
    let empty = SourceFile { source: meta(), metrics: vec![], models: vec![] };
    assert_eq!(BenchmarksApp::quick_sort_metric_first(&empty), None);
}

#[test]
fn sort_options_order() {
    let file = sample_file();
    let opts = BenchmarksApp::sort_options(&file);
    assert_eq!(opts.len(), 2 + 8);
    assert_eq!(opts[0].key, SortKey::ReleaseDate);
    assert_eq!(opts[1].key, SortKey::Name);
    assert_eq!(opts[2].key, SortKey::Metric(0));
    assert_eq!(opts[2].label, "INTELLIGENCE_INDEX");
}

#[test]
fn sort_label_uses_metric_label() {
    let file = sample_file();
    assert_eq!(BenchmarksApp::sort_label(Some(&file), SortKey::Metric(6)), "OUTPUT_TPS");
    assert_eq!(BenchmarksApp::sort_label(Some(&file), SortKey::ReleaseDate), "Date");
    assert_eq!(BenchmarksApp::sort_label(Some(&file), SortKey::Name), "Name");
}

#[test]
fn reasoning_filter_available_helper() {
    let file = sample_file();
    assert!(BenchmarksApp::reasoning_filter_available(Some(&file)));
    let mut plain = sample_file();
    for m in &mut plain.models {
        m.reasoning_status = ReasoningStatus::Unmarked;
    }
    assert!(!BenchmarksApp::reasoning_filter_available(Some(&plain)));
    assert!(!BenchmarksApp::reasoning_filter_available(None));
}

#[test]
fn reasoning_filter_filters_models() {
    let file = sample_file();
    let mut app = BenchmarksApp::new(Some(&file));
    app.cycle_reasoning_filter(&file);
    assert_eq!(app.reasoning_filter, ReasoningFilter::Reasoning);
    assert_eq!(app.filtered_indices.len(), 1);
    assert_eq!(app.current_model(&file).unwrap().id, "alpha-1");
}

#[test]
fn search_filters_by_name_and_creator() {
    let file = sample_file();
    let mut app = BenchmarksApp::new(Some(&file));
    app.quick_sort(SortKey::Name, &file);
    app.search_query = "anthropic".to_string();
    app.rebuild_after_filter_change(&file);
    assert_eq!(app.filtered_indices.len(), 1);
    assert_eq!(app.current_model(&file).unwrap().id, "gamma-1");
}

#[test]
fn creator_filter_restricts_list() {
    let file = sample_file();
    let mut app = BenchmarksApp::new(Some(&file));
    let pos = app
        .creator_list_items
        .iter()
        .position(|i| matches!(i, CreatorListItem::Creator(s) if s == "meta"))
        .unwrap();
    app.selected_creator = pos;
    app.update_filtered(&file);
    assert_eq!(app.filtered_indices.len(), 1);
    assert_eq!(app.current_model(&file).unwrap().id, "beta-1");
}

#[test]
fn cycle_scatter_wraps() {
    let file = sample_file();
    let mut app = BenchmarksApp::new(Some(&file));
    assert_eq!(app.scatter_x, 0);
    assert_eq!(app.scatter_y, 1);
    for _ in 0..8 {
        app.cycle_scatter_x(&file);
    }
    assert_eq!(app.scatter_x, 0);
}

#[test]
fn cycle_radar_group_wraps() {
    let file = sample_file();
    assert_eq!(radar_groups(&file).len(), 2);
    let mut app = BenchmarksApp::new(Some(&file));
    assert_eq!(app.radar_group, 0);
    app.cycle_radar_group(&file);
    assert_eq!(app.radar_group, 1);
    app.cycle_radar_group(&file);
    assert_eq!(app.radar_group, 0);
}

#[test]
fn switch_source_resets_state() {
    let file = sample_file();
    let store = store_with(file.clone());
    let mut app = BenchmarksApp::new(Some(&file));
    app.search_query = "anthropic".to_string();
    app.rebuild_after_filter_change(&file);
    app.sort_key = SortKey::Metric(3);
    app.sort_descending = false;
    app.source_filter = SourceFilter::Open;
    app.reasoning_filter = ReasoningFilter::Reasoning;
    app.scatter_x = 4;
    app.scatter_y = 5;
    app.radar_group = 1;
    app.selected = 0;
    app.show_detail_overlay = true;

    app.switch_source(&store, true);
    assert_eq!(app.active_source, 1);
    assert!(app.search_query.is_empty());
    assert_eq!(app.source_filter, SourceFilter::All);
    assert_eq!(app.reasoning_filter, ReasoningFilter::All);
    assert_eq!(app.sort_key, SortKey::ReleaseDate);
    assert!(app.sort_descending);
    assert_eq!(app.scatter_x, 0);
    assert_eq!(app.scatter_y, 1);
    assert_eq!(app.radar_group, 0);
    assert!(!app.show_detail_overlay);
    assert_eq!(app.creator_grouping, CreatorGrouping::Ungrouped);
    assert_eq!(app.filtered_indices.len(), 2);
}

#[test]
fn reset_for_source_loading_shows_empty() {
    let store = MultiStore { sources: vec![slot("AA", SourceLoad::Loading)] };
    let mut app = BenchmarksApp::new(None);
    app.reset_for_source(&store);
    assert!(app.loading);
    assert!(app.filtered_indices.is_empty());
    assert_eq!(app.creator_list_items, vec![CreatorListItem::All]);
}

#[test]
fn open_weights_filter_prefers_model_then_creator() {
    let mut file = sample_file();
    file.models[0].open_weights = Some(true);
    let mut app = BenchmarksApp::new(Some(&file));
    let mut openness = OpennessMap::new();
    openness.insert("openai", false);
    openness.insert("meta", true);
    app.creator_openness = openness;

    app.source_filter = SourceFilter::Open;
    app.update_filtered(&file);
    let open_ids: Vec<&str> =
        app.filtered_indices.iter().map(|&i| file.models[i].id.as_str()).collect();
    assert_eq!(app.filtered_indices.len(), 2);
    assert!(open_ids.contains(&"alpha-1"));
    assert!(open_ids.contains(&"beta-1"));

    app.source_filter = SourceFilter::Closed;
    app.update_filtered(&file);
    assert_eq!(app.filtered_indices.len(), 0);
}

#[test]
fn focus_right_browse_mode_cycles() {
    let mut app = BenchmarksApp::new(None);
    app.focus = BenchmarkFocus::Creators;
    app.focus_right(false);
    assert_eq!(app.focus, BenchmarkFocus::List);
    app.focus_right(false);
    assert_eq!(app.focus, BenchmarkFocus::Details);
    app.focus_right(false);
    assert_eq!(app.focus, BenchmarkFocus::Creators);
}

#[test]
fn cycle_bottom_view_order() {
    let mut app = BenchmarksApp::new(None);
    app.bottom_view = BottomView::H2H;
    app.cycle_bottom_view();
    assert_eq!(app.bottom_view, BottomView::Scatter);
    app.cycle_bottom_view();
    assert_eq!(app.bottom_view, BottomView::Radar);
    app.cycle_bottom_view();
    assert_eq!(app.bottom_view, BottomView::H2H);
}

#[test]
fn h2h_scroll_methods() {
    let mut app = BenchmarksApp::new(None);
    assert_eq!(app.h2h_scroll.get(), 0);
    app.scroll_h2h_down();
    assert_eq!(app.h2h_scroll.get(), 1);
    app.scroll_h2h_page_down(10);
    assert_eq!(app.h2h_scroll.get(), 11);
    app.scroll_h2h_page_up(100);
    assert_eq!(app.h2h_scroll.get(), 0);
}

#[test]
fn axes_helper_sanity_for_app_file() {
    let file = sample_file();
    let axes = axes_for_group(&file, 1);
    let idx: Vec<usize> = axes.iter().map(|a| a.metric_idx).collect();
    assert_eq!(idx, vec![3, 4, 5]);
}

#[test]
fn switch_source_to_unloaded_source_sorts_by_release_date() {
    let file = sample_file();
    let store = MultiStore {
        sources: vec![slot("AA", SourceLoad::Loaded(file.clone())), slot("Epoch AI", SourceLoad::Loading)],
    };
    let mut app = BenchmarksApp::new(Some(&file));
    app.sort_key = SortKey::Metric(3);
    app.sort_descending = false;
    app.switch_source(&store, true);
    assert_eq!(app.active_source, 1);
    assert_eq!(app.sort_key, SortKey::ReleaseDate);
    assert!(app.sort_descending);
    assert!(app.loading);
    assert!(app.filtered_indices.is_empty());
    assert_eq!(app.creator_list_items, vec![CreatorListItem::All]);
    app.switch_source(&store, false);
    assert_eq!(app.active_source, 0);
    assert!(!app.loading);
    assert_eq!(app.filtered_indices.len(), 2);
}

#[test]
fn active_descriptor_names_the_slot() {
    let store = store_with(sample_file());
    let d = BenchmarksApp::active_descriptor(&store, 1).unwrap();
    assert_eq!(d.name, "Epoch AI");
    assert_eq!(d.id, "epoch ai");
    assert!(BenchmarksApp::active_descriptor(&store, 3).is_none());
}

#[test]
fn creators_with_equal_names_keep_first_seen_order() {
    let mut first = model("b-1", "b-lab", ReasoningStatus::Unmarked, Some("2026-01-01"), &[]);
    first.creator_name = "Same Lab".into();
    let mut second = model("a-1", "a-lab", ReasoningStatus::Unmarked, Some("2026-01-02"), &[]);
    second.creator_name = "same lab".into();
    let file = SourceFile { source: meta(), metrics: vec![], models: vec![first, second] };
    let app = BenchmarksApp::new(Some(&file));
    assert_eq!(
        app.creator_list_items,
        vec![
            CreatorListItem::All,
            CreatorListItem::Creator("b-lab".to_string()),
            CreatorListItem::Creator("a-lab".to_string()),
        ]
    );
}

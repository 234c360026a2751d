use models_tui::benchmarks::compare::{rank_values, truncate_label};
use models_tui::benchmarks::glossary::{glossary_lines, GlossaryLine};
use models_tui::benchmarks::radar::{active_group_label, axes_for_group, MAX_AXES};
use models_tui::benchmarks::render::{group_header_suffix, list_value_header, ComparatorMode};
use models_tui::benchmarks::schema::{
    metric_score, MetricDef, MetricKind, MetricScore, ModelRow, ReasoningStatus, ScoreCell,
    SortKey, SourceFile, SourceMeta,
};
use models_tui::formatting::{format_relative_at, format_relative_time_from_str};
use unicode_width::UnicodeWidthStr;

fn meta() -> SourceMeta {
    SourceMeta {
        id: "test".into(),
        name: "Test".into(),
        url: "https://example.com".into(),
        fetched_at: "2026-06-10T00:00:00+00:00".into(),
        verified: true,
    }
}

fn metric(id: &str, kind: MetricKind, group: &str, hib: bool) -> MetricDef {
    MetricDef {
        id: id.into(),
        label: id.to_uppercase(),
        short_label: None,
        kind,
        group: group.into(),
        higher_is_better: hib,
        last_updated: None,
        description: None,
    }
}

fn labelled(id: &str, label: &str, kind: MetricKind, group: &str) -> MetricDef {
    MetricDef {
        id: id.into(),
        label: label.into(),
        short_label: None,
        kind,
        group: group.into(),
        higher_is_better: true,
        last_updated: None,
        description: None,
    }
}

fn model(id: &str, scores: &[(&str, i64)]) -> ModelRow {
    ModelRow {
        id: id.into(),
        name: id.into(),
        display_name: id.into(),
        creator: "openai".into(),
        creator_name: "OpenAI".into(),
        release_date: None,
        reasoning_status: ReasoningStatus::Unmarked,
        open_weights: None,
        context_window: None,
        scores: scores
            .iter()
            .map(|(mid, v)| MetricScore { metric_id: (*mid).to_string(), cell: ScoreCell { order_key: *v } })
            .collect(),
    }
}

fn compare_file() -> SourceFile {
    SourceFile {
        source: meta(),
        metrics: vec![
            metric("intelligence_index", MetricKind::Index, "Indexes", true),
            metric("price_input", MetricKind::UsdPerMTok, "Pricing", false),
        ],
        models: vec![
            model("alpha", &[("intelligence_index", 70), ("price_input", 2)]),
            model("beta", &[("intelligence_index", 60), ("price_input", 1)]),
            model("gamma", &[("intelligence_index", 80)]),
        ],
    }
}

/// One radar-eligible group ("Indexes": 3 higher-is-better metrics) and one
/// non-eligible group ("Pricing": lower-is-better).
fn radar_file() -> SourceFile {
    SourceFile {
        source: meta(),
        metrics: vec![
            metric("intelligence_index", MetricKind::Index, "Indexes", true),
            metric("coding_index", MetricKind::Index, "Indexes", true),
            metric("math_index", MetricKind::Index, "Indexes", true),
            metric("price_input", MetricKind::UsdPerMTok, "Pricing", false),
        ],
        models: vec![model(
            "alpha",
            &[("intelligence_index", 70), ("coding_index", 60), ("math_index", 50)],
        )],
    }
}

fn key(cell: Option<ScoreCell>) -> Option<i64> {
    cell.map(|c| c.order_key)
}

#[test]
fn metric_value_present_and_missing() {
    let file = compare_file();
    assert_eq!(key(metric_score(&file, &file.models[0], 0)), Some(70));
    assert_eq!(key(metric_score(&file, &file.models[2], 1)), None);
    assert_eq!(key(metric_score(&file, &file.models[0], 9)), None);
}

#[test]
fn rank_values_higher_is_better() {
    let ranks = rank_values(&vec![Some(70), Some(60), Some(80)], true);
    assert_eq!(ranks, vec![Some(2), Some(3), Some(1)]);
}

#[test]
fn rank_values_lower_is_better() {
    let ranks = rank_values(&vec![Some(2), Some(1), None], false);
    assert_eq!(ranks, vec![Some(2), Some(1), None]);
}

#[test]
fn rank_values_all_missing() {
    let ranks = rank_values(&vec![None, None], true);
    assert_eq!(ranks, vec![None, None]);
}

#[test]
fn rank_values_ties_keep_input_order() {
    let ranks = rank_values(&vec![Some(5), Some(9), Some(5), None, Some(1)], true);
    assert_eq!(ranks, vec![Some(2), Some(1), Some(3), None, Some(4)]);
}

#[test]
fn truncate_label_fits() {
    assert_eq!(truncate_label("GPQA", 14), "GPQA");
}

#[test]
fn truncate_label_clips() {
    let clipped = truncate_label("ThisLabelIsWayTooLong", 14);
    assert!(clipped.width() <= 13);
    assert_eq!(clipped, "ThisLabelIsWa");
}

#[test]
fn truncate_label_counts_wide_chars_by_width() {
    // Each CJK ideograph is two columns wide: 5 columns fit two of them.
    assert_eq!(truncate_label("\u{6f22}\u{5b57}\u{6f22}\u{5b57}", 6), "\u{6f22}\u{5b57}");
    assert_eq!(truncate_label("abc", 0), "");
}

#[test]
fn axes_for_group_filters_to_higher_is_better() {
    let file = radar_file();
    let axes = axes_for_group(&file, 0);
    assert_eq!(axes.len(), 3);
    assert_eq!(axes[0].metric_idx, 0);
    assert_eq!(axes[2].metric_idx, 2);
}

#[test]
fn axes_for_group_caps_at_max_axes() {
    let mut file = radar_file();
    for i in 0..5 {
        file.metrics.push(metric(&format!("extra_{i}"), MetricKind::Index, "Indexes", true));
    }
    let axes = axes_for_group(&file, 0);
    assert_eq!(axes.len(), MAX_AXES);
}

#[test]
fn axes_for_group_out_of_range_is_empty() {
    let file = radar_file();
    assert!(axes_for_group(&file, 99).is_empty());
}

#[test]
fn active_group_label_resolves() {
    let file = radar_file();
    assert_eq!(active_group_label(&file, 0), "Indexes");
    assert_eq!(active_group_label(&file, 99), "\u{2014}");
}

#[test]
fn list_value_header_labels() {
    let file = SourceFile {
        source: meta(),
        metrics: vec![
            labelled("gpqa", "GPQA", MetricKind::Percentage, "Academic"),
            labelled("intelligence_index", "Intelligence", MetricKind::Index, "Indexes"),
        ],
        models: vec![],
    };
    assert_eq!(list_value_header(Some(&file), SortKey::Name), "");
    assert_eq!(list_value_header(Some(&file), SortKey::ReleaseDate), "Released");
    assert_eq!(list_value_header(Some(&file), SortKey::Metric(0)), "GPQA");
    assert_eq!(list_value_header(Some(&file), SortKey::Metric(1)), "Intellig...");
}

#[test]
fn list_value_header_uses_short_label() {
    let mut file = SourceFile {
        source: meta(),
        metrics: (0..3).map(|i| labelled(&format!("m{i}"), &format!("M{i}"), MetricKind::Index, "G")).collect(),
        models: vec![],
    };
    file.metrics[0].short_label = Some("Idx".to_string());
    assert_eq!(list_value_header(Some(&file), SortKey::Metric(0)), "Idx");
    assert_eq!(list_value_header(Some(&file), SortKey::Metric(1)), "M1");
}

#[test]
fn list_value_header_without_file_or_metric() {
    assert_eq!(list_value_header(None, SortKey::Metric(0)), "\u{2014}");
    assert_eq!(list_value_header(None, SortKey::ReleaseDate), "Released");
    let file = compare_file();
    assert_eq!(list_value_header(Some(&file), SortKey::Metric(7)), "\u{2014}");
}

#[test]
fn fetched_at_timestamp_parses_to_relative() {
    let out = format_relative_time_from_str("2026-06-10T20:37:40.687663442+00:00");
    assert!(out.ends_with("ago"), "expected relative time, got: {out}");
}

#[test]
fn comparator_title_suffix_per_mode() {
    assert_eq!(ComparatorMode::Off.title_suffix(), "");
    assert_eq!(ComparatorMode::FieldAvg.title_suffix(), " \u{00B7} vs field avg");
    assert_eq!(ComparatorMode::PeerAvg.title_suffix(), " \u{00B7} vs peers (\u{00B1}6mo)");
    assert_eq!(ComparatorMode::Rank.title_suffix(), " \u{00B7} rank");
}

#[test]
fn comparator_mode_cycles() {
    let m = ComparatorMode::default();
    assert_eq!(m, ComparatorMode::FieldAvg);
    let m = m.next();
    assert_eq!(m, ComparatorMode::PeerAvg);
    let m = m.next();
    assert_eq!(m, ComparatorMode::Rank);
    let m = m.next();
    assert_eq!(m, ComparatorMode::Off);
    let m = m.next();
    assert_eq!(m, ComparatorMode::FieldAvg);
}

fn full(id: &str, label: &str, kind: MetricKind, group: &str, hib: bool, updated: Option<&str>, desc: Option<&str>) -> MetricDef {
    MetricDef {
        id: id.into(),
        label: label.into(),
        short_label: None,
        kind,
        group: group.into(),
        higher_is_better: hib,
        last_updated: updated.map(str::to_string),
        description: desc.map(str::to_string),
    }
}

fn line_text(l: &GlossaryLine) -> String {
    match l {
        GlossaryLine::Blank => String::new(),
        GlossaryLine::Section(t, Some(k)) => format!("{t} ({k})"),
        GlossaryLine::Section(t, None) => t.clone(),
        GlossaryLine::Label(s) | GlossaryLine::Meta(s) | GlossaryLine::Description(s) => s.clone(),
        GlossaryLine::NoDescription => "\u{2014}".to_string(),
        GlossaryLine::NoMetrics => "No metrics for this source".to_string(),
    }
}

fn glossary_text(file: &SourceFile) -> String {
    glossary_lines(file).iter().map(line_text).collect::<Vec<_>>().join("\n")
}

#[test]
fn glossary_includes_description_and_meta() {
    let file = SourceFile {
        source: meta(),
        metrics: vec![full("gpqa", "GPQA Diamond", MetricKind::Percentage, "Academic", true, Some("2026-05-28"),
            Some("Graduate-level science questions; accuracy."))],
        models: vec![],
    };
    let joined = glossary_text(&file);
    assert!(joined.contains("Academic"));
    assert!(joined.contains("GPQA Diamond"));
    assert!(!joined.contains('\u{25B2}') && !joined.contains('\u{25BC}'));
    assert!(joined.contains("% score"), "{joined}");
    assert!(joined.contains("higher is better"), "{joined}");
    assert!(joined.contains("updated 2026-05-28"), "{joined}");
    assert!(joined.contains("Graduate-level science questions; accuracy."));
}

#[test]
fn glossary_none_description_is_em_dash() {
    let file = SourceFile {
        source: meta(),
        metrics: vec![full("elo_text", "Text", MetricKind::Elo, "Arena Elo", true, None, None)],
        models: vec![],
    };
    let lines = glossary_lines(&file);
    let joined = glossary_text(&file);
    assert!(joined.contains("Text"));
    assert!(joined.contains("Elo rating"));
    assert!(!joined.contains("updated "));
    assert!(lines.contains(&GlossaryLine::NoDescription));
}

#[test]
fn glossary_meta_trims_rfc3339_last_updated_to_date() {
    let file = SourceFile {
        source: meta(),
        metrics: vec![full("agents", "Agents", MetricKind::Index, "Categories", true,
            Some("2026-06-11T00:59:59.929424Z"), Some("Agentic capability."))],
        models: vec![],
    };
    let joined = glossary_text(&file);
    assert!(joined.contains("updated 2026-06-11"), "{joined}");
    assert!(!joined.contains("00:59:59"), "{joined}");
}

#[test]
fn glossary_orders_groups_and_metrics() {
    let file = SourceFile {
        source: meta(),
        metrics: vec![
            full("idx", "Intelligence Index", MetricKind::Index, "Indexes", true, None, Some("Composite.")),
            full("gpqa", "GPQA", MetricKind::Percentage, "Academic", true, None, Some("Science.")),
        ],
        models: vec![],
    };
    let lines = glossary_lines(&file);
    let idx_pos = lines.iter().position(|l| matches!(l, GlossaryLine::Section(t, _) if t == "Indexes")).unwrap();
    let acad_pos = lines.iter().position(|l| matches!(l, GlossaryLine::Section(t, _) if t == "Academic")).unwrap();
    assert!(idx_pos < acad_pos);
    assert_eq!(lines[idx_pos], GlossaryLine::Section("Indexes".to_string(), Some("index".to_string())));
}

#[test]
fn glossary_layout_and_empty_source() {
    let file = SourceFile {
        source: meta(),
        metrics: vec![
            full("a", "A", MetricKind::Index, "G1", true, Some("2026-01-02 10:00"), Some("")),
            full("b", "B", MetricKind::Seconds, "G2", false, None, Some("Latency.")),
        ],
        models: vec![],
    };
    let lines = glossary_lines(&file);
    assert_eq!(lines, vec![
        GlossaryLine::Section("G1".to_string(), Some("index".to_string())),
        GlossaryLine::Blank,
        GlossaryLine::Label("A".to_string()),
        GlossaryLine::Meta("index \u{00B7} higher is better  updated 2026-01-02".to_string()),
        GlossaryLine::NoDescription,
        GlossaryLine::Blank,
        GlossaryLine::Blank,
        GlossaryLine::Section("G2".to_string(), Some("seconds".to_string())),
        GlossaryLine::Blank,
        GlossaryLine::Label("B".to_string()),
        GlossaryLine::Meta("seconds \u{00B7} lower is better".to_string()),
        GlossaryLine::Description("Latency.".to_string()),
        GlossaryLine::Blank,
    ]);
    let empty = SourceFile { source: meta(), metrics: vec![], models: vec![] };
    assert_eq!(glossary_lines(&empty), vec![GlossaryLine::NoMetrics]);
}

#[test]
fn uniform_group_gets_kind_and_direction_suffix() {
    let file = SourceFile {
        source: meta(),
        metrics: vec![
            full("price_input", "Input Price", MetricKind::UsdPerMTok, "Pricing", false, None, None),
            full("price_output", "Output Price", MetricKind::UsdPerMTok, "Pricing", false, None, None),
        ],
        models: vec![],
    };
    assert_eq!(group_header_suffix(&file, "Pricing"), Some("$ per 1M tokens \u{00B7} lower is better".to_string()));
    assert_eq!(group_header_suffix(&file, "Missing"), None);
}

#[test]
fn mixed_group_gets_no_kind_suffix() {
    let file = SourceFile {
        source: meta(),
        metrics: vec![
            full("output_tps", "Output Speed", MetricKind::TokensPerSec, "Performance", true, None, None),
            full("ttft", "TTFT", MetricKind::Seconds, "Performance", false, None, None),
            full("a", "A", MetricKind::Index, "Mixed", true, None, None),
            full("b", "B", MetricKind::Elo, "Mixed", true, None, None),
        ],
        models: vec![],
    };
    assert_eq!(group_header_suffix(&file, "Performance"), None);
    assert_eq!(group_header_suffix(&file, "Mixed"), Some("higher is better".to_string()));
}

#[test]
fn relative_age_is_measured_from_the_given_clock() {
    let t: i64 = 1781049600; // 2026-06-10T00:00:00Z
    assert_eq!(format_relative_at("2026-06-10T00:00:00Z", t + 42), "42s ago");
    assert_eq!(format_relative_at("2026-06-10T00:00:00Z", t + 90), "1m ago");
    assert_eq!(format_relative_at("2026-06-10T00:00:00+00:00", t + 7200), "2h ago");
    assert_eq!(format_relative_at("2026-06-10T02:00:00+02:00", t + 3 * 86400), "3d ago");
    assert_eq!(format_relative_at("2026-06-10T00:00:00Z", t - 5), "just now");
    assert_eq!(format_relative_at("yesterday", t), "yesterday");
}

use models_tui::models::app::{
    ModelEntry, ModelIdentityProvenance, ModelInfo, ModelsApp, ProviderCategory, ProviderInfo, SortOrder,
};
use models_tui::models::grouping::ResolvedIdentity;
use models_tui::models::list_view::{
    count_distinct_providers, flat_columns, flat_display_name, flat_header, flat_title, group_columns, group_header,
    group_display_name, group_title, lab_cell, list_title, name_cell, provider_cell, providers_cell,
    sort_indicator, value_cell, GroupColumn, HeaderCell, HeaderStyle, context_range_parts, RangeParts,
    provider_picker_size, provider_picker_title, all_models_row, flat_caps,
};
use models_tui::models::render::ModelListColumn;
use models_tui::palette::{TermColor, TextSpan};

fn model(name: &str) -> ModelInfo {
    ModelInfo {
        name: name.to_string(),
        reasoning: false,
        tool_call: false,
        attachment: false,
        open_weights: false,
        free: false,
        input_cost: None,
        output_cost: None,
        context: None,
        release_date: None,
    }
}

fn provider(id: &str, name: &str, models: Vec<(String, ModelInfo)>) -> ProviderInfo {
    ProviderInfo {
        id: id.to_string(),
        name: name.to_string(),
        category: ProviderCategory::Origin,
        models,
        doc: None,
        api: None,
        env: vec![],
    }
}

fn providers() -> Vec<ProviderInfo> {
    let alpha_models = (0..3).map(|i| (format!("m{i}"), model(&format!("Model {i}")))).collect();
    vec![
        provider("alpha", "Alpha", alpha_models),
        provider("beta", "Beta", vec![("b0".to_string(), model("B0"))]),
    ]
}

fn snapshot(ps: &[ProviderInfo]) -> Vec<ResolvedIdentity> {
    let mut out = Vec::new();
    for p in ps {
        for (mid, m) in &p.models {
            out.push(ResolvedIdentity {
                provider_id: p.id.clone(),
                model_id: mid.clone(),
                key: format!("{}/{}", p.id, mid),
                name: m.name.clone(),
                lab: None,
                fallback_lab: None,
                provenance: ModelIdentityProvenance::InferredPeer,
            });
        }
    }
    out
}

fn entry(provider: &str, id: &str) -> ModelEntry {
    ModelEntry { id: id.to_string(), model: model(id), provider_id: provider.to_string(), identity: None }
}

fn cell(text: &str, style: HeaderStyle) -> HeaderCell {
    HeaderCell { text: text.to_string(), style }
}

#[test]
fn sort_indicator_and_titles() {
    assert_eq!(sort_indicator(SortOrder::Default, true), "");
    assert_eq!(sort_indicator(SortOrder::Cost, true), " \u{2191}cost");
    assert_eq!(sort_indicator(SortOrder::ReleaseDate, false), " \u{2193}date");
    assert_eq!(sort_indicator(SortOrder::Context, false), " \u{2193}ctx");
    assert_eq!(list_title("Models", "4", "", "", ""), " Models (4) ");
    assert_eq!(list_title("Models", "4", "", "free", " \u{2191}cost"), " Models (4) \u{2191}cost [free] ");
    assert_eq!(list_title("Alpha", "2", "gpt", "", " \u{2193}ctx"), " Alpha (2) [/gpt] \u{2193}ctx ");
    assert_eq!(list_title("Alpha", "2", "gpt", "open", ""), " Alpha (2) [/gpt] [open] ");
}

#[test]
fn flat_columns_shed_from_the_right_and_keep_sorted_column() {
    let (provider, input, output, context) = (ModelListColumn::Provider, ModelListColumn::Input, ModelListColumn::Output, ModelListColumn::Context);
    assert_eq!(flat_columns(100, SortOrder::Default), (vec![provider, input, output, context], 51));
    assert_eq!(flat_columns(40, SortOrder::Default), (vec![provider], 18));
    assert_eq!(flat_columns(40, SortOrder::Cost), (vec![input], 24));
    assert_eq!(flat_columns(30, SortOrder::Cost), (vec![], 23));
    assert_eq!(flat_columns(10, SortOrder::Default), (vec![], 10));
    assert_eq!(flat_columns(60, SortOrder::Context), (vec![provider, input, context], 20));
}

#[test]
fn group_columns_shed_and_swap() {
    let (lab, providers, input, output, context) = (GroupColumn::Lab, GroupColumn::Providers, GroupColumn::Input, GroupColumn::Output, GroupColumn::Context);
    assert_eq!(group_columns(100, SortOrder::Context), (vec![lab, providers, input, output, context], 30));
    // the sorted column is one cell wider than the Providers column it replaces
    assert_eq!(group_columns(36, SortOrder::Cost), (vec![input], 17));
    assert_eq!(group_columns(52, SortOrder::Context), (vec![lab, context], 17));
    assert_eq!(group_columns(52, SortOrder::Default), (vec![lab, providers], 18));
    assert_eq!(GroupColumn::Lab.width(), 16);
}

#[test]
fn flat_header_cells() {
    let cells = flat_header(&vec![ModelListColumn::Provider, ModelListColumn::Input], 10, SortOrder::Cost);
    assert_eq!(
        cells,
        vec![
            cell("  ", HeaderStyle::Plain),
            cell("RTFO ", HeaderStyle::Header),
            cell("Model     ", HeaderStyle::Header),
            cell(" Provider      ", HeaderStyle::Header),
            cell("    Input", HeaderStyle::Active),
        ]
    );
    let by_date = flat_header(&vec![ModelListColumn::Context], 5, SortOrder::ReleaseDate);
    assert_eq!(by_date[2], cell("Model", HeaderStyle::Active));
    assert_eq!(by_date[3], cell("  Context", HeaderStyle::Header));
}

#[test]
fn row_name_cells() {
    assert_eq!(name_cell("Mistral Large 2", 10), "Mistra... ");
    assert_eq!(name_cell("abc", 10), "abc       ");
    let mut e = entry("alpha", "x-1");
    e.model.name = String::new();
    e.identity = Some(ModelIdentityProvenance::InferredCanonical);
    assert_eq!(flat_display_name(&e), "\u{2248} x-1");
    e.identity = Some(ModelIdentityProvenance::AuthoritativeRef);
    e.model.name = "X One".to_string();
    assert_eq!(flat_display_name(&e), "X One");
}

#[test]
fn provider_and_value_cells() {
    let ps = providers();
    assert_eq!(provider_cell(&ps, "alpha"), format!(" Alpha{}", " ".repeat(9)));
    assert_eq!(provider_cell(&ps, "zzz-very-long-provider-id"), " zzz-very-lo...");
    let dup = vec![provider("p", "First", vec![]), provider("p", "Second", vec![])];
    assert_eq!(provider_cell(&dup, "p"), format!(" Second{}", " ".repeat(8)));
    assert_eq!(value_cell("1.2M", 8), "     1.2M");
    assert_eq!(value_cell("123456789", 8), " 123456789");
}

#[test]
fn distinct_provider_count() {
    let es = vec![entry("a", "1"), entry("b", "2"), entry("a", "3"), entry("c", "4"), entry("b", "5")];
    assert_eq!(count_distinct_providers(&es), 3);
    assert_eq!(count_distinct_providers(&vec![]), 0);
}

#[test]
fn grouped_row_cells_and_titles() {
    let ps = providers();
    let mut app = ModelsApp::new(&ps, snapshot(&ps));
    assert_eq!(group_title(&app), " Models (4) \u{2193}date ");
    app.sort_order = SortOrder::Default;
    assert_eq!(group_title(&app), " Models (4) ");
    let g = &app.groups[0];
    assert_eq!(group_display_name(g), format!("\u{2248} {}", g.name));
    assert_eq!(lab_cell(g), (format!(" \u{2014}{}", " ".repeat(14)), true));
    assert_eq!(providers_cell(g), format!("{}1", " ".repeat(10)));
    app.sort_order = SortOrder::Cost;
    app.sort_ascending = true;
    app.filters.reasoning = true;
    assert_eq!(group_title(&app), " Models (4) \u{2191}cost [reasoning] ");
}

#[test]
fn flat_and_drilled_titles() {
    let ps = providers();
    let mut app = ModelsApp::new(&ps, snapshot(&ps));
    let name = app.groups[0].name.clone();
    app.enter_selection(&ps);
    assert_eq!(flat_title(&app, &ps), format!(" Models \u{25B8} {} (1 provider) \u{2193}date ", name));
    assert!(app.escape_back(&ps));
    app.sort_order = SortOrder::Default;
    app.flat_view = true;
    app.update_filtered_models(&ps);
    assert_eq!(flat_title(&app, &ps), " Models \u{00B7} flat (4) ");
    app.search_query = "x".to_string();
    assert_eq!(flat_title(&app, &ps), " Models \u{00B7} flat (4) [/x] ");
}

#[test]
fn context_ranges_collapse_within_five_percent() {
    assert_eq!(context_range_parts(None), RangeParts::Missing);
    assert_eq!(context_range_parts(Some((128_000, 128_000))), RangeParts::Single(128_000));
    assert_eq!(context_range_parts(Some((1_000_000, 1_048_576))), RangeParts::Single(1_048_576));
    assert_eq!(context_range_parts(Some((131_072, 1_000_000))), RangeParts::Span(131_072, 1_000_000));
}

#[test]
fn provider_picker_popup() {
    assert_eq!(provider_picker_size(3, 100, 40), (46, 6));
    assert_eq!(provider_picker_size(10, 100, 40), (46, 13));
    assert_eq!(provider_picker_size(100, 30, 20), (26, 16));
    assert_eq!(provider_picker_title(5), " Provider (4) ");
    assert_eq!(provider_picker_title(0), " Provider (0) ");
    assert_eq!(all_models_row(&providers()), "All models (4)");
}

/// Inner width of the model list panel in a terminal `total` columns wide:
/// the list takes 60% of the width, less its two border columns.
fn list_inner_width(total: u16) -> u16 {
    let chunks = ratatui::layout::Layout::default()
        .direction(ratatui::layout::Direction::Horizontal)
        .constraints([ratatui::layout::Constraint::Percentage(60), ratatui::layout::Constraint::Percentage(40)])
        .split(ratatui::layout::Rect::new(0, 0, total, 40));
    chunks[0].width.saturating_sub(2)
}

/// The flat list's header line at terminal width `total`.
fn flat_header_row(total: u16, order: SortOrder) -> String {
    let (cols, name_width) = flat_columns(list_inner_width(total), order);
    flat_header(&cols, name_width, order).into_iter().map(|c| c.text).collect()
}

#[test]
fn wide_render_keeps_all_columns() {
    let header = flat_header_row(175, SortOrder::Default);
    assert!(header.contains("Provider"));
    assert!(header.contains("Input"));
    assert!(header.contains("Output"));
    assert!(header.contains("Context"));
}

#[test]
fn narrow_render_keeps_provider_sheds_numerics() {
    let header = flat_header_row(100, SortOrder::Default);
    assert!(header.contains("Provider"));
    assert!(header.contains("Input"));
    assert!(header.contains("Output"));
    assert!(!header.contains("Contex"), "Context must drop cleanly, not clip: {header:?}");
}

#[test]
fn narrow_render_sort_column_survives_drop() {
    let header = flat_header_row(100, SortOrder::Context);
    assert!(header.contains("Context"), "sort column must survive");
    assert!(header.contains("Provider"));
    assert!(!header.contains("Output"));
}

#[test]
fn very_narrow_render_keeps_name_only() {
    let header = flat_header_row(48, SortOrder::Default);
    assert!(header.contains("Model"));
    assert!(!header.contains("Provider"));
    assert!(!header.contains("Input"));
    assert!(!header.contains("Output"));
    assert!(!header.contains("Context"));
}

#[test]
fn grouped_header_shows_group_columns() {
    let (cols, name_width) = group_columns(list_inner_width(175), SortOrder::ReleaseDate);
    let header: String = group_header(&cols, name_width, SortOrder::ReleaseDate).into_iter().map(|c| c.text).collect();
    assert!(header.contains("Model"));
    assert!(header.contains("Lab"));
    assert!(header.contains("Providers"));
    assert!(header.contains("Input"));
    assert!(header.contains("Context"));
}

#[test]
fn flat_row_capability_flags() {
    let mut m = model("x");
    m.reasoning = true;
    m.attachment = true;
    let t = |text: &str, color: TermColor| TextSpan { text: text.to_string(), color: Some(color) };
    assert_eq!(
        flat_caps(&m),
        vec![
            t("R", TermColor::Cyan),
            t("\u{00B7}", TermColor::DarkGray),
            t("F", TermColor::Magenta),
            t("C", TermColor::Red),
        ]
    );
    m.open_weights = true;
    assert_eq!(flat_caps(&m)[3], t("O", TermColor::Green));
}

use models_tui::event::MouseKind;
use models_tui::models::app::{
    find_selectable_index, handle_models_mouse, sort_entries, Focus, ListMode, ModelEntry,
    ModelIdentityProvenance, ModelInfo, ModelPanels, ModelsApp, ProviderCategory, ProviderInfo,
    ProviderListItem, SortOrder,
};
use models_tui::mouse::{CursorPos, Rect};
use models_tui::models::grouping::ResolvedIdentity;
use models_tui::models::detail_panel::{model_detail_lines, DetailLine, ModelDetail};
use models_tui::palette::{TermColor, TextSpan};

fn model(name: &str) -> ModelInfo {
    ModelInfo {
        name: name.to_string(),
        reasoning: false,
        tool_call: false,
        attachment: false,
        open_weights: false,
        free: false,
        input_cost: None,
        output_cost: None,
        context: None,
        release_date: None,
    }
}

fn provider(id: &str, name: &str, category: ProviderCategory, models: Vec<(String, ModelInfo)>) -> ProviderInfo {
    ProviderInfo {
        id: id.to_string(),
        name: name.to_string(),
        category,
        models,
        doc: Some(format!("https://{id}.example/docs")),
        api: None,
        env: vec![],
    }
}

/// alpha: 30 models m00..m29; beta: one model b0.
fn providers() -> Vec<ProviderInfo> {
    let alpha_models = (0..30).map(|i| (format!("m{i:02}"), model(&format!("Model {i:02}")))).collect();
    vec![
        provider("alpha", "Alpha", ProviderCategory::Origin, alpha_models),
        provider("beta", "Beta", ProviderCategory::Inference, vec![("b0".to_string(), model("B0"))]),
    ]
}

/// Every offering is its own model.
fn snapshot(ps: &[ProviderInfo]) -> Vec<ResolvedIdentity> {
    let mut out = Vec::new();
    for p in ps {
        for (mid, m) in &p.models {
            out.push(ResolvedIdentity {
                provider_id: p.id.clone(),
                model_id: mid.clone(),
                key: format!("{}/{}", p.id, mid),
                name: m.name.clone(),
                lab: None,
                fallback_lab: None,
                provenance: ModelIdentityProvenance::InferredPeer,
            });
        }
    }
    out
}

fn test_app() -> (ModelsApp, Vec<ProviderInfo>) {
    let ps = providers();
    let app = ModelsApp::new(&ps, snapshot(&ps));
    (app, ps)
}

#[test]
fn new_app_lists_all_groups() {
    let (app, _) = test_app();
    assert!(app.is_all_selected());
    assert_eq!(app.list_mode(), ListMode::Grouped);
    assert_eq!(app.filtered_models().len(), 31);
    assert_eq!(app.groups.len(), 31);
    assert_eq!(app.focus, Focus::Models);
    assert_eq!(app.provider_list_items[0], ProviderListItem::All);
}

#[test]
fn enter_drills_into_group_and_esc_pops_back() {
    let (mut app, providers) = test_app();
    let name = app.groups[0].name.clone();
    app.enter_selection(&providers);
    assert_eq!(app.list_mode(), ListMode::Offerings);
    assert_eq!(app.drill_name.as_deref(), Some(name.as_str()));
    assert_eq!(app.filtered_models().len(), 1);
    assert!(app.escape_back(&providers));
    assert_eq!(app.list_mode(), ListMode::Grouped);
    assert!(!app.escape_back(&providers));

    app.select_model_at_index(7);
    assert_eq!(app.selected_group, 7);
    let name7 = app.groups[7].name.clone();
    app.enter_selection(&providers);
    assert_eq!(app.drill_name.as_deref(), Some(name7.as_str()));
    assert!(app.escape_back(&providers));
    assert_eq!(app.selected_group, 7, "selection preserved");
}

#[test]
fn provider_picker_filters_and_applies_scope() {
    let (mut app, providers) = test_app();
    app.open_provider_picker();
    app.picker_query = "bet".to_string();
    let rows = app.picker_rows(&providers);
    assert_eq!(rows.len(), 2);
    app.picker_selected = 1;
    app.apply_picker_selection(&providers);
    assert!(!app.show_provider_picker);
    assert!(!app.is_all_selected());
    assert_eq!(app.list_mode(), ListMode::Flat);
    assert_eq!(app.filtered_models().len(), 1);
    assert!(app.escape_back(&providers));
    assert!(app.is_all_selected());
}

#[test]
fn grouped_provider_list_has_headers_and_skips_them() {
    let (mut app, providers) = test_app();
    app.toggle_grouping(&providers);
    assert_eq!(
        app.provider_list_items,
        vec![
            ProviderListItem::All,
            ProviderListItem::CategoryHeader(ProviderCategory::Origin),
            ProviderListItem::Provider(0, 30),
            ProviderListItem::CategoryHeader(ProviderCategory::Inference),
            ProviderListItem::Provider(1, 1),
        ]
    );
    assert_eq!(app.selected_provider, 0);
    assert_eq!(find_selectable_index(&app.provider_list_items, 1, true), 2);
    assert_eq!(find_selectable_index(&app.provider_list_items, 3, false), 2);
    // Past the end, the forward search falls back to walking up.
    let items = vec![ProviderListItem::All, ProviderListItem::CategoryHeader(ProviderCategory::Tool)];
    assert_eq!(find_selectable_index(&items, 1, true), 0);
}

#[test]
fn category_filter_cycles_and_filters_providers() {
    let (mut app, providers) = test_app();
    app.cycle_provider_category(&providers);
    assert_eq!(app.provider_category_filter, ProviderCategory::Origin);
    assert_eq!(app.provider_list_items, vec![ProviderListItem::All, ProviderListItem::Provider(0, 30)]);
    assert_eq!(app.filtered_models().len(), 30);
}

#[test]
fn search_counts_matches_and_keeps_selected_provider() {
    let (mut app, providers) = test_app();
    app.select_provider_at_index(1, &providers);
    assert_eq!(app.filtered_models().len(), 30);
    for c in "model 1".chars() {
        app.search_input(c, &providers);
    }
    // alpha still matches (m10..m19): it stays selected, with its match count.
    assert_eq!(app.provider_list_items, vec![ProviderListItem::All, ProviderListItem::Provider(0, 10)]);
    assert_eq!(app.selected_provider, 1);
    assert_eq!(app.filtered_models().len(), 10);
    app.clear_search(&providers);
    assert_eq!(app.search_query, "");
    assert_eq!(app.provider_list_items.len(), 3);
}

#[test]
fn filter_hides_providers_and_falls_back_to_all() {
    let (mut app, providers) = test_app();
    app.select_provider_at_index(2, &providers);
    assert_eq!(app.filtered_models().len(), 1);
    app.toggle_reasoning(&providers);
    assert_eq!(app.provider_list_items, vec![ProviderListItem::All]);
    assert_eq!(app.selected_provider, 0);
    assert!(app.filtered_models().is_empty());
    assert!(app.groups.is_empty());
}

#[test]
fn navigation_moves_within_bounds() {
    let (mut app, _) = test_app();
    app.prev_model();
    assert_eq!(app.selected_group, 0);
    app.next_model();
    assert_eq!(app.selected_group, 1);
    app.page_down_model();
    assert_eq!(app.selected_group, 11);
    app.select_last_model();
    assert_eq!(app.selected_group, 30);
    app.next_model();
    assert_eq!(app.selected_group, 30);
    app.page_up_model();
    assert_eq!(app.selected_group, 20);
    app.select_first_model();
    assert_eq!(app.selected_group, 0);
    assert_eq!(app.mouse_row_count(), 31);
}

#[test]
fn copy_helpers_use_current_model() {
    let (mut app, providers) = test_app();
    app.flat_view = true;
    let first = app.current_model().unwrap().clone();
    assert_eq!(app.get_copy_full(), Some(format!("{}/{}", first.provider_id, first.id)));
    assert_eq!(app.get_copy_model_id(), Some(first.id.clone()));
    assert_eq!(app.get_provider_doc(&providers), Some(format!("https://{}.example/docs", first.provider_id)));
    assert_eq!(app.get_provider_api(&providers), None);
}

#[test]
fn focus_and_glossary_toggle() {
    let (mut app, _) = test_app();
    app.focus_right();
    assert_eq!(app.focus, Focus::Details);
    app.focus_left();
    assert_eq!(app.focus, Focus::Models);
    app.toggle_glossary();
    assert!(app.show_glossary);
    app.scroll_glossary_down();
    app.scroll_glossary_down();
    app.scroll_glossary_up();
    assert_eq!(app.glossary_scroll.get(), 1);
    app.toggle_glossary();
    assert!(!app.show_glossary);
}

fn entry(provider: &str, id: &str, date: Option<&str>, cost: Option<i64>, ctx: Option<u64>) -> ModelEntry {
    let mut m = model(id);
    m.release_date = date.map(str::to_string);
    m.input_cost = cost;
    m.context = ctx;
    ModelEntry { id: id.to_string(), model: m, provider_id: provider.to_string(), identity: None }
}

fn ids(es: &[ModelEntry]) -> Vec<&str> {
    es.iter().map(|e| e.id.as_str()).collect()
}

#[test]
fn entry_sort_orders() {
    let es = vec![
        entry("p2", "a", Some("2025-01-01"), Some(5), Some(1000)),
        entry("p1", "c", None, None, None),
        entry("p1", "b", Some("2026-01-01"), Some(1), Some(200_000)),
        entry("p2", "d", None, Some(3), None),
    ];
    assert_eq!(ids(&sort_entries(&es, SortOrder::Default, false)), vec!["b", "c", "a", "d"]);
    // Undated first (by id), then newest first.
    assert_eq!(ids(&sort_entries(&es, SortOrder::ReleaseDate, false)), vec!["c", "d", "b", "a"]);
    assert_eq!(ids(&sort_entries(&es, SortOrder::ReleaseDate, true)), vec!["c", "d", "a", "b"]);
    // Cheapest first, unpriced last.
    assert_eq!(ids(&sort_entries(&es, SortOrder::Cost, false)), vec!["b", "d", "a", "c"]);
    assert_eq!(ids(&sort_entries(&es, SortOrder::Cost, true)), vec!["a", "d", "b", "c"]);
    // No window first (by id), then largest first.
    assert_eq!(ids(&sort_entries(&es, SortOrder::Context, false)), vec!["c", "d", "b", "a"]);
}

#[test]
fn groups_aggregate_offerings_of_one_model() {
    let mut gpt = model("GPT");
    gpt.reasoning = true;
    gpt.input_cost = Some(4);
    gpt.context = Some(128_000);
    gpt.release_date = Some("2025-05-01".to_string());
    let mut gpt_cloud = model("GPT (cloud)");
    gpt_cloud.input_cost = Some(6);
    gpt_cloud.context = Some(200_000);
    gpt_cloud.release_date = Some("2025-06-01".to_string());
    let ps = vec![
        provider("openai", "OpenAI", ProviderCategory::Origin, vec![("gpt".to_string(), gpt)]),
        provider("cloud", "Cloud", ProviderCategory::Cloud, vec![
            ("gpt".to_string(), gpt_cloud),
            ("other".to_string(), model("Other")),
        ]),
    ];
    let mut snap = snapshot(&ps);
    snap[1].key = "openai/gpt".to_string();
    snap[1].name = "GPT".to_string();
    snap[0].lab = Some("openai".to_string());
    snap[1].lab = Some("openai".to_string());
    let app = ModelsApp::new(&ps, snap);
    assert_eq!(app.filtered_models().len(), 3);
    assert_eq!(app.groups.len(), 2);
    let g = app.groups.iter().find(|g| g.key == "openai/gpt").unwrap();
    assert_eq!(g.offering_count, 2);
    assert_eq!(g.provider_count, 2);
    assert_eq!(g.reasoning, (1, 2));
    assert_eq!(g.input_range, Some((4, 6)));
    assert_eq!(g.context_range, Some((128_000, 200_000)));
    assert_eq!(g.max_release.as_deref(), Some("2025-06-01"));
    assert_eq!(g.lab.as_deref(), Some("openai"));
    assert_eq!(g.member_indices.len(), 2);
    // Undated group first, then the dated one.
    assert_eq!(app.groups[0].name, "Other");
}

#[test]
fn sort_cycle_and_direction() {
    let (mut app, providers) = test_app();
    app.cycle_sort(&providers);
    assert_eq!(app.sort_order, SortOrder::Cost);
    assert!(!app.sort_ascending);
    app.toggle_sort_dir(&providers);
    assert!(app.sort_ascending);
    app.cycle_sort(&providers);
    app.cycle_sort(&providers);
    assert_eq!(app.sort_order, SortOrder::Default);
    app.toggle_sort_dir(&providers);
    assert!(!app.sort_ascending);
}

fn flat(app: &mut ModelsApp, providers: &Vec<ProviderInfo>) {
    app.flat_view = true;
    app.update_filtered_models(providers);
}

fn panels(list: Rect, model_offset: usize) -> ModelPanels {
    ModelPanels {
        model_list_area: Some(list),
        model_detail_area: Some(Rect::new(60, 2, 60, 30)),
        provider_card_area: None,
        group_offset: 0,
        model_offset,
    }
}

fn at(column: u16, row: u16) -> CursorPos {
    CursorPos { column, row }
}

#[test]
fn click_model_row_at_top_selects_that_model() {
    let (mut app, providers) = test_app();
    flat(&mut app, &providers);
    let area = Rect::new(20, 4, 38, 30);
    let p = panels(area, 0);
    assert_eq!(handle_models_mouse(&mut app, p, MouseKind::LeftDown, at(area.x + 6, area.y)), None);
    assert_eq!(app.focus, Focus::Models);
    assert_eq!(app.selected_model, 0);
    handle_models_mouse(&mut app, p, MouseKind::LeftDown, at(area.x + 6, area.y + 2));
    assert_eq!(app.selected_model, 2);
    handle_models_mouse(&mut app, p, MouseKind::LeftDown, at(area.x + 6, area.y - 1));
    assert_eq!(app.selected_model, 2);
}

#[test]
fn click_model_row_with_nonzero_scroll_offset() {
    let (mut app, providers) = test_app();
    flat(&mut app, &providers);
    for _ in 0..25 {
        app.next_model();
    }
    let area = Rect::new(20, 4, 38, 10);
    let offset = 16;
    handle_models_mouse(&mut app, panels(area, offset), MouseKind::LeftDown, at(area.x + 6, area.y + 2));
    assert_eq!(app.selected_model, offset + 2);
}

#[test]
fn scroll_wheel_over_model_list_focuses_and_moves() {
    let (mut app, providers) = test_app();
    flat(&mut app, &providers);
    app.focus = Focus::Details;
    let area = Rect::new(20, 4, 38, 30);
    let p = panels(area, 0);
    handle_models_mouse(&mut app, p, MouseKind::ScrollDown, at(area.x + 6, area.y + 5));
    assert_eq!(app.focus, Focus::Models);
    assert_eq!(app.selected_model, 1);
    handle_models_mouse(&mut app, p, MouseKind::ScrollUp, at(area.x + 6, area.y + 5));
    assert_eq!(app.selected_model, 0);
}

#[test]
fn click_detail_panel_focuses_details_only() {
    let (mut app, _) = test_app();
    let p = panels(Rect::new(20, 4, 38, 30), 0);
    let before = app.selected_model;
    handle_models_mouse(&mut app, p, MouseKind::LeftDown, at(62, 4));
    assert_eq!(app.focus, Focus::Details);
    assert_eq!(app.selected_model, before);
    handle_models_mouse(&mut app, p, MouseKind::ScrollDown, at(62, 4));
    assert_eq!(app.detail_scroll.get(), 1);
}

#[test]
fn provenance_comes_from_the_snapshot_not_the_view() {
    let ps = providers();
    let mut snap = snapshot(&ps);
    snap[30].provenance = ModelIdentityProvenance::AuthoritativeDirectId;
    let mut wide = ModelsApp::new(&ps, snap.clone());
    wide.flat_view = true;
    wide.update_filtered_models(&ps);
    let mut narrow = ModelsApp::new(&ps, snap);
    narrow.flat_view = true;
    narrow.search_query = "b0".to_string();
    narrow.update_filtered_models(&ps);
    let find = |app: &ModelsApp| {
        app.filtered_models().iter().find(|e| e.provider_id == "beta" && e.id == "b0").map(|e| e.identity)
    };
    assert_eq!(narrow.filtered_models().len(), 1);
    assert_eq!(find(&wide), Some(Some(ModelIdentityProvenance::AuthoritativeDirectId)));
    assert_eq!(find(&narrow), find(&wide));
}

#[test]
fn group_rows_partition_the_model_list() {
    let (app, _providers) = test_app();
    let n = app.filtered_models().len();
    let mut seen = vec![0usize; n];
    for g in &app.groups {
        assert!(!g.member_indices.is_empty());
        assert_eq!(g.offering_count, g.member_indices.len());
        assert_eq!(g.member_provenance.len(), g.member_indices.len());
        assert_eq!(g.first_entry, g.member_indices[0]);
        assert!(g.member_indices.windows(2).all(|w| w[0] < w[1]));
        let mut provs: Vec<&str> = g.member_indices.iter().map(|&i| app.filtered_models()[i].provider_id.as_str()).collect();
        provs.sort();
        provs.dedup();
        assert_eq!(g.provider_count, provs.len());
        for &i in &g.member_indices {
            seen[i] += 1;
        }
    }
    assert!(seen.iter().all(|&c| c == 1));
    assert!(app.selected_group < app.groups.len());
}

fn detail() -> ModelDetail {
    ModelDetail {
        family: Some("fam".to_string()),
        status: None,
        description: Some("A model.".to_string()),
        temperature: true,
        structured_output: None,
        controls: vec![
            ("Budget".to_string(), "1k-32k".to_string()),
            ("Effort".to_string(), "low, high".to_string()),
            ("Toggle".to_string(), "on/off".to_string()),
        ],
        context: "128K".to_string(),
        input_limit: "-".to_string(),
        output_limit: "8K".to_string(),
        modalities: None,
        knowledge: None,
        last_updated: None,
    }
}

fn line_text(l: &DetailLine) -> String {
    match l {
        DetailLine::Title(t, _) => t.clone(),
        DetailLine::Header(t) => t.clone(),
        DetailLine::Spans(v) => v.iter().map(|s| s.text.as_str()).collect(),
        DetailLine::Blank => String::new(),
    }
}

#[test]
fn detail_panel_orders_its_sections() {
    let (app, _ps) = test_app();
    let price = vec![vec![TextSpan { text: "Input: $1/M".to_string(), color: None }]];
    let offers = vec![vec![TextSpan { text: "  Alpha".to_string(), color: None }]];
    let lines = model_detail_lines(&app, &detail(), 40, offers, price);
    let texts: Vec<String> = lines.iter().map(line_text).collect();
    let entry = app.current_model().unwrap();
    assert!(matches!(&lines[0], DetailLine::Title(t, TermColor::White) if *t == entry.model.name));
    assert_eq!(texts[1], entry.id);
    assert_eq!(texts[2], "Identity: inferred peer group (not canonical)");
    assert_eq!(texts[3], "Family: fam");
    assert!(matches!(lines[4], DetailLine::Blank));
    assert_eq!(texts[5], "A model.");
    assert!(texts[7].starts_with("\u{2500}\u{2500} Providers (1) "));
    assert_eq!(texts[7].chars().count(), 40);
    assert_eq!(texts[8], "  Alpha");
    let headers: Vec<&String> = lines
        .iter()
        .zip(texts.iter())
        .filter(|(l, _)| matches!(l, DetailLine::Header(_)))
        .map(|(_, t)| t)
        .collect();
    let order = ["Providers (1)", "Capabilities", "Pricing", "Limits", "Modalities", "Dates"];
    assert_eq!(headers.len(), order.len());
    for (h, name) in headers.iter().zip(order.iter()) {
        assert!(h.starts_with(&format!("\u{2500}\u{2500} {name} ")));
    }
    // Three capability rows, then two rows of reasoning controls.
    assert!(texts[11].starts_with("Reasoning: No"));
    assert!(texts[14].starts_with("Budget: 1k-32k"));
    assert!(texts[14].contains("Effort: low, high"));
    assert!(texts[15].starts_with("Toggle: on/off"));
    match &lines[15] {
        DetailLine::Spans(v) => assert_eq!(v[1].color, Some(TermColor::LightBlue)),
        _ => panic!("control row"),
    }
    assert!(texts.contains(&"Input: $1/M".to_string()));
    assert!(texts.iter().any(|t| t.starts_with("Context: 128K") && t.contains("Input: \u{2014}")));
    assert!(texts.contains(&"Input:  text".to_string()));
    assert!(texts.last().unwrap().starts_with("Released: \u{2014}"));
}

#[test]
fn detail_panel_without_a_model_says_so() {
    let ps: Vec<ProviderInfo> = vec![];
    let app = ModelsApp::new(&ps, vec![]);
    let lines = model_detail_lines(&app, &detail(), 40, vec![], vec![]);
    assert_eq!(lines.len(), 1);
    match &lines[0] {
        DetailLine::Spans(v) => {
            assert_eq!(v.len(), 1);
            assert_eq!(v[0].text, "No model selected");
            assert_eq!(v[0].color, Some(TermColor::DarkGray));
        },
        _ => panic!("expected the empty-state line"),
    }
}

#[test]
fn detail_panel_in_flat_list_has_no_providers_section() {
    let (mut app, ps) = test_app();
    app.select_provider_at_index(1, &ps);
    assert_eq!(app.list_mode(), ListMode::Flat);
    let lines = model_detail_lines(&app, &detail(), 40, vec![vec![]], vec![]);
    assert!(!lines.iter().any(|l| matches!(l, DetailLine::Header(h) if h.contains("Providers"))));
}

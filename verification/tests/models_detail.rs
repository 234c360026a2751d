use models_tui::models::app::{InferenceRejection, ModelIdentityProvenance as P};
use models_tui::models::detail::{
    capability_rows, card_height, date_rows, entry_identity, Capabilities, group_identity, group_offerings, limits_line, meta_row, modality_text, provider_panel, text_color,
    two_pair_line, LabelValue, ProviderPanel,
};
use models_tui::models::app::ProviderCategory;
use models_tui::palette::{TermColor, TextSpan};

fn span(text: &str, color: Option<TermColor>) -> TextSpan {
    TextSpan { text: text.to_string(), color }
}

#[test]
fn entry_identity_labels() {
    assert_eq!(entry_identity(P::AuthoritativeScopedId), ("models.dev authoritative".to_string(), TermColor::Gray));
    assert_eq!(
        entry_identity(P::InferredCrossAliasCanonical),
        ("inferred canonical match (cross-alias)".to_string(), TermColor::LightCyan)
    );
    assert_eq!(
        entry_identity(P::Unlinked(InferenceRejection::CreatorConflict)),
        ("unlinked \u{2014} creator conflict".to_string(), TermColor::DarkGray)
    );
}

#[test]
fn group_identity_counts_links_and_inferences() {
    let members = vec![P::AuthoritativeRef, P::InferredQualifiedCanonical, P::InferredCanonical, P::InferredFullIdCanonical];
    assert_eq!(
        group_identity(&members),
        (
            "1 models.dev link + 3 inferred (1 creator-qualified, 1 full-id alias)".to_string(),
            TermColor::LightCyan
        )
    );
    let plain = vec![P::AuthoritativeRef, P::AuthoritativeRef, P::InferredCanonical];
    assert_eq!(
        group_identity(&plain),
        ("2 models.dev links + 1 inferred".to_string(), TermColor::LightCyan)
    );
}

#[test]
fn group_identity_authoritative_peer_and_unlinked() {
    assert_eq!(
        group_identity(&vec![P::AuthoritativeDirectId]),
        ("models.dev authoritative (1 offering)".to_string(), TermColor::Gray)
    );
    assert_eq!(
        group_identity(&vec![P::AuthoritativeDirectId, P::AuthoritativeRef]),
        ("models.dev authoritative (2 offerings)".to_string(), TermColor::Gray)
    );
    assert_eq!(
        group_identity(&vec![P::AuthoritativeRef, P::InferredPeer]),
        ("inferred peer group (not canonical)".to_string(), TermColor::DarkGray)
    );
    assert_eq!(
        group_identity(&vec![P::Unlinked(InferenceRejection::Ambiguous), P::Unlinked(InferenceRejection::OutputConflict)]),
        ("unlinked \u{2014} ambiguous candidates".to_string(), TermColor::DarkGray)
    );
    assert_eq!(
        group_identity(&vec![]),
        ("unlinked \u{2014} insufficient evidence".to_string(), TermColor::DarkGray)
    );
}

#[test]
fn two_pair_line_pads_by_bytes() {
    let l = LabelValue { label: "Reasoning: ", value: "Yes", color: TermColor::Cyan };
    let r = LabelValue { label: "Tools: ", value: "\u{2014}", color: TermColor::DarkGray };
    let line = two_pair_line(&l, &r, 20);
    assert_eq!(
        line,
        vec![
            span("Reasoning: ", Some(TermColor::Gray)),
            span("Yes", Some(TermColor::Cyan)),
            span("      ", None),
            span("Tools: ", Some(TermColor::Gray)),
            span("\u{2014}", Some(TermColor::DarkGray)),
            span(&" ".repeat(10), None),
        ]
    );
    let narrow = two_pair_line(&l, &r, 4);
    assert_eq!(narrow[2], span("", None));
    assert_eq!(narrow[5], span("", None));
}

#[test]
fn modality_text_joins_or_defaults() {
    assert_eq!(modality_text(&vec![]), "text");
    assert_eq!(modality_text(&vec!["text".to_string()]), "text");
    assert_eq!(
        modality_text(&vec!["text".to_string(), "image".to_string(), "pdf".to_string()]),
        "text, image, pdf"
    );
}

#[test]
fn meta_row_shows_non_active_status() {
    assert_eq!(
        meta_row(Some("gpt"), Some("active")),
        vec![span("Family: ", Some(TermColor::Gray)), span("gpt", None)]
    );
    assert_eq!(
        meta_row(None, Some("deprecated")),
        vec![
            span("Family: ", Some(TermColor::Gray)),
            span("\u{2014}", None),
            span("     ", None),
            span("Status: ", Some(TermColor::Gray)),
            span("deprecated", Some(TermColor::Red)),
        ]
    );
    assert_eq!(meta_row(Some("x"), Some("beta"))[4], span("beta", Some(TermColor::DarkGray)));
    assert_eq!(text_color(Some("deprecated")), TermColor::DarkGray);
    assert_eq!(text_color(Some("beta")), TermColor::White);
    assert_eq!(text_color(None), TermColor::White);
}

#[test]
fn limits_line_pads_thirds_and_dims_unknown() {
    let line = limits_line(60, "200K", "-", "8K", TermColor::White);
    assert_eq!(
        line,
        vec![
            span("Context: ", Some(TermColor::Gray)),
            span("200K", Some(TermColor::White)),
            span(&" ".repeat(7), None),
            span("Input: ", Some(TermColor::Gray)),
            span("\u{2014}", Some(TermColor::DarkGray)),
            span(&" ".repeat(10), None),
            span("Output: ", Some(TermColor::Gray)),
            span("8K", Some(TermColor::White)),
        ]
    );
}

fn info(name: &str) -> models_tui::models::app::ModelInfo {
    models_tui::models::app::ModelInfo {
        name: name.to_string(),
        reasoning: false,
        tool_call: false,
        attachment: false,
        open_weights: false,
        free: false,
        input_cost: None,
        output_cost: None,
        context: None,
        release_date: None,
    }
}

#[test]
fn provider_card_of_current_model() {
    let ps = vec![models_tui::models::app::ProviderInfo {
        id: "alpha".to_string(),
        name: "Alpha Cloud".to_string(),
        category: ProviderCategory::Cloud,
        models: vec![("m1".to_string(), info("M1"))],
        doc: Some("https://alpha.example/docs".to_string()),
        api: None,
        env: vec!["ALPHA_KEY".to_string(), "ALPHA_ORG".to_string()],
    }];
    let snap = vec![models_tui::models::grouping::ResolvedIdentity {
        provider_id: "alpha".to_string(),
        model_id: "m1".to_string(),
        key: "alpha/m1".to_string(),
        name: "M1".to_string(),
        lab: None,
        fallback_lab: None,
        provenance: P::AuthoritativeRef,
    }];
    let app = models_tui::models::app::ModelsApp::new(&ps, snap);
    match provider_panel(&app, &ps) {
        ProviderPanel::Detail(card) => {
            assert_eq!(card.name, "Alpha Cloud");
            assert_eq!(card.category, ProviderCategory::Cloud);
            assert_eq!(card.docs, "https://alpha.example/docs");
            assert_eq!(card.api, "\u{2014}");
            assert_eq!(card.env, "ALPHA_KEY, ALPHA_ORG");
            assert_eq!(card.hints, vec![span("o ", Some(TermColor::Yellow)), span("docs", None)]);
        }
        other => panic!("unexpected panel {other:?}"),
    }
    assert_eq!(provider_panel(&app, &vec![]), ProviderPanel::NotFound);
}

#[test]
fn provider_card_without_models() {
    let ps: Vec<models_tui::models::app::ProviderInfo> = vec![];
    let app = models_tui::models::app::ModelsApp::new(&ps, vec![]);
    assert_eq!(provider_panel(&app, &ps), ProviderPanel::NoModel);
}

fn offering_app(costs: &[(&str, &str, Option<i64>, P)]) -> (models_tui::models::app::ModelsApp, Vec<models_tui::models::app::ProviderInfo>) {
    let mut ps = Vec::new();
    let mut snap = Vec::new();
    for (id, name, cost, prov) in costs {
        let mut m = info("Same");
        m.input_cost = *cost;
        ps.push(models_tui::models::app::ProviderInfo {
            id: id.to_string(),
            name: name.to_string(),
            category: ProviderCategory::Cloud,
            models: vec![("same".to_string(), m)],
            doc: None,
            api: None,
            env: vec![],
        });
        snap.push(models_tui::models::grouping::ResolvedIdentity {
            provider_id: id.to_string(),
            model_id: "same".to_string(),
            key: "lab/same".to_string(),
            name: "Same".to_string(),
            lab: None,
            fallback_lab: None,
            provenance: *prov,
        });
    }
    let app = models_tui::models::app::ModelsApp::new(&ps, snap);
    (app, ps)
}

#[test]
fn offerings_cheapest_first_then_by_name() {
    let (app, ps) = offering_app(&[
        ("zeta", "Zeta Co", None, P::AuthoritativeRef),
        ("alpha", "Alpha Co", None, P::InferredCanonical),
        ("mid", "Mid Co", Some(1), P::AuthoritativeRef),
    ]);
    assert_eq!(app.groups.len(), 1);
    let (rows, more) = group_offerings(&app, &ps, &app.groups[0]);
    assert_eq!(more, 0);
    let names: Vec<&str> = rows.iter().map(|r| r.name.as_str()).collect();
    assert_eq!(names, vec!["Mid Co", "Alpha Co", "Zeta Co"]);
    assert_eq!(rows[0].input, Some(1));
    assert!(rows[1].inferred && !rows[0].inferred && !rows[2].inferred);
}

#[test]
fn offerings_capped_at_ten() {
    let ids: Vec<String> = (0..12).map(|i| format!("p{i:02}")).collect();
    let names: Vec<String> = (0..12).map(|i| format!("Prov {i:02}")).collect();
    let costs: Vec<Option<i64>> = (0..12)
        .map(|i| match i {
            0 | 3 => None,
            1 => Some(5),
            2 | 4 => Some(3),
            _ => Some(10 + i as i64),
        })
        .collect();
    let spec: Vec<(&str, &str, Option<i64>, P)> =
        (0..12).map(|i| (ids[i].as_str(), names[i].as_str(), costs[i], P::AuthoritativeRef)).collect();
    let (app, ps) = offering_app(&spec);
    let (rows, more) = group_offerings(&app, &ps, &app.groups[0]);
    assert_eq!(more, 2);
    assert_eq!(rows.len(), 10);
    let inputs: Vec<Option<i64>> = rows.iter().map(|r| r.input).collect();
    assert_eq!(
        inputs,
        vec![Some(3), Some(3), Some(5), Some(15), Some(16), Some(17), Some(18), Some(19), Some(20), Some(21)]
    );
    let mut cheapest: Vec<&str> = rows[..2].iter().map(|r| r.name.as_str()).collect();
    cheapest.sort();
    assert_eq!(cheapest, vec!["Prov 02", "Prov 04"]);
}

#[test]
fn provider_card_height_counts_wrapped_rows() {
    assert_eq!(card_height(&vec![10, 20, 45], 20), 1 + 1 + (3 + 1) + 2);
    assert_eq!(card_height(&vec![40], 20), 2 + 1 + 2);
    assert_eq!(card_height(&vec![5, 500, 7], 0), 5);
    assert_eq!(card_height(&vec![], 30), 2);
}

#[test]
fn capability_grid() {
    let c = Capabilities {
        reasoning: true,
        tool_call: false,
        attachment: true,
        open_weights: false,
        temperature: true,
        structured_output: None,
    };
    let rows = capability_rows(c, 16);
    assert_eq!(rows.len(), 3);
    assert_eq!(
        rows[0],
        vec![
            span("Reasoning: ", Some(TermColor::Gray)),
            span("Yes", Some(TermColor::Cyan)),
            span("  ", None),
            span("Tools: ", Some(TermColor::Gray)),
            span("No", Some(TermColor::DarkGray)),
            span("       ", None),
        ]
    );
    assert_eq!(rows[1][1], span("Closed", Some(TermColor::Red)));
    assert_eq!(rows[1][4], span("Yes", Some(TermColor::Magenta)));
    assert_eq!(rows[2][4], span("\u{2014}", Some(TermColor::DarkGray)));
    // "Structured: " and the three-byte em dash leave one byte of the column
    assert_eq!(rows[2][5], span(" ", None));
}

#[test]
fn date_rows_dim_missing_dates() {
    let rows = date_rows(Some("2025-03-01"), None, None, false, TermColor::White, 22);
    assert_eq!(rows.len(), 1);
    assert_eq!(
        rows[0],
        vec![
            span("Released: ", Some(TermColor::Gray)),
            span("2025-03-01", Some(TermColor::White)),
            span("  ", None),
            span("Knowledge: ", Some(TermColor::Gray)),
            span("\u{2014}", Some(TermColor::DarkGray)),
            span("        ", None),
        ]
    );
    let with_update = date_rows(None, Some("2024-10"), Some("2025-04-02"), true, TermColor::DarkGray, 10);
    assert_eq!(with_update.len(), 2);
    assert_eq!(with_update[1][0], span("Updated: ", Some(TermColor::Gray)));
    assert_eq!(with_update[1][1], span("2025-04-02", Some(TermColor::DarkGray)));
    assert_eq!(with_update[1][3], span("", Some(TermColor::Gray)));
}

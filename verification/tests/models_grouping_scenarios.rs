use models_tui::event::MouseKind;
use models_tui::models::app::{
    Focus, InferenceRejection, ListMode, ModelIdentityProvenance, ModelInfo, ModelPanels, ModelsApp,
    ProviderCategory, ProviderInfo, ProviderListItem, handle_models_mouse,
};
use models_tui::models::detail::{entry_identity, group_identity, group_offerings};
use models_tui::models::grouping::ResolvedIdentity;
use models_tui::models::identity::{apply_peer_lanes, apply_peer_name_relaxation};
use models_tui::models::list_view::{flat_display_name, group_display_name};
use models_tui::mouse::{CursorPos, Rect};

fn info(name: &str, reasoning: bool) -> ModelInfo {
    ModelInfo {
        name: name.to_string(),
        reasoning,
        tool_call: false,
        attachment: false,
        open_weights: false,
        free: false,
        input_cost: None,
        output_cost: None,
        context: None,
        release_date: None,
    }
}

fn provider(id: &str, name: &str, models: &[(&str, &str)]) -> ProviderInfo {
    provider_with(id, name, models.iter().map(|(m, n)| (m.to_string(), info(n, false))).collect())
}

fn provider_with(id: &str, name: &str, models: Vec<(String, ModelInfo)>) -> ProviderInfo {
    ProviderInfo {
        id: id.to_string(),
        name: name.to_string(),
        category: ProviderCategory::Inference,
        models,
        doc: None,
        api: None,
        env: vec![],
    }
}

fn ident(p: &str, m: &str, key: &str, name: &str, lab: Option<&str>, prov: ModelIdentityProvenance) -> ResolvedIdentity {
    ResolvedIdentity {
        provider_id: p.to_string(),
        model_id: m.to_string(),
        key: key.to_string(),
        name: name.to_string(),
        lab: lab.map(str::to_string),
        fallback_lab: None,
        provenance: prov,
    }
}

fn unlinked(p: &str, m: &str, name: &str) -> ResolvedIdentity {
    ident(p, m, &format!("offering:{p}/{m}"), name, None, ModelIdentityProvenance::Unlinked(InferenceRejection::InsufficientEvidence))
}

/// One offering left unlinked by the catalog, with the lab catalog's evidence
/// about it.
struct Evidence {
    provider: &'static str,
    id: &'static str,
    name: &'static str,
    name_fp: &'static str,
    leaf: &'static str,
    full: &'static str,
    compact: &'static str,
    lab: Option<&'static str>,
    output: &'static str,
    name_tokens: &'static [&'static str],
    leaf_tokens: &'static [&'static str],
    ns_tokens: &'static [&'static str],
}

fn strs(v: &[&str]) -> Vec<String> {
    v.iter().map(|s| s.to_string()).collect()
}

/// The peer lanes and the name relaxation over offerings the catalog left
/// unlinked; `vocab(lab)` is the creator vocabulary of a lab.
fn peer_snapshot(ev: &[Evidence], vocab: &dyn Fn(&str) -> Vec<String>) -> Vec<ResolvedIdentity> {
    let mut ids: Vec<ResolvedIdentity> = ev.iter().map(|e| unlinked(e.provider, e.id, e.name)).collect();
    let n = ev.len();
    let disjoint: Vec<Vec<bool>> = (0..n).map(|j| (0..n).map(|k| ev[j].output != ev[k].output).collect()).collect();
    let labs: Vec<Option<String>> = ev.iter().map(|e| e.lab.map(str::to_string)).collect();
    apply_peer_lanes(
        &mut ids,
        &ev.iter().map(|e| e.name_fp.to_string()).collect(),
        &ev.iter().map(|e| e.leaf.to_string()).collect(),
        &ev.iter().map(|e| e.full.to_string()).collect(),
        &ev.iter().map(|e| e.compact.to_string()).collect(),
        &labs,
        &disjoint,
    );
    let vocabs: Vec<Vec<String>> = ids.iter().map(|r| r.lab.as_deref().map(vocab).unwrap_or_default()).collect();
    apply_peer_name_relaxation(
        &mut ids,
        &ev.iter().map(|e| e.leaf.to_string()).collect(),
        &ev.iter().map(|e| strs(e.name_tokens)).collect(),
        &ev.iter().map(|e| strs(e.leaf_tokens)).collect(),
        &ev.iter().map(|e| strs(e.ns_tokens)).collect(),
        &vocabs,
        &labs,
        &disjoint,
    );
    ids
}

fn no_vocab(_: &str) -> Vec<String> {
    vec![]
}

fn providers_of(ev: &[Evidence]) -> Vec<ProviderInfo> {
    let mut ps: Vec<ProviderInfo> = Vec::new();
    for e in ev {
        match ps.iter_mut().find(|p| p.id == e.provider) {
            Some(p) => p.models.push((e.id.to_string(), info(e.name, false))),
            None => ps.push(provider(e.provider, e.provider, &[(e.id, e.name)])),
        }
    }
    ps
}

fn peer_count(app: &ModelsApp) -> usize {
    app.groups
        .iter()
        .filter(|g| g.member_provenance.iter().all(|p| *p == ModelIdentityProvenance::InferredPeer))
        .count()
}

// ── Canonical groups from the catalog's resolution ──────────────────────────

fn canonical_group_app() -> (ModelsApp, Vec<ProviderInfo>) {
    let ps = vec![
        provider("acmelab", "Acmelab", &[("cirrus-opus-5", "Cirrus Opus 5")]),
        provider("amazon-bedrock", "Amazon Bedrock", &[("eu.acmelab.cirrus-opus-5", "Cirrus Opus 5 (EU)")]),
        provider("openrouter", "OpenRouter", &[("acmelab/cirrus-opus-5-fast", "Cirrus Opus 5 (Fast)")]),
        provider("venice", "Venice", &[("cirrus-opus-5-fast", "Cirrus Opus 5 Fast")]),
    ];
    let key = "model:acmelab/cirrus-opus-5";
    let lab = Some("acmelab");
    let snap = vec![
        ident("acmelab", "cirrus-opus-5", key, "Cirrus Opus 5", lab, ModelIdentityProvenance::AuthoritativeDirectId),
        ident("amazon-bedrock", "eu.acmelab.cirrus-opus-5", key, "Cirrus Opus 5", lab, ModelIdentityProvenance::AuthoritativeRef),
        ident("openrouter", "acmelab/cirrus-opus-5-fast", key, "Cirrus Opus 5", lab, ModelIdentityProvenance::AuthoritativeRef),
        ident("venice", "cirrus-opus-5-fast", key, "Cirrus Opus 5", lab, ModelIdentityProvenance::AuthoritativeRef),
    ];
    (ModelsApp::new(&ps, snap), ps)
}

#[test]
fn canonical_base_model_identity_groups_variants_and_drills_all_members() {
    let (mut app, ps) = canonical_group_app();
    assert_eq!(app.groups.len(), 1);
    let group = &app.groups[0];
    assert_eq!(group.name, "Cirrus Opus 5");
    assert_eq!(group.lab.as_deref(), Some("acmelab"));
    assert_eq!(group.provider_count, 4);
    assert_eq!(group.offering_count, 4);
    app.enter_selection(&ps);
    assert_eq!(app.drill_key.as_deref(), Some("model:acmelab/cirrus-opus-5"));
    assert_eq!(app.drill_name.as_deref(), Some("Cirrus Opus 5"));
    assert_eq!(app.filtered_models().len(), 4);
}

/// A canonical group of three offerings, the third joining by inference of
/// kind `inferred`; checks the identity line, the marked offering and the
/// drilled offering's identity.
fn joins_canonical_group(
    ps: Vec<ProviderInfo>,
    snap: Vec<ResolvedIdentity>,
    group_name: &str,
    identity_line: &str,
    marked: &str,
    joiner: &str,
    entry_line: &str,
) {
    let mut app = ModelsApp::new(&ps, snap);
    assert_eq!(app.groups.len(), 1);
    {
        let group = &app.groups[0];
        assert_eq!(group.name, group_name);
        assert_eq!(group.provider_count, ps.len());
        assert_eq!(group.member_provenance.iter().filter(|p| p.is_authoritative()).count(), ps.len() - 1);
        assert_eq!(group.member_provenance.iter().filter(|p| p.is_inferred()).count(), 1);
        assert!(group_identity(&group.member_provenance).0.contains(identity_line));
        let (rows, _) = group_offerings(&app, &ps, group);
        assert!(rows.iter().any(|r| r.inferred && r.name == marked));
        assert!(rows.iter().filter(|r| r.inferred).count() == 1);
    }
    app.enter_selection(&ps);
    let pos = app.filtered_models().iter().position(|e| e.provider_id == joiner).expect("inferred offering in drill");
    app.select_model_at_index(pos);
    let entry = app.current_model().expect("selected offering");
    assert_eq!(entry_identity(entry.identity.expect("identity")).0, entry_line);
    assert!(flat_display_name(entry).starts_with("\u{2248} "));
}

#[test]
fn inferred_grok_joins_authoritative_group_with_provenance() {
    let ps = vec![
        provider("xai", "xAI", &[("grok-4.5", "Grok 4.5")]),
        provider("kenari", "Kenari", &[("grok-4-5", "Grok 4.5")]),
        provider("llmgateway", "LLM Gateway", &[("grok-4-5", "Grok 4.5")]),
    ];
    let key = "model:xai/grok-4.5";
    let snap = vec![
        ident("xai", "grok-4.5", key, "Grok 4.5", Some("xai"), ModelIdentityProvenance::AuthoritativeDirectId),
        ident("kenari", "grok-4-5", key, "Grok 4.5", Some("xai"), ModelIdentityProvenance::AuthoritativeRef),
        ident("llmgateway", "grok-4-5", key, "Grok 4.5", Some("xai"), ModelIdentityProvenance::InferredCanonical),
    ];
    joins_canonical_group(ps, snap, "Grok 4.5", "2 models.dev links + 1 inferred", "LLM Gateway", "llmgateway", "inferred canonical match");
}

#[test]
fn creator_qualified_fable_joins_canonical_group_with_distinct_provenance() {
    let ps = vec![
        provider("acmelab", "Acmelab", &[("cirrus-fable-5", "Cirrus Fable 5")]),
        provider("digitalocean", "DigitalOcean", &[("acmelab-cirrus-fable-5", "Acmelab Cirrus Fable 5")]),
    ];
    let key = "model:acmelab/cirrus-fable-5";
    let snap = vec![
        ident("acmelab", "cirrus-fable-5", key, "Cirrus Fable 5", Some("acmelab"), ModelIdentityProvenance::AuthoritativeRef),
        ident("digitalocean", "acmelab-cirrus-fable-5", key, "Cirrus Fable 5", Some("acmelab"), ModelIdentityProvenance::InferredQualifiedCanonical),
    ];
    let app = ModelsApp::new(&ps, snap.clone());
    assert!(group_identity(&app.groups[0].member_provenance).0.contains("1 creator-qualified"));
    joins_canonical_group(ps, snap, "Cirrus Fable 5", "1 models.dev link + 1 inferred", "DigitalOcean", "digitalocean",
        "inferred canonical match (creator-qualified)");
}

#[test]
fn cross_alias_nemotron_joins_canonical_group_with_distinct_provenance() {
    let ps = vec![
        provider("wandb", "W&B", &[("nvidia/NVIDIA-Nemotron-3-Ultra-550B-A55B", "Nemotron 3 Ultra")]),
        provider("llmgateway", "LLM Gateway", &[("nemotron-3-ultra-550b", "Nemotron 3 Ultra 550B A55B")]),
        provider("digitalocean", "DigitalOcean", &[("nemotron-3-ultra-550b", "Nemotron 3 Ultra")]),
    ];
    let key = "model:nvidia/nemotron-3-ultra-550b-a55b";
    let name = "Nemotron 3 Ultra 550B A55B";
    let snap = vec![
        ident("wandb", "nvidia/NVIDIA-Nemotron-3-Ultra-550B-A55B", key, name, Some("nvidia"), ModelIdentityProvenance::AuthoritativeRef),
        ident("llmgateway", "nemotron-3-ultra-550b", key, name, Some("nvidia"), ModelIdentityProvenance::AuthoritativeRef),
        ident("digitalocean", "nemotron-3-ultra-550b", key, name, Some("nvidia"), ModelIdentityProvenance::InferredCrossAliasCanonical),
    ];
    joins_canonical_group(ps, snap, name, "2 models.dev links + 1 inferred (1 cross-alias)", "DigitalOcean", "digitalocean",
        "inferred canonical match (cross-alias)");
}

#[test]
fn full_id_alias_joins_canonical_group_with_distinct_provenance() {
    let ps = vec![
        provider("google", "Google", &[("gemini-3.1-flash-image-preview", "Nano Banana 2")]),
        provider("candidate", "Candidate", &[("gemini-3.1-flash-image-preview", "Gemini 3.1 Flash Image Preview")]),
    ];
    let key = "model:google/gemini-3.1-flash-image-preview";
    let snap = vec![
        ident("google", "gemini-3.1-flash-image-preview", key, "Nano Banana 2", Some("google"), ModelIdentityProvenance::AuthoritativeDirectId),
        ident("candidate", "gemini-3.1-flash-image-preview", key, "Nano Banana 2", Some("google"), ModelIdentityProvenance::InferredFullIdCanonical),
    ];
    joins_canonical_group(ps, snap, "Nano Banana 2", "1 models.dev link + 1 inferred (1 full-id alias)", "Candidate", "candidate",
        "inferred canonical match (full-id alias)");
}

// ── Peer groups over offerings the catalog left unlinked ────────────────────

const TEXT: &str = "text";

fn orphan(provider: &'static str, id: &'static str, leaf: &'static str, full: &'static str, compact: &'static str) -> Evidence {
    Evidence {
        provider,
        id,
        name: "Orphan 2.0",
        name_fp: "orphan 2 0",
        leaf,
        full,
        compact,
        lab: None,
        output: TEXT,
        name_tokens: &["orphan", "2", "0"],
        leaf_tokens: &["orphan", "2", "0"],
        ns_tokens: &[],
    }
}

#[test]
fn compatible_unlinked_offerings_form_peer_group_and_drill_together() {
    let ev = [
        orphan("alpha", "orphan-2.0", "orphan-2-0", "orphan-2-0", "orphan20"),
        orphan("beta", "orphan-2-0", "orphan-2-0", "orphan-2-0", "orphan20"),
    ];
    let ps = providers_of(&ev);
    let mut app = ModelsApp::new(&ps, peer_snapshot(&ev, &no_vocab));
    assert_eq!(app.groups.len(), 1);
    let group = &app.groups[0];
    assert_eq!(group.provider_count, 2);
    assert!(group.member_provenance.iter().all(|p| *p == ModelIdentityProvenance::InferredPeer));
    assert_eq!(group_display_name(group), "\u{2248} Orphan 2.0");
    assert_eq!(group_identity(&group.member_provenance).0, "inferred peer group (not canonical)");
    app.enter_selection(&ps);
    assert_eq!(app.filtered_models().len(), 2);
    let entry = app.current_model().expect("selected offering");
    assert_eq!(flat_display_name(entry), "\u{2248} Orphan 2.0");
    assert_eq!(entry_identity(entry.identity.expect("identity")).0, "inferred peer group (not canonical)");
}

#[test]
fn flattened_creator_namespace_forms_conservative_peer_groups() {
    let e = |provider, id, name, name_fp, leaf, full, compact| Evidence {
        provider,
        id,
        name,
        name_fp,
        leaf,
        full,
        compact,
        lab: None,
        output: TEXT,
        name_tokens: &[],
        leaf_tokens: &[],
        ns_tokens: &[],
    };
    let ev = [
        e("openrouter", "aion-labs/aion-3.0", "Aion-3.0", "aion 3 0", "aion-3-0", "aion-labs-aion-3-0", "aionlabsaion30"),
        e("openrouter", "aion-labs/aion-3.0-mini", "Aion-3.0-Mini", "aion 3 0 mini", "aion-3-0-mini", "aion-labs-aion-3-0-mini", "aionlabsaion30mini"),
        e("venice", "aion-labs-aion-3-0", "Aion 3.0", "aion 3 0", "aion-labs-aion-3-0", "aion-labs-aion-3-0", "aionlabsaion30"),
        e("venice", "aion-labs-aion-3-0-mini", "Aion 3.0 Mini", "aion 3 0 mini", "aion-labs-aion-3-0-mini", "aion-labs-aion-3-0-mini", "aionlabsaion30mini"),
    ];
    let ps = providers_of(&ev);
    let snap = peer_snapshot(&ev, &no_vocab);
    assert!(snap.iter().all(|r| r.key.starts_with("peer:full:")));
    let app = ModelsApp::new(&ps, snap);
    assert_eq!(app.groups.len(), 2);
    assert!(app.groups.iter().all(|g| g.provider_count == 2
        && g.offering_count == 2
        && g.member_provenance.iter().all(|p| *p == ModelIdentityProvenance::InferredPeer)));
    assert!(app.groups.iter().all(|g| group_display_name(g).starts_with("\u{2248} Aion")));
}

#[test]
fn full_id_fallback_does_not_erase_creator_tokens() {
    let ev = [
        orphan("alpha", "creator-a/orphan-2.0", "orphan-2-0", "creator-a-orphan-2-0", "creatoraorphan20"),
        orphan("beta", "creator-b-orphan-2-0", "creator-b-orphan-2-0", "creator-b-orphan-2-0", "creatorborphan20"),
    ];
    let ps = providers_of(&ev);
    let app = ModelsApp::new(&ps, peer_snapshot(&ev, &no_vocab));
    assert_eq!(app.groups.len(), 2);
    assert!(app.groups.iter().all(|g| g.provider_count == 1));
}

#[test]
fn compact_separator_fallback_preserves_matching_creator_tokens() {
    let e = |provider, id, name, leaf, full| Evidence {
        provider,
        id,
        name,
        name_fp: "z ai glm 5 1",
        leaf,
        full,
        compact: "zaiglm51",
        lab: None,
        output: TEXT,
        name_tokens: &[],
        leaf_tokens: &[],
        ns_tokens: &[],
    };
    let ev = [
        e("frogbot", "zai-glm-5-1", "Z.AI GLM-5.1", "zai-glm-5-1", "zai-glm-5-1"),
        e("kilo", "z-ai/glm-5.1", "Z.ai: GLM 5.1", "glm-5-1", "z-ai-glm-5-1"),
    ];
    let ps = providers_of(&ev);
    let app = ModelsApp::new(&ps, peer_snapshot(&ev, &no_vocab));
    assert_eq!(app.groups.len(), 1);
    let group = &app.groups[0];
    assert_eq!(group.provider_count, 2);
    assert_eq!(group.offering_count, 2);
    assert!(group.member_provenance.iter().all(|p| *p == ModelIdentityProvenance::InferredPeer));
    assert!(group.key.starts_with("peer:compact:"));
}

#[test]
fn peer_grouping_rejects_creator_and_output_conflicts() {
    let mut a = orphan("creator-a", "openai/orphan-2.0", "orphan-2-0", "openai-orphan-2-0", "openaiorphan20");
    a.lab = Some("openai");
    let mut b = orphan("creator-b", "acmelab/orphan-2-0", "orphan-2-0", "acmelab-orphan-2-0", "acmelaborphan20");
    b.lab = Some("acmelab");
    let media = |provider, id, output| Evidence {
        provider,
        id,
        name: "Media 1.0",
        name_fp: "media 1 0",
        leaf: "media-1-0",
        full: "media-1-0",
        compact: "media10",
        lab: None,
        output,
        name_tokens: &["media", "1", "0"],
        leaf_tokens: &["media", "1", "0"],
        ns_tokens: &[],
    };
    let ev = [a, b, media("modality-a", "media-1.0", "text"), media("modality-b", "media-1-0", "image")];
    let ps = providers_of(&ev);
    let app = ModelsApp::new(&ps, peer_snapshot(&ev, &no_vocab));
    assert_eq!(app.groups.len(), 4);
    assert!(app.groups.iter().all(|g| g.provider_count == 1));
}

fn conflict_providers() -> (Vec<ProviderInfo>, Vec<ResolvedIdentity>) {
    let mut gamma = orphan("gamma", "orphan.2.0", "orphan-2-0", "orphan-2-0", "orphan20");
    gamma.output = "image";
    let ev = [
        orphan("alpha", "orphan-2.0", "orphan-2-0", "orphan-2-0", "orphan20"),
        orphan("beta", "orphan-2-0", "orphan-2-0", "orphan-2-0", "orphan20"),
        gamma,
    ];
    let ps = vec![
        provider_with("alpha", "Alpha", vec![("orphan-2.0".to_string(), info("Orphan 2.0", true))]),
        provider_with("beta", "Beta", vec![("orphan-2-0".to_string(), info("Orphan 2.0", true))]),
        provider_with("gamma", "Gamma", vec![("orphan.2.0".to_string(), info("Orphan 2.0", false))]),
    ];
    (ps, peer_snapshot(&ev, &no_vocab))
}

#[test]
fn peer_conflict_cannot_be_filtered_away() {
    let (ps, snap) = conflict_providers();
    let mut app = ModelsApp::new(&ps, snap);
    assert_eq!(app.groups.len(), 3);
    app.filters.reasoning = true;
    app.update_filtered_models(&ps);
    assert_eq!(app.filtered_models().len(), 2);
    assert_eq!(app.groups.len(), 2);
    assert!(app
        .filtered_models()
        .iter()
        .all(|e| matches!(e.identity, Some(ModelIdentityProvenance::Unlinked(_)))));
}

#[test]
fn provider_scope_projects_snapshot_peer_provenance() {
    let ev = [
        orphan("alpha", "orphan-2.0", "orphan-2-0", "orphan-2-0", "orphan20"),
        orphan("beta", "orphan-2-0", "orphan-2-0", "orphan-2-0", "orphan20"),
    ];
    let ps = providers_of(&ev);
    let mut app = ModelsApp::new(&ps, peer_snapshot(&ev, &no_vocab));
    let alpha_row = app
        .provider_list_items
        .iter()
        .position(|item| matches!(item, ProviderListItem::Provider(i, _) if ps[*i].id == "alpha"))
        .expect("alpha provider row");
    app.select_provider_at_index(alpha_row, &ps);
    assert_eq!(app.filtered_models().len(), 1);
    assert!(matches!(app.filtered_models()[0].identity, Some(ModelIdentityProvenance::InferredPeer)));
    assert!(app.groups.is_empty());
}

fn llama(provider: &'static str, id: &'static str, name: &'static str, name_fp: &'static str,
    name_tokens: &'static [&'static str], ns_tokens: &'static [&'static str]) -> Evidence {
    Evidence {
        provider,
        id,
        name,
        name_fp,
        leaf: "llama-9-3b-instruct",
        full: id,
        compact: id,
        lab: Some("meta"),
        output: TEXT,
        name_tokens,
        leaf_tokens: &["llama", "9", "3b", "instruct"],
        ns_tokens,
    }
}

#[test]
fn relaxed_peer_lane_joins_attributed_spellings_and_refuses_semantics() {
    let ev = [
        llama("alpha", "meta-llama/llama-9-3b-instruct", "Llama 9 3B Instruct", "llama 9 3b instruct",
            &["llama", "9", "3b", "instruct"], &["meta", "llama"]),
        llama("beta", "meta/llama-9-3b-instruct", "Llama 9 3B Instruct", "llama 9 3b instruct",
            &["llama", "9", "3b", "instruct"], &["meta"]),
        llama("gamma", "meta-llama/llama-9-3b-instruct", "Meta: Llama 9 3B Instruct", "meta llama 9 3b instruct",
            &["meta", "llama", "9", "3b", "instruct"], &["meta", "llama"]),
        llama("zeta", "TEE/llama-9-3b-instruct", "Llama 9 3B Instruct TEE", "llama 9 3b instruct tee",
            &["llama", "9", "3b", "instruct", "tee"], &["tee"]),
        llama("delta", "meta-llama/llama-9-3b-instruct", "Llama 9 3B Instruct Preview", "llama 9 3b instruct preview",
            &["llama", "9", "3b", "instruct", "preview"], &["meta", "llama"]),
    ];
    let ps = providers_of(&ev);
    let meta_vocab = |lab: &str| if lab == "meta" { strs(&["meta", "llama"]) } else { vec![] };
    let app = ModelsApp::new(&ps, peer_snapshot(&ev, &meta_vocab));
    assert_eq!(app.groups.len(), 2);
    let peer_group = app.groups.iter().find(|g| g.key.starts_with("peer:")).expect("relaxed peer group");
    assert_eq!(peer_group.provider_count, 4);
    assert_eq!(peer_group.offering_count, 4);
    let delta = app.filtered_models().iter().find(|e| e.provider_id == "delta").expect("delta entry");
    assert!(matches!(delta.identity, Some(ModelIdentityProvenance::Unlinked(_))));
}

#[test]
fn relaxed_peer_lane_fails_closed_on_ambiguous_buckets() {
    let z = |provider, name, name_fp, name_tokens| Evidence {
        provider,
        id: "acme/z-a-b",
        name,
        name_fp,
        leaf: "z-a-b",
        full: "acme-z-a-b",
        compact: "acmezab",
        lab: Some("acme"),
        output: TEXT,
        name_tokens,
        leaf_tokens: &["z", "a", "b"],
        ns_tokens: &["acme"],
    };
    let ev = [
        z("p1", "Z A", "z a", &["z", "a"][..]),
        z("p2", "Z A", "z a", &["z", "a"][..]),
        z("p3", "Z B", "z b", &["z", "b"][..]),
        z("p4", "Z B", "z b", &["z", "b"][..]),
        z("p5", "Z", "z", &["z"][..]),
    ];
    let ps = providers_of(&ev);
    let app = ModelsApp::new(&ps, peer_snapshot(&ev, &|_: &str| strs(&["acme"])));
    assert_eq!(app.groups.len(), 3);
    assert_eq!(peer_count(&app), 2);
    let p5 = app.filtered_models().iter().find(|e| e.provider_id == "p5").expect("p5 entry");
    assert!(matches!(p5.identity, Some(ModelIdentityProvenance::Unlinked(_))));
}

#[test]
fn unresolved_provider_spellings_remain_independent_offerings() {
    let q = |provider, id, name, name_fp| Evidence {
        provider,
        id,
        name,
        name_fp,
        leaf: id,
        full: id,
        compact: id,
        lab: None,
        output: TEXT,
        name_tokens: &[],
        leaf_tokens: &[],
        ns_tokens: &[],
    };
    let ev = [
        q("alpha", "a", "Qwen3.7 Max", "qwen3 7 max"),
        q("beta", "b", "Qwen3.7 Max", "qwen3 7 max"),
        q("gamma", "c", "Qwen 3.7-Max", "qwen 3 7 max"),
        q("delta", "d", "Qwen: Qwen3.7 Max", "qwen qwen3 7 max"),
    ];
    let ps = providers_of(&ev);
    let mut app = ModelsApp::new(&ps, peer_snapshot(&ev, &no_vocab));
    assert_eq!(app.groups.len(), 4);
    assert!(app.groups.iter().all(|g| g.provider_count == 1 && g.offering_count == 1));
    app.enter_selection(&ps);
    assert_eq!(app.filtered_models().len(), 1);
}

// ── Mouse over the grouped list and the detail panel ────────────────────────

fn list_app() -> (ModelsApp, Vec<ProviderInfo>) {
    let alpha: Vec<(String, ModelInfo)> = (0..30).map(|i| (format!("m{i:02}"), info(&format!("Model {i:02}"), false))).collect();
    let ps = vec![
        provider_with("alpha", "Alpha", alpha),
        provider_with("beta", "Beta", vec![("b0".to_string(), info("B0", false))]),
    ];
    let mut snap = Vec::new();
    for p in &ps {
        for (mid, m) in &p.models {
            snap.push(ident(&p.id, mid, &format!("{}/{}", p.id, mid), &m.name, None, ModelIdentityProvenance::InferredPeer));
        }
    }
    (ModelsApp::new(&ps, snap), ps)
}

fn panels(list: Rect) -> ModelPanels {
    ModelPanels {
        model_list_area: Some(list),
        model_detail_area: Some(Rect::new(72, 2, 48, 30)),
        provider_card_area: None,
        group_offset: 0,
        model_offset: 0,
    }
}

#[test]
fn grouped_is_default_and_click_selects_group() {
    let (mut app, _) = list_app();
    assert_eq!(app.list_mode(), ListMode::Grouped);
    let area = Rect::new(1, 4, 70, 30);
    handle_models_mouse(&mut app, panels(area), MouseKind::LeftDown, CursorPos { column: area.x + 6, row: area.y + 2 });
    assert_eq!(app.focus, Focus::Models);
    assert_eq!(app.selected_group, 2);
}

#[test]
fn render_click_detail_panel_focuses_details_only() {
    let (mut app, _) = list_app();
    let p = panels(Rect::new(1, 4, 70, 30));
    let before = app.selected_model;
    handle_models_mouse(&mut app, p, MouseKind::LeftDown, CursorPos { column: 74, row: 4 });
    assert_eq!(app.focus, Focus::Details);
    assert_eq!(app.selected_model, before);
}

use models_tui::models::app::{InferenceRejection, ModelIdentityProvenance};
use models_tui::models::grouping::ResolvedIdentity;
use models_tui::models::identity::{apply_peer_groups, apply_peer_lanes, apply_peer_name_relaxation};

fn unlinked(provider: &str, model: &str) -> ResolvedIdentity {
    ResolvedIdentity {
        provider_id: provider.to_string(),
        model_id: model.to_string(),
        key: format!("offering:{provider}/{model}"),
        name: model.to_string(),
        lab: None,
        fallback_lab: None,
        provenance: ModelIdentityProvenance::Unlinked(InferenceRejection::InsufficientEvidence),
    }
}

fn peer(provider: &str, model: &str, key: &str, name: &str, lab: &str) -> ResolvedIdentity {
    ResolvedIdentity {
        provider_id: provider.to_string(),
        model_id: model.to_string(),
        key: key.to_string(),
        name: name.to_string(),
        lab: Some(lab.to_string()),
        fallback_lab: None,
        provenance: ModelIdentityProvenance::InferredPeer,
    }
}

fn strs(v: &[&str]) -> Vec<String> {
    v.iter().map(|s| s.to_string()).collect()
}

fn no_disjoint(n: usize) -> Vec<Vec<bool>> {
    vec![vec![false; n]; n]
}

#[test]
fn peer_lane_groups_a_bucket_across_providers() {
    let mut ids = vec![unlinked("p1", "x1"), unlinked("p2", "x1"), unlinked("p2", "x2")];
    let names = strs(&["gpt x", "gpt x", "gpt x"]);
    let idfps = strs(&["x1", "x1", "x2"]);
    let labs = vec![None, Some("openai".to_string()), None];
    apply_peer_groups(&mut ids, &names, &idfps, &labs, &no_disjoint(3), "leaf");
    assert_eq!(ids[0].key, "peer:leaf:gpt x|x1");
    assert_eq!(ids[1].key, "peer:leaf:gpt x|x1");
    assert_eq!(ids[0].lab.as_deref(), Some("openai"));
    assert_eq!(ids[0].provenance, ModelIdentityProvenance::InferredPeer);
    assert_eq!(ids[0].name, "x1");
    assert_eq!(ids[2], unlinked("p2", "x2"));
}

#[test]
fn peer_lane_needs_two_providers() {
    let mut ids = vec![unlinked("p1", "a"), unlinked("p1", "b")];
    let before = ids.clone();
    apply_peer_groups(&mut ids, &strs(&["m", "m"]), &strs(&["a", "a"]), &vec![None, None], &no_disjoint(2), "leaf");
    assert_eq!(ids, before);
}

#[test]
fn peer_lane_refuses_conflicting_labs_and_outputs() {
    let mut ids = vec![unlinked("p1", "a"), unlinked("p2", "a")];
    let before = ids.clone();
    let labs = vec![Some("meta".to_string()), Some("mistral".to_string())];
    apply_peer_groups(&mut ids, &strs(&["m", "m"]), &strs(&["a", "a"]), &labs, &no_disjoint(2), "leaf");
    assert_eq!(ids, before);
    let mut disjoint = no_disjoint(2);
    disjoint[0][1] = true;
    apply_peer_groups(&mut ids, &strs(&["m", "m"]), &strs(&["a", "a"]), &vec![None, None], &disjoint, "leaf");
    assert_eq!(ids, before);
}

#[test]
fn peer_lane_skips_linked_and_blank_offerings() {
    let mut linked = unlinked("p1", "a");
    linked.provenance = ModelIdentityProvenance::AuthoritativeRef;
    let mut ids = vec![linked, unlinked("p2", "a"), unlinked("p3", "a")];
    apply_peer_groups(&mut ids, &strs(&["m", "m", ""]), &strs(&["a", "a", "a"]), &vec![None, None, None], &no_disjoint(3), "full");
    assert_eq!(ids[0].provenance, ModelIdentityProvenance::AuthoritativeRef);
    assert_eq!(ids[1], unlinked("p2", "a"));
    assert_eq!(ids[2], unlinked("p3", "a"));
}

#[test]
fn later_lanes_only_see_what_is_still_unlinked() {
    let mut ids = vec![unlinked("p1", "a/x"), unlinked("p2", "x"), unlinked("p3", "a-x")];
    let names = strs(&["m", "m", "m"]);
    apply_peer_lanes(
        &mut ids,
        &names,
        &strs(&["x", "x", "a-x"]),
        &strs(&["a/x", "x", "a-x"]),
        &strs(&["ax", "x", "ax"]),
        &vec![None, None, None],
        &no_disjoint(3),
    );
    assert_eq!(ids[0].key, "peer:leaf:m|x");
    assert_eq!(ids[1].key, "peer:leaf:m|x");
    assert_eq!(ids[2], unlinked("p3", "a-x"));
}

fn relax(ids: &mut Vec<ResolvedIdentity>, u_name: &[&str], u_lab: Option<&str>, disjoint: Vec<Vec<bool>>) {
    let leafs = strs(&["llama-3-8b", "llama-3-8b", "llama-3-8b"]);
    let name_tokens = vec![strs(&["llama", "3"]), strs(&["llama", "3"]), strs(u_name)];
    let leaf_tokens = vec![strs(&["llama", "3", "8b"]); 3];
    let ns_tokens = vec![vec![], vec![], strs(&["meta"])];
    let vocab = vec![strs(&["facebook"]), strs(&["facebook"]), vec![]];
    let labs = vec![None, None, u_lab.map(str::to_string)];
    apply_peer_name_relaxation(ids, &leafs, &name_tokens, &leaf_tokens, &ns_tokens, &vocab, &labs, &disjoint);
}

fn relax_fixture() -> Vec<ResolvedIdentity> {
    vec![
        peer("p1", "llama-3-8b", "peer:leaf:llama 3|llama-3-8b", "Llama 3", "meta"),
        peer("p2", "llama-3-8b", "peer:leaf:llama 3|llama-3-8b", "Llama 3", "meta"),
        unlinked("p3", "meta/llama-3-8b"),
    ]
}

#[test]
fn relaxation_admits_a_neutral_name_difference() {
    let mut ids = relax_fixture();
    relax(&mut ids, &["meta", "llama", "3", "8b", "facebook"], None, no_disjoint(3));
    assert_eq!(ids[2].key, "peer:leaf:llama 3|llama-3-8b");
    assert_eq!(ids[2].name, "Llama 3");
    assert_eq!(ids[2].lab.as_deref(), Some("meta"));
    assert_eq!(ids[2].provenance, ModelIdentityProvenance::InferredPeer);
    assert_eq!(ids[2].provider_id, "p3");
}

#[test]
fn relaxation_keeps_out_semantic_tokens_other_labs_and_clashes() {
    let mut ids = relax_fixture();
    relax(&mut ids, &["llama", "3", "preview"], None, no_disjoint(3));
    assert_eq!(ids, relax_fixture());
    relax(&mut ids, &["llama", "3"], Some("mistral"), no_disjoint(3));
    assert_eq!(ids, relax_fixture());
    let mut disjoint = no_disjoint(3);
    disjoint[2][1] = true;
    relax(&mut ids, &["llama", "3"], None, disjoint);
    assert_eq!(ids, relax_fixture());
    relax(&mut ids, &["llama", "3"], Some("meta"), no_disjoint(3));
    assert_eq!(ids[2].key, "peer:leaf:llama 3|llama-3-8b");
}

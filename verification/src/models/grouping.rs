//! Identity of offerings across providers, and the grouped model list that
//! shows one row per model identity.
//!
//! Every offering's identity is resolved once over the complete catalog (the
//! identity snapshot); filters, search, provider scope and drill-down only
//! project that result and never recompute it from a partial view.

use vstd::prelude::*;
use crate::models::app::{
    ModelEntry, EntryView, entry_view, entries_view, ModelIdentityProvenance, copy_entry, SortOrder,
    ctx_key, ctx_order_key,
};
use crate::sorting::{SortVal, SortValView, insertion_sorted, key_views, sort_by_keys, all_below, val_view, lemma_insertion_sorted_elements};
use crate::text::chars_of;
use crate::sorting::{lex_le, str_after, ordered, lemma_insertion_sorted_sorted, lemma_lex_total, lemma_lex_trans};
use crate::text::{owned, str_eq};

verus! {

/// The identity of one offering, resolved over the whole catalog.
#[derive(Debug, Clone, PartialEq, Eq)]
pub struct ResolvedIdentity {
    pub provider_id: String,
    pub model_id: String,
    /// Key shared by all offerings of one model.
    pub key: String,
    /// Display name of the model.
    pub name: String,
    /// Canonical lab of the model, when known.
    pub lab: Option<String>,
    /// The lab resolved from this offering's own model name, family and id.
    pub fallback_lab: Option<String>,
    pub provenance: ModelIdentityProvenance,
}

/// Ghost form of [`ResolvedIdentity`].
pub ghost struct IdentityView {
    pub provider_id: Seq<char>,
    pub model_id: Seq<char>,
    pub key: Seq<char>,
    pub name: Seq<char>,
    pub lab: Option<Seq<char>>,
    pub fallback_lab: Option<Seq<char>>,
    pub provenance: ModelIdentityProvenance,
}

pub open spec fn opt_view(o: Option<String>) -> Option<Seq<char>> {
    match o {
        Some(s) => Some(s@),
        None => None,
    }
}

pub open spec fn identity_view(r: ResolvedIdentity) -> IdentityView {
    IdentityView {
        provider_id: r.provider_id@,
        model_id: r.model_id@,
        key: r.key@,
        name: r.name@,
        lab: opt_view(r.lab),
        fallback_lab: opt_view(r.fallback_lab),
        provenance: r.provenance,
    }
}

/// Position, from `k` on, of the snapshot identity of offering
/// `(provider, model)`.
pub open spec fn snapshot_pos_from(snap: Seq<ResolvedIdentity>, provider: Seq<char>, model: Seq<char>, k: int) -> Option<int>
    decreases snap.len() - k,
{
    if k < 0 || k >= snap.len() {
        None
    } else if snap[k].provider_id@ == provider && snap[k].model_id@ == model {
        Some(k)
    } else {
        snapshot_pos_from(snap, provider, model, k + 1)
    }
}

/// Position of the snapshot identity of an entry.
pub open spec fn snapshot_pos(snap: Seq<ResolvedIdentity>, e: EntryView) -> Option<int> {
    snapshot_pos_from(snap, e.provider_id, e.id, 0)
}

pub proof fn lemma_snapshot_pos_from(snap: Seq<ResolvedIdentity>, provider: Seq<char>, model: Seq<char>, k: int)
    requires
        0 <= k,
    ensures
        snapshot_pos_from(snap, provider, model, k) matches Some(p) ==> k <= p < snap.len()
            && snap[p].provider_id@ == provider && snap[p].model_id@ == model,
    decreases snap.len() - k,
{
    if k < snap.len() && !(snap[k].provider_id@ == provider && snap[k].model_id@ == model) {
        lemma_snapshot_pos_from(snap, provider, model, k + 1);
    }
}

/// The snapshot identity of an entry (meaningful when it has one).
pub open spec fn identity_of(snap: Seq<ResolvedIdentity>, e: EntryView) -> IdentityView {
    identity_view(snap[snapshot_pos(snap, e).unwrap()])
}

/// Every entry has a snapshot identity.
pub open spec fn covered(snap: Seq<ResolvedIdentity>, es: Seq<EntryView>) -> bool {
    forall|i: int| 0 <= i < es.len() ==> #[trigger] snapshot_pos(snap, es[i]) is Some
}

/// Find the snapshot identity of an entry.
pub fn snapshot_lookup(snap: &Vec<ResolvedIdentity>, e: &ModelEntry) -> (r: Option<usize>)
    ensures
        match r {
            Some(p) => snapshot_pos(snap@, entry_view(*e)) == Some(p as int),
            None => snapshot_pos(snap@, entry_view(*e)) is None,
        },
{
    let mut k: usize = 0;
    while k < snap.len()
        invariant
            k <= snap@.len(),
            snapshot_pos(snap@, entry_view(*e)) == snapshot_pos_from(snap@, e.provider_id@, e.id@, k as int),
        decreases snap.len() - k,
    {
        if str_eq(snap[k].provider_id.as_str(), e.provider_id.as_str()) && str_eq(snap[k].model_id.as_str(), e.id.as_str()) {
            return Some(k);
        }
        k = k + 1;
    }
    None
}

/// The entries among the first `n` whose snapshot identity has key `key`.
pub open spec fn drill_kept(snap: Seq<ResolvedIdentity>, es: Seq<EntryView>, key: Seq<char>, n: nat) -> Seq<EntryView>
    decreases n,
{
    if n == 0 || n > es.len() {
        seq![]
    } else {
        let prev = drill_kept(snap, es, key, (n - 1) as nat);
        let e = es[n - 1];
        if snapshot_pos(snap, e) is Some && identity_of(snap, e).key == key { prev.push(e) } else { prev }
    }
}

/// Keep the entries that belong to the drilled-into identity `key`.
pub fn drill_filter(snap: &Vec<ResolvedIdentity>, es: &Vec<ModelEntry>, key: &String) -> (r: Vec<ModelEntry>)
    ensures
        entries_view(r@) == drill_kept(snap@, entries_view(es@), key@, es@.len() as nat),
{
    let mut out: Vec<ModelEntry> = Vec::new();
    let mut i: usize = 0;
    while i < es.len()
        invariant
            i <= es@.len(),
            entries_view(out@) == drill_kept(snap@, entries_view(es@), key@, i as nat),
        decreases es.len() - i,
    {
        let ghost before = out@;
        match snapshot_lookup(snap, &es[i]) {
            Some(p) => {
                proof {
                    lemma_snapshot_pos_from(snap@, es@[i as int].provider_id@, es@[i as int].id@, 0);
                }
                if str_eq(snap[p].key.as_str(), key.as_str()) {
                    let c = copy_entry(&es[i]);
                    out.push(c);
                    assert(out@ =~= before.push(c));
                    assert(entries_view(out@) =~= entries_view(before).push(entry_view(c)));
                }
            },
            None => {},
        }
        i = i + 1;
    }
    out
}

/// The entries with their snapshot provenance attached.
pub open spec fn with_identity(snap: Seq<ResolvedIdentity>, es: Seq<EntryView>) -> Seq<EntryView> {
    Seq::new(es.len(), |i: int| EntryView { identity: Some(identity_of(snap, es[i]).provenance), ..es[i] })
}

/// Attach each entry's snapshot provenance.
pub fn attach_identities(snap: &Vec<ResolvedIdentity>, es: &mut Vec<ModelEntry>)
    requires
        covered(snap@, entries_view(old(es)@)),
    ensures
        entries_view(final(es)@) == with_identity(snap@, entries_view(old(es)@)),
{
    let ghost orig = entries_view(es@);
    let mut i: usize = 0;
    while i < es.len()
        invariant
            i <= es@.len(),
            es@.len() == orig.len(),
            covered(snap@, orig),
            forall|j: int| 0 <= j < i ==> #[trigger] entry_view(es@[j]) == with_identity(snap@, orig)[j],
            forall|j: int| i <= j < es@.len() ==> #[trigger] entry_view(es@[j]) == orig[j],
        decreases es.len() - i,
    {
        assert(snapshot_pos(snap@, orig[i as int]) is Some);
        let p = snapshot_lookup(snap, &es[i]).unwrap();
        proof {
            lemma_snapshot_pos_from(snap@, es@[i as int].provider_id@, es@[i as int].id@, 0);
        }
        let mut e = es.remove(i);
        e.identity = Some(snap[p].provenance);
        es.insert(i, e);
        i = i + 1;
    }
    assert(entries_view(es@) =~= with_identity(snap@, orig));
}

/// One row of the grouped model list: a model across its offerings.
/// Capability tallies are `(true_count, total)`.
#[derive(Debug, PartialEq, Eq)]
pub struct ModelGroup {
    /// The identity key shared by the members.
    pub key: String,
    pub name: String,
    pub lab: Option<String>,
    /// Distinct providers among the members.
    pub provider_count: usize,
    pub offering_count: usize,
    pub reasoning: (usize, usize),
    pub tools: (usize, usize),
    pub files: (usize, usize),
    pub open: (usize, usize),
    /// Lowest and highest input price keys among the members.
    pub input_range: Option<(i64, i64)>,
    /// Lowest and highest output price keys among the members.
    pub output_range: Option<(i64, i64)>,
    /// Smallest and largest context windows among the members.
    pub context_range: Option<(u64, u64)>,
    /// Latest release date among the members.
    pub max_release: Option<String>,
    /// Position of the first member in the model list.
    pub first_entry: usize,
    /// Positions of all members in the model list, in list order.
    pub member_indices: Vec<usize>,
    /// Provenance of each member, parallel to `member_indices`.
    pub member_provenance: Vec<ModelIdentityProvenance>,
}

/// Ghost form of a group under construction: the distinct providers are
/// kept as a list.
pub ghost struct GroupView {
    pub key: Seq<char>,
    pub name: Seq<char>,
    pub lab: Option<Seq<char>>,
    pub providers: Seq<Seq<char>>,
    pub offering_count: nat,
    pub reasoning: (nat, nat),
    pub tools: (nat, nat),
    pub files: (nat, nat),
    pub open: (nat, nat),
    pub input_range: Option<(i64, i64)>,
    pub output_range: Option<(i64, i64)>,
    pub context_range: Option<(u64, u64)>,
    pub max_release: Option<Seq<char>>,
    pub first_entry: nat,
    pub members: Seq<usize>,
    pub provenance: Seq<ModelIdentityProvenance>,
}

/// The group `g` is described by `v`.
pub open spec fn group_matches(g: ModelGroup, v: GroupView) -> bool {
    &&& g.key@ == v.key
    &&& g.name@ == v.name
    &&& opt_view(g.lab) == v.lab
    &&& g.provider_count == v.providers.len()
    &&& g.offering_count == v.offering_count
    &&& g.reasoning.0 == v.reasoning.0 && g.reasoning.1 == v.reasoning.1
    &&& g.tools.0 == v.tools.0 && g.tools.1 == v.tools.1
    &&& g.files.0 == v.files.0 && g.files.1 == v.files.1
    &&& g.open.0 == v.open.0 && g.open.1 == v.open.1
    &&& g.input_range == v.input_range
    &&& g.output_range == v.output_range
    &&& g.context_range == v.context_range
    &&& opt_view(g.max_release) == v.max_release
    &&& g.first_entry == v.first_entry
    &&& g.member_indices@ == v.members
    &&& g.member_provenance@ == v.provenance
}

/// Every group is described by its view.
pub open spec fn groups_match(gs: Seq<ModelGroup>, vs: Seq<GroupView>) -> bool {
    &&& gs.len() == vs.len()
    &&& forall|k: int| 0 <= k < gs.len() ==> group_matches(#[trigger] gs[k], vs[k])
}

/// Count one more member, `v` saying whether it has the capability.
pub open spec fn tally(t: (nat, nat), v: bool) -> (nat, nat) {
    (if v { t.0 + 1 } else { t.0 }, t.1 + 1)
}

/// Widen a range to include `v`.
pub open spec fn widen_i64(r: Option<(i64, i64)>, v: Option<i64>) -> Option<(i64, i64)> {
    match v {
        None => r,
        Some(x) => match r {
            None => Some((x, x)),
            Some((lo, hi)) => Some((if x < lo { x } else { lo }, if x > hi { x } else { hi })),
        },
    }
}

/// Widen a range to include `v`.
pub open spec fn widen_u64(r: Option<(u64, u64)>, v: Option<u64>) -> Option<(u64, u64)> {
    match v {
        None => r,
        Some(x) => match r {
            None => Some((x, x)),
            Some((lo, hi)) => Some((if x < lo { x } else { lo }, if x > hi { x } else { hi })),
        },
    }
}

/// The later of two optional dates (`d` replaces `cur` when it sorts after).
pub open spec fn later_release(cur: Option<Seq<char>>, d: Option<Seq<char>>) -> Option<Seq<char>> {
    match d {
        None => cur,
        Some(dd) => match cur {
            None => Some(dd),
            Some(c) => if !lex_le(dd, c) { Some(dd) } else { cur },
        },
    }
}

/// A new, empty group for the identity of the entry at `idx`.
pub open spec fn new_group(id: IdentityView, idx: nat) -> GroupView {
    GroupView {
        key: id.key,
        name: id.name,
        lab: match id.lab {
            Some(l) => Some(l),
            None => id.fallback_lab,
        },
        providers: seq![],
        offering_count: 0,
        reasoning: (0, 0),
        tools: (0, 0),
        files: (0, 0),
        open: (0, 0),
        input_range: None,
        output_range: None,
        context_range: None,
        max_release: None,
        first_entry: idx,
        members: seq![],
        provenance: seq![],
    }
}

/// `g` with the entry `e` at `idx` (provenance `p`) added.
pub open spec fn add_member(g: GroupView, e: EntryView, p: ModelIdentityProvenance, idx: nat) -> GroupView {
    GroupView {
        providers: if g.providers.contains(e.provider_id) { g.providers } else { g.providers.push(e.provider_id) },
        offering_count: g.offering_count + 1,
        reasoning: tally(g.reasoning, e.model.reasoning),
        tools: tally(g.tools, e.model.tool_call),
        files: tally(g.files, e.model.attachment),
        open: tally(g.open, e.model.open_weights),
        input_range: widen_i64(g.input_range, e.model.input_cost),
        output_range: widen_i64(g.output_range, e.model.output_cost),
        context_range: widen_u64(g.context_range, e.model.context),
        max_release: later_release(g.max_release, e.model.release_date),
        members: g.members.push(idx as usize),
        provenance: g.provenance.push(p),
        ..g
    }
}

/// Position, from `k` on, of the group with key `key`.
pub open spec fn find_group_from(gs: Seq<GroupView>, key: Seq<char>, k: int) -> Option<int>
    decreases gs.len() - k,
{
    if k < 0 || k >= gs.len() {
        None
    } else if gs[k].key == key {
        Some(k)
    } else {
        find_group_from(gs, key, k + 1)
    }
}

/// The groups formed by the first `n` entries: one per identity key, in
/// order of first appearance, each aggregating its members.
pub open spec fn groups_upto(snap: Seq<ResolvedIdentity>, es: Seq<EntryView>, n: nat) -> Seq<GroupView>
    decreases n,
{
    if n == 0 || n > es.len() {
        seq![]
    } else {
        let gs = groups_upto(snap, es, (n - 1) as nat);
        let e = es[n - 1];
        let id = identity_of(snap, e);
        match find_group_from(gs, id.key, 0) {
            Some(k) => gs.update(k, add_member(gs[k], e, id.provenance, (n - 1) as nat)),
            None => gs.push(add_member(new_group(id, (n - 1) as nat), e, id.provenance, (n - 1) as nat)),
        }
    }
}

/// Every count of every group is at most `n`.
pub open spec fn counts_within(gs: Seq<GroupView>, n: nat) -> bool {
    forall|k: int| 0 <= k < gs.len() ==> {
        let g = #[trigger] gs[k];
        &&& g.offering_count <= n
        &&& g.providers.len() <= n
        &&& g.reasoning.0 <= g.reasoning.1 <= n
        &&& g.tools.0 <= g.tools.1 <= n
        &&& g.files.0 <= g.files.1 <= n
        &&& g.open.0 <= g.open.1 <= n
    }
}

pub proof fn lemma_find_group_from(gs: Seq<GroupView>, key: Seq<char>, k: int)
    requires
        0 <= k,
    ensures
        find_group_from(gs, key, k) matches Some(p) ==> k <= p < gs.len() && gs[p].key == key,
    decreases gs.len() - k,
{
    if k < gs.len() && gs[k].key != key {
        lemma_find_group_from(gs, key, k + 1);
    }
}

fn tally_exec(t: (usize, usize), v: bool) -> (r: (usize, usize))
    requires
        t.0 <= t.1 < usize::MAX,
    ensures
        r.0 == tally((t.0 as nat, t.1 as nat), v).0,
        r.1 == tally((t.0 as nat, t.1 as nat), v).1,
{
    (if v { t.0 + 1 } else { t.0 }, t.1 + 1)
}

fn widen_i64_exec(r: Option<(i64, i64)>, v: Option<i64>) -> (o: Option<(i64, i64)>)
    ensures
        o == widen_i64(r, v),
{
    match v {
        None => r,
        Some(x) => match r {
            None => Some((x, x)),
            Some((lo, hi)) => Some((if x < lo { x } else { lo }, if x > hi { x } else { hi })),
        },
    }
}

fn widen_u64_exec(r: Option<(u64, u64)>, v: Option<u64>) -> (o: Option<(u64, u64)>)
    ensures
        o == widen_u64(r, v),
{
    match v {
        None => r,
        Some(x) => match r {
            None => Some((x, x)),
            Some((lo, hi)) => Some((if x < lo { x } else { lo }, if x > hi { x } else { hi })),
        },
    }
}

fn copy_opt(o: &Option<String>) -> (r: Option<String>)
    ensures
        opt_view(r) == opt_view(*o),
{
    match o {
        Some(s) => Some(owned(s.as_str())),
        None => None,
    }
}

fn later_release_exec(cur: Option<String>, d: &Option<String>) -> (r: Option<String>)
    ensures
        opt_view(r) == later_release(opt_view(cur), opt_view(*d)),
{
    match d {
        None => cur,
        Some(dd) => match cur {
            None => Some(owned(dd.as_str())),
            Some(c) => if str_after(dd.as_str(), c.as_str()) { Some(owned(dd.as_str())) } else { Some(c) },
        },
    }
}

/// The views of a list of strings.
pub open spec fn strs_view(v: Seq<String>) -> Seq<Seq<char>> {
    v.map_values(|s: String| s@)
}

fn strs_contain(v: &Vec<String>, s: &String) -> (r: bool)
    ensures
        r == strs_view(v@).contains(s@),
{
    let mut i: usize = 0;
    while i < v.len()
        invariant
            i <= v@.len(),
            forall|j: int| 0 <= j < i ==> #[trigger] strs_view(v@)[j] != s@,
        decreases v.len() - i,
    {
        if str_eq(v[i].as_str(), s.as_str()) {
            assert(strs_view(v@)[i as int] == s@);
            return true;
        }
        i = i + 1;
    }
    false
}

/// Add the entry at `idx` to a group.
fn add_member_exec(g: &mut ModelGroup, provs: &mut Vec<String>, e: &ModelEntry, p: ModelIdentityProvenance, idx: usize, Ghost(v): Ghost<GroupView>, Ghost(bound): Ghost<nat>)
    requires
        group_matches(*old(g), v),
        strs_view(old(provs)@) == v.providers,
        counts_within(seq![v], bound),
        bound < usize::MAX,
    ensures
        group_matches(*final(g), add_member(v, entry_view(*e), p, idx as nat)),
        strs_view(final(provs)@) == add_member(v, entry_view(*e), p, idx as nat).providers,
        counts_within(seq![add_member(v, entry_view(*e), p, idx as nat)], bound + 1),
{
    assert(seq![v][0] == v);
    if !strs_contain(provs, &e.provider_id) {
        let ghost before = provs@;
        provs.push(owned(e.provider_id.as_str()));
        assert(strs_view(provs@) =~= strs_view(before).push(e.provider_id@));
    }
    g.provider_count = provs.len();
    g.offering_count = g.offering_count + 1;
    g.reasoning = tally_exec(g.reasoning, e.model.reasoning);
    g.tools = tally_exec(g.tools, e.model.tool_call);
    g.files = tally_exec(g.files, e.model.attachment);
    g.open = tally_exec(g.open, e.model.open_weights);
    g.input_range = widen_i64_exec(g.input_range, e.model.input_cost);
    g.output_range = widen_i64_exec(g.output_range, e.model.output_cost);
    g.context_range = widen_u64_exec(g.context_range, e.model.context);
    let cur = g.max_release.take();
    g.max_release = later_release_exec(cur, &e.model.release_date);
    g.member_indices.push(idx);
    g.member_provenance.push(p);
    let ghost w = add_member(v, entry_view(*e), p, idx as nat);
    assert(seq![w][0] == w);
    assert(g.member_indices@ =~= w.members);
    assert(g.member_provenance@ =~= w.provenance);
}

/// A new, empty group for identity `id`, first seen at `idx`.
fn new_group_exec(id: &ResolvedIdentity, idx: usize) -> (r: ModelGroup)
    ensures
        group_matches(r, new_group(identity_view(*id), idx as nat)),
{
    let lab = match &id.lab {
        Some(l) => Some(owned(l.as_str())),
        None => copy_opt(&id.fallback_lab),
    };
    let r = ModelGroup {
        key: owned(id.key.as_str()),
        name: owned(id.name.as_str()),
        lab,
        provider_count: 0,
        offering_count: 0,
        reasoning: (0, 0),
        tools: (0, 0),
        files: (0, 0),
        open: (0, 0),
        input_range: None,
        output_range: None,
        context_range: None,
        max_release: None,
        first_entry: idx,
        member_indices: Vec::new(),
        member_provenance: Vec::new(),
    };
    assert(r.member_indices@ =~= seq![]);
    assert(r.member_provenance@ =~= seq![]);
    r
}

/// Group the model list by snapshot identity: one group per key, in order
/// of first appearance (see [`groups_upto`]).
pub fn build_groups(snap: &Vec<ResolvedIdentity>, es: &Vec<ModelEntry>) -> (r: Vec<ModelGroup>)
    requires
        covered(snap@, entries_view(es@)),
    ensures
        groups_match(r@, groups_upto(snap@, entries_view(es@), es@.len() as nat)),
{
    let ghost ev = entries_view(es@);
    let mut groups: Vec<ModelGroup> = Vec::new();
    let mut provs: Vec<Vec<String>> = Vec::new();
    let mut i: usize = 0;
    while i < es.len()
        invariant
            i <= es@.len(),
            ev == entries_view(es@),
            covered(snap@, ev),
            groups_match(groups@, groups_upto(snap@, ev, i as nat)),
            provs@.len() == groups@.len(),
            forall|k: int| 0 <= k < provs@.len() ==> strs_view(#[trigger] provs@[k]@) == groups_upto(snap@, ev, i as nat)[k].providers,
            counts_within(groups_upto(snap@, ev, i as nat), i as nat),
        decreases es.len() - i,
    {
        let ghost gs = groups_upto(snap@, ev, i as nat);
        assert(ev[i as int] == entry_view(es@[i as int]));
        assert(snapshot_pos(snap@, ev[i as int]) is Some);
        let p = snapshot_lookup(snap, &es[i]).unwrap();
        proof {
            lemma_snapshot_pos_from(snap@, es@[i as int].provider_id@, es@[i as int].id@, 0);
        }
        let ghost id = identity_view(snap@[p as int]);
        assert(id == identity_of(snap@, ev[i as int]));
        let mut k: usize = 0;
        while k < groups.len() && !str_eq(groups[k].key.as_str(), snap[p].key.as_str())
            invariant
                k <= groups@.len(),
                groups_match(groups@, gs),
                find_group_from(gs, id.key, 0) == find_group_from(gs, id.key, k as int),
                p < snap@.len(),
                id.key == snap@[p as int].key@,
            decreases groups.len() - k,
        {
            assert(group_matches(groups@[k as int], gs[k as int]));
            k = k + 1;
        }
        proof {
            lemma_find_group_from(gs, id.key, 0);
            if k < groups@.len() {
                assert(group_matches(groups@[k as int], gs[k as int]));
            }
        }
        let ghost next = groups_upto(snap@, ev, (i + 1) as nat);
        if k < groups.len() {
            assert(group_matches(groups@[k as int], gs[k as int]));
            assert(next == gs.update(k as int, add_member(gs[k as int], ev[i as int], id.provenance, i as nat)));
            let ghost gbefore = groups@;
            let ghost pbefore = provs@;
            let mut g = groups.remove(k);
            let mut pv = provs.remove(k);
            assert(counts_within(seq![gs[k as int]], i as nat)) by {
                assert(seq![gs[k as int]][0] == gs[k as int]);
            }
            add_member_exec(&mut g, &mut pv, &es[i], snap[p].provenance, i, Ghost(gs[k as int]), Ghost(i as nat));
            groups.insert(k, g);
            provs.insert(k, pv);
            proof {
                let w = add_member(gs[k as int], ev[i as int], id.provenance, i as nat);
                assert(seq![w][0] == w);
                assert forall|t: int| 0 <= t < groups@.len() implies group_matches(#[trigger] groups@[t], next[t]) by {
                    if t != k {
                        assert(groups@[t] == gbefore[t]);
                    }
                }
                assert forall|t: int| 0 <= t < provs@.len() implies strs_view(#[trigger] provs@[t]@) == next[t].providers by {
                    if t != k {
                        assert(provs@[t] == pbefore[t]);
                    }
                }
                assert forall|t: int| 0 <= t < next.len() implies {
                    let g = #[trigger] next[t];
                    &&& g.offering_count <= i + 1
                    &&& g.providers.len() <= i + 1
                    &&& g.reasoning.0 <= g.reasoning.1 <= i + 1
                    &&& g.tools.0 <= g.tools.1 <= i + 1
                    &&& g.files.0 <= g.files.1 <= i + 1
                    &&& g.open.0 <= g.open.1 <= i + 1
                } by {
                    if t != k {
                        assert(next[t] == gs[t]);
                    }
                }
            }
        } else {
            assert(find_group_from(gs, id.key, 0) is None);
            let mut g = new_group_exec(&snap[p], i);
            let mut pv: Vec<String> = Vec::new();
            assert(strs_view(pv@) =~= seq![]);
            assert(counts_within(seq![new_group(id, i as nat)], i as nat)) by {
                assert(seq![new_group(id, i as nat)][0] == new_group(id, i as nat));
            }
            add_member_exec(&mut g, &mut pv, &es[i], snap[p].provenance, i, Ghost(new_group(id, i as nat)), Ghost(i as nat));
            let ghost gbefore = groups@;
            let ghost pbefore = provs@;
            groups.push(g);
            provs.push(pv);
            proof {
                let w = add_member(new_group(id, i as nat), ev[i as int], id.provenance, i as nat);
                assert(seq![w][0] == w);
                assert(next == gs.push(w));
                assert forall|t: int| 0 <= t < groups@.len() implies group_matches(#[trigger] groups@[t], next[t]) by {
                    if t < gbefore.len() {
                        assert(groups@[t] == gbefore[t]);
                    }
                }
                assert forall|t: int| 0 <= t < provs@.len() implies strs_view(#[trigger] provs@[t]@) == next[t].providers by {
                    if t < pbefore.len() {
                        assert(provs@[t] == pbefore[t]);
                    }
                }
                assert forall|t: int| 0 <= t < next.len() implies {
                    let g = #[trigger] next[t];
                    &&& g.offering_count <= i + 1
                    &&& g.providers.len() <= i + 1
                    &&& g.reasoning.0 <= g.reasoning.1 <= i + 1
                    &&& g.tools.0 <= g.tools.1 <= i + 1
                    &&& g.files.0 <= g.files.1 <= i + 1
                    &&& g.open.0 <= g.open.1 <= i + 1
                } by {
                    if t < gs.len() {
                        assert(next[t] == gs[t]);
                    }
                }
            }
        }
        i = i + 1;
    }
    groups
}

/// Groups keyed by name.
pub open spec fn name_keys(gs: Seq<GroupView>) -> Seq<SortValView> {
    Seq::new(gs.len(), |i: int| SortValView::Text(Some(gs[i].name)))
}

/// The aggregate a group sorts by: latest release, cheapest input price,
/// largest context window (the name for the default order).
pub open spec fn group_order_keys(gs: Seq<GroupView>, order: SortOrder) -> Seq<SortValView> {
    Seq::new(gs.len(), |i: int| match order {
        SortOrder::Default => SortValView::Text(Some(gs[i].name)),
        SortOrder::ReleaseDate => SortValView::Text(gs[i].max_release),
        SortOrder::Cost => SortValView::Num(
            match gs[i].input_range {
                Some(r) => Some(r.0),
                None => None,
            },
        ),
        SortOrder::Context => SortValView::Num(
            ctx_key(
                match gs[i].context_range {
                    Some(r) => Some(r.1),
                    None => None,
                },
            ),
        ),
    })
}

/// The group has the aggregate `order` sorts by.
pub open spec fn group_has_key(g: GroupView, order: SortOrder) -> bool {
    match order {
        SortOrder::Default => true,
        SortOrder::ReleaseDate => g.max_release is Some,
        SortOrder::Cost => g.input_range is Some,
        SortOrder::Context => g.context_range is Some,
    }
}

/// Positions (ascending) among the first `n` groups that have (`present`)
/// or lack the sort aggregate.
pub open spec fn group_keyed_upto(gs: Seq<GroupView>, order: SortOrder, present: bool, n: nat) -> Seq<usize>
    decreases n,
{
    if n == 0 || n > gs.len() {
        seq![]
    } else {
        let prev = group_keyed_upto(gs, order, present, (n - 1) as nat);
        if group_has_key(gs[n - 1], order) == present { prev.push((n - 1) as usize) } else { prev }
    }
}

/// The order of the grouped list, mirroring the flat list on aggregates.
/// Default: by name. Release date: undated groups first (by name), then by
/// latest release, newest first unless ascending. Cost: priced groups by
/// cheapest input price, cheapest first unless ascending, then unpriced ones
/// (by name). Context: groups without a window first (by name), then by
/// largest window, largest first unless ascending. Ties keep their order.
pub open spec fn spec_group_order(gs: Seq<GroupView>, order: SortOrder, asc: bool) -> Seq<usize> {
    let names = name_keys(gs);
    let keys = group_order_keys(gs, order);
    let with = group_keyed_upto(gs, order, true, gs.len());
    let without = group_keyed_upto(gs, order, false, gs.len());
    match order {
        SortOrder::Default => insertion_sorted(names, false, Seq::new(gs.len(), |i: int| i as usize)),
        SortOrder::ReleaseDate => insertion_sorted(names, false, without) + insertion_sorted(keys, !asc, with),
        SortOrder::Cost => insertion_sorted(keys, asc, with) + insertion_sorted(names, false, without),
        SortOrder::Context => insertion_sorted(names, false, without) + insertion_sorted(keys, !asc, with),
    }
}

/// The groups in list order.
pub open spec fn spec_sorted_groups(gs: Seq<GroupView>, order: SortOrder, asc: bool) -> Seq<GroupView> {
    spec_group_order(gs, order, asc).map_values(|i: usize| gs[i as int])
}

fn group_key_exec(g: &ModelGroup, order: SortOrder) -> (r: SortVal)
    ensures
        forall|v: GroupView| group_matches(*g, v) ==> val_view(r) == group_order_keys(seq![v], order)[0],
{
    match order {
        SortOrder::Default => SortVal::Text(Some(chars_of(g.name.as_str()))),
        SortOrder::ReleaseDate => SortVal::Text(
            match &g.max_release {
                Some(d) => Some(chars_of(d.as_str())),
                None => None,
            },
        ),
        SortOrder::Cost => SortVal::Num(
            match g.input_range {
                Some(r) => Some(r.0),
                None => None,
            },
        ),
        SortOrder::Context => SortVal::Num(
            match g.context_range {
                Some(r) => Some(ctx_order_key(r.1)),
                None => None,
            },
        ),
    }
}

fn group_keys_exec(groups: &Vec<ModelGroup>, order: SortOrder, Ghost(vs): Ghost<Seq<GroupView>>) -> (r: Vec<SortVal>)
    requires
        groups_match(groups@, vs),
    ensures
        key_views(r@) == group_order_keys(vs, order),
        r@.len() == vs.len(),
{
    let mut out: Vec<SortVal> = Vec::new();
    let mut i: usize = 0;
    while i < groups.len()
        invariant
            i <= groups@.len(),
            groups_match(groups@, vs),
            out@.len() == i,
            forall|j: int| 0 <= j < i ==> #[trigger] val_view(out@[j]) == group_order_keys(vs, order)[j],
        decreases groups.len() - i,
    {
        let k = group_key_exec(&groups[i], order);
        proof {
            assert(group_matches(groups@[i as int], vs[i as int]));
            assert(group_order_keys(seq![vs[i as int]], order)[0] == group_order_keys(vs, order)[i as int]);
        }
        out.push(k);
        i = i + 1;
    }
    assert(key_views(out@) =~= group_order_keys(vs, order));
    out
}

fn group_has_key_exec(g: &ModelGroup, order: SortOrder) -> (r: bool)
    ensures
        forall|v: GroupView| group_matches(*g, v) ==> r == group_has_key(v, order),
{
    match order {
        SortOrder::Default => true,
        SortOrder::ReleaseDate => g.max_release.is_some(),
        SortOrder::Cost => g.input_range.is_some(),
        SortOrder::Context => g.context_range.is_some(),
    }
}

fn group_positions(groups: &Vec<ModelGroup>, order: SortOrder, present: bool, Ghost(vs): Ghost<Seq<GroupView>>) -> (r: Vec<usize>)
    requires
        groups_match(groups@, vs),
    ensures
        r@ == group_keyed_upto(vs, order, present, vs.len()),
        all_below(r@, vs.len()),
{
    let mut out: Vec<usize> = Vec::new();
    let mut i: usize = 0;
    while i < groups.len()
        invariant
            i <= groups@.len(),
            groups_match(groups@, vs),
            out@ == group_keyed_upto(vs, order, present, i as nat),
            all_below(out@, i as nat),
        decreases groups.len() - i,
    {
        assert(group_matches(groups@[i as int], vs[i as int]));
        if group_has_key_exec(&groups[i], order) == present {
            out.push(i);
        }
        i = i + 1;
    }
    out
}

fn copy_usizes(v: &Vec<usize>) -> (r: Vec<usize>)
    ensures
        r@ == v@,
{
    let mut out: Vec<usize> = Vec::new();
    let mut i: usize = 0;
    while i < v.len()
        invariant
            i <= v@.len(),
            out@ == v@.take(i as int),
        decreases v.len() - i,
    {
        out.push(v[i]);
        i = i + 1;
        assert(out@ =~= v@.take(i as int));
    }
    assert(v@.take(i as int) =~= v@);
    out
}

fn copy_provenance(v: &Vec<ModelIdentityProvenance>) -> (r: Vec<ModelIdentityProvenance>)
    ensures
        r@ == v@,
{
    let mut out: Vec<ModelIdentityProvenance> = Vec::new();
    let mut i: usize = 0;
    while i < v.len()
        invariant
            i <= v@.len(),
            out@ == v@.take(i as int),
        decreases v.len() - i,
    {
        out.push(v[i]);
        i = i + 1;
        assert(out@ =~= v@.take(i as int));
    }
    assert(v@.take(i as int) =~= v@);
    out
}

/// A copy of a group.
pub fn copy_group(g: &ModelGroup) -> (r: ModelGroup)
    ensures
        forall|v: GroupView| group_matches(*g, v) ==> group_matches(r, v),
{
    ModelGroup {
        key: owned(g.key.as_str()),
        name: owned(g.name.as_str()),
        lab: copy_opt(&g.lab),
        provider_count: g.provider_count,
        offering_count: g.offering_count,
        reasoning: (g.reasoning.0, g.reasoning.1),
        tools: (g.tools.0, g.tools.1),
        files: (g.files.0, g.files.1),
        open: (g.open.0, g.open.1),
        input_range: g.input_range,
        output_range: g.output_range,
        context_range: g.context_range,
        max_release: copy_opt(&g.max_release),
        first_entry: g.first_entry,
        member_indices: copy_usizes(&g.member_indices),
        member_provenance: copy_provenance(&g.member_provenance),
    }
}

/// Sort the grouped list (see [`spec_group_order`]).
pub fn sort_groups(groups: &Vec<ModelGroup>, order: SortOrder, asc: bool, Ghost(vs): Ghost<Seq<GroupView>>) -> (r: Vec<ModelGroup>)
    requires
        groups_match(groups@, vs),
    ensures
        groups_match(r@, spec_sorted_groups(vs, order, asc)),
{
    let names = group_keys_exec(groups, SortOrder::Default, Ghost(vs));
    assert(group_order_keys(vs, SortOrder::Default) =~= name_keys(vs));
    let keys = group_keys_exec(groups, order, Ghost(vs));
    let ord: Vec<usize> = match order {
        SortOrder::Default => {
            let mut all: Vec<usize> = Vec::new();
            let mut i: usize = 0;
            while i < groups.len()
                invariant
                    i <= groups@.len(),
                    groups@.len() == vs.len(),
                    all@ == Seq::new(vs.len(), |j: int| j as usize).take(i as int),
                decreases groups.len() - i,
            {
                all.push(i);
                i = i + 1;
                assert(all@ =~= Seq::new(vs.len(), |j: int| j as usize).take(i as int));
            }
            assert(all@ =~= Seq::new(vs.len(), |j: int| j as usize));
            sort_by_keys(&all, &names, false)
        },
        SortOrder::Cost => {
            let with = group_positions(groups, order, true, Ghost(vs));
            let without = group_positions(groups, order, false, Ghost(vs));
            let mut a = sort_by_keys(&with, &keys, asc);
            let mut b = sort_by_keys(&without, &names, false);
            a.append(&mut b);
            a
        },
        _ => {
            let with = group_positions(groups, order, true, Ghost(vs));
            let without = group_positions(groups, order, false, Ghost(vs));
            let mut a = sort_by_keys(&without, &names, false);
            let mut b = sort_by_keys(&with, &keys, !asc);
            a.append(&mut b);
            a
        },
    };
    assert(ord@ == spec_group_order(vs, order, asc));
    let mut out: Vec<ModelGroup> = Vec::new();
    let mut k: usize = 0;
    while k < ord.len()
        invariant
            k <= ord@.len(),
            groups_match(groups@, vs),
            ord@ == spec_group_order(vs, order, asc),
            all_below(ord@, vs.len()),
            out@.len() == k,
            forall|t: int| 0 <= t < k ==> group_matches(#[trigger] out@[t], vs[ord@[t] as int]),
        decreases ord.len() - k,
    {
        let gi = ord[k];
        assert(group_matches(groups@[gi as int], vs[gi as int]));
        out.push(copy_group(&groups[gi]));
        k = k + 1;
    }
    proof {
        let sv = spec_sorted_groups(vs, order, asc);
        assert forall|t: int| 0 <= t < out@.len() implies group_matches(#[trigger] out@[t], sv[t]) by {}
    }
    out
}

/// The groups of the first `n` entries partition them by identity: keys are
/// distinct; each group lists its members in increasing order, starting at
/// its first entry, one per counted offering, each with the group's key;
/// and every entry is a member of some group.
pub open spec fn groups_partition(snap: Seq<ResolvedIdentity>, es: Seq<EntryView>, gs: Seq<GroupView>, n: nat) -> bool {
    &&& forall|a: int, b: int| 0 <= a < b < gs.len() ==> gs[a].key != gs[b].key
    &&& forall|k: int| 0 <= k < gs.len() ==> {
        let g = #[trigger] gs[k];
        &&& g.members.len() == g.offering_count
        &&& g.members.len() > 0
        &&& g.members[0] == g.first_entry
        &&& g.provenance.len() == g.members.len()
        &&& forall|t: int| 0 <= t < g.members.len() ==> #[trigger] g.members[t] < n
            && identity_of(snap, es[g.members[t] as int]).key == g.key
        &&& forall|t: int, u: int| 0 <= t < u < g.members.len() ==> #[trigger] g.members[t] < #[trigger] g.members[u]
    }
    &&& forall|i: int| 0 <= i < n ==> #[trigger] is_member(gs, i)
}

/// Entry `i` is a member of one of the groups.
pub open spec fn is_member(gs: Seq<GroupView>, i: int) -> bool {
    exists|k: int, t: int| 0 <= k < gs.len() && 0 <= t < gs[k].members.len() && #[trigger] gs[k].members[t] == i
}

/// Grouping partitions the model list: every entry belongs to exactly one
/// group (the one with its identity key), and each group's members, counts
/// and first entry agree.
pub proof fn lemma_groups_partition(snap: Seq<ResolvedIdentity>, es: Seq<EntryView>, n: nat)
    requires
        n <= es.len(),
        n <= usize::MAX,
    ensures
        groups_partition(snap, es, groups_upto(snap, es, n), n),
        groups_upto(snap, es, n).len() <= n,
    decreases n,
{
    if n == 0 {
        return;
    }
    let m = (n - 1) as nat;
    lemma_groups_partition(snap, es, m);
    let gs = groups_upto(snap, es, m);
    let e = es[m as int];
    let id = identity_of(snap, e);
    let next = groups_upto(snap, es, n);
    lemma_find_group_from(gs, id.key, 0);
    match find_group_from(gs, id.key, 0) {
        Some(k) => {
            let w = add_member(gs[k], e, id.provenance, m);
            assert(next == gs.update(k, w));
            assert forall|a: int, b: int| 0 <= a < b < next.len() implies next[a].key != next[b].key by {
                assert(gs[a].key != gs[b].key);
            }
            assert forall|j: int| 0 <= j < next.len() implies {
                let g = #[trigger] next[j];
                &&& g.members.len() == g.offering_count
                &&& g.members.len() > 0
                &&& g.members[0] == g.first_entry
                &&& g.provenance.len() == g.members.len()
                &&& forall|t: int| 0 <= t < g.members.len() ==> #[trigger] g.members[t] < n
                    && identity_of(snap, es[g.members[t] as int]).key == g.key
                &&& forall|t: int, u: int| 0 <= t < u < g.members.len() ==> #[trigger] g.members[t] < #[trigger] g.members[u]
            } by {
                let g0 = gs[j];
                if j == k {
                    assert(next[j] == w);
                    assert forall|t: int| 0 <= t < w.members.len() implies #[trigger] w.members[t] < n
                        && identity_of(snap, es[w.members[t] as int]).key == w.key by {
                        if t < g0.members.len() {
                            assert(w.members[t] == g0.members[t]);
                        }
                    }
                    assert forall|t: int, u: int| 0 <= t < u < w.members.len() implies #[trigger] w.members[t] < #[trigger] w.members[u] by {
                        if u < g0.members.len() {
                            assert(w.members[t] == g0.members[t] && w.members[u] == g0.members[u]);
                        } else {
                            assert(w.members[t] == g0.members[t]);
                            assert(g0.members[t] < m);
                        }
                    }
                    assert(w.members[0] == g0.members[0]);
                } else {
                    assert(next[j] == g0);
                }
            }
            assert forall|i: int| 0 <= i < n implies #[trigger] is_member(next, i) by {
                if i == m {
                    assert(next[k].members[next[k].members.len() - 1] == i);
                } else {
                    assert(is_member(gs, i));
                    let (kk, t) = choose|kk: int, t: int| 0 <= kk < gs.len() && 0 <= t < gs[kk].members.len() && #[trigger] gs[kk].members[t] == i;
                    if kk == k {
                        assert(next[kk].members[t] == gs[kk].members[t]);
                    } else {
                        assert(next[kk] == gs[kk]);
                    }
                }
            }
        },
        None => {
            let w = add_member(new_group(id, m), e, id.provenance, m);
            assert(next == gs.push(w));
            assert forall|a: int| 0 <= a < gs.len() implies gs[a].key != id.key by {
                lemma_find_group_none(gs, id.key, 0, a);
            }
            assert forall|a: int, b: int| 0 <= a < b < next.len() implies next[a].key != next[b].key by {
                if b < gs.len() {
                    assert(gs[a].key != gs[b].key);
                } else {
                    assert(next[b] == w);
                    assert(next[a] == gs[a]);
                }
            }
            assert forall|j: int| 0 <= j < next.len() implies {
                let g = #[trigger] next[j];
                &&& g.members.len() == g.offering_count
                &&& g.members.len() > 0
                &&& g.members[0] == g.first_entry
                &&& g.provenance.len() == g.members.len()
                &&& forall|t: int| 0 <= t < g.members.len() ==> #[trigger] g.members[t] < n
                    && identity_of(snap, es[g.members[t] as int]).key == g.key
                &&& forall|t: int, u: int| 0 <= t < u < g.members.len() ==> #[trigger] g.members[t] < #[trigger] g.members[u]
            } by {
                if j < gs.len() {
                    assert(next[j] == gs[j]);
                } else {
                    assert(next[j] == w);
                    assert(w.members =~= seq![m as usize]);
                }
            }
            assert forall|i: int| 0 <= i < n implies #[trigger] is_member(next, i) by {
                if i == m {
                    assert(next[gs.len() as int].members[0] == i);
                } else {
                    assert(is_member(gs, i));
                    let (kk, t) = choose|kk: int, t: int| 0 <= kk < gs.len() && 0 <= t < gs[kk].members.len() && #[trigger] gs[kk].members[t] == i;
                    assert(next[kk] == gs[kk]);
                }
            }
        },
    }
}

proof fn lemma_find_group_none(gs: Seq<GroupView>, key: Seq<char>, k: int, a: int)
    requires
        0 <= k <= a < gs.len(),
        find_group_from(gs, key, k) is None,
    ensures
        gs[a].key != key,
    decreases a - k,
{
    if k < a {
        lemma_find_group_none(gs, key, k + 1, a);
    }
}

proof fn lemma_group_keyed_upto(gs: Seq<GroupView>, order: SortOrder, present: bool, n: nat)
    requires
        n <= gs.len(),
        n <= usize::MAX,
    ensures
        group_keyed_upto(gs, order, present, n).no_duplicates(),
        forall|y: usize| #[trigger] group_keyed_upto(gs, order, present, n).contains(y) <==> (y < n
            && group_has_key(gs[y as int], order) == present),
        group_keyed_upto(gs, order, true, n).len() + group_keyed_upto(gs, order, false, n).len() == n,
    decreases n,
{
    if n > 0 {
        let m = (n - 1) as nat;
        lemma_group_keyed_upto(gs, order, present, m);
        lemma_group_keyed_upto(gs, order, !present, m);
        let prev = group_keyed_upto(gs, order, present, m);
        let cur = group_keyed_upto(gs, order, present, n);
        assert forall|y: usize| #[trigger] cur.contains(y) <==> (y < n && group_has_key(gs[y as int], order) == present) by {
            if cur.contains(y) {
                let j = choose|j: int| 0 <= j < cur.len() && cur[j] == y;
                if j < prev.len() {
                    assert(prev[j] == y);
                    assert(prev.contains(y));
                }
            }
            if y < n && group_has_key(gs[y as int], order) == present {
                if y < m {
                    assert(prev.contains(y));
                    let j = choose|j: int| 0 <= j < prev.len() && prev[j] == y;
                    assert(cur[j] == y);
                } else {
                    assert(cur[cur.len() - 1] == y);
                }
            }
        }
        if group_has_key(gs[m as int], order) == present {
            assert(!prev.contains(m as usize));
            assert forall|i: int, j: int| 0 <= i < cur.len() && 0 <= j < cur.len() && i != j implies cur[i] != cur[j] by {
                if i < prev.len() && j < prev.len() {
                } else if i < prev.len() {
                    assert(prev.contains(cur[i]));
                } else {
                    assert(prev.contains(cur[j]));
                }
            }
        }
        lemma_group_keyed_upto(gs, order, true, m);
        lemma_group_keyed_upto(gs, order, false, m);
    }
}

proof fn lemma_concat_elements(a: Seq<usize>, b: Seq<usize>)
    requires
        a.no_duplicates(),
        b.no_duplicates(),
        forall|y: usize| a.contains(y) ==> !b.contains(y),
    ensures
        (a + b).no_duplicates(),
        forall|y: usize| #[trigger] (a + b).contains(y) <==> (a.contains(y) || b.contains(y)),
{
    let c = a + b;
    assert forall|y: usize| #[trigger] c.contains(y) <==> (a.contains(y) || b.contains(y)) by {
        if c.contains(y) {
            let j = choose|j: int| 0 <= j < c.len() && c[j] == y;
            if j < a.len() {
                assert(a[j] == y);
            } else {
                assert(b[j - a.len()] == y);
            }
        }
        if a.contains(y) {
            let j = choose|j: int| 0 <= j < a.len() && a[j] == y;
            assert(c[j] == y);
        }
        if b.contains(y) {
            let j = choose|j: int| 0 <= j < b.len() && b[j] == y;
            assert(c[j + a.len()] == y);
        }
    }
    assert forall|i: int, j: int| 0 <= i < c.len() && 0 <= j < c.len() && i != j implies c[i] != c[j] by {
        if i < a.len() && j < a.len() {
            assert(c[i] == a[i] && c[j] == a[j]);
        } else if i >= a.len() && j >= a.len() {
            assert(c[i] == b[i - a.len()] && c[j] == b[j - a.len()]);
        } else if i < a.len() {
            assert(a.contains(c[i]));
            assert(b.contains(c[j]));
        } else {
            assert(b.contains(c[i]));
            assert(a.contains(c[j]));
        }
    }
}

/// The grouped list's order lists every group exactly once.
pub proof fn lemma_group_order_permutes(gs: Seq<GroupView>, order: SortOrder, asc: bool)
    requires
        gs.len() <= usize::MAX,
    ensures
        spec_group_order(gs, order, asc).len() == gs.len(),
        spec_group_order(gs, order, asc).no_duplicates(),
        forall|y: usize| #[trigger] spec_group_order(gs, order, asc).contains(y) <==> y < gs.len(),
{
    let n = gs.len();
    let names = name_keys(gs);
    let keys = group_order_keys(gs, order);
    let with = group_keyed_upto(gs, order, true, n);
    let without = group_keyed_upto(gs, order, false, n);
    lemma_group_keyed_upto(gs, order, true, n);
    lemma_group_keyed_upto(gs, order, false, n);
    match order {
        SortOrder::Default => {
            let all = Seq::new(n, |i: int| i as usize);
            lemma_insertion_sorted_elements(names, false, all);
            assert forall|y: usize| #[trigger] all.contains(y) <==> y < n by {
                if y < n {
                    assert(all[y as int] == y);
                }
            }
            assert(all.no_duplicates());
        },
        SortOrder::Cost => {
            lemma_insertion_sorted_elements(keys, asc, with);
            lemma_insertion_sorted_elements(names, false, without);
            lemma_concat_elements(insertion_sorted(keys, asc, with), insertion_sorted(names, false, without));
        },
        _ => {
            lemma_insertion_sorted_elements(names, false, without);
            lemma_insertion_sorted_elements(keys, !asc, with);
            lemma_concat_elements(insertion_sorted(names, false, without), insertion_sorted(keys, !asc, with));
        },
    }
}

/// Sorting the groups keeps them a partition of the model list.
pub proof fn lemma_sorted_groups_partition(snap: Seq<ResolvedIdentity>, es: Seq<EntryView>, gs: Seq<GroupView>, order: SortOrder, asc: bool, n: nat)
    requires
        groups_partition(snap, es, gs, n),
        gs.len() <= usize::MAX,
    ensures
        groups_partition(snap, es, spec_sorted_groups(gs, order, asc), n),
{
    let o = spec_group_order(gs, order, asc);
    let sg = spec_sorted_groups(gs, order, asc);
    lemma_group_order_permutes(gs, order, asc);
    assert forall|p: int| 0 <= p < o.len() implies #[trigger] o[p] < gs.len() by {
        assert(o.contains(o[p]));
    }
    assert forall|a: int, b: int| 0 <= a < b < sg.len() implies sg[a].key != sg[b].key by {
        assert(sg[a] == gs[o[a] as int] && sg[b] == gs[o[b] as int]);
        assert(o[a] != o[b]);
        if (o[a] as int) < (o[b] as int) {
            assert(gs[o[a] as int].key != gs[o[b] as int].key);
        } else {
            assert(gs[o[b] as int].key != gs[o[a] as int].key);
        }
    }
    assert forall|k: int| 0 <= k < sg.len() implies {
        let g = #[trigger] sg[k];
        &&& g.members.len() == g.offering_count
        &&& g.members.len() > 0
        &&& g.members[0] == g.first_entry
        &&& g.provenance.len() == g.members.len()
        &&& forall|t: int| 0 <= t < g.members.len() ==> #[trigger] g.members[t] < n
            && identity_of(snap, es[g.members[t] as int]).key == g.key
        &&& forall|t: int, u: int| 0 <= t < u < g.members.len() ==> #[trigger] g.members[t] < #[trigger] g.members[u]
    } by {
        assert(sg[k] == gs[o[k] as int]);
        let _g = gs[o[k] as int];
    }
    assert forall|i: int| 0 <= i < n implies #[trigger] is_member(sg, i) by {
        assert(is_member(gs, i));
        let (kk, t) = choose|kk: int, t: int| 0 <= kk < gs.len() && 0 <= t < gs[kk].members.len() && #[trigger] gs[kk].members[t] == i;
        assert(o.contains(kk as usize));
        let p = choose|p: int| 0 <= p < o.len() && o[p] == kk as usize;
        assert(sg[p] == gs[kk]);
        assert(sg[p].members[t] == i);
    }
}

/// The providers of the entries at positions `members`.
pub open spec fn member_providers(es: Seq<EntryView>, members: Seq<usize>) -> Set<Seq<char>> {
    Set::new(|q: Seq<char>| exists|t: int| 0 <= t < members.len() && es[members[t] as int].provider_id == q)
}

/// Each group lists the providers of its members, each once.
pub open spec fn providers_exact(es: Seq<EntryView>, gs: Seq<GroupView>) -> bool {
    forall|k: int| 0 <= k < gs.len() ==> {
        let g = #[trigger] gs[k];
        &&& g.providers.no_duplicates()
        &&& g.providers.to_set() == member_providers(es, g.members)
    }
}

proof fn lemma_add_member_providers(es: Seq<EntryView>, g: GroupView, p: ModelIdentityProvenance, idx: nat)
    requires
        idx < es.len(),
        idx <= usize::MAX,
        g.providers.no_duplicates(),
        g.providers.to_set() == member_providers(es, g.members),
    ensures
        ({
            let w = add_member(g, es[idx as int], p, idx);
            &&& w.providers.no_duplicates()
            &&& w.providers.to_set() == member_providers(es, w.members)
        }),
{
    let e = es[idx as int];
    let w = add_member(g, e, p, idx);
    assert(w.members == g.members.push(idx as usize));
    assert(w.members[g.members.len() as int] == idx as usize);
    if !g.providers.contains(e.provider_id) {
        assert forall|i: int, j: int| 0 <= i < w.providers.len() && 0 <= j < w.providers.len() && i != j
            implies w.providers[i] != w.providers[j] by {
            if i < g.providers.len() && j < g.providers.len() {
            } else if i < g.providers.len() {
                assert(g.providers.contains(w.providers[i]));
            } else {
                assert(g.providers.contains(w.providers[j]));
            }
        }
    }
    assert forall|q: Seq<char>| w.providers.to_set().contains(q) <==> #[trigger] member_providers(es, w.members).contains(q) by {
        if w.providers.contains(q) {
            if g.providers.contains(q) {
                assert(g.providers.to_set().contains(q));
                assert(member_providers(es, g.members).contains(q));
                let t = choose|t: int| 0 <= t < g.members.len() && es[g.members[t] as int].provider_id == q;
                assert(w.members[t] == g.members[t]);
                assert(0 <= t < w.members.len() && es[w.members[t] as int].provider_id == q);
            } else {
                let j = choose|j: int| 0 <= j < w.providers.len() && w.providers[j] == q;
                if j < g.providers.len() {
                    assert(g.providers[j] == q);
                }
                assert(q == e.provider_id);
                let t = g.members.len() as int;
                assert(0 <= t < w.members.len() && es[w.members[t] as int].provider_id == q);
            }
        }
        if member_providers(es, w.members).contains(q) {
            let t = choose|t: int| 0 <= t < w.members.len() && es[w.members[t] as int].provider_id == q;
            if t < g.members.len() {
                assert(w.members[t] == g.members[t]);
                assert(member_providers(es, g.members).contains(q));
                assert(g.providers.to_set().contains(q));
                if !g.providers.contains(e.provider_id) {
                    let j = choose|j: int| 0 <= j < g.providers.len() && g.providers[j] == q;
                    assert(w.providers[j] == q);
                }
            } else {
                assert(t == g.members.len());
                assert(w.members[t] == idx as usize);
                assert(q == e.provider_id);
                if !g.providers.contains(e.provider_id) {
                    assert(w.providers[g.providers.len() as int] == q);
                }
            }
        }
    }
    assert(w.providers.to_set() =~= member_providers(es, w.members));
}

/// Grouping lists, in each group, the providers of its members, each once.
pub proof fn lemma_providers_exact(snap: Seq<ResolvedIdentity>, es: Seq<EntryView>, n: nat)
    requires
        n <= es.len(),
        n <= usize::MAX,
    ensures
        providers_exact(es, groups_upto(snap, es, n)),
    decreases n,
{
    if n == 0 {
        return;
    }
    let m = (n - 1) as nat;
    lemma_providers_exact(snap, es, m);
    let gs = groups_upto(snap, es, m);
    let e = es[m as int];
    let id = identity_of(snap, e);
    let next = groups_upto(snap, es, n);
    lemma_find_group_from(gs, id.key, 0);
    match find_group_from(gs, id.key, 0) {
        Some(k) => {
            lemma_add_member_providers(es, gs[k], id.provenance, m);
            assert forall|j: int| 0 <= j < next.len() implies {
                let g = #[trigger] next[j];
                &&& g.providers.no_duplicates()
                &&& g.providers.to_set() == member_providers(es, g.members)
            } by {
                if j != k {
                    assert(next[j] == gs[j]);
                }
            }
        },
        None => {
            let g0 = new_group(id, m);
            assert(g0.providers.to_set() =~= member_providers(es, g0.members));
            lemma_add_member_providers(es, g0, id.provenance, m);
            assert forall|j: int| 0 <= j < next.len() implies {
                let g = #[trigger] next[j];
                &&& g.providers.no_duplicates()
                &&& g.providers.to_set() == member_providers(es, g.members)
            } by {
                if j < gs.len() {
                    assert(next[j] == gs[j]);
                }
            }
        },
    }
}

/// Sorting the groups keeps each group's providers.
pub proof fn lemma_sorted_providers_exact(es: Seq<EntryView>, gs: Seq<GroupView>, order: SortOrder, asc: bool)
    requires
        providers_exact(es, gs),
        gs.len() <= usize::MAX,
    ensures
        providers_exact(es, spec_sorted_groups(gs, order, asc)),
{
    let o = spec_group_order(gs, order, asc);
    let sg = spec_sorted_groups(gs, order, asc);
    lemma_group_order_permutes(gs, order, asc);
    assert forall|k: int| 0 <= k < sg.len() implies {
        let g = #[trigger] sg[k];
        &&& g.providers.no_duplicates()
        &&& g.providers.to_set() == member_providers(es, g.members)
    } by {
        assert(o.contains(o[k]));
        assert(sg[k] == gs[o[k] as int]);
        let _g = gs[o[k] as int];
    }
}

/// Member `t` of `g` has an input price.
pub open spec fn member_priced(es: Seq<EntryView>, g: GroupView, t: int) -> bool {
    es[g.members[t] as int].model.input_cost is Some
}

/// The input price key of member `t` of `g`.
pub open spec fn member_price(es: Seq<EntryView>, g: GroupView, t: int) -> i64 {
    es[g.members[t] as int].model.input_cost.unwrap()
}

/// The low end of the group's input price range is its cheapest member's
/// price: the range is present exactly when some member is priced, its low
/// end is at most every member's price and is the price of one of them.
pub open spec fn input_low_exact(es: Seq<EntryView>, g: GroupView) -> bool {
    &&& forall|t: int| 0 <= t < g.members.len() && #[trigger] member_priced(es, g, t) ==>
        (g.input_range matches Some(r) && r.0 <= member_price(es, g, t))
    &&& g.input_range matches Some(r) ==>
        exists|t: int| 0 <= t < g.members.len() && #[trigger] member_priced(es, g, t) && member_price(es, g, t) == r.0
}

proof fn lemma_add_member_input_low(es: Seq<EntryView>, g: GroupView, p: ModelIdentityProvenance, idx: nat)
    requires
        idx < es.len(),
        idx <= usize::MAX,
        input_low_exact(es, g),
    ensures
        input_low_exact(es, add_member(g, es[idx as int], p, idx)),
{
    let e = es[idx as int];
    let w = add_member(g, e, p, idx);
    let last = g.members.len() as int;
    assert(w.members == g.members.push(idx as usize));
    assert(w.members[last] == idx as usize);
    assert forall|t: int| 0 <= t < g.members.len() implies #[trigger] member_priced(es, w, t) == member_priced(es, g, t)
        && member_price(es, w, t) == member_price(es, g, t) by {
        assert(w.members[t] == g.members[t]);
    }
    assert forall|t: int| 0 <= t < w.members.len() && #[trigger] member_priced(es, w, t) implies
        (w.input_range matches Some(r) && r.0 <= member_price(es, w, t)) by {
        if t < last {
            assert(member_priced(es, g, t));
        }
    }
    if w.input_range is Some {
        let lo = w.input_range.unwrap().0;
        if e.model.input_cost is Some && (g.input_range is None || e.model.input_cost.unwrap() < g.input_range.unwrap().0) {
            assert(member_priced(es, w, last) && member_price(es, w, last) == lo);
        } else {
            let t = choose|t: int| 0 <= t < g.members.len() && #[trigger] member_priced(es, g, t)
                && member_price(es, g, t) == g.input_range.unwrap().0;
            assert(member_priced(es, w, t) && member_price(es, w, t) == lo);
        }
    }
}

/// Every group's input price range starts at its cheapest member's price.
pub proof fn lemma_input_low_exact(snap: Seq<ResolvedIdentity>, es: Seq<EntryView>, n: nat)
    requires
        n <= es.len(),
        n <= usize::MAX,
    ensures
        forall|k: int| 0 <= k < groups_upto(snap, es, n).len() ==> input_low_exact(es, #[trigger] groups_upto(snap, es, n)[k]),
    decreases n,
{
    if n == 0 {
        return;
    }
    let m = (n - 1) as nat;
    lemma_input_low_exact(snap, es, m);
    let gs = groups_upto(snap, es, m);
    let e = es[m as int];
    let id = identity_of(snap, e);
    let next = groups_upto(snap, es, n);
    lemma_find_group_from(gs, id.key, 0);
    match find_group_from(gs, id.key, 0) {
        Some(k) => {
            lemma_add_member_input_low(es, gs[k], id.provenance, m);
            assert forall|j: int| 0 <= j < next.len() implies input_low_exact(es, #[trigger] next[j]) by {
                if j != k {
                    assert(next[j] == gs[j]);
                }
            }
        },
        None => {
            let g0 = new_group(id, m);
            lemma_add_member_input_low(es, g0, id.provenance, m);
            assert forall|j: int| 0 <= j < next.len() implies input_low_exact(es, #[trigger] next[j]) by {
                if j < gs.len() {
                    assert(next[j] == gs[j]);
                }
            }
        },
    }
}

/// In the grouped list sorted by cost (cheapest first), groups run by their
/// cheapest offering: when a later group has a priced offering, an earlier
/// group has an offering priced no higher than any of the later group's.
pub proof fn lemma_cost_order_cheapest_first(snap: Seq<ResolvedIdentity>, es: Seq<EntryView>, n: nat, p: int, q: int, u: int)
    requires
        n <= es.len(),
        n <= usize::MAX,
        0 <= p < q < spec_sorted_groups(groups_upto(snap, es, n), SortOrder::Cost, false).len(),
        0 <= u < spec_sorted_groups(groups_upto(snap, es, n), SortOrder::Cost, false)[q].members.len(),
        member_priced(es, spec_sorted_groups(groups_upto(snap, es, n), SortOrder::Cost, false)[q], u),
    ensures
        ({
            let sg = spec_sorted_groups(groups_upto(snap, es, n), SortOrder::Cost, false);
            exists|t: int| 0 <= t < sg[p].members.len() && #[trigger] member_priced(es, sg[p], t)
                && forall|v: int| 0 <= v < sg[q].members.len() && #[trigger] member_priced(es, sg[q], v)
                    ==> member_price(es, sg[p], t) <= member_price(es, sg[q], v)
        }),
{
    let gs = groups_upto(snap, es, n);
    let sg = spec_sorted_groups(gs, SortOrder::Cost, false);
    lemma_groups_partition(snap, es, n);
    lemma_input_low_exact(snap, es, n);
    lemma_group_order_permutes(gs, SortOrder::Cost, false);
    let names = name_keys(gs);
    let keys = group_order_keys(gs, SortOrder::Cost);
    let with = group_keyed_upto(gs, SortOrder::Cost, true, gs.len());
    let without = group_keyed_upto(gs, SortOrder::Cost, false, gs.len());
    lemma_group_keyed_upto(gs, SortOrder::Cost, true, gs.len());
    lemma_group_keyed_upto(gs, SortOrder::Cost, false, gs.len());
    let a = insertion_sorted(keys, false, with);
    let b = insertion_sorted(names, false, without);
    lemma_insertion_sorted_elements(keys, false, with);
    lemma_insertion_sorted_elements(names, false, without);
    lemma_insertion_sorted_sorted(keys, false, with);
    let o = spec_group_order(gs, SortOrder::Cost, false);
    assert(o == a + b);
    assert(o.contains(o[p]) && o.contains(o[q]));
    let gp = gs[o[p] as int];
    let gq = gs[o[q] as int];
    assert(sg[p] == gp && sg[q] == gq);
    assert(input_low_exact(es, gq));
    assert(gq.input_range is Some);
    if q >= a.len() {
        assert(o[q] == b[q - a.len()]);
        assert(b.contains(o[q]));
        assert(without.contains(o[q]));
        assert(false);
    }
    assert(o[p] == a[p] && o[q] == a[q]);
    assert(a.contains(a[p]) && a.contains(a[q]));
    assert(with.contains(a[p]) && with.contains(a[q]));
    assert(ordered(keys, false, a[p], a[q]));
    assert(input_low_exact(es, gp));
    let lp = gp.input_range.unwrap().0;
    let lq = gq.input_range.unwrap().0;
    assert(lp <= lq);
    let t = choose|t: int| 0 <= t < gp.members.len() && #[trigger] member_priced(es, gp, t) && member_price(es, gp, t) == lp;
    assert forall|v: int| 0 <= v < gq.members.len() && #[trigger] member_priced(es, gq, v) implies
        member_price(es, gp, t) <= member_price(es, gq, v) by {
    }
}

/// Member `t` of `g` has a context window.
pub open spec fn member_has_context(es: Seq<EntryView>, g: GroupView, t: int) -> bool {
    es[g.members[t] as int].model.context is Some
}

/// The context window of member `t` of `g`.
pub open spec fn member_context(es: Seq<EntryView>, g: GroupView, t: int) -> u64 {
    es[g.members[t] as int].model.context.unwrap()
}

/// Member `t` of `g` has a release date.
pub open spec fn member_dated(es: Seq<EntryView>, g: GroupView, t: int) -> bool {
    es[g.members[t] as int].model.release_date is Some
}

/// The release date of member `t` of `g`.
pub open spec fn member_date(es: Seq<EntryView>, g: GroupView, t: int) -> Seq<char> {
    es[g.members[t] as int].model.release_date.unwrap()
}

/// The group's largest context window is its members' largest, and its
/// latest release is its members' latest: each is present exactly when some
/// member has the value, bounds every member's value and is one of them.
pub open spec fn context_release_exact(es: Seq<EntryView>, g: GroupView) -> bool {
    &&& forall|t: int| 0 <= t < g.members.len() && #[trigger] member_has_context(es, g, t) ==>
        (g.context_range matches Some(r) && member_context(es, g, t) <= r.1)
    &&& g.context_range matches Some(r) ==>
        exists|t: int| 0 <= t < g.members.len() && #[trigger] member_has_context(es, g, t) && member_context(es, g, t) == r.1
    &&& forall|t: int| 0 <= t < g.members.len() && #[trigger] member_dated(es, g, t) ==>
        (g.max_release matches Some(d) && lex_le(member_date(es, g, t), d))
    &&& g.max_release matches Some(d) ==>
        exists|t: int| 0 <= t < g.members.len() && #[trigger] member_dated(es, g, t) && member_date(es, g, t) == d
}

proof fn lemma_add_member_context_release(es: Seq<EntryView>, g: GroupView, p: ModelIdentityProvenance, idx: nat)
    requires
        idx < es.len(),
        idx <= usize::MAX,
        context_release_exact(es, g),
    ensures
        context_release_exact(es, add_member(g, es[idx as int], p, idx)),
{
    let e = es[idx as int];
    let w = add_member(g, e, p, idx);
    let last = g.members.len() as int;
    assert(w.members == g.members.push(idx as usize));
    assert(w.members[last] == idx as usize);
    assert forall|t: int| 0 <= t < g.members.len() implies {
        &&& #[trigger] member_has_context(es, w, t) == member_has_context(es, g, t)
        &&& member_context(es, w, t) == member_context(es, g, t)
        &&& member_dated(es, w, t) == member_dated(es, g, t)
        &&& member_date(es, w, t) == member_date(es, g, t)
    } by {
        assert(w.members[t] == g.members[t]);
    }
    assert forall|t: int| 0 <= t < w.members.len() && #[trigger] member_has_context(es, w, t) implies
        (w.context_range matches Some(r) && member_context(es, w, t) <= r.1) by {
        if t < last {
            assert(member_has_context(es, g, t));
        }
    }
    if w.context_range is Some {
        let hi = w.context_range.unwrap().1;
        if e.model.context is Some && (g.context_range is None || e.model.context.unwrap() > g.context_range.unwrap().1) {
            assert(member_has_context(es, w, last) && member_context(es, w, last) == hi);
        } else {
            let t = choose|t: int| 0 <= t < g.members.len() && #[trigger] member_has_context(es, g, t)
                && member_context(es, g, t) == g.context_range.unwrap().1;
            assert(member_has_context(es, w, t) && member_context(es, w, t) == hi);
        }
    }
    assert forall|t: int| 0 <= t < w.members.len() && #[trigger] member_dated(es, w, t) implies
        (w.max_release matches Some(d) && lex_le(member_date(es, w, t), d)) by {
        if t < last {
            assert(member_dated(es, g, t));
            let c = g.max_release.unwrap();
            if e.model.release_date is Some && !lex_le(e.model.release_date.unwrap(), c) {
                lemma_lex_total(e.model.release_date.unwrap(), c, 0);
                lemma_lex_trans(member_date(es, g, t), c, e.model.release_date.unwrap(), 0);
            }
        } else {
            let dd = e.model.release_date.unwrap();
            if g.max_release is None || !lex_le(dd, g.max_release.unwrap()) {
                lemma_lex_total(dd, dd, 0);
            }
        }
    }
    if w.max_release is Some {
        let d = w.max_release.unwrap();
        if e.model.release_date is Some && (g.max_release is None || !lex_le(e.model.release_date.unwrap(), g.max_release.unwrap())) {
            assert(member_dated(es, w, last) && member_date(es, w, last) == d);
        } else {
            let t = choose|t: int| 0 <= t < g.members.len() && #[trigger] member_dated(es, g, t)
                && member_date(es, g, t) == g.max_release.unwrap();
            assert(member_dated(es, w, t) && member_date(es, w, t) == d);
        }
    }
}

/// Every group's largest context window and latest release are its
/// members' largest and latest.
pub proof fn lemma_context_release_exact(snap: Seq<ResolvedIdentity>, es: Seq<EntryView>, n: nat)
    requires
        n <= es.len(),
        n <= usize::MAX,
    ensures
        forall|k: int| 0 <= k < groups_upto(snap, es, n).len() ==> context_release_exact(es, #[trigger] groups_upto(snap, es, n)[k]),
    decreases n,
{
    if n == 0 {
        return;
    }
    let m = (n - 1) as nat;
    lemma_context_release_exact(snap, es, m);
    let gs = groups_upto(snap, es, m);
    let e = es[m as int];
    let id = identity_of(snap, e);
    let next = groups_upto(snap, es, n);
    lemma_find_group_from(gs, id.key, 0);
    match find_group_from(gs, id.key, 0) {
        Some(k) => {
            lemma_add_member_context_release(es, gs[k], id.provenance, m);
            assert forall|j: int| 0 <= j < next.len() implies context_release_exact(es, #[trigger] next[j]) by {
                if j != k {
                    assert(next[j] == gs[j]);
                }
            }
        },
        None => {
            let g0 = new_group(id, m);
            lemma_add_member_context_release(es, g0, id.provenance, m);
            assert forall|j: int| 0 <= j < next.len() implies context_release_exact(es, #[trigger] next[j]) by {
                if j < gs.len() {
                    assert(next[j] == gs[j]);
                }
            }
        },
    }
}

/// In the grouped list sorted by release date (newest first, the default),
/// undated groups come first and dated groups run by their latest release:
/// after a group with a dated offering every group has one, and the earlier
/// group has an offering released no earlier than any of the later group's.
pub proof fn lemma_release_order_newest_first(snap: Seq<ResolvedIdentity>, es: Seq<EntryView>, n: nat, p: int, q: int, u: int)
    requires
        n <= es.len(),
        n <= usize::MAX,
        0 <= p < q < spec_sorted_groups(groups_upto(snap, es, n), SortOrder::ReleaseDate, false).len(),
        0 <= u < spec_sorted_groups(groups_upto(snap, es, n), SortOrder::ReleaseDate, false)[p].members.len(),
        member_dated(es, spec_sorted_groups(groups_upto(snap, es, n), SortOrder::ReleaseDate, false)[p], u),
    ensures
        ({
            let sg = spec_sorted_groups(groups_upto(snap, es, n), SortOrder::ReleaseDate, false);
            &&& exists|v: int| 0 <= v < sg[q].members.len() && #[trigger] member_dated(es, sg[q], v)
            &&& exists|t: int| 0 <= t < sg[p].members.len() && #[trigger] member_dated(es, sg[p], t)
                && forall|v: int| 0 <= v < sg[q].members.len() && #[trigger] member_dated(es, sg[q], v)
                    ==> lex_le(member_date(es, sg[q], v), member_date(es, sg[p], t))
        }),
{
    let gs = groups_upto(snap, es, n);
    let order = SortOrder::ReleaseDate;
    let sg = spec_sorted_groups(gs, order, false);
    lemma_groups_partition(snap, es, n);
    lemma_context_release_exact(snap, es, n);
    lemma_group_order_permutes(gs, order, false);
    let names = name_keys(gs);
    let keys = group_order_keys(gs, order);
    let with = group_keyed_upto(gs, order, true, gs.len());
    let without = group_keyed_upto(gs, order, false, gs.len());
    lemma_group_keyed_upto(gs, order, true, gs.len());
    lemma_group_keyed_upto(gs, order, false, gs.len());
    let a = insertion_sorted(keys, true, with);
    let b = insertion_sorted(names, false, without);
    lemma_insertion_sorted_elements(keys, true, with);
    lemma_insertion_sorted_elements(names, false, without);
    lemma_insertion_sorted_sorted(keys, true, with);
    let o = spec_group_order(gs, order, false);
    assert(o == b + a);
    assert(o.contains(o[p]) && o.contains(o[q]));
    let gp = gs[o[p] as int];
    let gq = gs[o[q] as int];
    assert(sg[p] == gp && sg[q] == gq);
    assert(context_release_exact(es, gp));
    assert(context_release_exact(es, gq));
    assert(gp.max_release is Some);
    if p < b.len() {
        assert(o[p] == b[p]);
        assert(b.contains(o[p]));
        assert(without.contains(o[p]));
        assert(false);
    }
    let pa = p - b.len();
    let qa = q - b.len();
    assert(o[p] == a[pa] && o[q] == a[qa]);
    assert(a.contains(a[pa]) && a.contains(a[qa]));
    assert(with.contains(a[pa]) && with.contains(a[qa]));
    assert(ordered(keys, true, a[pa], a[qa]));
    let dp = gp.max_release.unwrap();
    let dq = gq.max_release.unwrap();
    assert(lex_le(dq, dp));
    let t = choose|t: int| 0 <= t < gp.members.len() && #[trigger] member_dated(es, gp, t) && member_date(es, gp, t) == dp;
    let w = choose|v: int| 0 <= v < gq.members.len() && #[trigger] member_dated(es, gq, v) && member_date(es, gq, v) == dq;
    assert(member_dated(es, sg[q], w));
    assert forall|v: int| 0 <= v < gq.members.len() && #[trigger] member_dated(es, gq, v) implies
        lex_le(member_date(es, gq, v), member_date(es, gp, t)) by {
        lemma_lex_trans(member_date(es, gq, v), dq, dp, 0);
    }
}

/// In the grouped list sorted by context window (largest first, the
/// default), groups without a window come first and the others run by their
/// largest window: after a group with a windowed offering every group has
/// one, and the earlier group has an offering whose window is at least any
/// of the later group's.
pub proof fn lemma_context_order_largest_first(snap: Seq<ResolvedIdentity>, es: Seq<EntryView>, n: nat, p: int, q: int, u: int)
    requires
        n <= es.len(),
        n <= usize::MAX,
        0 <= p < q < spec_sorted_groups(groups_upto(snap, es, n), SortOrder::Context, false).len(),
        0 <= u < spec_sorted_groups(groups_upto(snap, es, n), SortOrder::Context, false)[p].members.len(),
        member_has_context(es, spec_sorted_groups(groups_upto(snap, es, n), SortOrder::Context, false)[p], u),
    ensures
        ({
            let sg = spec_sorted_groups(groups_upto(snap, es, n), SortOrder::Context, false);
            &&& exists|v: int| 0 <= v < sg[q].members.len() && #[trigger] member_has_context(es, sg[q], v)
            &&& exists|t: int| 0 <= t < sg[p].members.len() && #[trigger] member_has_context(es, sg[p], t)
                && forall|v: int| 0 <= v < sg[q].members.len() && #[trigger] member_has_context(es, sg[q], v)
                    ==> member_context(es, sg[q], v) <= member_context(es, sg[p], t)
        }),
{
    let gs = groups_upto(snap, es, n);
    let order = SortOrder::Context;
    let sg = spec_sorted_groups(gs, order, false);
    lemma_groups_partition(snap, es, n);
    lemma_context_release_exact(snap, es, n);
    lemma_group_order_permutes(gs, order, false);
    let names = name_keys(gs);
    let keys = group_order_keys(gs, order);
    let with = group_keyed_upto(gs, order, true, gs.len());
    let without = group_keyed_upto(gs, order, false, gs.len());
    lemma_group_keyed_upto(gs, order, true, gs.len());
    lemma_group_keyed_upto(gs, order, false, gs.len());
    let a = insertion_sorted(keys, true, with);
    let b = insertion_sorted(names, false, without);
    lemma_insertion_sorted_elements(keys, true, with);
    lemma_insertion_sorted_elements(names, false, without);
    lemma_insertion_sorted_sorted(keys, true, with);
    let o = spec_group_order(gs, order, false);
    assert(o == b + a);
    assert(o.contains(o[p]) && o.contains(o[q]));
    let gp = gs[o[p] as int];
    let gq = gs[o[q] as int];
    assert(sg[p] == gp && sg[q] == gq);
    assert(context_release_exact(es, gp));
    assert(context_release_exact(es, gq));
    assert(gp.context_range is Some);
    if p < b.len() {
        assert(o[p] == b[p]);
        assert(b.contains(o[p]));
        assert(without.contains(o[p]));
        assert(false);
    }
    let pa = p - b.len();
    let qa = q - b.len();
    assert(o[p] == a[pa] && o[q] == a[qa]);
    assert(a.contains(a[pa]) && a.contains(a[qa]));
    assert(with.contains(a[pa]) && with.contains(a[qa]));
    assert(ordered(keys, true, a[pa], a[qa]));
    let hp = gp.context_range.unwrap().1;
    let hq = gq.context_range.unwrap().1;
    assert(keys[a[pa] as int] == SortValView::Num(Some((hp - 0x8000_0000_0000_0000int) as i64)));
    assert(keys[a[qa] as int] == SortValView::Num(Some((hq - 0x8000_0000_0000_0000int) as i64)));
    assert(hq <= hp);
    let t = choose|t: int| 0 <= t < gp.members.len() && #[trigger] member_has_context(es, gp, t) && member_context(es, gp, t) == hp;
    let w = choose|v: int| 0 <= v < gq.members.len() && #[trigger] member_has_context(es, gq, v) && member_context(es, gq, v) == hq;
    assert(member_has_context(es, sg[q], w));
}

/// In the grouped list's default order groups run by name (code point
/// order), whatever the direction flag.
pub proof fn lemma_default_order_by_name(gs: Seq<GroupView>, asc: bool, p: int, q: int)
    requires
        gs.len() <= usize::MAX,
        0 <= p < q < spec_sorted_groups(gs, SortOrder::Default, asc).len(),
    ensures
        lex_le(spec_sorted_groups(gs, SortOrder::Default, asc)[p].name, spec_sorted_groups(gs, SortOrder::Default, asc)[q].name),
{
    let names = name_keys(gs);
    let all = Seq::new(gs.len(), |i: int| i as usize);
    let o = spec_group_order(gs, SortOrder::Default, asc);
    lemma_group_order_permutes(gs, SortOrder::Default, asc);
    lemma_insertion_sorted_sorted(names, false, all);
    assert(o == insertion_sorted(names, false, all));
    assert(o.contains(o[p]) && o.contains(o[q]));
    assert(ordered(names, false, o[p], o[q]));
    assert(names[o[p] as int] == SortValView::Text(Some(gs[o[p] as int].name)));
    assert(names[o[q] as int] == SortValView::Text(Some(gs[o[q] as int].name)));
}

} // verus!

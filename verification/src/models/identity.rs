//! Peer grouping of offerings that the canonical catalog left unlinked.
//!
//! Offerings still unlinked are bucketed by the fingerprint of their model
//! name and the fingerprint of their id (one id fingerprint per lane: leaf,
//! full, compact). A bucket becomes a peer group only when it spans at least
//! two providers, its members name at most one independent lab, and no two
//! members' output modalities are disjoint. The fingerprints, the labs and
//! the disjointness of outputs come from the lab catalog; the bucketing and
//! the decisions are this module's.
//!
//! A final relaxation then admits a still-unlinked offering to an existing
//! peer group that spells its leaf id when every token by which their names
//! differ cannot tell them apart (a token of the leaf id, of the group's
//! creator vocabulary, or of the offering's own namespace), when exactly one
//! group qualifies, its independent lab agrees, and its outputs clash with
//! no member or earlier admission.

use vstd::prelude::*;
use crate::text::{chars_of, owned, push_str, str_eq, string_from_chars};
use crate::models::app::ModelIdentityProvenance;
use crate::models::grouping::{ResolvedIdentity, IdentityView, identity_view, opt_view};

verus! {

pub open spec fn identity_views(v: Seq<ResolvedIdentity>) -> Seq<IdentityView> {
    v.map_values(|r: ResolvedIdentity| identity_view(r))
}

pub open spec fn strings_view(v: Seq<String>) -> Seq<Seq<char>> {
    v.map_values(|s: String| s@)
}

pub open spec fn opts_view(v: Seq<Option<String>>) -> Seq<Option<Seq<char>>> {
    v.map_values(|s: Option<String>| opt_view(s))
}

/// The evidence of one lane: per offering, the fingerprint of its model name
/// and of its id, the independent lab its provider and id point to (if
/// any), and whether the outputs of offering `j` and offering `k` are
/// disjoint.
pub ghost struct LaneView {
    pub names: Seq<Seq<char>>,
    pub ids: Seq<Seq<char>>,
    pub labs: Seq<Option<Seq<char>>>,
    pub disjoint: Seq<Seq<bool>>,
}

/// Offering `i` takes part in peer grouping: it is still unlinked and both
/// of its fingerprints are non-empty.
pub open spec fn peer_eligible(iv: Seq<IdentityView>, ev: LaneView, i: int) -> bool {
    &&& iv[i].provenance is Unlinked
    &&& ev.names[i].len() > 0
    &&& ev.ids[i].len() > 0
}

/// Offering `j` is in the bucket with name fingerprint `nm` and id
/// fingerprint `id`.
pub open spec fn member_of(iv: Seq<IdentityView>, ev: LaneView, nm: Seq<char>, id: Seq<char>, j: int) -> bool {
    &&& 0 <= j < iv.len()
    &&& peer_eligible(iv, ev, j)
    &&& ev.names[j] == nm
    &&& ev.ids[j] == id
}

/// The bucket spans at least two providers.
pub open spec fn spans_providers(iv: Seq<IdentityView>, ev: LaneView, nm: Seq<char>, id: Seq<char>) -> bool {
    exists|j: int, k: int| #[trigger] member_of(iv, ev, nm, id, j) && #[trigger] member_of(iv, ev, nm, id, k)
        && iv[j].provider_id != iv[k].provider_id
}

/// Two members of the bucket name different independent labs.
pub open spec fn lab_conflict(iv: Seq<IdentityView>, ev: LaneView, nm: Seq<char>, id: Seq<char>) -> bool {
    exists|j: int, k: int| #[trigger] member_of(iv, ev, nm, id, j) && #[trigger] member_of(iv, ev, nm, id, k)
        && ev.labs[j] is Some && ev.labs[k] is Some && ev.labs[j] != ev.labs[k]
}

/// Two members `j < k` of the bucket have disjoint outputs.
pub open spec fn output_conflict(iv: Seq<IdentityView>, ev: LaneView, nm: Seq<char>, id: Seq<char>) -> bool {
    exists|j: int, k: int| j < k && #[trigger] member_of(iv, ev, nm, id, j) && #[trigger] member_of(iv, ev, nm, id, k)
        && ev.disjoint[j][k]
}

/// The independent lab the bucket names, if any.
pub open spec fn bucket_lab(iv: Seq<IdentityView>, ev: LaneView, nm: Seq<char>, id: Seq<char>) -> Option<Seq<char>> {
    if exists|j: int| #[trigger] member_of(iv, ev, nm, id, j) && ev.labs[j] is Some {
        ev.labs[choose|j: int| #[trigger] member_of(iv, ev, nm, id, j) && ev.labs[j] is Some]
    } else {
        None
    }
}

/// The bucket becomes a peer group: it spans two providers, names at most
/// one lab, and no two members have disjoint outputs.
pub open spec fn bucket_joins(iv: Seq<IdentityView>, ev: LaneView, nm: Seq<char>, id: Seq<char>) -> bool {
    &&& spans_providers(iv, ev, nm, id)
    &&& !lab_conflict(iv, ev, nm, id)
    &&& !output_conflict(iv, ev, nm, id)
}

/// Offering `i` joins a peer group in this lane.
pub open spec fn peer_joins(iv: Seq<IdentityView>, ev: LaneView, i: int) -> bool {
    peer_eligible(iv, ev, i) && bucket_joins(iv, ev, ev.names[i], ev.ids[i])
}

/// The key of a peer group: "peer:<lane>:<name fingerprint>|<id fingerprint>".
pub open spec fn peer_key(lane: Seq<char>, name: Seq<char>, id: Seq<char>) -> Seq<char> {
    "peer:"@ + lane + ":"@ + name + "|"@ + id
}

/// Offering `i` after the lane: a joining offering takes the peer key, the
/// bucket's lab and the peer provenance; every other one is unchanged.
pub open spec fn peer_result(iv: Seq<IdentityView>, ev: LaneView, lane: Seq<char>, i: int) -> IdentityView {
    if peer_joins(iv, ev, i) {
        IdentityView {
            key: peer_key(lane, ev.names[i], ev.ids[i]),
            lab: bucket_lab(iv, ev, ev.names[i], ev.ids[i]),
            provenance: ModelIdentityProvenance::InferredPeer,
            ..iv[i]
        }
    } else {
        iv[i]
    }
}

/// The identities after one lane of peer grouping.
pub open spec fn spec_peer_lane(iv: Seq<IdentityView>, ev: LaneView, lane: Seq<char>) -> Seq<IdentityView> {
    Seq::new(iv.len(), |i: int| peer_result(iv, ev, lane, i))
}

fn copy_opt(o: &Option<String>) -> (r: Option<String>)
    ensures
        opt_view(r) == opt_view(*o),
{
    match o {
        Some(s) => Some(owned(s.as_str())),
        None => None,
    }
}

/// The bucket of offering `i`: its members in ascending order, whether the
/// bucket becomes a peer group, and the lab it names.
fn decide_bucket(
    ids: &Vec<ResolvedIdentity>,
    names: &Vec<String>,
    idfps: &Vec<String>,
    labs: &Vec<Option<String>>,
    disjoint: &Vec<Vec<bool>>,
    i: usize,
    Ghost(ev): Ghost<LaneView>,
) -> (r: (Vec<usize>, bool, Option<String>))
    requires
        i < ids@.len(),
        names@.len() == ids@.len(),
        idfps@.len() == ids@.len(),
        labs@.len() == ids@.len(),
        disjoint@.len() == ids@.len(),
        forall|j: int| 0 <= j < disjoint@.len() ==> (#[trigger] disjoint@[j])@.len() == ids@.len(),
        ev.names == strings_view(names@),
        ev.ids == strings_view(idfps@),
        ev.labs == opts_view(labs@),
        ev.disjoint == disjoint@.map_values(|v: Vec<bool>| v@),
        peer_eligible(identity_views(ids@), ev, i as int),
    ensures
        forall|a: int| 0 <= a < r.0@.len() ==> #[trigger] r.0@[a] < ids@.len()
            && member_of(identity_views(ids@), ev, ev.names[i as int], ev.ids[i as int], r.0@[a] as int),
        forall|x: int| #[trigger] member_of(identity_views(ids@), ev, ev.names[i as int], ev.ids[i as int], x)
            ==> r.0@.contains(x as usize),
        r.1 == bucket_joins(identity_views(ids@), ev, ev.names[i as int], ev.ids[i as int]),
        r.1 ==> opt_view(r.2) == bucket_lab(identity_views(ids@), ev, ev.names[i as int], ev.ids[i as int]),
{
    let ghost iv = identity_views(ids@);
    let ghost nm = ev.names[i as int];
    let ghost id = ev.ids[i as int];
    let n = ids.len();
    let mut members: Vec<usize> = Vec::new();
    let mut j: usize = 0;
    while j < n
        invariant
            n == ids@.len(),
            iv == identity_views(ids@),
            names@.len() == n,
            idfps@.len() == n,
            ev.names == strings_view(names@),
            ev.ids == strings_view(idfps@),
            nm == ev.names[i as int],
            id == ev.ids[i as int],
            i < n,
            j <= n,
            forall|a: int| 0 <= a < members@.len() ==> #[trigger] members@[a] < j && member_of(iv, ev, nm, id, members@[a] as int),
            forall|x: int| 0 <= x < j && #[trigger] member_of(iv, ev, nm, id, x) ==> members@.contains(x as usize),
            forall|a: int, b: int| 0 <= a < b < members@.len() ==> #[trigger] members@[a] < #[trigger] members@[b],
        decreases n - j,
    {
        let elig = match ids[j].provenance {
            ModelIdentityProvenance::Unlinked(_) => true,
            _ => false,
        };
        let same = elig && chars_of(names[j].as_str()).len() > 0 && chars_of(idfps[j].as_str()).len() > 0
            && str_eq(names[j].as_str(), names[i].as_str()) && str_eq(idfps[j].as_str(), idfps[i].as_str());
        proof {
            assert(iv[j as int] == identity_view(ids@[j as int]));
            assert(ev.names[j as int] == names@[j as int]@);
            assert(ev.ids[j as int] == idfps@[j as int]@);
            assert(ev.names[i as int] == names@[i as int]@);
            assert(ev.ids[i as int] == idfps@[i as int]@);
        }
        assert(same == member_of(iv, ev, nm, id, j as int));
        let ghost before = members@;
        if same {
            members.push(j);
            assert forall|x: int| 0 <= x < j + 1 && #[trigger] member_of(iv, ev, nm, id, x) implies members@.contains(x as usize) by {
                if x == j as int {
                    assert(members@[before.len() as int] == j);
                } else {
                    assert(before.contains(x as usize));
                    let p = choose|p: int| 0 <= p < before.len() && before[p] == x as usize;
                    assert(members@[p] == x as usize);
                }
            }
        }
        j = j + 1;
    }
    assert(members@.contains(i)) by {
        assert(member_of(iv, ev, nm, id, i as int));
    }
    // Providers: some member's provider differs from that of `i`.
    let mut spans = false;
    let mut a: usize = 0;
    while a < members.len()
        invariant
            iv == identity_views(ids@),
            i < ids@.len(),
            n == ids@.len(),
            forall|p: int| 0 <= p < members@.len() ==> #[trigger] members@[p] < n,
            a <= members@.len(),
            spans <==> exists|p: int| 0 <= p < a && iv[#[trigger] members@[p] as int].provider_id != iv[i as int].provider_id,
        decreases members.len() - a,
    {
        let m = members[a];
        let differs = !str_eq(ids[m].provider_id.as_str(), ids[i].provider_id.as_str());
        proof {
            assert(iv[m as int] == identity_view(ids@[m as int]));
            assert(iv[i as int] == identity_view(ids@[i as int]));
        }
        spans = spans || differs;
        a = a + 1;
    }
    proof {
        if spans {
            let p = choose|p: int| 0 <= p < a && iv[#[trigger] members@[p] as int].provider_id != iv[i as int].provider_id;
            assert(member_of(iv, ev, nm, id, members@[p] as int));
            assert(member_of(iv, ev, nm, id, i as int));
        }
        if spans_providers(iv, ev, nm, id) {
            let (x, y) = choose|x: int, y: int| #[trigger] member_of(iv, ev, nm, id, x) && #[trigger] member_of(iv, ev, nm, id, y)
                && iv[x].provider_id != iv[y].provider_id;
            let z = if iv[x].provider_id != iv[i as int].provider_id { x } else { y };
            assert(members@.contains(z as usize));
            let p = choose|p: int| 0 <= p < members@.len() && members@[p] == z as usize;
            assert(iv[members@[p] as int].provider_id != iv[i as int].provider_id);
        }
    }
    // Labs: the first named lab, and whether another member names a different one.
    let mut lab: Option<String> = None;
    let mut conflict = false;
    let mut first: usize = 0;
    let mut b: usize = 0;
    while b < members.len()
        invariant
            n == ids@.len(),
            labs@.len() == n,
            ev.labs == opts_view(labs@),
            forall|p: int| 0 <= p < members@.len() ==> #[trigger] members@[p] < n,
            b <= members@.len(),
            lab is None <==> forall|p: int| 0 <= p < b ==> ev.labs[#[trigger] members@[p] as int] is None,
            lab is Some ==> first < b && ev.labs[members@[first as int] as int] == opt_view(lab),
            conflict <==> exists|p: int, q: int| 0 <= p < b && 0 <= q < b
                && ev.labs[#[trigger] members@[p] as int] is Some && ev.labs[#[trigger] members@[q] as int] is Some
                && ev.labs[members@[p] as int] != ev.labs[members@[q] as int],
            !conflict ==> forall|p: int| 0 <= p < b && ev.labs[#[trigger] members@[p] as int] is Some
                ==> ev.labs[members@[p] as int] == opt_view(lab),
        decreases members.len() - b,
    {
        let m = members[b];
        proof {
            assert(ev.labs[m as int] == opt_view(labs@[m as int]));
        }
        let ghost old_lab = lab;
        let ghost old_conflict = conflict;
        match &labs[m] {
            Some(l) => {
                match &lab {
                    None => {
                        lab = Some(owned(l.as_str()));
                        first = b;
                    },
                    Some(cur) => {
                        if !str_eq(cur.as_str(), l.as_str()) {
                            conflict = true;
                        }
                    },
                }
            },
            None => {},
        }
        proof {
            let bb = b as int + 1;
            if conflict && !old_conflict {
                assert(ev.labs[members@[b as int] as int] is Some);
                assert(ev.labs[members@[first as int] as int] is Some);
                assert(ev.labs[members@[first as int] as int] != ev.labs[members@[b as int] as int]);
            }
            if !conflict {
                assert(!old_conflict);
                assert forall|p: int| 0 <= p < bb && ev.labs[#[trigger] members@[p] as int] is Some
                    implies ev.labs[members@[p] as int] == opt_view(lab) by {
                    if p < b as int && old_lab is Some {
                        assert(opt_view(old_lab) == opt_view(lab));
                    }
                }
            }
            if old_conflict {
                let (p, q) = choose|p: int, q: int| 0 <= p < b && 0 <= q < b
                    && ev.labs[#[trigger] members@[p] as int] is Some && ev.labs[#[trigger] members@[q] as int] is Some
                    && ev.labs[members@[p] as int] != ev.labs[members@[q] as int];
                assert(0 <= p < bb && 0 <= q < bb);
            }
            if conflict {
                if !old_conflict {
                    assert(0 <= first < bb && 0 <= b < bb);
                }
            } else {
                if exists|p: int, q: int| 0 <= p < bb && 0 <= q < bb
                    && ev.labs[#[trigger] members@[p] as int] is Some && ev.labs[#[trigger] members@[q] as int] is Some
                    && ev.labs[members@[p] as int] != ev.labs[members@[q] as int] {
                    let (p, q) = choose|p: int, q: int| 0 <= p < bb && 0 <= q < bb
                        && ev.labs[#[trigger] members@[p] as int] is Some && ev.labs[#[trigger] members@[q] as int] is Some
                        && ev.labs[members@[p] as int] != ev.labs[members@[q] as int];
                    assert(ev.labs[members@[p] as int] == opt_view(lab));
                    assert(ev.labs[members@[q] as int] == opt_view(lab));
                }
            }
            if lab is None {
                assert forall|p: int| 0 <= p < bb implies ev.labs[#[trigger] members@[p] as int] is None by {}
            } else if old_lab is None {
                assert(ev.labs[members@[b as int] as int] is Some);
            }
        }
        b = b + 1;
    }
    proof {
        if lab_conflict(iv, ev, nm, id) {
            let (x, y) = choose|x: int, y: int| #[trigger] member_of(iv, ev, nm, id, x) && #[trigger] member_of(iv, ev, nm, id, y)
                && ev.labs[x] is Some && ev.labs[y] is Some && ev.labs[x] != ev.labs[y];
            assert(members@.contains(x as usize));
            assert(members@.contains(y as usize));
            let p = choose|p: int| 0 <= p < members@.len() && members@[p] == x as usize;
            let q = choose|q: int| 0 <= q < members@.len() && members@[q] == y as usize;
            assert(ev.labs[members@[p] as int] is Some);
            assert(ev.labs[members@[q] as int] is Some);
        }
        if conflict {
            let (p, q) = choose|p: int, q: int| 0 <= p < b && 0 <= q < b
                && ev.labs[#[trigger] members@[p] as int] is Some && ev.labs[#[trigger] members@[q] as int] is Some
                && ev.labs[members@[p] as int] != ev.labs[members@[q] as int];
            assert(member_of(iv, ev, nm, id, members@[p] as int));
            assert(member_of(iv, ev, nm, id, members@[q] as int));
        }
    }
    // Outputs: any pair of members with disjoint outputs.
    let mut outconf = false;
    let mut p: usize = 0;
    while p < members.len()
        invariant
            n == ids@.len(),
            disjoint@.len() == n,
            forall|j: int| 0 <= j < disjoint@.len() ==> (#[trigger] disjoint@[j])@.len() == n,
            ev.disjoint == disjoint@.map_values(|v: Vec<bool>| v@),
            forall|x: int| 0 <= x < members@.len() ==> #[trigger] members@[x] < n,
            p <= members@.len(),
            outconf <==> exists|x: int, y: int| 0 <= x < p && x < y < members@.len()
                && ev.disjoint[#[trigger] members@[x] as int][#[trigger] members@[y] as int],
        decreases members.len() - p,
    {
        let mut q: usize = p + 1;
        let ghost before = outconf;
        while q < members.len()
            invariant
                n == ids@.len(),
                disjoint@.len() == n,
                forall|j: int| 0 <= j < disjoint@.len() ==> (#[trigger] disjoint@[j])@.len() == n,
                ev.disjoint == disjoint@.map_values(|v: Vec<bool>| v@),
                forall|x: int| 0 <= x < members@.len() ==> #[trigger] members@[x] < n,
                p < members@.len(),
                p + 1 <= q <= members@.len(),
                outconf <==> (before || exists|y: int| p < y < q && ev.disjoint[members@[p as int] as int][#[trigger] members@[y] as int]),
            decreases members.len() - q,
        {
            let x = members[p];
            let y = members[q];
            proof {
                assert(ev.disjoint[x as int] == disjoint@[x as int]@);
            }
            if disjoint[x][y] {
                outconf = true;
            }
            q = q + 1;
        }
        proof {
            if outconf && !before {
                let y = choose|y: int| p < y < q && ev.disjoint[members@[p as int] as int][#[trigger] members@[y] as int];
                assert(0 <= p < p + 1 && p < y < members@.len()
                    && ev.disjoint[members@[p as int] as int][members@[y] as int]);
            }
            if exists|x: int, y: int| 0 <= x < p + 1 && x < y < members@.len()
                && ev.disjoint[#[trigger] members@[x] as int][#[trigger] members@[y] as int] {
                let (x, y) = choose|x: int, y: int| 0 <= x < p + 1 && x < y < members@.len()
                    && ev.disjoint[#[trigger] members@[x] as int][#[trigger] members@[y] as int];
                if x == p as int {
                    assert(p < y < q);
                }
            }
        }
        p = p + 1;
    }
    proof {
        if output_conflict(iv, ev, nm, id) {
            let (x0, y0) = choose|x: int, y: int| x < y && #[trigger] member_of(iv, ev, nm, id, x) && #[trigger] member_of(iv, ev, nm, id, y)
                && ev.disjoint[x][y];
            assert(members@.contains(x0 as usize));
            assert(members@.contains(y0 as usize));
            let x = choose|x: int| 0 <= x < members@.len() && members@[x] == x0 as usize;
            let y = choose|y: int| 0 <= y < members@.len() && members@[y] == y0 as usize;
            if y < x {
                assert(members@[y] < members@[x]);
            }
            assert(x != y);
            assert(ev.disjoint[members@[x] as int][members@[y] as int]);
        }
        if outconf {
            let (x, y) = choose|x: int, y: int| 0 <= x < p && x < y < members@.len()
                && ev.disjoint[#[trigger] members@[x] as int][#[trigger] members@[y] as int];
            assert(members@[x] < members@[y]);
            assert(member_of(iv, ev, nm, id, members@[x] as int));
            assert(member_of(iv, ev, nm, id, members@[y] as int));
        }
    }
    let joins = spans && !conflict && !outconf;
    proof {
        if joins {
            if exists|j: int| #[trigger] member_of(iv, ev, nm, id, j) && ev.labs[j] is Some {
                let c = choose|j: int| #[trigger] member_of(iv, ev, nm, id, j) && ev.labs[j] is Some;
                assert(members@.contains(c as usize));
                let pc = choose|pc: int| 0 <= pc < members@.len() && members@[pc] == c as usize;
                assert(ev.labs[members@[pc] as int] is Some);
                assert(lab is Some);
            } else {
                if lab is Some {
                    assert(member_of(iv, ev, nm, id, members@[first as int] as int));
                }
            }
        }
    }
    (members, joins, lab)
}

/// The identity of a joining offering: the peer key, lab and provenance.
fn joined(r: &ResolvedIdentity, key: &String, lab: &Option<String>) -> (out: ResolvedIdentity)
    ensures
        identity_view(out) == (IdentityView {
            key: key@,
            lab: opt_view(*lab),
            provenance: ModelIdentityProvenance::InferredPeer,
            ..identity_view(*r)
        }),
{
    ResolvedIdentity {
        provider_id: owned(r.provider_id.as_str()),
        model_id: owned(r.model_id.as_str()),
        key: owned(key.as_str()),
        name: owned(r.name.as_str()),
        lab: copy_opt(lab),
        fallback_lab: copy_opt(&r.fallback_lab),
        provenance: ModelIdentityProvenance::InferredPeer,
    }
}

fn make_key(lane: &str, name: &str, id: &str) -> (r: String)
    ensures
        r@ == peer_key(lane@, name@, id@),
{
    let mut v: Vec<char> = Vec::new();
    push_str(&mut v, "peer:");
    push_str(&mut v, lane);
    push_str(&mut v, ":");
    push_str(&mut v, name);
    push_str(&mut v, "|");
    push_str(&mut v, id);
    string_from_chars(&v)
}

/// One lane of peer grouping over the identities `ids`: `names[i]` and
/// `idfps[i]` are the name and id fingerprints of offering `i`, `labs[i]`
/// its independent lab, and `disjoint[j][k]` says whether offerings `j` and
/// `k` have disjoint outputs. See [`spec_peer_lane`].
pub fn apply_peer_groups(
    ids: &mut Vec<ResolvedIdentity>,
    names: &Vec<String>,
    idfps: &Vec<String>,
    labs: &Vec<Option<String>>,
    disjoint: &Vec<Vec<bool>>,
    lane: &str,
)
    requires
        names@.len() == old(ids)@.len(),
        idfps@.len() == old(ids)@.len(),
        labs@.len() == old(ids)@.len(),
        disjoint@.len() == old(ids)@.len(),
        forall|j: int| 0 <= j < disjoint@.len() ==> (#[trigger] disjoint@[j])@.len() == old(ids)@.len(),
    ensures
        final(ids)@.len() == old(ids)@.len(),
        identity_views(final(ids)@) == spec_peer_lane(
            identity_views(old(ids)@),
            LaneView {
                names: strings_view(names@),
                ids: strings_view(idfps@),
                labs: opts_view(labs@),
                disjoint: disjoint@.map_values(|v: Vec<bool>| v@),
            },
            lane@,
        ),
{
    let ghost ev = LaneView {
        names: strings_view(names@),
        ids: strings_view(idfps@),
        labs: opts_view(labs@),
        disjoint: disjoint@.map_values(|v: Vec<bool>| v@),
    };
    let ghost iv = identity_views(ids@);
    let n = ids.len();
    let mut decided: Vec<bool> = Vec::new();
    let mut joins: Vec<bool> = Vec::new();
    let mut bucket_labs: Vec<Option<String>> = Vec::new();
    let mut k: usize = 0;
    while k < n
        invariant
            k <= n,
            decided@.len() == k,
            joins@.len() == k,
            bucket_labs@.len() == k,
            forall|x: int| 0 <= x < k ==> !(#[trigger] decided@[x]),
            forall|x: int| 0 <= x < k ==> !(#[trigger] joins@[x]),
        decreases n - k,
    {
        decided.push(false);
        joins.push(false);
        bucket_labs.push(None);
        k = k + 1;
    }
    let mut i: usize = 0;
    while i < n
        invariant
            n == ids@.len(),
            iv == identity_views(ids@),
            names@.len() == n,
            idfps@.len() == n,
            labs@.len() == n,
            disjoint@.len() == n,
            forall|j: int| 0 <= j < disjoint@.len() ==> (#[trigger] disjoint@[j])@.len() == n,
            ev == (LaneView {
                names: strings_view(names@),
                ids: strings_view(idfps@),
                labs: opts_view(labs@),
                disjoint: disjoint@.map_values(|v: Vec<bool>| v@),
            }),
            i <= n,
            decided@.len() == n,
            joins@.len() == n,
            bucket_labs@.len() == n,
            forall|x: int| 0 <= x < n && #[trigger] decided@[x] ==> peer_eligible(iv, ev, x)
                && joins@[x] == peer_joins(iv, ev, x)
                && (joins@[x] ==> opt_view(bucket_labs@[x]) == bucket_lab(iv, ev, ev.names[x], ev.ids[x])),
            forall|x: int| 0 <= x < n && !(#[trigger] decided@[x]) ==> !joins@[x],
            forall|x: int| 0 <= x < i && peer_eligible(iv, ev, x) ==> #[trigger] decided@[x],
        decreases n - i,
    {
        let elig = match ids[i].provenance {
            ModelIdentityProvenance::Unlinked(_) => true,
            _ => false,
        };
        let ok = elig && chars_of(names[i].as_str()).len() > 0 && chars_of(idfps[i].as_str()).len() > 0;
        proof {
            assert(iv[i as int] == identity_view(ids@[i as int]));
            assert(ev.names[i as int] == names@[i as int]@);
            assert(ev.ids[i as int] == idfps@[i as int]@);
        }
        assert(ok == peer_eligible(iv, ev, i as int));
        if ok && !decided[i] {
            let (members, join, lab) = decide_bucket(ids, names, idfps, labs, disjoint, i, Ghost(ev));
            let ghost nm = ev.names[i as int];
            let ghost id = ev.ids[i as int];
            let mut t: usize = 0;
            while t < members.len()
                invariant
                    n == ids@.len(),
                    i < n,
                    decided@.len() == n,
                    joins@.len() == n,
                    bucket_labs@.len() == n,
                    peer_eligible(iv, ev, i as int),
                    nm == ev.names[i as int],
                    id == ev.ids[i as int],
                    forall|a: int| 0 <= a < members@.len() ==> #[trigger] members@[a] < n
                        && member_of(iv, ev, nm, id, members@[a] as int),
                    forall|x: int| #[trigger] member_of(iv, ev, nm, id, x) ==> members@.contains(x as usize),
                    join == bucket_joins(iv, ev, nm, id),
                    join ==> opt_view(lab) == bucket_lab(iv, ev, nm, id),
                    forall|x: int| 0 <= x < n && #[trigger] decided@[x] ==> peer_eligible(iv, ev, x)
                        && joins@[x] == peer_joins(iv, ev, x)
                        && (joins@[x] ==> opt_view(bucket_labs@[x]) == bucket_lab(iv, ev, ev.names[x], ev.ids[x])),
                    forall|x: int| 0 <= x < n && !(#[trigger] decided@[x]) ==> !joins@[x],
                    forall|x: int| 0 <= x < i && peer_eligible(iv, ev, x) ==> #[trigger] decided@[x],
                    forall|a: int| 0 <= a < t ==> #[trigger] decided@[members@[a] as int],
                decreases members.len() - t,
            {
                let m = members[t];
                proof {
                    assert(member_of(iv, ev, nm, id, m as int));
                }
                decided.set(m, true);
                joins.set(m, join);
                bucket_labs.set(m, copy_opt(&lab));
                t = t + 1;
            }
            proof {
                assert(member_of(iv, ev, nm, id, i as int));
                assert(members@.contains(i));
                let a = choose|a: int| 0 <= a < members@.len() && members@[a] == i;
                assert(decided@[members@[a] as int]);
            }
        }
        i = i + 1;
    }
    proof {
        assert forall|x: int| 0 <= x < n implies #[trigger] joins@[x] == peer_joins(iv, ev, x) by {
            if !decided@[x] {
                assert(!peer_eligible(iv, ev, x));
            }
        }
        assert forall|x: int| 0 <= x < n && #[trigger] joins@[x]
            implies opt_view(bucket_labs@[x]) == bucket_lab(iv, ev, ev.names[x], ev.ids[x]) by {
            assert(decided@[x]);
        }
    }
    let ghost spec = spec_peer_lane(iv, ev, lane@);
    let mut j: usize = 0;
    while j < n
        invariant
            n == ids@.len(),
            iv.len() == n,
            names@.len() == n,
            idfps@.len() == n,
            ev.names == strings_view(names@),
            ev.ids == strings_view(idfps@),
            spec == spec_peer_lane(iv, ev, lane@),
            decided@.len() == n,
            joins@.len() == n,
            bucket_labs@.len() == n,
            forall|x: int| 0 <= x < n ==> #[trigger] joins@[x] == peer_joins(iv, ev, x),
            forall|x: int| 0 <= x < n && #[trigger] joins@[x] ==> opt_view(bucket_labs@[x]) == bucket_lab(iv, ev, ev.names[x], ev.ids[x]),
            j <= n,
            forall|x: int| 0 <= x < j ==> identity_view(#[trigger] ids@[x]) == spec[x],
            forall|x: int| j <= x < n ==> identity_view(#[trigger] ids@[x]) == iv[x],
        decreases n - j,
    {
        if joins[j] {
            let key = make_key(lane, names[j].as_str(), idfps[j].as_str());
            let nr = joined(&ids[j], &key, &bucket_labs[j]);
            proof {
                assert(ev.names[j as int] == names@[j as int]@);
                assert(ev.ids[j as int] == idfps@[j as int]@);
            }
            ids.set(j, nr);
        }
        j = j + 1;
    }
    assert(identity_views(ids@) =~= spec);
}

// ── Name relaxation ───────────────────────────────────────────────────────

/// The evidence of the name relaxation, per offering: the leaf id
/// fingerprint, the tokens of its model name, of its leaf id and of its id's
/// namespace, the creator vocabulary of its lab, its independent lab, and
/// whether the outputs of offerings `j` and `k` are disjoint.
pub ghost struct RelaxView {
    pub leafs: Seq<Seq<char>>,
    pub name_tokens: Seq<Set<Seq<char>>>,
    pub leaf_tokens: Seq<Set<Seq<char>>>,
    pub ns_tokens: Seq<Set<Seq<char>>>,
    pub vocab: Seq<Set<Seq<char>>>,
    pub labs: Seq<Option<Seq<char>>>,
    pub disjoint: Seq<Seq<bool>>,
}

/// Offerings `j` and `r` are peers with the same key.
pub open spec fn same_key(iv: Seq<IdentityView>, j: int, r: int) -> bool {
    &&& 0 <= j < iv.len()
    &&& iv[j].provenance == ModelIdentityProvenance::InferredPeer
    &&& iv[j].key == iv[r].key
}

/// Offering `r` is a peer and the first of its peer group.
pub open spec fn is_first_peer(iv: Seq<IdentityView>, r: int) -> bool {
    &&& 0 <= r < iv.len()
    &&& iv[r].provenance == ModelIdentityProvenance::InferredPeer
    &&& forall|j: int| 0 <= j < r ==> !#[trigger] same_key(iv, j, r)
}

/// The peer group first met at `r` can anchor offerings: all its members
/// spell one non-empty leaf id, it has a lab, and the name of its first
/// member has tokens.
pub open spec fn is_anchor(iv: Seq<IdentityView>, ev: RelaxView, r: int) -> bool {
    &&& is_first_peer(iv, r)
    &&& ev.leafs[r].len() > 0
    &&& forall|j: int| #[trigger] same_key(iv, j, r) ==> ev.leafs[j] == ev.leafs[r]
    &&& iv[r].lab is Some
    &&& !ev.name_tokens[r].is_empty()
}

/// A name token that cannot tell offering `i` apart from the group of `r`:
/// the leaf id of `i` carries it, or it names the group's creator.
pub open spec fn neutral(ev: RelaxView, i: int, r: int, t: Seq<char>) -> bool {
    ev.leaf_tokens[i].contains(t) || ev.vocab[r].contains(t)
}

/// Every token by which the names of `i` and of the group of `r` differ is
/// neutral, or (on the side of `i`) spells the namespace of its id.
pub open spec fn names_compatible(ev: RelaxView, i: int, r: int) -> bool {
    &&& forall|t: Seq<char>| #[trigger] ev.name_tokens[r].contains(t) && !ev.name_tokens[i].contains(t) ==> neutral(ev, i, r, t)
    &&& forall|t: Seq<char>| #[trigger] ev.name_tokens[i].contains(t) && !ev.name_tokens[r].contains(t)
        ==> neutral(ev, i, r, t) || ev.ns_tokens[i].contains(t)
}

/// The group of `r` is a candidate for offering `i`.
pub open spec fn relax_candidate(iv: Seq<IdentityView>, ev: RelaxView, i: int, r: int) -> bool {
    &&& is_anchor(iv, ev, r)
    &&& ev.leafs[r] == ev.leafs[i]
    &&& names_compatible(ev, i, r)
}

/// The one candidate group of `i`, when there is exactly one.
pub open spec fn sole_candidate(iv: Seq<IdentityView>, ev: RelaxView, i: int) -> Option<int> {
    if exists|r: int| #[trigger] relax_candidate(iv, ev, i, r)
        && forall|q: int| #[trigger] relax_candidate(iv, ev, i, q) ==> q == r {
        Some(choose|r: int| #[trigger] relax_candidate(iv, ev, i, r)
            && forall|q: int| #[trigger] relax_candidate(iv, ev, i, q) ==> q == r)
    } else {
        None
    }
}

/// Offering `i` has disjoint outputs with a member of the group of `r`, or
/// with an offering already admitted to it (`prev`).
pub open spec fn output_clash(iv: Seq<IdentityView>, ev: RelaxView, i: int, r: int, prev: Seq<Option<int>>) -> bool {
    exists|m: int| 0 <= m < iv.len()
        && (same_key(iv, m, r) || (m < prev.len() && prev[m] == Some(r)))
        && #[trigger] ev.disjoint[i][m]
}

/// Where offering `i` is admitted, given the admissions of the offerings
/// before it: a still-unlinked offering with name tokens joins its sole
/// candidate group, unless its independent lab is another one or its
/// outputs clash with the group.
pub open spec fn relax_decision(iv: Seq<IdentityView>, ev: RelaxView, i: int, prev: Seq<Option<int>>) -> Option<int> {
    if iv[i].provenance is Unlinked && !ev.name_tokens[i].is_empty() {
        match sole_candidate(iv, ev, i) {
            Some(r) => if (ev.labs[i] is Some && ev.labs[i] != iv[r].lab) || output_clash(iv, ev, i, r, prev) {
                None
            } else {
                Some(r)
            },
            None => None,
        }
    } else {
        None
    }
}

/// The admissions of the first `n` offerings, in order.
pub open spec fn relax_upto(iv: Seq<IdentityView>, ev: RelaxView, n: nat) -> Seq<Option<int>>
    decreases n,
{
    if n == 0 {
        seq![]
    } else {
        let prev = relax_upto(iv, ev, (n - 1) as nat);
        prev.push(relax_decision(iv, ev, n - 1, prev))
    }
}

/// Offering `i` after the relaxation: an admitted offering takes the key,
/// name and lab of its group and the peer provenance.
pub open spec fn relaxed(iv: Seq<IdentityView>, a: Option<int>, i: int) -> IdentityView {
    match a {
        Some(r) => IdentityView {
            key: iv[r].key,
            name: iv[r].name,
            lab: iv[r].lab,
            provenance: ModelIdentityProvenance::InferredPeer,
            ..iv[i]
        },
        None => iv[i],
    }
}

/// The identities after the name relaxation.
pub open spec fn spec_name_relaxation(iv: Seq<IdentityView>, ev: RelaxView) -> Seq<IdentityView> {
    let a = relax_upto(iv, ev, iv.len());
    Seq::new(iv.len(), |i: int| relaxed(iv, a[i], i))
}

pub open spec fn token_sets(v: Seq<Vec<String>>) -> Seq<Set<Seq<char>>> {
    v.map_values(|t: Vec<String>| strings_view(t@).to_set())
}

proof fn lemma_relax_len(iv: Seq<IdentityView>, ev: RelaxView, n: nat)
    ensures
        relax_upto(iv, ev, n).len() == n,
        forall|k: nat| k <= n ==> #[trigger] relax_upto(iv, ev, k) == relax_upto(iv, ev, n).take(k as int),
    decreases n,
{
    if n > 0 {
        lemma_relax_len(iv, ev, (n - 1) as nat);
        assert forall|k: nat| k <= n implies #[trigger] relax_upto(iv, ev, k) == relax_upto(iv, ev, n).take(k as int) by {
            if k == n {
                assert(relax_upto(iv, ev, n).take(k as int) =~= relax_upto(iv, ev, n));
            } else {
                assert(relax_upto(iv, ev, (n - 1) as nat).take(k as int) =~= relax_upto(iv, ev, n).take(k as int));
            }
        }
    }
}

/// `t` is among the strings `v`.
fn has_str(v: &Vec<String>, t: &str) -> (r: bool)
    ensures
        r == strings_view(v@).to_set().contains(t@),
{
    let mut k: usize = 0;
    while k < v.len()
        invariant
            k <= v@.len(),
            forall|j: int| 0 <= j < k ==> v@[j]@ != t@,
        decreases v.len() - k,
    {
        if str_eq(v[k].as_str(), t) {
            assert(strings_view(v@)[k as int] == t@);
            return true;
        }
        k = k + 1;
    }
    proof {
        if strings_view(v@).contains(t@) {
            let j = choose|j: int| 0 <= j < strings_view(v@).len() && strings_view(v@)[j] == t@;
            assert(v@[j]@ == t@);
        }
    }
    false
}

/// Every token of `a` missing from `b` is in `n1` or `n2` (or, when given,
/// in `n3`).
fn diff_covered(a: &Vec<String>, b: &Vec<String>, n1: &Vec<String>, n2: &Vec<String>, n3: Option<&Vec<String>>) -> (r: bool)
    ensures
        r == forall|t: Seq<char>| #[trigger] strings_view(a@).to_set().contains(t) && !strings_view(b@).to_set().contains(t)
            ==> strings_view(n1@).to_set().contains(t) || strings_view(n2@).to_set().contains(t)
                || (n3 matches Some(v3) && strings_view(v3@).to_set().contains(t)),
{
    let mut k: usize = 0;
    while k < a.len()
        invariant
            k <= a@.len(),
            forall|j: int| 0 <= j < k ==> ({
                let t = #[trigger] a@[j]@;
                strings_view(b@).to_set().contains(t) || strings_view(n1@).to_set().contains(t)
                    || strings_view(n2@).to_set().contains(t)
                    || (n3 matches Some(v3) && strings_view(v3@).to_set().contains(t))
            }),
        decreases a.len() - k,
    {
        let t = a[k].as_str();
        let ok = has_str(b, t) || has_str(n1, t) || has_str(n2, t) || match n3 {
            Some(v3) => has_str(v3, t),
            None => false,
        };
        if !ok {
            proof {
                assert(strings_view(a@)[k as int] == t@);
                assert(strings_view(a@).to_set().contains(t@));
            }
            return false;
        }
        k = k + 1;
    }
    proof {
        assert forall|t: Seq<char>| #[trigger] strings_view(a@).to_set().contains(t) && !strings_view(b@).to_set().contains(t)
            implies strings_view(n1@).to_set().contains(t) || strings_view(n2@).to_set().contains(t)
                || (n3 matches Some(v3) && strings_view(v3@).to_set().contains(t)) by {
            let j = choose|j: int| 0 <= j < strings_view(a@).len() && strings_view(a@)[j] == t;
            assert(a@[j]@ == t);
        }
    }
    true
}

/// The groups that can anchor offerings: `r` is flagged when the peer
/// group first met at `r` is an anchor.
fn anchors(ids: &Vec<ResolvedIdentity>, leafs: &Vec<String>, name_tokens: &Vec<Vec<String>>, Ghost(ev): Ghost<RelaxView>) -> (r: Vec<bool>)
    requires
        leafs@.len() == ids@.len(),
        name_tokens@.len() == ids@.len(),
        ev.leafs == strings_view(leafs@),
        ev.name_tokens == token_sets(name_tokens@),
    ensures
        r@.len() == ids@.len(),
        forall|x: int| 0 <= x < ids@.len() ==> #[trigger] r@[x] == is_anchor(identity_views(ids@), ev, x),
{
    let ghost iv = identity_views(ids@);
    let n = ids.len();
    let mut out: Vec<bool> = Vec::new();
    let mut x: usize = 0;
    while x < n
        invariant
            n == ids@.len(),
            iv == identity_views(ids@),
            leafs@.len() == n,
            name_tokens@.len() == n,
            ev.leafs == strings_view(leafs@),
            ev.name_tokens == token_sets(name_tokens@),
            x <= n,
            out@.len() == x,
            forall|y: int| 0 <= y < x ==> #[trigger] out@[y] == is_anchor(iv, ev, y),
        decreases n - x,
    {
        proof {
            assert(iv[x as int] == identity_view(ids@[x as int]));
            assert(ev.leafs[x as int] == leafs@[x as int]@);
            assert(ev.name_tokens[x as int] == strings_view(name_tokens@[x as int]@).to_set());
        }
        let peer = ids[x].provenance == ModelIdentityProvenance::InferredPeer;
        let mut ok = peer && chars_of(leafs[x].as_str()).len() > 0 && ids[x].lab.is_some()
            && name_tokens[x].len() > 0;
        let ghost base = ok;
        proof {
            if name_tokens@[x as int]@.len() > 0 {
                assert(strings_view(name_tokens@[x as int]@)[0] == name_tokens@[x as int]@[0]@);
                assert(strings_view(name_tokens@[x as int]@).to_set().contains(name_tokens@[x as int]@[0]@));
            } else {
                assert(strings_view(name_tokens@[x as int]@).to_set() =~= Set::empty());
            }
            assert(base == (iv[x as int].provenance == ModelIdentityProvenance::InferredPeer
                && ev.leafs[x as int].len() > 0 && iv[x as int].lab is Some && !ev.name_tokens[x as int].is_empty()));
        }
        let mut j: usize = 0;
        while ok && j < n
            invariant
                n == ids@.len(),
                iv == identity_views(ids@),
                leafs@.len() == n,
                ev.leafs == strings_view(leafs@),
                x < n,
                j <= n,
                ok == (base && forall|y: int| 0 <= y < j && #[trigger] same_key(iv, y, x as int)
                    ==> y >= x && ev.leafs[y] == ev.leafs[x as int]),
            decreases n - j,
        {
            proof {
                assert(iv[j as int] == identity_view(ids@[j as int]));
                assert(iv[x as int] == identity_view(ids@[x as int]));
                assert(ev.leafs[j as int] == leafs@[j as int]@);
                assert(ev.leafs[x as int] == leafs@[x as int]@);
            }
            let sk = ids[j].provenance == ModelIdentityProvenance::InferredPeer && str_eq(ids[j].key.as_str(), ids[x].key.as_str());
            assert(sk == same_key(iv, j as int, x as int));
            if sk && (j < x || !str_eq(leafs[j].as_str(), leafs[x].as_str())) {
                ok = false;
            }
            j = j + 1;
        }
        proof {
            if ok {
                assert(j == n);
                assert forall|y: int| 0 <= y < x implies !#[trigger] same_key(iv, y, x as int) by {}
            }
            if !ok && base {
                let y = choose|y: int| !(0 <= y < j && #[trigger] same_key(iv, y, x as int)
                    ==> y >= x && ev.leafs[y] == ev.leafs[x as int]);
                if y < x {
                    assert(!is_first_peer(iv, x as int));
                }
            }
        }
        out.push(ok);
        x = x + 1;
    }
    out
}

pub open spec fn opt_ints(v: Seq<Option<usize>>) -> Seq<Option<int>> {
    v.map_values(|o: Option<usize>| match o { Some(x) => Some(x as int), None => None })
}

/// The sole candidate group of offering `i`, if it has exactly one.
fn sole_candidate_of(
    ids: &Vec<ResolvedIdentity>,
    anchor: &Vec<bool>,
    leafs: &Vec<String>,
    name_tokens: &Vec<Vec<String>>,
    leaf_tokens: &Vec<Vec<String>>,
    ns_tokens: &Vec<Vec<String>>,
    vocab: &Vec<Vec<String>>,
    i: usize,
    Ghost(ev): Ghost<RelaxView>,
) -> (r: Option<usize>)
    requires
        i < ids@.len(),
        anchor@.len() == ids@.len(),
        forall|x: int| 0 <= x < ids@.len() ==> #[trigger] anchor@[x] == is_anchor(identity_views(ids@), ev, x),
        leafs@.len() == ids@.len(),
        name_tokens@.len() == ids@.len(),
        leaf_tokens@.len() == ids@.len(),
        ns_tokens@.len() == ids@.len(),
        vocab@.len() == ids@.len(),
        ev.leafs == strings_view(leafs@),
        ev.name_tokens == token_sets(name_tokens@),
        ev.leaf_tokens == token_sets(leaf_tokens@),
        ev.ns_tokens == token_sets(ns_tokens@),
        ev.vocab == token_sets(vocab@),
    ensures
        match r {
            Some(g) => g < ids@.len() && sole_candidate(identity_views(ids@), ev, i as int) == Some(g as int),
            None => sole_candidate(identity_views(ids@), ev, i as int) is None,
        },
{
    let ghost iv = identity_views(ids@);
    let n = ids.len();
    // The candidate groups: the first, and whether there is another.
    let mut first: Option<usize> = None;
    let mut multiple = false;
    let mut r: usize = 0;
    while r < n
        invariant
            n == ids@.len(),
            iv == identity_views(ids@),
            i < n,
            r <= n,
            anchor@.len() == n,
            forall|x: int| 0 <= x < n ==> #[trigger] anchor@[x] == is_anchor(iv, ev, x),
            leafs@.len() == n,
            name_tokens@.len() == n,
            leaf_tokens@.len() == n,
            ns_tokens@.len() == n,
            vocab@.len() == n,
            ev.leafs == strings_view(leafs@),
            ev.name_tokens == token_sets(name_tokens@),
            ev.leaf_tokens == token_sets(leaf_tokens@),
            ev.ns_tokens == token_sets(ns_tokens@),
            ev.vocab == token_sets(vocab@),
            first is None <==> forall|q: int| 0 <= q < r ==> !#[trigger] relax_candidate(iv, ev, i as int, q),
            first matches Some(f) ==> f < r && relax_candidate(iv, ev, i as int, f as int),
            multiple <==> (first is Some && exists|q: int| 0 <= q < r && q != first->0 && #[trigger] relax_candidate(iv, ev, i as int, q)),
        decreases n - r,
    {
        proof {
            assert(ev.leafs[r as int] == leafs@[r as int]@);
            assert(ev.leafs[i as int] == leafs@[i as int]@);
            assert(ev.name_tokens[r as int] == strings_view(name_tokens@[r as int]@).to_set());
            assert(ev.name_tokens[i as int] == strings_view(name_tokens@[i as int]@).to_set());
            assert(ev.leaf_tokens[i as int] == strings_view(leaf_tokens@[i as int]@).to_set());
            assert(ev.ns_tokens[i as int] == strings_view(ns_tokens@[i as int]@).to_set());
            assert(ev.vocab[r as int] == strings_view(vocab@[r as int]@).to_set());
        }
        let cand = anchor[r] && str_eq(leafs[r].as_str(), leafs[i].as_str())
            && diff_covered(&name_tokens[r], &name_tokens[i], &leaf_tokens[i], &vocab[r], None)
            && diff_covered(&name_tokens[i], &name_tokens[r], &leaf_tokens[i], &vocab[r], Some(&ns_tokens[i]));
        proof {
            if cand {
                assert(names_compatible(ev, i as int, r as int));
            }
            if names_compatible(ev, i as int, r as int) {
                assert forall|t: Seq<char>| #[trigger] strings_view(name_tokens@[r as int]@).to_set().contains(t)
                    && !strings_view(name_tokens@[i as int]@).to_set().contains(t)
                    implies strings_view(leaf_tokens@[i as int]@).to_set().contains(t) || strings_view(vocab@[r as int]@).to_set().contains(t)
                        || (None::<&Vec<String>> matches Some(v3) && strings_view(v3@).to_set().contains(t)) by {
                    assert(ev.name_tokens[r as int].contains(t));
                }
                assert forall|t: Seq<char>| #[trigger] strings_view(name_tokens@[i as int]@).to_set().contains(t)
                    && !strings_view(name_tokens@[r as int]@).to_set().contains(t)
                    implies strings_view(leaf_tokens@[i as int]@).to_set().contains(t) || strings_view(vocab@[r as int]@).to_set().contains(t)
                        || (Some(&ns_tokens[i as int]) matches Some(v3) && strings_view(v3@).to_set().contains(t)) by {
                    assert(ev.name_tokens[i as int].contains(t));
                }
            }
        }
        assert(cand == relax_candidate(iv, ev, i as int, r as int));
        let ghost old_first = first;
        if cand {
            match first {
                None => {
                    first = Some(r);
                },
                Some(_) => {
                    multiple = true;
                },
            }
        }
        proof {
            if multiple && !cand {
                let f = first->0;
                let q = choose|q: int| 0 <= q < r && q != f && #[trigger] relax_candidate(iv, ev, i as int, q);
                assert(0 <= q < r + 1);
            }
            if cand && old_first is Some {
                assert(0 <= r < r + 1 && r != first->0 && relax_candidate(iv, ev, i as int, r as int));
            }
            if !multiple {
                if first is Some {
                    let f = first->0;
                    assert forall|q: int| 0 <= q < r + 1 && q != f implies !#[trigger] relax_candidate(iv, ev, i as int, q) by {
                        if q < r && old_first is None {
                        }
                    }
                }
            }
        }
        r = r + 1;
    }
    let sole: Option<usize> = if multiple { None } else { first };
    proof {
        match sole {
            Some(f) => {
                assert(relax_candidate(iv, ev, i as int, f as int));
                assert forall|q: int| #[trigger] relax_candidate(iv, ev, i as int, q) implies q == f by {
                    if q != f {
                        assert(0 <= q < n);
                    }
                }
                let w = choose|w: int| #[trigger] relax_candidate(iv, ev, i as int, w)
                    && forall|q: int| #[trigger] relax_candidate(iv, ev, i as int, q) ==> q == w;
                assert(w == f);
                assert(sole_candidate(iv, ev, i as int) == Some(f as int));
            },
            None => {
                if exists|w: int| #[trigger] relax_candidate(iv, ev, i as int, w)
                    && forall|q: int| #[trigger] relax_candidate(iv, ev, i as int, q) ==> q == w {
                    let w = choose|w: int| #[trigger] relax_candidate(iv, ev, i as int, w)
                        && forall|q: int| #[trigger] relax_candidate(iv, ev, i as int, q) ==> q == w;
                    assert(is_anchor(iv, ev, w));
                    assert(0 <= w < n);
                    if first is None {
                        assert(!relax_candidate(iv, ev, i as int, w));
                    } else {
                        let f = first->0;
                        let q = choose|q: int| 0 <= q < r && q != f && #[trigger] relax_candidate(iv, ev, i as int, q);
                        assert(q == w);
                        assert(f as int == w);
                    }
                }
                assert(sole_candidate(iv, ev, i as int) is None);
            },
        }
    }
    sole
}

/// The decision for offering `i` given the decisions `prev` of the
/// offerings before it.
fn decide_relaxation(
    ids: &Vec<ResolvedIdentity>,
    anchor: &Vec<bool>,
    leafs: &Vec<String>,
    name_tokens: &Vec<Vec<String>>,
    leaf_tokens: &Vec<Vec<String>>,
    ns_tokens: &Vec<Vec<String>>,
    vocab: &Vec<Vec<String>>,
    labs: &Vec<Option<String>>,
    disjoint: &Vec<Vec<bool>>,
    prev: &Vec<Option<usize>>,
    i: usize,
    Ghost(ev): Ghost<RelaxView>,
) -> (r: Option<usize>)
    requires
        i < ids@.len(),
        prev@.len() == i,
        anchor@.len() == ids@.len(),
        forall|x: int| 0 <= x < ids@.len() ==> #[trigger] anchor@[x] == is_anchor(identity_views(ids@), ev, x),
        leafs@.len() == ids@.len(),
        name_tokens@.len() == ids@.len(),
        leaf_tokens@.len() == ids@.len(),
        ns_tokens@.len() == ids@.len(),
        vocab@.len() == ids@.len(),
        labs@.len() == ids@.len(),
        disjoint@.len() == ids@.len(),
        forall|j: int| 0 <= j < disjoint@.len() ==> (#[trigger] disjoint@[j])@.len() == ids@.len(),
        ev.leafs == strings_view(leafs@),
        ev.name_tokens == token_sets(name_tokens@),
        ev.leaf_tokens == token_sets(leaf_tokens@),
        ev.ns_tokens == token_sets(ns_tokens@),
        ev.vocab == token_sets(vocab@),
        ev.labs == opts_view(labs@),
        ev.disjoint == disjoint@.map_values(|v: Vec<bool>| v@),
    ensures
        opt_ints(seq![r]) == seq![relax_decision(identity_views(ids@), ev, i as int, opt_ints(prev@))],
        r matches Some(x) ==> x < ids@.len(),
{
    let ghost iv = identity_views(ids@);
    let ghost pv = opt_ints(prev@);
    let n = ids.len();
    proof {
        assert(iv[i as int] == identity_view(ids@[i as int]));
        assert(ev.name_tokens[i as int] == strings_view(name_tokens@[i as int]@).to_set());
        if name_tokens@[i as int]@.len() > 0 {
            assert(strings_view(name_tokens@[i as int]@)[0] == name_tokens@[i as int]@[0]@);
            assert(strings_view(name_tokens@[i as int]@).to_set().contains(name_tokens@[i as int]@[0]@));
        } else {
            assert(strings_view(name_tokens@[i as int]@).to_set() =~= Set::empty());
        }
    }
    let unlinked = match ids[i].provenance {
        ModelIdentityProvenance::Unlinked(_) => true,
        _ => false,
    };
    if !unlinked || name_tokens[i].len() == 0 {
        assert(opt_ints(seq![None::<usize>]) =~= seq![relax_decision(iv, ev, i as int, pv)]);
        return None;
    }
    let sole = sole_candidate_of(ids, anchor, leafs, name_tokens, leaf_tokens, ns_tokens, vocab, i, Ghost(ev));
    let g = match sole {
        Some(g) => g,
        None => {
            assert(opt_ints(seq![None::<usize>]) =~= seq![relax_decision(iv, ev, i as int, pv)]);
            return None;
        },
    };
    proof {
        assert(iv[g as int] == identity_view(ids@[g as int]));
        assert(ev.labs[i as int] == opt_view(labs@[i as int]));
    }
    let other_lab = match &labs[i] {
        Some(l) => match &ids[g].lab {
            Some(lg) => !str_eq(l.as_str(), lg.as_str()),
            None => true,
        },
        None => false,
    };
    assert(other_lab == (ev.labs[i as int] is Some && ev.labs[i as int] != iv[g as int].lab));
    // Outputs: a member of the group, or an offering already admitted to it,
    // with outputs disjoint from those of `i`.
    let mut clash = false;
    let mut m: usize = 0;
    while m < n
        invariant
            n == ids@.len(),
            iv == identity_views(ids@),
            i < n,
            g < n,
            prev@.len() == i,
            pv == opt_ints(prev@),
            disjoint@.len() == n,
            forall|j: int| 0 <= j < disjoint@.len() ==> (#[trigger] disjoint@[j])@.len() == n,
            ev.disjoint == disjoint@.map_values(|v: Vec<bool>| v@),
            m <= n,
            clash <==> exists|x: int| 0 <= x < m
                && (same_key(iv, x, g as int) || (x < pv.len() && pv[x] == Some(g as int)))
                && #[trigger] ev.disjoint[i as int][x],
        decreases n - m,
    {
        proof {
            assert(iv[m as int] == identity_view(ids@[m as int]));
            assert(iv[g as int] == identity_view(ids@[g as int]));
            assert(ev.disjoint[i as int] == disjoint@[i as int]@);
        }
        let sk = ids[m].provenance == ModelIdentityProvenance::InferredPeer && str_eq(ids[m].key.as_str(), ids[g].key.as_str());
        assert(sk == same_key(iv, m as int, g as int));
        let adm = m < i && match prev[m] {
            Some(x) => x == g,
            None => false,
        };
        proof {
            if m < i {
                assert(pv[m as int] == match prev@[m as int] { Some(x) => Some(x as int), None => None::<int> });
            }
        }
        assert(adm == (m < pv.len() && pv[m as int] == Some(g as int)));
        if (sk || adm) && disjoint[i][m] {
            clash = true;
        }
        m = m + 1;
    }
    if other_lab || clash {
        assert(opt_ints(seq![None::<usize>]) =~= seq![relax_decision(iv, ev, i as int, pv)]);
        None
    } else {
        assert(!output_clash(iv, ev, i as int, g as int, pv));
        assert(opt_ints(seq![Some(g)]) =~= seq![relax_decision(iv, ev, i as int, pv)]);
        Some(g)
    }
}

/// The identity of an offering admitted to the group first met at `g`.
fn admitted(r: &ResolvedIdentity, g: &ResolvedIdentity) -> (out: ResolvedIdentity)
    ensures
        identity_view(out) == (IdentityView {
            key: g.key@,
            name: g.name@,
            lab: opt_view(g.lab),
            provenance: ModelIdentityProvenance::InferredPeer,
            ..identity_view(*r)
        }),
{
    ResolvedIdentity {
        provider_id: owned(r.provider_id.as_str()),
        model_id: owned(r.model_id.as_str()),
        key: owned(g.key.as_str()),
        name: owned(g.name.as_str()),
        lab: copy_opt(&g.lab),
        fallback_lab: copy_opt(&r.fallback_lab),
        provenance: ModelIdentityProvenance::InferredPeer,
    }
}

/// The evidence of the name relaxation as its ghost form.
pub open spec fn relax_view(
    leafs: Seq<String>,
    name_tokens: Seq<Vec<String>>,
    leaf_tokens: Seq<Vec<String>>,
    ns_tokens: Seq<Vec<String>>,
    vocab: Seq<Vec<String>>,
    labs: Seq<Option<String>>,
    disjoint: Seq<Vec<bool>>,
) -> RelaxView {
    RelaxView {
        leafs: strings_view(leafs),
        name_tokens: token_sets(name_tokens),
        leaf_tokens: token_sets(leaf_tokens),
        ns_tokens: token_sets(ns_tokens),
        vocab: token_sets(vocab),
        labs: opts_view(labs),
        disjoint: disjoint.map_values(|v: Vec<bool>| v@),
    }
}

/// The final relaxation: attach still-unlinked offerings to an existing peer
/// group that spells their leaf id, when every name-token difference is
/// neutral. Per offering `i`: `leafs[i]` is its leaf id fingerprint,
/// `name_tokens[i]`, `leaf_tokens[i]` and `ns_tokens[i]` the tokens of its
/// model name, leaf id and id namespace, `vocab[i]` the creator vocabulary
/// of its lab, `labs[i]` its independent lab, and `disjoint[j][k]` whether
/// offerings `j` and `k` have disjoint outputs. See
/// [`spec_name_relaxation`].
pub fn apply_peer_name_relaxation(
    ids: &mut Vec<ResolvedIdentity>,
    leafs: &Vec<String>,
    name_tokens: &Vec<Vec<String>>,
    leaf_tokens: &Vec<Vec<String>>,
    ns_tokens: &Vec<Vec<String>>,
    vocab: &Vec<Vec<String>>,
    labs: &Vec<Option<String>>,
    disjoint: &Vec<Vec<bool>>,
)
    requires
        leafs@.len() == old(ids)@.len(),
        name_tokens@.len() == old(ids)@.len(),
        leaf_tokens@.len() == old(ids)@.len(),
        ns_tokens@.len() == old(ids)@.len(),
        vocab@.len() == old(ids)@.len(),
        labs@.len() == old(ids)@.len(),
        disjoint@.len() == old(ids)@.len(),
        forall|j: int| 0 <= j < disjoint@.len() ==> (#[trigger] disjoint@[j])@.len() == old(ids)@.len(),
    ensures
        identity_views(final(ids)@) == spec_name_relaxation(
            identity_views(old(ids)@),
            relax_view(leafs@, name_tokens@, leaf_tokens@, ns_tokens@, vocab@, labs@, disjoint@),
        ),
{
    let ghost ev = relax_view(leafs@, name_tokens@, leaf_tokens@, ns_tokens@, vocab@, labs@, disjoint@);
    let ghost iv = identity_views(ids@);
    let n = ids.len();
    let anchor = anchors(ids, leafs, name_tokens, Ghost(ev));
    let mut decisions: Vec<Option<usize>> = Vec::new();
    let mut i: usize = 0;
    while i < n
        invariant
            n == ids@.len(),
            iv == identity_views(ids@),
            ev == relax_view(leafs@, name_tokens@, leaf_tokens@, ns_tokens@, vocab@, labs@, disjoint@),
            anchor@.len() == n,
            forall|x: int| 0 <= x < n ==> #[trigger] anchor@[x] == is_anchor(iv, ev, x),
            leafs@.len() == n,
            name_tokens@.len() == n,
            leaf_tokens@.len() == n,
            ns_tokens@.len() == n,
            vocab@.len() == n,
            labs@.len() == n,
            disjoint@.len() == n,
            forall|j: int| 0 <= j < disjoint@.len() ==> (#[trigger] disjoint@[j])@.len() == n,
            i <= n,
            decisions@.len() == i,
            opt_ints(decisions@) == relax_upto(iv, ev, i as nat),
            forall|x: int| 0 <= x < i && (#[trigger] decisions@[x]) is Some ==> decisions@[x]->0 < n,
        decreases n - i,
    {
        let d = decide_relaxation(ids, &anchor, leafs, name_tokens, leaf_tokens, ns_tokens, vocab, labs, disjoint,
            &decisions, i, Ghost(ev));
        let ghost before = decisions@;
        decisions.push(d);
        proof {
            assert(opt_ints(seq![d])[0] == relax_decision(iv, ev, i as int, opt_ints(before)));
            assert(opt_ints(decisions@) =~= opt_ints(before).push(opt_ints(seq![d])[0]));
        }
        i = i + 1;
    }
    let ghost a = relax_upto(iv, ev, n as nat);
    proof {
        assert forall|x: int| 0 <= x < n && #[trigger] a[x] is Some implies iv[x].provenance is Unlinked by {
            lemma_relax_len(iv, ev, n as nat);
            let prev = relax_upto(iv, ev, x as nat);
            assert(relax_upto(iv, ev, (x + 1) as nat) == relax_upto(iv, ev, n as nat).take(x + 1));
            assert(relax_upto(iv, ev, (x + 1) as nat)[x] == relax_decision(iv, ev, x, prev));
        }
        assert forall|x: int| 0 <= x < n && (#[trigger] a[x]) is Some implies is_anchor(iv, ev, a[x]->0) by {
            lemma_relax_len(iv, ev, n as nat);
            let prev = relax_upto(iv, ev, x as nat);
            assert(relax_upto(iv, ev, (x + 1) as nat) == relax_upto(iv, ev, n as nat).take(x + 1));
            assert(relax_upto(iv, ev, (x + 1) as nat)[x] == relax_decision(iv, ev, x, prev));
            let g = a[x]->0;
            let w = choose|w: int| #[trigger] relax_candidate(iv, ev, x, w)
                && forall|q: int| #[trigger] relax_candidate(iv, ev, x, q) ==> q == w;
            assert(relax_candidate(iv, ev, x, w));
        }
    }
    let ghost spec = spec_name_relaxation(iv, ev);
    let mut j: usize = 0;
    while j < n
        invariant
            n == ids@.len(),
            iv.len() == n,
            decisions@.len() == n,
            opt_ints(decisions@) == a,
            a == relax_upto(iv, ev, n as nat),
            spec == spec_name_relaxation(iv, ev),
            forall|x: int| 0 <= x < n && (#[trigger] decisions@[x]) is Some ==> decisions@[x]->0 < n,
            forall|x: int| 0 <= x < n && #[trigger] a[x] is Some ==> iv[x].provenance is Unlinked,
            forall|x: int| 0 <= x < n && (#[trigger] a[x]) is Some ==> is_anchor(iv, ev, a[x]->0),
            j <= n,
            forall|x: int| 0 <= x < j ==> identity_view(#[trigger] ids@[x]) == spec[x],
            forall|x: int| j <= x < n ==> identity_view(#[trigger] ids@[x]) == iv[x],
            forall|x: int| 0 <= x < n && a[x] is None ==> identity_view(#[trigger] ids@[x]) == iv[x],
        decreases n - j,
    {
        proof {
            assert(a[j as int] == match decisions@[j as int] { Some(g) => Some(g as int), None => None::<int> });
        }
        match decisions[j] {
            Some(g) => {
                proof {
                    assert(is_anchor(iv, ev, g as int));
                    assert(!(iv[g as int].provenance is Unlinked));
                    assert(a[g as int] is None);
                    assert(identity_view(ids@[g as int]) == iv[g as int]);
                }
                let nr = admitted(&ids[j], &ids[g]);
                ids.set(j, nr);
            },
            None => {},
        }
        j = j + 1;
    }
    assert(identity_views(ids@) =~= spec);
}

/// The evidence of one lane as its ghost form.
pub open spec fn lane_view(names: Seq<String>, idfps: Seq<String>, labs: Seq<Option<String>>, disjoint: Seq<Vec<bool>>) -> LaneView {
    LaneView {
        names: strings_view(names),
        ids: strings_view(idfps),
        labs: opts_view(labs),
        disjoint: disjoint.map_values(|v: Vec<bool>| v@),
    }
}

/// The three peer lanes in turn: the leaf id first, then the complete id
/// for offerings still unlinked, then the complete id without separators.
/// A later lane never splits or widens a group an earlier one formed, since
/// it only looks at offerings that are still unlinked.
pub fn apply_peer_lanes(
    ids: &mut Vec<ResolvedIdentity>,
    names: &Vec<String>,
    leaf_ids: &Vec<String>,
    full_ids: &Vec<String>,
    compact_ids: &Vec<String>,
    labs: &Vec<Option<String>>,
    disjoint: &Vec<Vec<bool>>,
)
    requires
        names@.len() == old(ids)@.len(),
        leaf_ids@.len() == old(ids)@.len(),
        full_ids@.len() == old(ids)@.len(),
        compact_ids@.len() == old(ids)@.len(),
        labs@.len() == old(ids)@.len(),
        disjoint@.len() == old(ids)@.len(),
        forall|j: int| 0 <= j < disjoint@.len() ==> (#[trigger] disjoint@[j])@.len() == old(ids)@.len(),
    ensures
        identity_views(final(ids)@) == spec_peer_lane(
            spec_peer_lane(
                spec_peer_lane(identity_views(old(ids)@), lane_view(names@, leaf_ids@, labs@, disjoint@), "leaf"@),
                lane_view(names@, full_ids@, labs@, disjoint@),
                "full"@,
            ),
            lane_view(names@, compact_ids@, labs@, disjoint@),
            "compact"@,
        ),
{
    apply_peer_groups(ids, names, leaf_ids, labs, disjoint, "leaf");
    apply_peer_groups(ids, names, full_ids, labs, disjoint, "full");
    apply_peer_groups(ids, names, compact_ids, labs, disjoint, "compact");
}

} // verus!

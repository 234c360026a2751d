//! Models tab state: focus, sort order, filters, provider list rows, identity
//! provenance and list navigation.

use vstd::prelude::*;
use crate::sorting::{SortVal, SortValView, insertion_sorted, key_views, sort_by_keys, all_below, val_view};
use crate::text::{chars_of, contains_lower, contains_seq, lowercase, to_lower, string_from_chars, owned};
use crate::scroll::ScrollOffset;
use crate::mouse::{Rect, CursorPos, hit, spec_hit, row_at, spec_row_at};
use crate::event::{Message, MouseKind};
use crate::models::grouping::{
    ResolvedIdentity, ModelGroup, GroupView, covered, snapshot_pos, snapshot_pos_from, drill_kept,
    with_identity, groups_upto, spec_sorted_groups, groups_match, drill_filter, attach_identities,
    build_groups, sort_groups, groups_partition, lemma_groups_partition, lemma_sorted_groups_partition,
    member_providers, providers_exact, lemma_providers_exact, lemma_sorted_providers_exact, group_matches,
    is_member, identity_of,
};

verus! {

/// Page size for page up/down navigation.
pub const PAGE_SIZE: usize = 10;

/// Which panel of the models tab has keyboard focus.
#[derive(Debug, Clone, Copy, PartialEq, Eq, Structural)]
pub enum Focus {
    Models,
    Details,
}

/// Model list sort order.
#[derive(Debug, Clone, Copy, PartialEq, Eq, Structural)]
pub enum SortOrder {
    Default,
    ReleaseDate,
    Cost,
    Context,
}

impl Default for SortOrder {
    /// Release date is the starting order.
    fn default() -> (r: SortOrder)
        ensures
            r == SortOrder::ReleaseDate,
    {
        SortOrder::ReleaseDate
    }
}

impl SortOrder {
    /// The order after this one: default, release date, cost, context, and
    /// around.
    pub open spec fn spec_next(self) -> SortOrder {
        match self {
            SortOrder::Default => SortOrder::ReleaseDate,
            SortOrder::ReleaseDate => SortOrder::Cost,
            SortOrder::Cost => SortOrder::Context,
            SortOrder::Context => SortOrder::Default,
        }
    }

    /// Cycle to the next sort order.
    pub fn next(self) -> (r: SortOrder)
        ensures
            r == self.spec_next(),
    {
        match self {
            SortOrder::Default => SortOrder::ReleaseDate,
            SortOrder::ReleaseDate => SortOrder::Cost,
            SortOrder::Cost => SortOrder::Context,
            SortOrder::Context => SortOrder::Default,
        }
    }
}

/// Cycling the sort order four times returns to the start.
pub proof fn lemma_sort_order_cycle(o: SortOrder)
    ensures
        o.spec_next().spec_next().spec_next().spec_next() == o,
        o.spec_next() != o,
{
}

/// Capability filters of the model list.
#[derive(Debug, Clone, Copy, PartialEq, Eq, Structural)]
pub struct Filters {
    pub reasoning: bool,
    pub tools: bool,
    pub open_weights: bool,
    pub free: bool,
}

impl Default for Filters {
    /// No filter active.
    fn default() -> (r: Filters)
        ensures
            r == (Filters { reasoning: false, tools: false, open_weights: false, free: false }),
    {
        Filters { reasoning: false, tools: false, open_weights: false, free: false }
    }
}

/// Kind of provider, used to group and filter the provider list.
#[derive(Debug, Clone, Copy, PartialEq, Eq, Structural)]
pub enum ProviderCategory {
    All,
    Origin,
    Cloud,
    Inference,
    Gateway,
    Tool,
}

/// One row of the provider list.
#[derive(Debug, Clone, Copy, PartialEq, Eq, Structural)]
pub enum ProviderListItem {
    All,
    CategoryHeader(ProviderCategory),
    /// (index into providers, match count)
    Provider(usize, usize),
}

/// Why local inference declined to link an offering to a canonical model.
#[derive(Debug, Clone, Copy, PartialEq, Eq, Structural)]
pub enum InferenceRejection {
    InsufficientEvidence,
    CreatorConflict,
    OutputConflict,
    Ambiguous,
}

impl InferenceRejection {
    /// Human-readable reason.
    pub open spec fn spec_label(self) -> Seq<char> {
        match self {
            InferenceRejection::InsufficientEvidence => "insufficient evidence"@,
            InferenceRejection::CreatorConflict => "creator conflict"@,
            InferenceRejection::OutputConflict => "output conflict"@,
            InferenceRejection::Ambiguous => "ambiguous candidates"@,
        }
    }

    /// Human-readable reason.
    pub fn label(self) -> (r: &'static str)
        ensures
            r@ == self.spec_label(),
    {
        match self {
            InferenceRejection::InsufficientEvidence => "insufficient evidence",
            InferenceRejection::CreatorConflict => "creator conflict",
            InferenceRejection::OutputConflict => "output conflict",
            InferenceRejection::Ambiguous => "ambiguous candidates",
        }
    }
}

/// Identity provenance for one provider offering inside a grouped row.
#[derive(Debug, Clone, Copy, PartialEq, Eq, Structural)]
pub enum ModelIdentityProvenance {
    AuthoritativeRef,
    AuthoritativeDirectId,
    AuthoritativeScopedId,
    InferredCanonical,
    InferredQualifiedCanonical,
    InferredExactPairCanonical,
    InferredOneSidedCreatorCanonical,
    InferredCrossAliasCanonical,
    InferredFullIdCanonical,
    InferredPeer,
    Unlinked(InferenceRejection),
}

impl ModelIdentityProvenance {
    /// The identity was inferred locally (canonical or peer).
    pub open spec fn spec_is_inferred(self) -> bool {
        match self {
            ModelIdentityProvenance::InferredCanonical
            | ModelIdentityProvenance::InferredQualifiedCanonical
            | ModelIdentityProvenance::InferredExactPairCanonical
            | ModelIdentityProvenance::InferredOneSidedCreatorCanonical
            | ModelIdentityProvenance::InferredCrossAliasCanonical
            | ModelIdentityProvenance::InferredFullIdCanonical
            | ModelIdentityProvenance::InferredPeer => true,
            _ => false,
        }
    }

    /// The identity was inferred locally (canonical or peer).
    pub fn is_inferred(self) -> (r: bool)
        ensures
            r == self.spec_is_inferred(),
    {
        match self {
            ModelIdentityProvenance::InferredCanonical
            | ModelIdentityProvenance::InferredQualifiedCanonical
            | ModelIdentityProvenance::InferredExactPairCanonical
            | ModelIdentityProvenance::InferredOneSidedCreatorCanonical
            | ModelIdentityProvenance::InferredCrossAliasCanonical
            | ModelIdentityProvenance::InferredFullIdCanonical
            | ModelIdentityProvenance::InferredPeer => true,
            _ => false,
        }
    }

    /// The identity comes from the catalog itself.
    pub open spec fn spec_is_authoritative(self) -> bool {
        match self {
            ModelIdentityProvenance::AuthoritativeRef
            | ModelIdentityProvenance::AuthoritativeDirectId
            | ModelIdentityProvenance::AuthoritativeScopedId => true,
            _ => false,
        }
    }

    /// The identity comes from the catalog itself.
    pub fn is_authoritative(self) -> (r: bool)
        ensures
            r == self.spec_is_authoritative(),
    {
        match self {
            ModelIdentityProvenance::AuthoritativeRef
            | ModelIdentityProvenance::AuthoritativeDirectId
            | ModelIdentityProvenance::AuthoritativeScopedId => true,
            _ => false,
        }
    }
}

/// No provenance is both inferred and authoritative; unlinked offerings are
/// neither.
pub proof fn lemma_provenance_exclusive(p: ModelIdentityProvenance)
    ensures
        !(p.spec_is_inferred() && p.spec_is_authoritative()),
        p is Unlinked ==> !p.spec_is_inferred() && !p.spec_is_authoritative(),
{
}

/// Which list the center panel is showing.
#[derive(Debug, Clone, Copy, PartialEq, Eq, Structural)]
pub enum ListMode {
    /// One row per canonical model or unlinked provider offering.
    Grouped,
    /// Offerings of one drilled-into group.
    Offerings,
    /// Flat per-offering rows.
    Flat,
}

/// What the model list reads of a catalog model.
#[derive(Debug, Clone, PartialEq, Eq)]
pub struct ModelInfo {
    pub name: String,
    pub reasoning: bool,
    pub tool_call: bool,
    pub attachment: bool,
    pub open_weights: bool,
    /// The model costs nothing to use.
    pub free: bool,
    /// Input price per million tokens as an order key: a larger key is a
    /// higher price.
    pub input_cost: Option<i64>,
    /// Output price per million tokens, as an order key.
    pub output_cost: Option<i64>,
    /// Context window in tokens.
    pub context: Option<u64>,
    /// Release date, `YYYY-MM-DD`.
    pub release_date: Option<String>,
}

/// What the model list reads of a catalog provider.
#[derive(Debug, Clone, PartialEq, Eq)]
pub struct ProviderInfo {
    pub id: String,
    pub name: String,
    /// The provider's category.
    pub category: ProviderCategory,
    /// `(model id, model)`, in catalog order.
    pub models: Vec<(String, ModelInfo)>,
    pub doc: Option<String>,
    pub api: Option<String>,
    /// Environment variables the provider reads its API key from.
    pub env: Vec<String>,
}

/// The model passes every active capability filter.
pub open spec fn spec_passes_filters(f: Filters, m: ModelInfo) -> bool {
    &&& f.reasoning ==> m.reasoning
    &&& f.tools ==> m.tool_call
    &&& f.open_weights ==> m.open_weights
    &&& f.free ==> m.free
}

/// Does the model pass the active capability filters?
pub fn passes_filters(f: Filters, m: &ModelInfo) -> (r: bool)
    ensures
        r == spec_passes_filters(f, *m),
{
    if f.reasoning && !m.reasoning {
        return false;
    }
    if f.tools && !m.tool_call {
        return false;
    }
    if f.open_weights && !m.open_weights {
        return false;
    }
    if f.free && !m.free {
        return false;
    }
    true
}

/// With no capability filter active every model passes; each filter on its
/// own keeps exactly the models with its capability; and switching one filter
/// on keeps exactly the models that passed without it and have the capability.
pub proof fn lemma_capability_filters(f: Filters, m: ModelInfo)
    ensures
        spec_passes_filters((Filters { reasoning: false, tools: false, open_weights: false, free: false }), m),
        spec_passes_filters((Filters { reasoning: true, tools: false, open_weights: false, free: false }), m) == m.reasoning,
        spec_passes_filters((Filters { reasoning: false, tools: true, open_weights: false, free: false }), m) == m.tool_call,
        spec_passes_filters((Filters { reasoning: false, tools: false, open_weights: true, free: false }), m) == m.open_weights,
        spec_passes_filters((Filters { reasoning: false, tools: false, open_weights: false, free: true }), m) == m.free,
        spec_passes_filters((Filters { reasoning: true, ..f }), m) == (spec_passes_filters((Filters { reasoning: false, ..f }), m) && m.reasoning),
        spec_passes_filters((Filters { tools: true, ..f }), m) == (spec_passes_filters((Filters { tools: false, ..f }), m) && m.tool_call),
        spec_passes_filters((Filters { open_weights: true, ..f }), m) == (spec_passes_filters((Filters { open_weights: false, ..f }), m) && m.open_weights),
        spec_passes_filters((Filters { free: true, ..f }), m) == (spec_passes_filters((Filters { free: false, ..f }), m) && m.free),
{
}

/// A search query or a capability filter is active.
pub open spec fn spec_has_active_filters(query: Seq<char>, f: Filters) -> bool {
    query.len() > 0 || f.reasoning || f.tools || f.open_weights || f.free
}

/// The lowercase query `ql` is empty or occurs in the lowercase model id,
/// model name or (when given) provider id.
pub open spec fn spec_search_hit(ql: Seq<char>, model_id: Seq<char>, name: Seq<char>, provider_id: Option<Seq<char>>) -> bool {
    ||| ql.len() == 0
    ||| contains_seq(lowercase(model_id), ql)
    ||| contains_seq(lowercase(name), ql)
    ||| (provider_id matches Some(p) && contains_seq(lowercase(p), ql))
}

fn search_hit(ql: &Vec<char>, model_id: &str, name: &str, provider_id: Option<&str>) -> (r: bool)
    ensures
        r == spec_search_hit(ql@, model_id@, name@, match provider_id { Some(p) => Some(p@), None => None }),
{
    if ql.len() == 0 {
        return true;
    }
    if contains_lower(model_id, ql) || contains_lower(name, ql) {
        return true;
    }
    match provider_id {
        Some(p) => contains_lower(p, ql),
        None => false,
    }
}

/// Model `i` of provider `p` matches the search (over model id, name and
/// provider id) and the filters.
pub open spec fn offering_matches(p: ProviderInfo, ql: Seq<char>, f: Filters, i: int) -> bool {
    &&& spec_search_hit(ql, p.models@[i].0@, p.models@[i].1.name@, Some(p.id@))
    &&& spec_passes_filters(f, p.models@[i].1)
}

/// Matching models among the first `n` of provider `p`.
pub open spec fn match_count_upto(p: ProviderInfo, ql: Seq<char>, f: Filters, n: nat) -> nat
    decreases n,
{
    if n == 0 || n > p.models@.len() {
        0
    } else {
        match_count_upto(p, ql, f, (n - 1) as nat) + if offering_matches(p, ql, f, n - 1) { 1nat } else { 0nat }
    }
}

/// Number of the provider's models that match the search and filters.
pub open spec fn spec_match_count(p: ProviderInfo, ql: Seq<char>, f: Filters) -> nat {
    match_count_upto(p, ql, f, p.models@.len())
}

proof fn lemma_match_count_bound(p: ProviderInfo, ql: Seq<char>, f: Filters, n: nat)
    requires
        n <= p.models@.len(),
    ensures
        match_count_upto(p, ql, f, n) <= n,
    decreases n,
{
    if n > 0 {
        lemma_match_count_bound(p, ql, f, (n - 1) as nat);
    }
}

/// Count the provider's models that match the lowercase query `ql` and the
/// filters.
pub fn provider_match_count(p: &ProviderInfo, ql: &Vec<char>, f: Filters) -> (r: usize)
    ensures
        r == spec_match_count(*p, ql@, f),
{
    let mut count: usize = 0;
    let mut i: usize = 0;
    while i < p.models.len()
        invariant
            i <= p.models@.len(),
            count == match_count_upto(*p, ql@, f, i as nat),
        decreases p.models.len() - i,
    {
        proof {
            lemma_match_count_bound(*p, ql@, f, i as nat);
        }
        let m = &p.models[i];
        if search_hit(ql, m.0.as_str(), m.1.name.as_str(), Some(p.id.as_str())) && passes_filters(f, &m.1) {
            count = count + 1;
        }
        i = i + 1;
    }
    count
}

/// The provider's row count: its matching models while a search or filter is
/// active, else all its models.
pub open spec fn spec_item_count(p: ProviderInfo, query: Seq<char>, ql: Seq<char>, f: Filters) -> nat {
    if spec_has_active_filters(query, f) { spec_match_count(p, ql, f) } else { p.models@.len() }
}

/// The provider is listed: nothing is filtering, or some model matches.
pub open spec fn spec_listed(p: ProviderInfo, query: Seq<char>, ql: Seq<char>, f: Filters) -> bool {
    !spec_has_active_filters(query, f) || spec_match_count(p, ql, f) > 0
}

/// The provider passes the category filter.
pub open spec fn in_category(p: ProviderInfo, cat: ProviderCategory) -> bool {
    cat == ProviderCategory::All || p.category == cat
}

/// Ungrouped provider rows for the first `n` providers, in catalog order.
pub open spec fn flat_items_upto(ps: Seq<ProviderInfo>, query: Seq<char>, ql: Seq<char>, f: Filters, cat: ProviderCategory, n: nat) -> Seq<ProviderListItem>
    decreases n,
{
    if n == 0 || n > ps.len() {
        seq![]
    } else {
        let prev = flat_items_upto(ps, query, ql, f, cat, (n - 1) as nat);
        let p = ps[n - 1];
        if in_category(p, cat) && spec_listed(p, query, ql, f) {
            prev.push(ProviderListItem::Provider((n - 1) as usize, spec_item_count(p, query, ql, f) as usize))
        } else {
            prev
        }
    }
}

/// Indices (ascending) of the listed providers of category `cat` among the
/// first `n`.
pub open spec fn members_upto(ps: Seq<ProviderInfo>, query: Seq<char>, ql: Seq<char>, f: Filters, cat: ProviderCategory, n: nat) -> Seq<usize>
    decreases n,
{
    if n == 0 || n > ps.len() {
        seq![]
    } else {
        let prev = members_upto(ps, query, ql, f, cat, (n - 1) as nat);
        let p = ps[n - 1];
        if p.category == cat && spec_listed(p, query, ql, f) { prev.push((n - 1) as usize) } else { prev }
    }
}

/// Providers keyed by id, for sorting.
pub open spec fn provider_id_keys(ps: Seq<ProviderInfo>) -> Seq<SortValView> {
    Seq::new(ps.len(), |i: int| SortValView::Text(Some(ps[i].id@)))
}

/// The rows of one category section: its header, then its listed providers
/// ordered by id (none at all when no provider is listed).
pub open spec fn category_section(ps: Seq<ProviderInfo>, query: Seq<char>, ql: Seq<char>, f: Filters, cat: ProviderCategory) -> Seq<ProviderListItem> {
    let sorted = insertion_sorted(provider_id_keys(ps), false, members_upto(ps, query, ql, f, cat, ps.len()));
    if sorted.len() == 0 {
        seq![]
    } else {
        seq![ProviderListItem::CategoryHeader(cat)] + sorted.map_values(
            |i: usize| ProviderListItem::Provider(i, spec_item_count(ps[i as int], query, ql, f) as usize),
        )
    }
}

/// The categories of the grouped provider list, in display order.
pub open spec fn section_category(k: int) -> ProviderCategory {
    if k == 0 {
        ProviderCategory::Origin
    } else if k == 1 {
        ProviderCategory::Cloud
    } else if k == 2 {
        ProviderCategory::Inference
    } else if k == 3 {
        ProviderCategory::Gateway
    } else {
        ProviderCategory::Tool
    }
}

/// Grouped provider rows for the first `k` categories that pass the filter.
pub open spec fn grouped_items_upto(ps: Seq<ProviderInfo>, query: Seq<char>, ql: Seq<char>, f: Filters, cat: ProviderCategory, k: nat) -> Seq<ProviderListItem>
    decreases k,
{
    if k == 0 {
        seq![]
    } else {
        let prev = grouped_items_upto(ps, query, ql, f, cat, (k - 1) as nat);
        let c = section_category(k - 1);
        if cat == ProviderCategory::All || cat == c {
            prev + category_section(ps, query, ql, f, c)
        } else {
            prev
        }
    }
}

/// The provider list: "All" first, then either the providers of the
/// selected category in catalog order, or (grouped) a section per category
/// with providers ordered by id. While a search or filter is active,
/// providers without a matching model are left out and counts are match
/// counts.
pub open spec fn spec_provider_items(ps: Seq<ProviderInfo>, query: Seq<char>, ql: Seq<char>, f: Filters, cat: ProviderCategory, grouped: bool) -> Seq<ProviderListItem> {
    if grouped {
        seq![ProviderListItem::All] + grouped_items_upto(ps, query, ql, f, cat, 5)
    } else {
        seq![ProviderListItem::All] + flat_items_upto(ps, query, ql, f, cat, ps.len())
    }
}

/// The row count of each provider, or `None` when it is not listed.
fn provider_counts(ps: &Vec<ProviderInfo>, query: &Vec<char>, ql: &Vec<char>, f: Filters) -> (r: Vec<Option<usize>>)
    ensures
        r@.len() == ps@.len(),
        forall|i: int| 0 <= i < ps@.len() ==> #[trigger] r@[i] == if spec_listed(ps@[i], query@, ql@, f) {
            Some(spec_item_count(ps@[i], query@, ql@, f) as usize)
        } else {
            None
        },
{
    let filtering = query.len() > 0 || f.reasoning || f.tools || f.open_weights || f.free;
    let mut out: Vec<Option<usize>> = Vec::new();
    let mut i: usize = 0;
    while i < ps.len()
        invariant
            i <= ps@.len(),
            out@.len() == i,
            filtering == spec_has_active_filters(query@, f),
            forall|j: int| 0 <= j < i ==> #[trigger] out@[j] == if spec_listed(ps@[j], query@, ql@, f) {
                Some(spec_item_count(ps@[j], query@, ql@, f) as usize)
            } else {
                None
            },
        decreases ps.len() - i,
    {
        let p = &ps[i];
        if filtering {
            let c = provider_match_count(p, ql, f);
            if c == 0 {
                out.push(None);
            } else {
                out.push(Some(c));
            }
        } else {
            out.push(Some(p.models.len()));
        }
        i = i + 1;
    }
    out
}

fn provider_id_keys_exec(ps: &Vec<ProviderInfo>) -> (r: Vec<SortVal>)
    ensures
        key_views(r@) == provider_id_keys(ps@),
        r@.len() == ps@.len(),
{
    let mut out: Vec<SortVal> = Vec::new();
    let mut i: usize = 0;
    while i < ps.len()
        invariant
            i <= ps@.len(),
            out@.len() == i,
            forall|j: int| 0 <= j < i ==> #[trigger] val_view(out@[j]) == SortValView::Text(Some(ps@[j].id@)),
        decreases ps.len() - i,
    {
        out.push(SortVal::Text(Some(chars_of(ps[i].id.as_str()))));
        i = i + 1;
    }
    assert(key_views(out@) =~= provider_id_keys(ps@));
    out
}

/// The provider's row count (see [`spec_item_count`]).
fn item_count(p: &ProviderInfo, query: &Vec<char>, ql: &Vec<char>, f: Filters) -> (r: usize)
    ensures
        r == spec_item_count(*p, query@, ql@, f),
{
    if query.len() > 0 || f.reasoning || f.tools || f.open_weights || f.free {
        provider_match_count(p, ql, f)
    } else {
        p.models.len()
    }
}

fn section_category_exec(k: usize) -> (r: ProviderCategory)
    ensures
        r == section_category(k as int),
{
    if k == 0 {
        ProviderCategory::Origin
    } else if k == 1 {
        ProviderCategory::Cloud
    } else if k == 2 {
        ProviderCategory::Inference
    } else if k == 3 {
        ProviderCategory::Gateway
    } else {
        ProviderCategory::Tool
    }
}

/// Build the provider list (see [`spec_provider_items`]); `ql` is the
/// lowercase form of `query`.
pub fn provider_items(ps: &Vec<ProviderInfo>, query: &Vec<char>, ql: &Vec<char>, f: Filters, cat: ProviderCategory, grouped: bool) -> (r: Vec<ProviderListItem>)
    ensures
        r@ == spec_provider_items(ps@, query@, ql@, f, cat, grouped),
{
    let counts = provider_counts(ps, query, ql, f);
    let mut out: Vec<ProviderListItem> = Vec::new();
    out.push(ProviderListItem::All);
    if grouped {
        let keys = provider_id_keys_exec(ps);
        let mut k: usize = 0;
        assert(out@ =~= seq![ProviderListItem::All] + grouped_items_upto(ps@, query@, ql@, f, cat, 0));
        while k < 5
            invariant
                k <= 5,
                counts@.len() == ps@.len(),
                forall|i: int| 0 <= i < ps@.len() ==> #[trigger] counts@[i] == if spec_listed(ps@[i], query@, ql@, f) {
                    Some(spec_item_count(ps@[i], query@, ql@, f) as usize)
                } else {
                    None
                },
                key_views(keys@) == provider_id_keys(ps@),
                keys@.len() == ps@.len(),
                out@ == seq![ProviderListItem::All] + grouped_items_upto(ps@, query@, ql@, f, cat, k as nat),
            decreases 5 - k,
        {
            let c = section_category_exec(k);
            let ghost before = out@;
            if cat == ProviderCategory::All || cat == c {
                let mut members: Vec<usize> = Vec::new();
                let mut i: usize = 0;
                while i < ps.len()
                    invariant
                        i <= ps@.len(),
                        counts@.len() == ps@.len(),
                        forall|j: int| 0 <= j < ps@.len() ==> #[trigger] counts@[j] == if spec_listed(ps@[j], query@, ql@, f) {
                            Some(spec_item_count(ps@[j], query@, ql@, f) as usize)
                        } else {
                            None
                        },
                        members@ == members_upto(ps@, query@, ql@, f, c, i as nat),
                        all_below(members@, i as nat),
                    decreases ps.len() - i,
                {
                    if ps[i].category == c && counts[i].is_some() {
                        members.push(i);
                    }
                    i = i + 1;
                }
                let sorted = sort_by_keys(&members, &keys, false);
                let ghost sec = category_section(ps@, query@, ql@, f, c);
                if sorted.len() > 0 {
                    assert(sec.len() == sorted@.len() + 1 && sec[0] == ProviderListItem::CategoryHeader(c));
                    assert forall|t: int| 0 <= t < sorted@.len() implies #[trigger] sec[t + 1] == ProviderListItem::Provider(
                        sorted@[t],
                        spec_item_count(ps@[sorted@[t] as int], query@, ql@, f) as usize,
                    ) by {}
                    out.push(ProviderListItem::CategoryHeader(c));
                    assert(out@ =~= before + sec.take(1));
                    let mut j: usize = 0;
                    while j < sorted.len()
                        invariant
                            j <= sorted@.len(),
                            sorted@.len() > 0,
                            all_below(sorted@, ps@.len()),
                            sorted@ == insertion_sorted(provider_id_keys(ps@), false, members_upto(ps@, query@, ql@, f, c, ps@.len() as nat)),
                            counts@.len() == ps@.len(),
                            forall|i: int| 0 <= i < ps@.len() ==> #[trigger] counts@[i] == if spec_listed(ps@[i], query@, ql@, f) {
                                Some(spec_item_count(ps@[i], query@, ql@, f) as usize)
                            } else {
                                None
                            },
                            out@ == before + sec.take(j + 1),
                            sec.len() == sorted@.len() + 1,
                            forall|t: int| 0 <= t < sorted@.len() ==> #[trigger] sec[t + 1] == ProviderListItem::Provider(
                                sorted@[t],
                                spec_item_count(ps@[sorted@[t] as int], query@, ql@, f) as usize,
                            ),
                        decreases sorted.len() - j,
                    {
                        let pi = sorted[j];
                        let n = item_count(&ps[pi], query, ql, f);
                        out.push(ProviderListItem::Provider(pi, n));
                        assert(out@ =~= before + sec.take(j + 2));
                        j = j + 1;
                    }
                    assert(sec.take(j + 1) =~= sec);
                } else {
                    assert(sec =~= seq![]);
                }
                assert(out@ =~= seq![ProviderListItem::All] + grouped_items_upto(ps@, query@, ql@, f, cat, (k + 1) as nat));
            }
            k = k + 1;
        }
    } else {
        let mut i: usize = 0;
        assert(out@ =~= seq![ProviderListItem::All] + flat_items_upto(ps@, query@, ql@, f, cat, 0));
        while i < ps.len()
            invariant
                i <= ps@.len(),
                counts@.len() == ps@.len(),
                forall|j: int| 0 <= j < ps@.len() ==> #[trigger] counts@[j] == if spec_listed(ps@[j], query@, ql@, f) {
                    Some(spec_item_count(ps@[j], query@, ql@, f) as usize)
                } else {
                    None
                },
                out@ == seq![ProviderListItem::All] + flat_items_upto(ps@, query@, ql@, f, cat, i as nat),
            decreases ps.len() - i,
        {
            if cat == ProviderCategory::All || ps[i].category == cat {
                match counts[i] {
                    Some(n) => {
                        out.push(ProviderListItem::Provider(i, n));
                    },
                    None => {},
                }
            }
            assert(out@ =~= seq![ProviderListItem::All] + flat_items_upto(ps@, query@, ql@, f, cat, (i + 1) as nat));
            i = i + 1;
        }
    }
    out
}

/// A provider-list row is a category header.
pub open spec fn is_header(items: Seq<ProviderListItem>, i: int) -> bool {
    0 <= i < items.len() && items[i] is CategoryHeader
}

/// Walking up from `idx`: the first row that is not a header, or 0.
pub open spec fn select_backward(items: Seq<ProviderListItem>, idx: int) -> int
    decreases idx,
{
    if !is_header(items, idx) {
        idx
    } else if idx <= 0 {
        0
    } else {
        select_backward(items, idx - 1)
    }
}

/// Walking down from `idx`: the first row that is not a header; past the
/// last row, walk up from the row above `from` instead.
pub open spec fn select_forward(items: Seq<ProviderListItem>, from: int, idx: int) -> int
    decreases items.len() - idx,
{
    if !is_header(items, idx) {
        idx
    } else if idx >= items.len() - 1 {
        select_backward(items, if from > 0 { from - 1 } else { 0 })
    } else {
        select_forward(items, from, idx + 1)
    }
}

/// The nearest selectable row from `from`, searching down (`forward`) or up.
pub open spec fn spec_find_selectable(items: Seq<ProviderListItem>, from: usize, forward: bool) -> int {
    if items.len() == 0 {
        0
    } else if forward {
        select_forward(items, from as int, from as int)
    } else {
        select_backward(items, from as int)
    }
}

fn select_backward_exec(items: &Vec<ProviderListItem>, from: usize) -> (r: usize)
    ensures
        r == select_backward(items@, from as int),
{
    let mut idx = from;
    loop
        invariant
            idx <= from,
            select_backward(items@, from as int) == select_backward(items@, idx as int),
        decreases idx,
    {
        if idx >= items.len() {
            return idx;
        }
        match items[idx] {
            ProviderListItem::CategoryHeader(_) => {},
            _ => {
                return idx;
            },
        }
        if idx == 0 {
            return 0;
        }
        idx = idx - 1;
    }
}

/// Skip category headers: the nearest selectable provider-list row from
/// `from`, searching down (`forward`) or up.
pub fn find_selectable_index(items: &Vec<ProviderListItem>, from: usize, forward: bool) -> (r: usize)
    ensures
        r == spec_find_selectable(items@, from, forward),
{
    let len = items.len();
    if len == 0 {
        return 0;
    }
    if !forward {
        return select_backward_exec(items, from);
    }
    let mut idx = from;
    loop
        invariant
            len == items@.len(),
            len > 0,
            forward,
            select_forward(items@, from as int, from as int) == select_forward(items@, from as int, idx as int),
        decreases len - idx,
    {
        if idx >= len {
            return idx;
        }
        match items[idx] {
            ProviderListItem::CategoryHeader(_) => {},
            _ => {
                return idx;
            },
        }
        if idx >= len - 1 {
            let back = if from > 0 { from - 1 } else { 0 };
            return select_backward_exec(items, back);
        }
        idx = idx + 1;
    }
}

proof fn lemma_select_backward(items: Seq<ProviderListItem>, idx: int)
    requires
        items.len() > 0,
        !is_header(items, 0),
    ensures
        !is_header(items, select_backward(items, idx)),
    decreases idx,
{
    if is_header(items, idx) && idx > 0 {
        lemma_select_backward(items, idx - 1);
    }
}

proof fn lemma_select_forward(items: Seq<ProviderListItem>, from: int, idx: int)
    requires
        items.len() > 0,
        !is_header(items, 0),
    ensures
        !is_header(items, select_forward(items, from, idx)),
    decreases items.len() - idx,
{
    if is_header(items, idx) {
        if idx >= items.len() - 1 {
            lemma_select_backward(items, if from > 0 { from - 1 } else { 0 });
        } else {
            lemma_select_forward(items, from, idx + 1);
        }
    }
}

/// With a selectable first row (the provider list always starts with
/// "All"), skipping headers never lands on a header.
pub proof fn lemma_find_selectable_skips_headers(items: Seq<ProviderListItem>, from: usize, forward: bool)
    requires
        items.len() > 0,
        !is_header(items, 0),
    ensures
        !is_header(items, spec_find_selectable(items, from, forward)),
{
    if forward {
        lemma_select_forward(items, from as int, from as int);
    } else {
        lemma_select_backward(items, from as int);
    }
}

/// The provider list always begins with the "All" row.
pub proof fn lemma_provider_items_start_with_all(ps: Seq<ProviderInfo>, query: Seq<char>, ql: Seq<char>, f: Filters, cat: ProviderCategory, grouped: bool)
    ensures
        spec_provider_items(ps, query, ql, f, cat, grouped).len() > 0,
        spec_provider_items(ps, query, ql, f, cat, grouped)[0] == ProviderListItem::All,
{
}

/// The row is the one for provider `pi`.
pub open spec fn is_row_of(item: ProviderListItem, pi: usize) -> bool {
    match item {
        ProviderListItem::Provider(i, _) => i == pi,
        _ => false,
    }
}

/// Position, from `k` on, of the row for provider `pi`.
pub open spec fn position_from(items: Seq<ProviderListItem>, pi: usize, k: int) -> Option<usize>
    decreases items.len() - k,
{
    if k < 0 || k >= items.len() {
        None
    } else if is_row_of(items[k], pi) {
        Some(k as usize)
    } else {
        position_from(items, pi, k + 1)
    }
}

/// Position of the row for provider `pi`, if listed.
pub fn provider_position(items: &Vec<ProviderListItem>, pi: usize) -> (r: Option<usize>)
    ensures
        r == position_from(items@, pi, 0),
{
    let mut k: usize = 0;
    while k < items.len()
        invariant
            k <= items@.len(),
            position_from(items@, pi, 0) == position_from(items@, pi, k as int),
        decreases items.len() - k,
    {
        match items[k] {
            ProviderListItem::Provider(i, _) => {
                if i == pi {
                    return Some(k);
                }
            },
            _ => {},
        }
        k = k + 1;
    }
    None
}

pub proof fn lemma_position_from(items: Seq<ProviderListItem>, pi: usize, k: int)
    requires
        0 <= k,
        items.len() <= usize::MAX,
    ensures
        position_from(items, pi, k) matches Some(p) ==> k <= p < items.len() && is_row_of(items[p as int], pi),
    decreases items.len() - k,
{
    if k < items.len() && !is_row_of(items[k], pi) {
        lemma_position_from(items, pi, k + 1);
    }
}

/// Ghost form of [`ModelInfo`].
pub ghost struct ModelView {
    pub name: Seq<char>,
    pub reasoning: bool,
    pub tool_call: bool,
    pub attachment: bool,
    pub open_weights: bool,
    pub free: bool,
    pub input_cost: Option<i64>,
    pub output_cost: Option<i64>,
    pub context: Option<u64>,
    pub release_date: Option<Seq<char>>,
}

pub open spec fn opt_str(o: Option<String>) -> Option<Seq<char>> {
    match o {
        Some(s) => Some(s@),
        None => None,
    }
}

pub open spec fn model_view(m: ModelInfo) -> ModelView {
    ModelView {
        name: m.name@,
        reasoning: m.reasoning,
        tool_call: m.tool_call,
        attachment: m.attachment,
        open_weights: m.open_weights,
        free: m.free,
        input_cost: m.input_cost,
        output_cost: m.output_cost,
        context: m.context,
        release_date: opt_str(m.release_date),
    }
}

/// One row of the flat model list: a provider's offering of a model.
#[derive(Debug, Clone, PartialEq, Eq)]
pub struct ModelEntry {
    pub id: String,
    pub model: ModelInfo,
    pub provider_id: String,
    /// Projected from the identity snapshot once filters are applied.
    pub identity: Option<ModelIdentityProvenance>,
}

/// Ghost form of [`ModelEntry`].
pub ghost struct EntryView {
    pub id: Seq<char>,
    pub model: ModelView,
    pub provider_id: Seq<char>,
    pub identity: Option<ModelIdentityProvenance>,
}

pub open spec fn entry_view(e: ModelEntry) -> EntryView {
    EntryView { id: e.id@, model: model_view(e.model), provider_id: e.provider_id@, identity: e.identity }
}

pub open spec fn entries_view(es: Seq<ModelEntry>) -> Seq<EntryView> {
    es.map_values(|e: ModelEntry| entry_view(e))
}

fn copy_string(s: &String) -> (r: String)
    ensures
        r@ == s@,
{
    crate::text::owned(s.as_str())
}

fn copy_opt_string(o: &Option<String>) -> (r: Option<String>)
    ensures
        opt_str(r) == opt_str(*o),
{
    match o {
        Some(s) => Some(copy_string(s)),
        None => None,
    }
}

fn copy_model(m: &ModelInfo) -> (r: ModelInfo)
    ensures
        model_view(r) == model_view(*m),
{
    ModelInfo {
        name: copy_string(&m.name),
        reasoning: m.reasoning,
        tool_call: m.tool_call,
        attachment: m.attachment,
        open_weights: m.open_weights,
        free: m.free,
        input_cost: m.input_cost,
        output_cost: m.output_cost,
        context: m.context,
        release_date: copy_opt_string(&m.release_date),
    }
}

pub(crate) fn copy_entry(e: &ModelEntry) -> (r: ModelEntry)
    ensures
        entry_view(r) == entry_view(*e),
{
    ModelEntry {
        id: copy_string(&e.id),
        model: copy_model(&e.model),
        provider_id: copy_string(&e.provider_id),
        identity: e.identity,
    }
}

/// Model `j` of provider `p` as a list entry (identity not yet projected).
pub open spec fn offering_view(p: ProviderInfo, j: int) -> EntryView {
    EntryView { id: p.models@[j].0@, model: model_view(p.models@[j].1), provider_id: p.id@, identity: None }
}

/// The offerings among the first `n` models of `p` that match the search
/// (over model id and name, and provider id when `with_provider`) and the
/// filters.
pub open spec fn offerings_upto(p: ProviderInfo, ql: Seq<char>, f: Filters, with_provider: bool, n: nat) -> Seq<EntryView>
    decreases n,
{
    if n == 0 || n > p.models@.len() {
        seq![]
    } else {
        let prev = offerings_upto(p, ql, f, with_provider, (n - 1) as nat);
        let m = p.models@[n - 1];
        let hit = spec_search_hit(ql, m.0@, m.1.name@, if with_provider { Some(p.id@) } else { None });
        if hit && spec_passes_filters(f, m.1) { prev.push(offering_view(p, n - 1)) } else { prev }
    }
}

/// The matching offerings of the first `k` providers of category `cat`,
/// provider by provider.
pub open spec fn all_offerings_upto(ps: Seq<ProviderInfo>, ql: Seq<char>, f: Filters, cat: ProviderCategory, k: nat) -> Seq<EntryView>
    decreases k,
{
    if k == 0 || k > ps.len() {
        seq![]
    } else {
        let prev = all_offerings_upto(ps, ql, f, cat, (k - 1) as nat);
        let p = ps[k - 1];
        if in_category(p, cat) { prev + offerings_upto(p, ql, f, true, p.models@.len()) } else { prev }
    }
}

/// An offering that passes the filters and is hit by the search (with the
/// provider id searched when `with_provider`) is among the matching
/// offerings of its provider.
proof fn lemma_offering_listed(p: ProviderInfo, ql: Seq<char>, f: Filters, with_provider: bool, j: int, n: nat)
    requires
        0 <= j < n <= p.models@.len(),
        spec_search_hit(ql, p.models@[j].0@, p.models@[j].1.name@, if with_provider { Some(p.id@) } else { None }),
        spec_passes_filters(f, p.models@[j].1),
    ensures
        offerings_upto(p, ql, f, with_provider, n).contains(offering_view(p, j)),
    decreases n,
{
    let prev = offerings_upto(p, ql, f, with_provider, (n - 1) as nat);
    let cur = offerings_upto(p, ql, f, with_provider, n);
    let v = offering_view(p, j);
    if j == n - 1 {
        assert(cur == prev.push(v));
        assert(cur[prev.len() as int] == v);
    } else {
        lemma_offering_listed(p, ql, f, with_provider, j, (n - 1) as nat);
        let t = choose|t: int| 0 <= t < prev.len() && prev[t] == v;
        assert(cur[t] == v);
    }
}

/// The matching offerings of the first `k` providers keep those of each
/// provider in category among them.
proof fn lemma_all_offerings_keep(ps: Seq<ProviderInfo>, ql: Seq<char>, f: Filters, cat: ProviderCategory, i: int, k: nat, v: EntryView)
    requires
        0 <= i < k <= ps.len(),
        in_category(ps[i], cat),
        offerings_upto(ps[i], ql, f, true, ps[i].models@.len()).contains(v),
    ensures
        all_offerings_upto(ps, ql, f, cat, k).contains(v),
    decreases k,
{
    let prev = all_offerings_upto(ps, ql, f, cat, (k - 1) as nat);
    let cur = all_offerings_upto(ps, ql, f, cat, k);
    if i == k - 1 {
        let own = offerings_upto(ps[i], ql, f, true, ps[i].models@.len());
        assert(cur == prev + own);
        let t = choose|t: int| 0 <= t < own.len() && own[t] == v;
        assert(cur[prev.len() + t] == v);
    } else {
        lemma_all_offerings_keep(ps, ql, f, cat, i, (k - 1) as nat, v);
        let t = choose|t: int| 0 <= t < prev.len() && prev[t] == v;
        assert(cur[t] == v);
    }
}

/// Under "All" (not drilled into an identity), the search also matches the
/// provider id: every offering of a provider in the category filter whose
/// id contains the lowercase query, and that passes the capability filters,
/// is in scope, whatever its model id and name.
pub proof fn lemma_search_matches_provider_id(app: ModelsApp, ps: Seq<ProviderInfo>, k: int, j: int)
    requires
        app.spec_is_all_selected(),
        app.drill_key is None,
        0 <= k < ps.len(),
        in_category(ps[k], app.provider_category_filter),
        0 <= j < ps[k].models@.len(),
        spec_passes_filters(app.filters, ps[k].models@[j].1),
        contains_seq(lowercase(ps[k].id@), lowercase(app.search_query@)),
    ensures
        app.spec_scope_entries(ps).contains(offering_view(ps[k], j)),
{
    let ql = lowercase(app.search_query@);
    let p = ps[k];
    lemma_offering_listed(p, ql, app.filters, true, j, p.models@.len());
    lemma_all_offerings_keep(ps, ql, app.filters, app.provider_category_filter, k, ps.len(), offering_view(p, j));
}

/// The search matches the model id and the model name in every scope, and an
/// empty query matches every offering: an offering that passes the
/// capability filters and whose model id or name contains the lowercase
/// query is in scope under "All" (not drilled into an identity) when its
/// provider is in the category filter, and when its provider is the
/// selected one.
pub proof fn lemma_search_matches_model(app: ModelsApp, ps: Seq<ProviderInfo>, k: int, j: int)
    requires
        0 <= k < ps.len(),
        0 <= j < ps[k].models@.len(),
        spec_passes_filters(app.filters, ps[k].models@[j].1),
        ({
            let ql = lowercase(app.search_query@);
            ||| ql.len() == 0
            ||| contains_seq(lowercase(ps[k].models@[j].0@), ql)
            ||| contains_seq(lowercase(ps[k].models@[j].1.name@), ql)
        }),
        (app.spec_is_all_selected() && app.drill_key is None && in_category(ps[k], app.provider_category_filter))
            || app.spec_selected_provider(ps) == Some(k),
    ensures
        app.spec_scope_entries(ps).contains(offering_view(ps[k], j)),
{
    let ql = lowercase(app.search_query@);
    let p = ps[k];
    if app.spec_is_all_selected() {
        lemma_offering_listed(p, ql, app.filters, true, j, p.models@.len());
        lemma_all_offerings_keep(ps, ql, app.filters, app.provider_category_filter, k, ps.len(), offering_view(p, j));
    } else {
        lemma_offering_listed(p, ql, app.filters, false, j, p.models@.len());
    }
}

fn offering_entry(p: &ProviderInfo, j: usize) -> (r: ModelEntry)
    requires
        j < p.models@.len(),
    ensures
        entry_view(r) == offering_view(*p, j as int),
{
    ModelEntry {
        id: copy_string(&p.models[j].0),
        model: copy_model(&p.models[j].1),
        provider_id: copy_string(&p.id),
        identity: None,
    }
}

/// Append the matching offerings of `p` to `out`.
fn push_offerings(out: &mut Vec<ModelEntry>, p: &ProviderInfo, ql: &Vec<char>, f: Filters, with_provider: bool)
    ensures
        entries_view(final(out)@) == entries_view(old(out)@) + offerings_upto(*p, ql@, f, with_provider, p.models@.len()),
{
    let ghost start = entries_view(out@);
    let mut j: usize = 0;
    assert(entries_view(out@) =~= start + offerings_upto(*p, ql@, f, with_provider, 0));
    while j < p.models.len()
        invariant
            j <= p.models@.len(),
            entries_view(out@) == start + offerings_upto(*p, ql@, f, with_provider, j as nat),
        decreases p.models.len() - j,
    {
        let m = &p.models[j];
        let pid = if with_provider { Some(p.id.as_str()) } else { None };
        let hit = search_hit(ql, m.0.as_str(), m.1.name.as_str(), pid);
        if hit && passes_filters(f, &m.1) {
            let e = offering_entry(p, j);
            let ghost before = out@;
            out.push(e);
            assert(out@ =~= before.push(e));
            assert(entries_view(out@) =~= entries_view(before).push(entry_view(e)));
        }
        j = j + 1;
        assert(entries_view(out@) =~= start + offerings_upto(*p, ql@, f, with_provider, j as nat));
    }
}

/// Offering order key of a context window: order-preserving into `i64`.
pub open spec fn ctx_key(c: Option<u64>) -> Option<i64> {
    match c {
        Some(v) => Some((v - 0x8000_0000_0000_0000int) as i64),
        None => None,
    }
}

pub(crate) fn ctx_order_key(v: u64) -> (k: i64)
    ensures
        k == v - 0x8000_0000_0000_0000int,
{
    if v >= 0x8000_0000_0000_0000u64 {
        (v - 0x8000_0000_0000_0000u64) as i64
    } else {
        (v as i64) - 0x7fff_ffff_ffff_ffffi64 - 1
    }
}

/// The entry has the value `order` sorts by (always, for the default order).
pub open spec fn has_sort_key(e: EntryView, order: SortOrder) -> bool {
    match order {
        SortOrder::Default => true,
        SortOrder::ReleaseDate => e.model.release_date is Some,
        SortOrder::Cost => e.model.input_cost is Some,
        SortOrder::Context => e.model.context is Some,
    }
}

/// Entries keyed by model id.
pub open spec fn id_keys(es: Seq<EntryView>) -> Seq<SortValView> {
    Seq::new(es.len(), |i: int| SortValView::Text(Some(es[i].id)))
}

/// Entries keyed by the value `order` sorts by (provider id for the
/// default order).
pub open spec fn order_keys(es: Seq<EntryView>, order: SortOrder) -> Seq<SortValView> {
    Seq::new(es.len(), |i: int| match order {
        SortOrder::Default => SortValView::Text(Some(es[i].provider_id)),
        SortOrder::ReleaseDate => SortValView::Text(es[i].model.release_date),
        SortOrder::Cost => SortValView::Num(es[i].model.input_cost),
        SortOrder::Context => SortValView::Num(ctx_key(es[i].model.context)),
    })
}

/// Positions (ascending) among the first `n` entries that have (`present`)
/// or lack the sort value.
pub open spec fn keyed_upto(es: Seq<EntryView>, order: SortOrder, present: bool, n: nat) -> Seq<usize>
    decreases n,
{
    if n == 0 || n > es.len() {
        seq![]
    } else {
        let prev = keyed_upto(es, order, present, (n - 1) as nat);
        if has_sort_key(es[n - 1], order) == present { prev.push((n - 1) as usize) } else { prev }
    }
}

/// All positions of `es`, in order.
pub open spec fn all_positions(es: Seq<EntryView>) -> Seq<usize> {
    Seq::new(es.len(), |i: int| i as usize)
}

/// The order of the model list. Default: by provider id, then model id.
/// Release date: undated models first (by id), then dated ones by date,
/// newest first unless ascending. Cost: priced models by input price,
/// cheapest first unless ascending, then unpriced ones (by id). Context:
/// models without a window first (by id), then by window, largest first
/// unless ascending. Ties keep their list order.
pub open spec fn spec_entry_order(es: Seq<EntryView>, order: SortOrder, asc: bool) -> Seq<usize> {
    let ids = id_keys(es);
    let keys = order_keys(es, order);
    let with = keyed_upto(es, order, true, es.len());
    let without = keyed_upto(es, order, false, es.len());
    match order {
        SortOrder::Default => insertion_sorted(keys, false, insertion_sorted(ids, false, all_positions(es))),
        SortOrder::ReleaseDate => insertion_sorted(ids, false, without) + insertion_sorted(keys, !asc, with),
        SortOrder::Cost => insertion_sorted(keys, asc, with) + insertion_sorted(ids, false, without),
        SortOrder::Context => insertion_sorted(ids, false, without) + insertion_sorted(keys, !asc, with),
    }
}

/// The entries in list order (see [`spec_entry_order`]).
pub open spec fn spec_sorted_entries(es: Seq<EntryView>, order: SortOrder, asc: bool) -> Seq<EntryView> {
    spec_entry_order(es, order, asc).map_values(|i: usize| es[i as int])
}

fn id_keys_exec(es: &Vec<ModelEntry>) -> (r: Vec<SortVal>)
    ensures
        key_views(r@) == id_keys(entries_view(es@)),
        r@.len() == es@.len(),
{
    let mut out: Vec<SortVal> = Vec::new();
    let mut i: usize = 0;
    while i < es.len()
        invariant
            i <= es@.len(),
            out@.len() == i,
            forall|j: int| 0 <= j < i ==> #[trigger] val_view(out@[j]) == SortValView::Text(Some(es@[j].id@)),
        decreases es.len() - i,
    {
        out.push(SortVal::Text(Some(chars_of(es[i].id.as_str()))));
        i = i + 1;
    }
    assert(key_views(out@) =~= id_keys(entries_view(es@)));
    out
}

fn opt_chars(o: &Option<String>) -> (r: Option<Vec<char>>)
    ensures
        match r {
            Some(v) => opt_str(*o) == Some(v@),
            None => opt_str(*o) is None,
        },
{
    match o {
        Some(s) => Some(chars_of(s.as_str())),
        None => None,
    }
}

fn order_key(e: &ModelEntry, order: SortOrder) -> (r: SortVal)
    ensures
        val_view(r) == match order {
            SortOrder::Default => SortValView::Text(Some(e.provider_id@)),
            SortOrder::ReleaseDate => SortValView::Text(opt_str(e.model.release_date)),
            SortOrder::Cost => SortValView::Num(e.model.input_cost),
            SortOrder::Context => SortValView::Num(ctx_key(e.model.context)),
        },
{
    match order {
        SortOrder::Default => SortVal::Text(Some(chars_of(e.provider_id.as_str()))),
        SortOrder::ReleaseDate => SortVal::Text(opt_chars(&e.model.release_date)),
        SortOrder::Cost => SortVal::Num(e.model.input_cost),
        SortOrder::Context => SortVal::Num(
            match e.model.context {
                Some(v) => Some(ctx_order_key(v)),
                None => None,
            },
        ),
    }
}

fn order_keys_exec(es: &Vec<ModelEntry>, order: SortOrder) -> (r: Vec<SortVal>)
    ensures
        key_views(r@) == order_keys(entries_view(es@), order),
        r@.len() == es@.len(),
{
    let mut out: Vec<SortVal> = Vec::new();
    let mut i: usize = 0;
    while i < es.len()
        invariant
            i <= es@.len(),
            out@.len() == i,
            forall|j: int| 0 <= j < i ==> #[trigger] val_view(out@[j]) == order_keys(entries_view(es@), order)[j],
        decreases es.len() - i,
    {
        out.push(order_key(&es[i], order));
        i = i + 1;
    }
    assert(key_views(out@) =~= order_keys(entries_view(es@), order));
    out
}

fn has_key_exec(e: &ModelEntry, order: SortOrder) -> (r: bool)
    ensures
        r == has_sort_key(entry_view(*e), order),
{
    match order {
        SortOrder::Default => true,
        SortOrder::ReleaseDate => e.model.release_date.is_some(),
        SortOrder::Cost => e.model.input_cost.is_some(),
        SortOrder::Context => e.model.context.is_some(),
    }
}

fn keyed_positions(es: &Vec<ModelEntry>, order: SortOrder, present: bool) -> (r: Vec<usize>)
    ensures
        r@ == keyed_upto(entries_view(es@), order, present, es@.len() as nat),
        all_below(r@, es@.len() as nat),
{
    let mut out: Vec<usize> = Vec::new();
    let mut i: usize = 0;
    while i < es.len()
        invariant
            i <= es@.len(),
            out@ == keyed_upto(entries_view(es@), order, present, i as nat),
            all_below(out@, i as nat),
        decreases es.len() - i,
    {
        if has_key_exec(&es[i], order) == present {
            out.push(i);
        }
        i = i + 1;
    }
    out
}

fn concat_positions(a: Vec<usize>, b: Vec<usize>) -> (r: Vec<usize>)
    ensures
        r@ == a@ + b@,
{
    let mut a = a;
    let mut b = b;
    a.append(&mut b);
    a
}

/// The list order of `es` (see [`spec_entry_order`]).
fn entry_order(es: &Vec<ModelEntry>, order: SortOrder, asc: bool) -> (r: Vec<usize>)
    ensures
        r@ == spec_entry_order(entries_view(es@), order, asc),
        all_below(r@, es@.len() as nat),
{
    let ids = id_keys_exec(es);
    let keys = order_keys_exec(es, order);
    match order {
        SortOrder::Default => {
            let mut all: Vec<usize> = Vec::new();
            let mut i: usize = 0;
            while i < es.len()
                invariant
                    i <= es@.len(),
                    all@ == all_positions(entries_view(es@)).take(i as int),
                decreases es.len() - i,
            {
                all.push(i);
                i = i + 1;
                assert(all@ =~= all_positions(entries_view(es@)).take(i as int));
            }
            assert(all@ =~= all_positions(entries_view(es@)));
            let by_id = sort_by_keys(&all, &ids, false);
            sort_by_keys(&by_id, &keys, false)
        },
        SortOrder::Cost => {
            let with = keyed_positions(es, order, true);
            let without = keyed_positions(es, order, false);
            let a = sort_by_keys(&with, &keys, asc);
            let b = sort_by_keys(&without, &ids, false);
            concat_positions(a, b)
        },
        _ => {
            let with = keyed_positions(es, order, true);
            let without = keyed_positions(es, order, false);
            let a = sort_by_keys(&without, &ids, false);
            let b = sort_by_keys(&with, &keys, !asc);
            concat_positions(a, b)
        },
    }
}

/// Sort the model list (see [`spec_entry_order`]).
pub fn sort_entries(es: &Vec<ModelEntry>, order: SortOrder, asc: bool) -> (r: Vec<ModelEntry>)
    ensures
        entries_view(r@) == spec_sorted_entries(entries_view(es@), order, asc),
        forall|t: int| 0 <= t < r@.len() ==> exists|j: int| 0 <= j < es@.len() && #[trigger] entry_view(r@[t]) == entry_view(es@[j]),
{
    let ord = entry_order(es, order, asc);
    let mut out: Vec<ModelEntry> = Vec::new();
    let mut k: usize = 0;
    while k < ord.len()
        invariant
            k <= ord@.len(),
            all_below(ord@, es@.len() as nat),
            ord@ == spec_entry_order(entries_view(es@), order, asc),
            out@.len() == k,
            forall|t: int| 0 <= t < k ==> #[trigger] entry_view(out@[t]) == entry_view(es@[ord@[t] as int]),
        decreases ord.len() - k,
    {
        out.push(copy_entry(&es[ord[k]]));
        k = k + 1;
    }
    assert(entries_view(out@) =~= spec_sorted_entries(entries_view(es@), order, asc));
    assert forall|t: int| 0 <= t < out@.len() implies exists|j: int| 0 <= j < es@.len() && #[trigger] entry_view(out@[t]) == entry_view(es@[j]) by {
        let j = ord@[t] as int;
        assert(0 <= j < es@.len() && entry_view(out@[t]) == entry_view(es@[j]));
    }
    out
}

/// Every offering of every provider has an identity in the snapshot.
pub open spec fn snapshot_covers(snap: Seq<ResolvedIdentity>, ps: Seq<ProviderInfo>) -> bool {
    forall|i: int, j: int|
        0 <= i < ps.len() && 0 <= j < ps[i].models@.len() ==> #[trigger] snapshot_pos_from(
            snap,
            ps[i].id@,
            ps[i].models@[j].0@,
            0,
        ) is Some
}

proof fn lemma_covered_push(snap: Seq<ResolvedIdentity>, es: Seq<EntryView>, x: EntryView)
    requires
        covered(snap, es),
        snapshot_pos(snap, x) is Some,
    ensures
        covered(snap, es.push(x)),
{
    assert forall|i: int| 0 <= i < es.push(x).len() implies #[trigger] snapshot_pos(snap, es.push(x)[i]) is Some by {
        if i < es.len() {
            assert(es.push(x)[i] == es[i]);
        }
    }
}

proof fn lemma_covered_concat(snap: Seq<ResolvedIdentity>, a: Seq<EntryView>, b: Seq<EntryView>)
    requires
        covered(snap, a),
        covered(snap, b),
    ensures
        covered(snap, a + b),
{
    assert forall|i: int| 0 <= i < (a + b).len() implies #[trigger] snapshot_pos(snap, (a + b)[i]) is Some by {
        if i < a.len() {
            assert((a + b)[i] == a[i]);
        } else {
            assert((a + b)[i] == b[i - a.len()]);
        }
    }
}

proof fn lemma_offerings_covered(snap: Seq<ResolvedIdentity>, ps: Seq<ProviderInfo>, pi: int, ql: Seq<char>, f: Filters, wp: bool, n: nat)
    requires
        snapshot_covers(snap, ps),
        0 <= pi < ps.len(),
    ensures
        covered(snap, offerings_upto(ps[pi], ql, f, wp, n)),
    decreases n,
{
    if n > 0 && n <= ps[pi].models@.len() {
        lemma_offerings_covered(snap, ps, pi, ql, f, wp, (n - 1) as nat);
        let x = offering_view(ps[pi], n - 1);
        assert(snapshot_pos_from(snap, ps[pi].id@, ps[pi].models@[n - 1].0@, 0) is Some);
        let prev = offerings_upto(ps[pi], ql, f, wp, (n - 1) as nat);
        lemma_covered_push(snap, prev, x);
    }
}

proof fn lemma_all_offerings_covered(snap: Seq<ResolvedIdentity>, ps: Seq<ProviderInfo>, ql: Seq<char>, f: Filters, cat: ProviderCategory, k: nat)
    requires
        snapshot_covers(snap, ps),
    ensures
        covered(snap, all_offerings_upto(ps, ql, f, cat, k)),
    decreases k,
{
    if k > 0 && k <= ps.len() {
        lemma_all_offerings_covered(snap, ps, ql, f, cat, (k - 1) as nat);
        let p = ps[k - 1];
        if in_category(p, cat) {
            lemma_offerings_covered(snap, ps, k - 1, ql, f, true, p.models@.len());
            lemma_covered_concat(snap, all_offerings_upto(ps, ql, f, cat, (k - 1) as nat), offerings_upto(p, ql, f, true, p.models@.len()));
        }
    }
}

proof fn lemma_drill_covered(snap: Seq<ResolvedIdentity>, es: Seq<EntryView>, key: Seq<char>, n: nat)
    ensures
        covered(snap, drill_kept(snap, es, key, n)),
    decreases n,
{
    if n > 0 && n <= es.len() {
        lemma_drill_covered(snap, es, key, (n - 1) as nat);
        let prev = drill_kept(snap, es, key, (n - 1) as nat);
        let e = es[n - 1];
        if snapshot_pos(snap, e) is Some && crate::models::grouping::identity_of(snap, e).key == key {
            lemma_covered_push(snap, prev, e);
        }
    }
}

/// Models tab state.
pub struct ModelsApp {
    /// Position of the selected row in `provider_list_items` (0 is "All").
    pub selected_provider: usize,
    pub selected_model: usize,
    pub focus: Focus,
    pub sort_order: SortOrder,
    pub sort_ascending: bool,
    pub filters: Filters,
    pub search_query: String,
    pub provider_category_filter: ProviderCategory,
    pub group_by_category: bool,
    pub provider_list_items: Vec<ProviderListItem>,
    pub filtered_models: Vec<ModelEntry>,
    /// Identity of every offering of the catalog, resolved once over the
    /// complete catalog.
    pub identity_snapshot: Vec<ResolvedIdentity>,
    pub detail_scroll: ScrollOffset,
    /// Glossary popup explaining the capability and pricing fields.
    pub show_glossary: bool,
    pub glossary_scroll: ScrollOffset,
    /// Flat per-offering list instead of the grouped view under "All".
    pub flat_view: bool,
    /// Identity key of the group drilled into, and its name.
    pub drill_key: Option<String>,
    pub drill_name: Option<String>,
    /// Grouped view rows, rebuilt with `filtered_models` while "All" is
    /// selected and no drill applies.
    pub groups: Vec<ModelGroup>,
    pub selected_group: usize,
    /// Provider picker popup: search-first provider filter.
    pub show_provider_picker: bool,
    pub picker_query: String,
    pub picker_selected: usize,
}

impl ModelsApp {
    /// The "All" row is selected.
    pub open spec fn spec_is_all_selected(self) -> bool {
        self.selected_provider < self.provider_list_items@.len()
            && self.provider_list_items@[self.selected_provider as int] == ProviderListItem::All
    }

    /// Index (into the providers) of the selected provider row, if any.
    pub open spec fn spec_selected_provider(self, ps: Seq<ProviderInfo>) -> Option<int> {
        if self.selected_provider < self.provider_list_items@.len() {
            match self.provider_list_items@[self.selected_provider as int] {
                ProviderListItem::Provider(idx, _) => if idx < ps.len() { Some(idx as int) } else { None },
                _ => None,
            }
        } else {
            None
        }
    }

    /// The provider list for the current search, filters and category view.
    pub open spec fn spec_items_for(self, ps: Seq<ProviderInfo>) -> Seq<ProviderListItem> {
        spec_provider_items(ps, self.search_query@, lowercase(self.search_query@), self.filters,
            self.provider_category_filter, self.group_by_category)
    }

    /// The offerings in scope, before sorting: under "All", every matching
    /// offering of the category-filtered providers (only the drilled-into
    /// identity's while drilling); otherwise the selected provider's matching
    /// offerings (search over model id and name only).
    pub open spec fn spec_scope_entries(self, ps: Seq<ProviderInfo>) -> Seq<EntryView> {
        let ql = lowercase(self.search_query@);
        if self.spec_is_all_selected() {
            let all = all_offerings_upto(ps, ql, self.filters, self.provider_category_filter, ps.len());
            match self.drill_key {
                Some(d) => drill_kept(self.identity_snapshot@, all, d@, all.len()),
                None => all,
            }
        } else {
            match self.spec_selected_provider(ps) {
                Some(pi) => offerings_upto(ps[pi], ql, self.filters, false, ps[pi].models@.len()),
                None => seq![],
            }
        }
    }

    /// The model list: the offerings in scope, sorted, with their snapshot
    /// provenance.
    pub open spec fn spec_list_entries(self, ps: Seq<ProviderInfo>) -> Seq<EntryView> {
        with_identity(
            self.identity_snapshot@,
            spec_sorted_entries(self.spec_scope_entries(ps), self.sort_order, self.sort_ascending),
        )
    }

    /// The grouped rows for the model list `es`.
    pub open spec fn spec_group_rows(self, es: Seq<EntryView>) -> Seq<GroupView> {
        spec_sorted_groups(groups_upto(self.identity_snapshot@, es, es.len()), self.sort_order, self.sort_ascending)
    }

    /// Which list the center panel shows.
    pub open spec fn spec_list_mode(self) -> ListMode {
        if !self.spec_is_all_selected() {
            ListMode::Flat
        } else if self.drill_key is Some {
            ListMode::Offerings
        } else if self.flat_view {
            ListMode::Flat
        } else {
            ListMode::Grouped
        }
    }

    /// Row count of the list the center panel shows.
    pub open spec fn spec_nav_len(self) -> nat {
        if self.spec_list_mode() == ListMode::Grouped { self.groups@.len() } else { self.filtered_models@.len() }
    }

    /// Selected row of the list the center panel shows.
    pub open spec fn spec_nav_selected(self) -> usize {
        if self.spec_list_mode() == ListMode::Grouped { self.selected_group } else { self.selected_model }
    }
}

/// `after` is `before` with the model list and grouped rows rebuilt: the
/// list is [`ModelsApp::spec_list_entries`]; under "All" without a drill the
/// groups are rebuilt from it and the group selection is clamped to the last
/// row, otherwise the groups are cleared and the group selection kept.
pub open spec fn refreshed(before: ModelsApp, after: ModelsApp, ps: Seq<ProviderInfo>) -> bool {
    let es = before.spec_list_entries(ps);
    let rows = before.spec_group_rows(es);
    &&& after == ModelsApp { filtered_models: after.filtered_models, groups: after.groups, selected_group: after.selected_group, ..before }
    &&& entries_view(after.filtered_models@) == es
    &&& if before.spec_is_all_selected() && before.drill_key is None {
        &&& groups_match(after.groups@, rows)
        &&& after.selected_group == if before.selected_group >= rows.len() {
            if rows.len() == 0 { 0 } else { (rows.len() - 1) as usize }
        } else {
            before.selected_group
        }
    } else {
        &&& after.groups@.len() == 0
        &&& after.selected_group == before.selected_group
    }
}

/// The list and the grouped rows are current for the catalog `ps`: the
/// model list is [`ModelsApp::spec_list_entries`], and under "All" without a
/// drill the groups are the rows built from that list, with one of them
/// selected (or the selection at 0 when there are none); otherwise there are
/// no groups. Every entry of the list carries the provenance of its
/// snapshot identity.
pub open spec fn rows_current(s: ModelsApp, ps: Seq<ProviderInfo>) -> bool {
    let es = s.spec_list_entries(ps);
    &&& entries_view(s.filtered_models@) == es
    &&& carries_snapshot_provenance(s.identity_snapshot@, es)
    &&& if s.spec_is_all_selected() && s.drill_key is None {
        &&& groups_match(s.groups@, s.spec_group_rows(es))
        &&& (s.selected_group < s.groups@.len() || (s.groups@.len() == 0 && s.selected_group == 0))
    } else {
        s.groups@.len() == 0
    }
}

/// Every entry of `es` has an identity in the snapshot `snap` (the one with
/// its provider and model id) and carries that identity's provenance.
pub open spec fn carries_snapshot_provenance(snap: Seq<ResolvedIdentity>, es: Seq<EntryView>) -> bool {
    forall|k: int| 0 <= k < es.len() ==>
        #[trigger] snapshot_pos(snap, es[k]) is Some
        && es[k].identity == Some(identity_of(snap, es[k]).provenance)
}

/// A refresh whose list carries the snapshot provenance leaves the list and
/// the rows current.
pub proof fn lemma_refreshed_rows_current(before: ModelsApp, after: ModelsApp, ps: Seq<ProviderInfo>)
    requires
        refreshed(before, after, ps),
        carries_snapshot_provenance(after.identity_snapshot@, entries_view(after.filtered_models@)),
    ensures
        rows_current(after, ps),
{
    assert(after.spec_scope_entries(ps) == before.spec_scope_entries(ps));
    assert(after.spec_list_entries(ps) == before.spec_list_entries(ps));
}

/// Whatever the search, filters, provider scope or drill, each offering in
/// a current model list has its identity in the snapshot and carries that
/// identity's provenance.
pub proof fn lemma_list_carries_snapshot_provenance(s: ModelsApp, ps: Seq<ProviderInfo>)
    requires
        rows_current(s, ps),
    ensures
        forall|k: int| 0 <= k < s.filtered_models@.len() ==> {
            let e = entry_view(#[trigger] s.filtered_models@[k]);
            &&& snapshot_pos(s.identity_snapshot@, e) matches Some(p)
            &&& s.identity_snapshot@[p].provider_id@ == e.provider_id
            &&& s.identity_snapshot@[p].model_id@ == e.id
            &&& s.filtered_models@[k].identity == Some(s.identity_snapshot@[p].provenance)
        },
{
    let snap = s.identity_snapshot@;
    let es = entries_view(s.filtered_models@);
    assert forall|k: int| 0 <= k < s.filtered_models@.len() implies {
        let e = entry_view(#[trigger] s.filtered_models@[k]);
        &&& snapshot_pos(snap, e) matches Some(p)
        &&& snap[p].provider_id@ == e.provider_id
        &&& snap[p].model_id@ == e.id
        &&& s.filtered_models@[k].identity == Some(snap[p].provenance)
    } by {
        assert(es[k] == entry_view(s.filtered_models@[k]));
        assert(snapshot_pos(snap, es[k]) is Some);
        crate::models::grouping::lemma_snapshot_pos_from(snap, es[k].provider_id, es[k].id, 0);
    }
}

/// `b` reads the same list inputs, list and rows as `a`.
pub open spec fn same_list_state(a: ModelsApp, b: ModelsApp) -> bool {
    &&& a.selected_provider == b.selected_provider
    &&& a.provider_list_items@ == b.provider_list_items@
    &&& a.sort_order == b.sort_order
    &&& a.sort_ascending == b.sort_ascending
    &&& a.filters == b.filters
    &&& a.search_query@ == b.search_query@
    &&& a.provider_category_filter == b.provider_category_filter
    &&& a.identity_snapshot@ == b.identity_snapshot@
    &&& a.drill_key == b.drill_key
    &&& a.filtered_models@ == b.filtered_models@
    &&& a.groups@ == b.groups@
    &&& a.selected_group == b.selected_group
}

/// Whatever leaves the list inputs, the list and the rows alone (moving the
/// selection, focus, scrolling, popups) keeps them current.
pub proof fn lemma_rows_current_kept(a: ModelsApp, b: ModelsApp, ps: Seq<ProviderInfo>)
    requires
        rows_current(a, ps),
        same_list_state(a, b),
    ensures
        rows_current(b, ps),
{
    assert(a.spec_scope_entries(ps) == b.spec_scope_entries(ps));
    assert(a.spec_list_entries(ps) == b.spec_list_entries(ps));
}

/// `s` with the detail panel scrolled to the top.
pub open spec fn detail_top(s: ModelsApp) -> ModelsApp {
    ModelsApp { detail_scroll: ScrollOffset { offset: 0 }, ..s }
}

impl ModelsApp {
    /// Is the "All" row selected?
    pub fn is_all_selected(&self) -> (r: bool)
        ensures
            r == self.spec_is_all_selected(),
    {
        if self.selected_provider < self.provider_list_items.len() {
            match self.provider_list_items[self.selected_provider] {
                ProviderListItem::All => true,
                _ => false,
            }
        } else {
            false
        }
    }

    /// The selected provider, if a provider row is selected.
    pub fn selected_provider_data<'a>(&self, providers: &'a Vec<ProviderInfo>) -> (r: Option<&'a ProviderInfo>)
        ensures
            match self.spec_selected_provider(providers@) {
                Some(pi) => r == Some(&providers@[pi]),
                None => r is None,
            },
    {
        if self.selected_provider < self.provider_list_items.len() {
            match self.provider_list_items[self.selected_provider] {
                ProviderListItem::Provider(idx, _) => if idx < providers.len() { Some(&providers[idx]) } else { None },
                _ => None,
            }
        } else {
            None
        }
    }

    /// A search query or a capability filter is active.
    pub fn has_active_filters(&self) -> (r: bool)
        ensures
            r == spec_has_active_filters(self.search_query@, self.filters),
    {
        let q = chars_of(self.search_query.as_str());
        q.len() > 0 || self.filters.reasoning || self.filters.tools || self.filters.open_weights || self.filters.free
    }

    /// Rebuild the provider list.
    pub fn update_provider_list(&mut self, providers: &Vec<ProviderInfo>)
        ensures
            *final(self) == (ModelsApp { provider_list_items: final(self).provider_list_items, ..*old(self) }),
            final(self).provider_list_items@ == old(self).spec_items_for(providers@),
    {
        let query = chars_of(self.search_query.as_str());
        let lower = to_lower(self.search_query.as_str());
        let ql = chars_of(lower.as_str());
        self.provider_list_items = provider_items(providers, &query, &ql, self.filters,
            self.provider_category_filter, self.group_by_category);
    }

    /// The nearest selectable provider row from `from` (see
    /// [`find_selectable_index`]).
    pub fn find_selectable_index(&self, from: usize, forward: bool) -> (r: usize)
        ensures
            r == spec_find_selectable(self.provider_list_items@, from, forward),
    {
        find_selectable_index(&self.provider_list_items, from, forward)
    }

    /// Rebuild the model list (and the grouped rows) for the current scope,
    /// search, filters and sort.
    pub fn update_filtered_models(&mut self, providers: &Vec<ProviderInfo>)
        requires
            snapshot_covers(old(self).identity_snapshot@, providers@),
        ensures
            refreshed(*old(self), *final(self), providers@),
            rows_current(*final(self), providers@),
            carries_snapshot_provenance(final(self).identity_snapshot@, entries_view(final(self).filtered_models@)),
    {
        let ghost before = *self;
        let lower = to_lower(self.search_query.as_str());
        let ql = chars_of(lower.as_str());
        let mut entries: Vec<ModelEntry> = Vec::new();
        if self.is_all_selected() {
            let mut i: usize = 0;
            assert(entries_view(entries@) =~= all_offerings_upto(providers@, ql@, self.filters, self.provider_category_filter, 0));
            while i < providers.len()
                invariant
                    i <= providers@.len(),
                    entries_view(entries@) == all_offerings_upto(providers@, ql@, self.filters, self.provider_category_filter, i as nat),
                decreases providers.len() - i,
            {
                if self.provider_category_filter == ProviderCategory::All || providers[i].category == self.provider_category_filter {
                    push_offerings(&mut entries, &providers[i], &ql, self.filters, true);
                }
                i = i + 1;
            }
            proof {
                lemma_all_offerings_covered(self.identity_snapshot@, providers@, ql@, self.filters, self.provider_category_filter, providers@.len() as nat);
            }
            match &self.drill_key {
                Some(d) => {
                    let ghost all = entries_view(entries@);
                    entries = drill_filter(&self.identity_snapshot, &entries, d);
                    proof {
                        lemma_drill_covered(self.identity_snapshot@, all, d@, all.len());
                    }
                },
                None => {},
            }
        } else {
            match self.selected_provider_data(providers) {
                Some(p) => {
                    assert(entries_view(entries@) =~= seq![]);
                    push_offerings(&mut entries, p, &ql, self.filters, false);
                    assert(entries_view(entries@) =~= offerings_upto(*p, ql@, self.filters, false, p.models@.len()));
                    proof {
                        let pi = self.spec_selected_provider(providers@).unwrap();
                        lemma_offerings_covered(self.identity_snapshot@, providers@, pi, ql@, self.filters, false, p.models@.len());
                    }
                },
                None => {
                    assert(entries_view(entries@) =~= seq![]);
                },
            }
        }
        assert(entries_view(entries@) == self.spec_scope_entries(providers@));
        let mut sorted = sort_entries(&entries, self.sort_order, self.sort_ascending);
        proof {
            let sv = entries_view(sorted@);
            let ev = entries_view(entries@);
            assert forall|t: int| 0 <= t < sv.len() implies #[trigger] snapshot_pos(self.identity_snapshot@, sv[t]) is Some by {
                let j = choose|j: int| 0 <= j < entries@.len() && entry_view(sorted@[t]) == entry_view(entries@[j]);
                assert(ev[j] == entry_view(entries@[j]));
            }
        }
        let ghost unattached = entries_view(sorted@);
        attach_identities(&self.identity_snapshot, &mut sorted);
        proof {
            let snap = self.identity_snapshot@;
            let fv = entries_view(sorted@);
            assert forall|k: int| 0 <= k < fv.len() implies
                #[trigger] snapshot_pos(snap, fv[k]) is Some
                && fv[k].identity == Some(identity_of(snap, fv[k]).provenance) by {
                assert(fv[k].provider_id == unattached[k].provider_id && fv[k].id == unattached[k].id);
                assert(snapshot_pos(snap, fv[k]) == snapshot_pos(snap, unattached[k]));
            }
        }
        self.filtered_models = sorted;
        self.rebuild_groups();
        proof {
            assert(self.filtered_models@ == sorted@);
            assert(refreshed(before, *self, providers@));
            assert(carries_snapshot_provenance(self.identity_snapshot@, entries_view(self.filtered_models@)));
            lemma_refreshed_rows_current(before, *self, providers@);
        }
    }

    /// Rebuild the grouped rows from the model list (cleared outside "All"
    /// or while drilling; the group selection then stays for the way back).
    fn rebuild_groups(&mut self)
        requires
            covered(old(self).identity_snapshot@, entries_view(old(self).filtered_models@)),
        ensures
            *final(self) == (ModelsApp { groups: final(self).groups, selected_group: final(self).selected_group, ..*old(self) }),
            ({
                let es = entries_view(old(self).filtered_models@);
                let rows = old(self).spec_group_rows(es);
                if old(self).spec_is_all_selected() && old(self).drill_key is None {
                    &&& groups_match(final(self).groups@, rows)
                    &&& final(self).selected_group == if old(self).selected_group >= rows.len() {
                        if rows.len() == 0 { 0 } else { (rows.len() - 1) as usize }
                    } else {
                        old(self).selected_group
                    }
                } else {
                    &&& final(self).groups@.len() == 0
                    &&& final(self).selected_group == old(self).selected_group
                }
            }),
    {
        if !self.is_all_selected() || self.drill_key.is_some() {
            self.groups = Vec::new();
            return;
        }
        let ghost es = entries_view(self.filtered_models@);
        let built = build_groups(&self.identity_snapshot, &self.filtered_models);
        let sorted = sort_groups(&built, self.sort_order, self.sort_ascending,
            Ghost(groups_upto(self.identity_snapshot@, es, es.len())));
        self.groups = sorted;
        if self.selected_group >= self.groups.len() {
            self.selected_group = if self.groups.len() > 0 { self.groups.len() - 1 } else { 0 };
        }
    }
}

/// The provider matches the picker query `ql` (lowercase): by id or name.
pub open spec fn picker_hit(ql: Seq<char>, p: ProviderInfo) -> bool {
    ql.len() == 0 || contains_seq(lowercase(p.id@), ql) || contains_seq(lowercase(p.name@), ql)
}

/// Picker rows from the first `n` provider-list rows: "All" (`None`), then
/// each listed provider matching the query, in list order.
pub open spec fn picker_rows_upto(items: Seq<ProviderListItem>, ps: Seq<ProviderInfo>, ql: Seq<char>, n: nat) -> Seq<Option<usize>>
    decreases n,
{
    if n == 0 || n > items.len() {
        seq![None]
    } else {
        let prev = picker_rows_upto(items, ps, ql, (n - 1) as nat);
        match items[n - 1] {
            ProviderListItem::Provider(idx, _) => if idx < ps.len() && picker_hit(ql, ps[idx as int]) {
                prev.push(Some(idx))
            } else {
                prev
            },
            _ => prev,
        }
    }
}

/// The first provider with id `id`, if any.
pub open spec fn provider_with_id(ps: Seq<ProviderInfo>, id: Seq<char>, k: int) -> Option<int>
    decreases ps.len() - k,
{
    if k < 0 || k >= ps.len() {
        None
    } else if ps[k].id@ == id {
        Some(k)
    } else {
        provider_with_id(ps, id, k + 1)
    }
}

impl ModelsApp {
    /// The picker rows for the current picker query.
    pub open spec fn spec_picker_rows(self, ps: Seq<ProviderInfo>) -> Seq<Option<usize>> {
        picker_rows_upto(self.provider_list_items@, ps, lowercase(self.picker_query@), self.provider_list_items@.len())
    }

    /// The entry the detail panel shows: the selected group's first member
    /// in the grouped view, else the selected entry.
    pub open spec fn spec_current_model(self) -> Option<int> {
        if self.spec_list_mode() == ListMode::Grouped {
            if self.selected_group < self.groups@.len() && self.groups@[self.selected_group as int].first_entry < self.filtered_models@.len() {
                Some(self.groups@[self.selected_group as int].first_entry as int)
            } else {
                None
            }
        } else if self.selected_model < self.filtered_models@.len() {
            Some(self.selected_model as int)
        } else {
            None
        }
    }
}

impl ModelsApp {
    /// A fresh models tab: "All" selected, newest models first, no filter,
    /// with the provider list and model list built from `providers` and the
    /// identity snapshot.
    pub fn new(providers: &Vec<ProviderInfo>, snapshot: Vec<ResolvedIdentity>) -> (r: ModelsApp)
        requires
            snapshot_covers(snapshot@, providers@),
        ensures
            r.selected_provider == 0,
            r.selected_model == 0,
            r.focus == Focus::Models,
            r.sort_order == SortOrder::ReleaseDate,
            !r.sort_ascending,
            r.filters == (Filters { reasoning: false, tools: false, open_weights: false, free: false }),
            r.search_query@ == Seq::<char>::empty(),
            r.provider_category_filter == ProviderCategory::All,
            !r.group_by_category,
            r.identity_snapshot@ == snapshot@,
            r.detail_scroll.offset == 0,
            !r.show_glossary,
            r.glossary_scroll.offset == 0,
            !r.flat_view,
            r.drill_key is None,
            r.drill_name is None,
            !r.show_provider_picker,
            r.picker_query@ == Seq::<char>::empty(),
            r.picker_selected == 0,
            r.provider_list_items@ == r.spec_items_for(providers@),
            entries_view(r.filtered_models@) == r.spec_list_entries(providers@),
            groups_match(r.groups@, r.spec_group_rows(entries_view(r.filtered_models@))),
            rows_current(r, providers@),
            r.selected_group == 0,
    {
        let mut app = ModelsApp {
            selected_provider: 0,
            selected_model: 0,
            focus: Focus::Models,
            sort_order: SortOrder::ReleaseDate,
            sort_ascending: false,
            filters: Filters { reasoning: false, tools: false, open_weights: false, free: false },
            search_query: String::new(),
            provider_category_filter: ProviderCategory::All,
            group_by_category: false,
            provider_list_items: Vec::new(),
            filtered_models: Vec::new(),
            identity_snapshot: snapshot,
            detail_scroll: ScrollOffset { offset: 0 },
            show_glossary: false,
            glossary_scroll: ScrollOffset { offset: 0 },
            flat_view: false,
            drill_key: None,
            drill_name: None,
            groups: Vec::new(),
            selected_group: 0,
            show_provider_picker: false,
            picker_query: String::new(),
            picker_selected: 0,
        };
        app.update_provider_list(providers);
        proof {
            lemma_provider_items_start_with_all(providers@, app.search_query@, lowercase(app.search_query@),
                app.filters, app.provider_category_filter, app.group_by_category);
        }
        app.update_filtered_models(providers);
        app
    }

    /// Which list the center panel shows.
    pub fn list_mode(&self) -> (r: ListMode)
        ensures
            r == self.spec_list_mode(),
    {
        if !self.is_all_selected() {
            return ListMode::Flat;
        }
        if self.drill_key.is_some() {
            return ListMode::Offerings;
        }
        if self.flat_view {
            ListMode::Flat
        } else {
            ListMode::Grouped
        }
    }

    /// The selected group, if any.
    pub fn current_group(&self) -> (r: Option<&ModelGroup>)
        ensures
            r == if self.selected_group < self.groups@.len() { Some(&self.groups@[self.selected_group as int]) } else { None },
    {
        if self.selected_group < self.groups.len() {
            Some(&self.groups[self.selected_group])
        } else {
            None
        }
    }

    /// What Enter on a grouped row does to `s`, giving `t`: on a grouped
    /// row it drills into that group's offerings (model selection and detail
    /// scroll back at the top); elsewhere nothing changes.
    pub open spec fn spec_enter_selection(s: ModelsApp, t: ModelsApp, ps: Seq<ProviderInfo>) -> bool {
        if s.spec_list_mode() == ListMode::Grouped && s.selected_group < s.groups@.len() {
            let g = s.groups@[s.selected_group as int];
            &&& t.drill_key matches Some(k) && k@ == g.key@
            &&& t.drill_name matches Some(n) && n@ == g.name@
            &&& refreshed(
                detail_top(ModelsApp { drill_key: t.drill_key, drill_name: t.drill_name, selected_model: 0, ..s }),
                t,
                ps,
            )
        } else {
            t == s
        }
    }

    /// What the back key does to `s`, giving `t` and the answer `r`: leave
    /// the drill, or else go from a provider back to "All"; otherwise it is
    /// not used and nothing changes.
    pub open spec fn spec_escape_back(s: ModelsApp, t: ModelsApp, r: bool, ps: Seq<ProviderInfo>) -> bool {
        if s.drill_key is Some {
            &&& r
            &&& refreshed(detail_top(ModelsApp { drill_key: None, drill_name: None, ..s }), t, ps)
        } else if !s.spec_is_all_selected() {
            &&& r
            &&& refreshed(detail_top(ModelsApp { selected_provider: 0, selected_model: 0, ..s }), t, ps)
        } else {
            &&& !r
            &&& t == s
        }
    }

    /// Enter on a grouped row: drill into its offerings.
    pub fn enter_selection(&mut self, providers: &Vec<ProviderInfo>)
        requires
            snapshot_covers(old(self).identity_snapshot@, providers@),
        ensures
            Self::spec_enter_selection(*old(self), *final(self), providers@),
            rows_current(*old(self), providers@) ==> rows_current(*final(self), providers@),
    {
        if self.list_mode() != ListMode::Grouped {
            return;
        }
        if self.selected_group >= self.groups.len() {
            return;
        }
        let key = owned(self.groups[self.selected_group].key.as_str());
        let name = owned(self.groups[self.selected_group].name.as_str());
        self.drill_key = Some(key);
        self.drill_name = Some(name);
        self.selected_model = 0;
        self.detail_scroll.jump_top();
        self.update_filtered_models(providers);
    }

    /// Open the provider picker with an empty query.
    pub fn open_provider_picker(&mut self)
        ensures
            *final(self) == (ModelsApp { show_provider_picker: true, picker_query: final(self).picker_query, picker_selected: 0, ..*old(self) }),
            final(self).picker_query@ == Seq::<char>::empty(),
            forall|ps: Seq<ProviderInfo>| rows_current(*old(self), ps) ==> #[trigger] rows_current(*final(self), ps),
    {
        self.show_provider_picker = true;
        self.picker_query = String::new();
        self.picker_selected = 0;
    }

    /// Provider-picker rows for the current query: "All" (`None`) first,
    /// then the index of each listed provider whose id or name contains the
    /// query, ignoring case.
    pub fn picker_rows(&self, providers: &Vec<ProviderInfo>) -> (r: Vec<Option<usize>>)
        ensures
            r@ == self.spec_picker_rows(providers@),
    {
        let lower = to_lower(self.picker_query.as_str());
        let q = chars_of(lower.as_str());
        let mut rows: Vec<Option<usize>> = Vec::new();
        rows.push(None);
        let mut n: usize = 0;
        assert(rows@ =~= picker_rows_upto(self.provider_list_items@, providers@, q@, 0));
        while n < self.provider_list_items.len()
            invariant
                n <= self.provider_list_items@.len(),
                q@ == lowercase(self.picker_query@),
                rows@ == picker_rows_upto(self.provider_list_items@, providers@, q@, n as nat),
            decreases self.provider_list_items.len() - n,
        {
            match self.provider_list_items[n] {
                ProviderListItem::Provider(idx, _) => {
                    if idx < providers.len() {
                        let p = &providers[idx];
                        if q.len() == 0 || contains_lower(p.id.as_str(), &q) || contains_lower(p.name.as_str(), &q) {
                            rows.push(Some(idx));
                        }
                    }
                },
                _ => {},
            }
            n = n + 1;
        }
        rows
    }

    /// Apply the picker selection: scope to the chosen provider (or "All"),
    /// close the picker, and rebuild. Nothing happens when the selection is
    /// past the rows.
    pub fn apply_picker_selection(&mut self, providers: &Vec<ProviderInfo>)
        requires
            snapshot_covers(old(self).identity_snapshot@, providers@),
        ensures
            ({
                let rows = old(self).spec_picker_rows(providers@);
                if old(self).picker_selected >= rows.len() {
                    *final(self) == *old(self)
                } else {
                    let sel = match rows[old(self).picker_selected as int] {
                        None => 0,
                        Some(pi) => match position_from(old(self).provider_list_items@, pi, 0) {
                            Some(pos) => pos,
                            None => old(self).selected_provider,
                        },
                    };
                    refreshed(
                        detail_top(ModelsApp {
                            show_provider_picker: false,
                            drill_key: None,
                            drill_name: None,
                            selected_provider: sel,
                            selected_model: 0,
                            ..*old(self)
                        }),
                        *final(self),
                        providers@,
                    )
                }
            }),
            rows_current(*old(self), providers@) ==> rows_current(*final(self), providers@),
    {
        let rows = self.picker_rows(providers);
        if self.picker_selected >= rows.len() {
            return;
        }
        let choice = rows[self.picker_selected];
        self.show_provider_picker = false;
        self.drill_key = None;
        self.drill_name = None;
        match choice {
            None => {
                self.selected_provider = 0;
            },
            Some(pi) => {
                match provider_position(&self.provider_list_items, pi) {
                    Some(pos) => {
                        self.selected_provider = pos;
                    },
                    None => {},
                }
            },
        }
        self.selected_model = 0;
        self.detail_scroll.jump_top();
        self.update_filtered_models(providers);
    }

    /// Esc before search clearing: leave the drill, or else go from a
    /// provider back to "All". True when the key was used.
    pub fn escape_back(&mut self, providers: &Vec<ProviderInfo>) -> (r: bool)
        requires
            snapshot_covers(old(self).identity_snapshot@, providers@),
        ensures
            Self::spec_escape_back(*old(self), *final(self), r, providers@),
            rows_current(*old(self), providers@) ==> rows_current(*final(self), providers@),
    {
        if self.drill_key.is_some() {
            self.drill_key = None;
            self.drill_name = None;
            self.detail_scroll.jump_top();
            self.update_filtered_models(providers);
            return true;
        }
        if !self.is_all_selected() {
            self.selected_provider = 0;
            self.selected_model = 0;
            self.detail_scroll.jump_top();
            self.update_filtered_models(providers);
            return true;
        }
        false
    }

    /// Select the provider row at `index` and rebuild the model list.
    pub fn select_provider_at_index(&mut self, index: usize, providers: &Vec<ProviderInfo>)
        requires
            snapshot_covers(old(self).identity_snapshot@, providers@),
        ensures
            refreshed(detail_top(ModelsApp { selected_provider: index, selected_model: 0, ..*old(self) }), *final(self), providers@),
            rows_current(*final(self), providers@),
    {
        self.selected_provider = index;
        self.selected_model = 0;
        self.detail_scroll.jump_top();
        self.update_filtered_models(providers);
    }

    /// The entry the detail panel keys off.
    pub fn current_model(&self) -> (r: Option<&ModelEntry>)
        ensures
            match self.spec_current_model() {
                Some(i) => r == Some(&self.filtered_models@[i]),
                None => r is None,
            },
    {
        if self.list_mode() == ListMode::Grouped {
            if self.selected_group < self.groups.len() {
                let fe = self.groups[self.selected_group].first_entry;
                if fe < self.filtered_models.len() {
                    return Some(&self.filtered_models[fe]);
                }
            }
            None
        } else if self.selected_model < self.filtered_models.len() {
            Some(&self.filtered_models[self.selected_model])
        } else {
            None
        }
    }

    /// The model list.
    pub fn filtered_models(&self) -> (r: &Vec<ModelEntry>)
        ensures
            r == &self.filtered_models,
    {
        &self.filtered_models
    }

    /// `provider/model` of the current entry.
    pub fn get_copy_full(&self) -> (r: Option<String>)
        ensures
            match self.spec_current_model() {
                Some(i) => r matches Some(s) && s@ == self.filtered_models@[i].provider_id@ + seq!['/'] + self.filtered_models@[i].id@,
                None => r is None,
            },
    {
        match self.current_model() {
            Some(e) => {
                let mut v = chars_of(e.provider_id.as_str());
                v.push('/');
                let id = chars_of(e.id.as_str());
                let mut i: usize = 0;
                let ghost base = v@;
                while i < id.len()
                    invariant
                        i <= id@.len(),
                        v@ == base + id@.take(i as int),
                    decreases id.len() - i,
                {
                    v.push(id[i]);
                    i = i + 1;
                    assert(v@ =~= base + id@.take(i as int));
                }
                assert(id@.take(i as int) =~= id@);
                Some(string_from_chars(&v))
            },
            None => None,
        }
    }

    /// The current entry's model id.
    pub fn get_copy_model_id(&self) -> (r: Option<String>)
        ensures
            match self.spec_current_model() {
                Some(i) => r matches Some(s) && s@ == self.filtered_models@[i].id@,
                None => r is None,
            },
    {
        match self.current_model() {
            Some(e) => Some(owned(e.id.as_str())),
            None => None,
        }
    }

    /// The documentation link of the current entry's provider.
    pub fn get_provider_doc(&self, providers: &Vec<ProviderInfo>) -> (r: Option<String>)
        ensures
            match self.spec_current_model() {
                Some(i) => match provider_with_id(providers@, self.filtered_models@[i].provider_id@, 0) {
                    Some(k) => crate::models::grouping::opt_view(r) == crate::models::grouping::opt_view(providers@[k].doc),
                    None => r is None,
                },
                None => r is None,
            },
    {
        match self.current_model() {
            Some(e) => match find_provider(providers, &e.provider_id) {
                Some(k) => match &providers[k].doc {
                    Some(d) => Some(owned(d.as_str())),
                    None => None,
                },
                None => None,
            },
            None => None,
        }
    }

    /// The API endpoint of the current entry's provider.
    pub fn get_provider_api(&self, providers: &Vec<ProviderInfo>) -> (r: Option<String>)
        ensures
            match self.spec_current_model() {
                Some(i) => match provider_with_id(providers@, self.filtered_models@[i].provider_id@, 0) {
                    Some(k) => crate::models::grouping::opt_view(r) == crate::models::grouping::opt_view(providers@[k].api),
                    None => r is None,
                },
                None => r is None,
            },
    {
        match self.current_model() {
            Some(e) => match find_provider(providers, &e.provider_id) {
                Some(k) => match &providers[k].api {
                    Some(d) => Some(owned(d.as_str())),
                    None => None,
                },
                None => None,
            },
            None => None,
        }
    }
}

/// Find the first provider with id `id`.
pub(crate) fn find_provider(ps: &Vec<ProviderInfo>, id: &String) -> (r: Option<usize>)
    ensures
        match r {
            Some(k) => provider_with_id(ps@, id@, 0) == Some(k as int) && k < ps@.len(),
            None => provider_with_id(ps@, id@, 0) is None,
        },
{
    let mut k: usize = 0;
    while k < ps.len()
        invariant
            k <= ps@.len(),
            provider_with_id(ps@, id@, 0) == provider_with_id(ps@, id@, k as int),
        decreases ps.len() - k,
    {
        if crate::text::str_eq(ps[k].id.as_str(), id.as_str()) {
            return Some(k);
        }
        k = k + 1;
    }
    None
}

/// `s` with row `idx` of the shown list selected and the detail panel
/// scrolled to the top.
pub open spec fn nav_to(s: ModelsApp, idx: usize) -> ModelsApp {
    if s.spec_list_mode() == ListMode::Grouped {
        detail_top(ModelsApp { selected_group: idx, ..s })
    } else {
        detail_top(ModelsApp { selected_model: idx, ..s })
    }
}

/// Moving the selection to row `idx` (in the grouped list, one of its rows
/// or the top) keeps the list and rows current; the moves of the model list ([`after_next`],
/// [`after_prev`], [`after_select_at`], first/last and paging) are all such
/// moves.
pub proof fn lemma_moving_keeps_rows_current(s: ModelsApp, idx: usize, ps: Seq<ProviderInfo>)
    requires
        rows_current(s, ps),
        s.spec_list_mode() == ListMode::Grouped ==> idx < s.spec_nav_len() || idx == 0,
    ensures
        rows_current(nav_to(s, idx), ps),
{
    let t = nav_to(s, idx);
    assert(t.spec_scope_entries(ps) == s.spec_scope_entries(ps));
    assert(t.spec_list_entries(ps) == s.spec_list_entries(ps));
}

/// `s` after moving the selection down one row (it stays on the last row).
pub open spec fn after_next(s: ModelsApp) -> ModelsApp {
    if s.spec_nav_selected() + 1 < s.spec_nav_len() { nav_to(s, (s.spec_nav_selected() + 1) as usize) } else { s }
}

/// `s` after moving the selection up one row (it stays on the first row).
pub open spec fn after_prev(s: ModelsApp) -> ModelsApp {
    if s.spec_nav_selected() > 0 { nav_to(s, (s.spec_nav_selected() - 1) as usize) } else { s }
}

/// `s` after selecting row `index` of the shown list (ignored past the end
/// or when already selected).
pub open spec fn after_select_at(s: ModelsApp, index: usize) -> ModelsApp {
    if index < s.spec_nav_len() && index != s.spec_nav_selected() { nav_to(s, index) } else { s }
}

/// The provider selected before a rebuild of the provider list, if a
/// provider row was selected.
pub open spec fn prev_provider(s: ModelsApp) -> Option<usize> {
    if s.selected_provider < s.provider_list_items@.len() {
        match s.provider_list_items@[s.selected_provider as int] {
            ProviderListItem::Provider(idx, _) => Some(idx),
            _ => None,
        }
    } else {
        None
    }
}

/// `after` is `before` after a search or filter change: the provider list
/// rebuilt, the previously selected provider kept selected if still listed
/// (else "All"), the model list rebuilt from its top.
pub open spec fn rebuilt_after_filter(before: ModelsApp, after: ModelsApp, ps: Seq<ProviderInfo>) -> bool {
    let items = after.provider_list_items@;
    let sel = match prev_provider(before) {
        Some(pi) => match position_from(items, pi, 0) {
            Some(p) => p,
            None => 0,
        },
        None => 0,
    };
    &&& items == before.spec_items_for(ps)
    &&& refreshed(
        detail_top(ModelsApp { provider_list_items: after.provider_list_items, selected_provider: sel, selected_model: 0, ..before }),
        after,
        ps,
    )
}

/// `after` is `before` after the provider list changed shape (category
/// filter or grouping): the list rebuilt, the first selectable row selected,
/// the model list rebuilt from its top.
pub open spec fn regrouped(before: ModelsApp, after: ModelsApp, ps: Seq<ProviderInfo>) -> bool {
    let items = after.provider_list_items@;
    &&& items == before.spec_items_for(ps)
    &&& refreshed(
        detail_top(ModelsApp {
            provider_list_items: after.provider_list_items,
            selected_provider: spec_find_selectable(items, 0, true) as usize,
            selected_model: 0,
            ..before
        }),
        after,
        ps,
    )
}

impl ModelsApp {
    /// Row count of the shown list (for mouse row mapping).
    pub fn mouse_row_count(&self) -> (r: usize)
        ensures
            r == self.spec_nav_len(),
    {
        self.nav_len()
    }

    fn nav_len(&self) -> (r: usize)
        ensures
            r == self.spec_nav_len(),
    {
        if self.list_mode() == ListMode::Grouped {
            self.groups.len()
        } else {
            self.filtered_models.len()
        }
    }

    fn nav_selected(&self) -> (r: usize)
        ensures
            r == self.spec_nav_selected(),
    {
        if self.list_mode() == ListMode::Grouped {
            self.selected_group
        } else {
            self.selected_model
        }
    }

    fn nav_select(&mut self, idx: usize)
        ensures
            *final(self) == nav_to(*old(self), idx),
    {
        if self.list_mode() == ListMode::Grouped {
            self.selected_group = idx;
        } else {
            self.selected_model = idx;
        }
        self.detail_scroll.jump_top();
    }

    /// Move the selection down one row (stops at the last row).
    pub fn next_model(&mut self)
        ensures
            *final(self) == after_next(*old(self)),
            forall|ps: Seq<ProviderInfo>| rows_current(*old(self), ps) ==> #[trigger] rows_current(*final(self), ps),
    {
        let len = self.nav_len();
        let sel = self.nav_selected();
        if sel < (if len > 0 { len - 1 } else { 0 }) {
            self.nav_select(sel + 1);
        }
    }

    /// Move the selection up one row (stops at the first row).
    pub fn prev_model(&mut self)
        ensures
            *final(self) == after_prev(*old(self)),
            forall|ps: Seq<ProviderInfo>| rows_current(*old(self), ps) ==> #[trigger] rows_current(*final(self), ps),
    {
        let sel = self.nav_selected();
        if sel > 0 {
            self.nav_select(sel - 1);
        }
    }

    /// Select a row of the shown list by index (mouse clicks).
    pub fn select_model_at_index(&mut self, index: usize)
        ensures
            *final(self) == after_select_at(*old(self), index),
            forall|ps: Seq<ProviderInfo>| rows_current(*old(self), ps) ==> #[trigger] rows_current(*final(self), ps),
    {
        if index < self.nav_len() && index != self.nav_selected() {
            self.nav_select(index);
        }
    }

    /// Select the first row.
    pub fn select_first_model(&mut self)
        ensures
            *final(self) == if old(self).spec_nav_selected() > 0 { nav_to(*old(self), 0) } else { *old(self) },
            forall|ps: Seq<ProviderInfo>| rows_current(*old(self), ps) ==> #[trigger] rows_current(*final(self), ps),
    {
        if self.nav_selected() > 0 {
            self.nav_select(0);
        }
    }

    /// Select the last row.
    pub fn select_last_model(&mut self)
        ensures
            ({
                let last = if old(self).spec_nav_len() > 0 { (old(self).spec_nav_len() - 1) as usize } else { 0 };
                *final(self) == if old(self).spec_nav_selected() < last { nav_to(*old(self), last) } else { *old(self) }
            }),
            forall|ps: Seq<ProviderInfo>| rows_current(*old(self), ps) ==> #[trigger] rows_current(*final(self), ps),
    {
        let len = self.nav_len();
        let last = if len > 0 { len - 1 } else { 0 };
        if self.nav_selected() < last {
            self.nav_select(last);
        }
    }

    /// Move the selection down a page (stops at the last row).
    pub fn page_down_model(&mut self)
        ensures
            ({
                let last = if old(self).spec_nav_len() > 0 { old(self).spec_nav_len() - 1 } else { 0 };
                let want = old(self).spec_nav_selected() + PAGE_SIZE;
                let next = if want < last { want } else { last };
                *final(self) == if next != old(self).spec_nav_selected() { nav_to(*old(self), next as usize) } else { *old(self) }
            }),
            forall|ps: Seq<ProviderInfo>| rows_current(*old(self), ps) ==> #[trigger] rows_current(*final(self), ps),
    {
        let len = self.nav_len();
        let last = if len > 0 { len - 1 } else { 0 };
        let sel = self.nav_selected();
        let want = sel.saturating_add(PAGE_SIZE);
        let next = if want < last { want } else { last };
        let ghost before = *self;
        if next != sel {
            self.nav_select(next);
        }
        proof {
            if next != sel {
                assert forall|ps: Seq<ProviderInfo>| rows_current(before, ps) implies #[trigger] rows_current(*self, ps) by {
                    lemma_moving_keeps_rows_current(before, next, ps);
                }
            }
        }
    }

    /// Move the selection up a page (stops at the first row).
    pub fn page_up_model(&mut self)
        ensures
            ({
                let sel = old(self).spec_nav_selected();
                let next: usize = if sel < PAGE_SIZE { 0 } else { (sel - PAGE_SIZE) as usize };
                *final(self) == if next != sel { nav_to(*old(self), next) } else { *old(self) }
            }),
            forall|ps: Seq<ProviderInfo>| rows_current(*old(self), ps) ==> #[trigger] rows_current(*final(self), ps),
    {
        let sel = self.nav_selected();
        let next = sel.saturating_sub(PAGE_SIZE);
        if next != sel {
            self.nav_select(next);
        }
    }

    /// Move focus to the other panel.
    pub fn focus_right(&mut self)
        ensures
            *final(self) == (ModelsApp {
                focus: match old(self).focus {
                    Focus::Models => Focus::Details,
                    Focus::Details => Focus::Models,
                },
                ..*old(self)
            }),
            forall|ps: Seq<ProviderInfo>| rows_current(*old(self), ps) ==> #[trigger] rows_current(*final(self), ps),
    {
        self.focus = match self.focus {
            Focus::Models => Focus::Details,
            Focus::Details => Focus::Models,
        };
    }

    /// Move focus to the other panel (two panels: both directions toggle).
    pub fn focus_left(&mut self)
        ensures
            *final(self) == (ModelsApp {
                focus: match old(self).focus {
                    Focus::Models => Focus::Details,
                    Focus::Details => Focus::Models,
                },
                ..*old(self)
            }),
            forall|ps: Seq<ProviderInfo>| rows_current(*old(self), ps) ==> #[trigger] rows_current(*final(self), ps),
    {
        self.focus_right();
    }

    /// Scroll the detail panel to the top.
    pub fn reset_detail_scroll(&mut self)
        ensures
            *final(self) == detail_top(*old(self)),
            forall|ps: Seq<ProviderInfo>| rows_current(*old(self), ps) ==> #[trigger] rows_current(*final(self), ps),
    {
        self.detail_scroll.jump_top();
    }

    /// Show or hide the glossary popup (scrolled to the top when shown).
    pub fn toggle_glossary(&mut self)
        ensures
            *final(self) == if old(self).show_glossary {
                ModelsApp { show_glossary: false, ..*old(self) }
            } else {
                ModelsApp { show_glossary: true, glossary_scroll: ScrollOffset { offset: 0 }, ..*old(self) }
            },
            forall|ps: Seq<ProviderInfo>| rows_current(*old(self), ps) ==> #[trigger] rows_current(*final(self), ps),
    {
        self.show_glossary = !self.show_glossary;
        if self.show_glossary {
            self.glossary_scroll.jump_top();
        }
    }

    /// Scroll the glossary down one line.
    pub fn scroll_glossary_down(&mut self)
        ensures
            *final(self) == (ModelsApp {
                glossary_scroll: ScrollOffset {
                    offset: if old(self).glossary_scroll.offset == u16::MAX { u16::MAX } else { (old(self).glossary_scroll.offset + 1) as u16 },
                },
                ..*old(self)
            }),
            forall|ps: Seq<ProviderInfo>| rows_current(*old(self), ps) ==> #[trigger] rows_current(*final(self), ps),
    {
        self.glossary_scroll.increment(1);
    }

    /// Scroll the glossary up one line.
    pub fn scroll_glossary_up(&mut self)
        ensures
            *final(self) == (ModelsApp {
                glossary_scroll: ScrollOffset {
                    offset: if old(self).glossary_scroll.offset == 0 { 0 } else { (old(self).glossary_scroll.offset - 1) as u16 },
                },
                ..*old(self)
            }),
            forall|ps: Seq<ProviderInfo>| rows_current(*old(self), ps) ==> #[trigger] rows_current(*final(self), ps),
    {
        self.glossary_scroll.decrement(1);
    }

    /// Cycle the sort order (descending again) and rebuild from the top.
    pub fn cycle_sort(&mut self, providers: &Vec<ProviderInfo>)
        requires
            snapshot_covers(old(self).identity_snapshot@, providers@),
        ensures
            refreshed(
                detail_top(ModelsApp { sort_order: old(self).sort_order.spec_next(), sort_ascending: false, selected_model: 0, ..*old(self) }),
                *final(self),
                providers@,
            ),
            rows_current(*final(self), providers@),
    {
        self.sort_order = self.sort_order.next();
        self.sort_ascending = false;
        self.selected_model = 0;
        self.detail_scroll.jump_top();
        self.update_filtered_models(providers);
    }

    /// Flip the sort direction (not for the default order) and rebuild from
    /// the top.
    pub fn toggle_sort_dir(&mut self, providers: &Vec<ProviderInfo>)
        requires
            snapshot_covers(old(self).identity_snapshot@, providers@),
        ensures
            if old(self).sort_order != SortOrder::Default {
                refreshed(
                    detail_top(ModelsApp { sort_ascending: !old(self).sort_ascending, selected_model: 0, ..*old(self) }),
                    *final(self),
                    providers@,
                )
            } else {
                *final(self) == *old(self)
            },
            rows_current(*old(self), providers@) ==> rows_current(*final(self), providers@),
    {
        if self.sort_order != SortOrder::Default {
            self.sort_ascending = !self.sort_ascending;
            self.selected_model = 0;
            self.detail_scroll.jump_top();
            self.update_filtered_models(providers);
        }
    }

    /// Toggle the reasoning filter.
    pub fn toggle_reasoning(&mut self, providers: &Vec<ProviderInfo>)
        requires
            snapshot_covers(old(self).identity_snapshot@, providers@),
        ensures
            rebuilt_after_filter(
                ModelsApp { filters: Filters { reasoning: !old(self).filters.reasoning, ..old(self).filters }, ..*old(self) },
                *final(self),
                providers@,
            ),
            rows_current(*final(self), providers@),
    {
        self.filters.reasoning = !self.filters.reasoning;
        self.rebuild_after_filter_change(providers);
    }

    /// Toggle the tool-calling filter.
    pub fn toggle_tools(&mut self, providers: &Vec<ProviderInfo>)
        requires
            snapshot_covers(old(self).identity_snapshot@, providers@),
        ensures
            rebuilt_after_filter(
                ModelsApp { filters: Filters { tools: !old(self).filters.tools, ..old(self).filters }, ..*old(self) },
                *final(self),
                providers@,
            ),
            rows_current(*final(self), providers@),
    {
        self.filters.tools = !self.filters.tools;
        self.rebuild_after_filter_change(providers);
    }

    /// Toggle the open-weights filter.
    pub fn toggle_open_weights(&mut self, providers: &Vec<ProviderInfo>)
        requires
            snapshot_covers(old(self).identity_snapshot@, providers@),
        ensures
            rebuilt_after_filter(
                ModelsApp { filters: Filters { open_weights: !old(self).filters.open_weights, ..old(self).filters }, ..*old(self) },
                *final(self),
                providers@,
            ),
            rows_current(*final(self), providers@),
    {
        self.filters.open_weights = !self.filters.open_weights;
        self.rebuild_after_filter_change(providers);
    }

    /// Toggle the free-models filter.
    pub fn toggle_free(&mut self, providers: &Vec<ProviderInfo>)
        requires
            snapshot_covers(old(self).identity_snapshot@, providers@),
        ensures
            rebuilt_after_filter(
                ModelsApp { filters: Filters { free: !old(self).filters.free, ..old(self).filters }, ..*old(self) },
                *final(self),
                providers@,
            ),
            rows_current(*final(self), providers@),
    {
        self.filters.free = !self.filters.free;
        self.rebuild_after_filter_change(providers);
    }

    /// Cycle the provider category filter.
    pub fn cycle_provider_category(&mut self, providers: &Vec<ProviderInfo>)
        requires
            snapshot_covers(old(self).identity_snapshot@, providers@),
        ensures
            regrouped(
                ModelsApp { provider_category_filter: old(self).provider_category_filter.spec_next(), ..*old(self) },
                *final(self),
                providers@,
            ),
            rows_current(*final(self), providers@),
    {
        self.provider_category_filter = self.provider_category_filter.next();
        self.regroup(providers);
    }

    /// Toggle grouping of the provider list by category.
    pub fn toggle_grouping(&mut self, providers: &Vec<ProviderInfo>)
        requires
            snapshot_covers(old(self).identity_snapshot@, providers@),
        ensures
            regrouped(ModelsApp { group_by_category: !old(self).group_by_category, ..*old(self) }, *final(self), providers@),
            rows_current(*final(self), providers@),
    {
        self.group_by_category = !self.group_by_category;
        self.regroup(providers);
    }

    fn regroup(&mut self, providers: &Vec<ProviderInfo>)
        requires
            snapshot_covers(old(self).identity_snapshot@, providers@),
        ensures
            regrouped(*old(self), *final(self), providers@),
            rows_current(*final(self), providers@),
    {
        self.update_provider_list(providers);
        self.selected_provider = self.find_selectable_index(0, true);
        self.selected_model = 0;
        self.detail_scroll.jump_top();
        self.update_filtered_models(providers);
    }

    /// Type a character into the search.
    pub fn search_input(&mut self, c: char, providers: &Vec<ProviderInfo>)
        requires
            snapshot_covers(old(self).identity_snapshot@, providers@),
        ensures
            final(self).search_query@ == old(self).search_query@.push(c),
            rebuilt_after_filter(ModelsApp { search_query: final(self).search_query, ..*old(self) }, *final(self), providers@),
            rows_current(*final(self), providers@),
    {
        let mut q = chars_of(self.search_query.as_str());
        q.push(c);
        self.search_query = string_from_chars(&q);
        self.rebuild_after_filter_change(providers);
    }

    /// Delete the last character of the search.
    pub fn search_backspace(&mut self, providers: &Vec<ProviderInfo>)
        requires
            snapshot_covers(old(self).identity_snapshot@, providers@),
        ensures
            final(self).search_query@ == if old(self).search_query@.len() > 0 {
                old(self).search_query@.drop_last()
            } else {
                old(self).search_query@
            },
            rebuilt_after_filter(ModelsApp { search_query: final(self).search_query, ..*old(self) }, *final(self), providers@),
            rows_current(*final(self), providers@),
    {
        let mut q = chars_of(self.search_query.as_str());
        if q.len() > 0 {
            q.pop();
        }
        self.search_query = string_from_chars(&q);
        self.rebuild_after_filter_change(providers);
    }

    /// Clear the search.
    pub fn clear_search(&mut self, providers: &Vec<ProviderInfo>)
        requires
            snapshot_covers(old(self).identity_snapshot@, providers@),
        ensures
            final(self).search_query@ == Seq::<char>::empty(),
            rebuilt_after_filter(ModelsApp { search_query: final(self).search_query, ..*old(self) }, *final(self), providers@),
            rows_current(*final(self), providers@),
    {
        self.search_query = String::new();
        self.rebuild_after_filter_change(providers);
    }

    /// Rebuild the provider and model lists after a search or filter
    /// change, keeping the selected provider when it is still listed.
    fn rebuild_after_filter_change(&mut self, providers: &Vec<ProviderInfo>)
        requires
            snapshot_covers(old(self).identity_snapshot@, providers@),
        ensures
            rebuilt_after_filter(*old(self), *final(self), providers@),
            rows_current(*final(self), providers@),
    {
        let prev: Option<usize> = if self.selected_provider < self.provider_list_items.len() {
            match self.provider_list_items[self.selected_provider] {
                ProviderListItem::Provider(idx, _) => Some(idx),
                _ => None,
            }
        } else {
            None
        };
        self.update_provider_list(providers);
        let new_pos = match prev {
            Some(pi) => provider_position(&self.provider_list_items, pi),
            None => None,
        };
        self.selected_provider = match new_pos {
            Some(p) => p,
            None => 0,
        };
        self.selected_model = 0;
        self.detail_scroll.jump_top();
        self.update_filtered_models(providers);
    }
}

/// After a search or filter change, a provider that stays listed stays
/// selected.
/// An offering's identity provenance comes from the complete-catalog
/// snapshot, never from what the filters leave visible: two model-tab states
/// sharing a snapshot give an offering listed in both the same provenance,
/// whatever their scope, search, filters or sort.
pub proof fn lemma_provenance_independent_of_view(a1: ModelsApp, a2: ModelsApp, ps: Seq<ProviderInfo>, i: int, j: int)
    requires
        a1.identity_snapshot@ == a2.identity_snapshot@,
        0 <= i < a1.spec_list_entries(ps).len(),
        0 <= j < a2.spec_list_entries(ps).len(),
        a1.spec_list_entries(ps)[i].provider_id == a2.spec_list_entries(ps)[j].provider_id,
        a1.spec_list_entries(ps)[i].id == a2.spec_list_entries(ps)[j].id,
    ensures
        a1.spec_list_entries(ps)[i].identity == a2.spec_list_entries(ps)[j].identity,
{
}

pub proof fn lemma_filter_change_keeps_provider(before: ModelsApp, after: ModelsApp, ps: Seq<ProviderInfo>, pi: usize)
    requires
        rebuilt_after_filter(before, after, ps),
        prev_provider(before) == Some(pi),
        position_from(after.provider_list_items@, pi, 0) is Some,
        after.provider_list_items@.len() <= usize::MAX,
    ensures
        after.selected_provider < after.provider_list_items@.len(),
        is_row_of(after.provider_list_items@[after.selected_provider as int], pi),
{
    lemma_position_from(after.provider_list_items@, pi, 0);
}

/// After the provider list changes shape, the selected row is never a
/// category header.
pub proof fn lemma_regroup_selects_no_header(before: ModelsApp, after: ModelsApp, ps: Seq<ProviderInfo>)
    requires
        regrouped(before, after, ps),
        after.provider_list_items@.len() <= usize::MAX,
    ensures
        !is_header(after.provider_list_items@, after.selected_provider as int),
{
    let items = after.provider_list_items@;
    lemma_provider_items_start_with_all(ps, before.search_query@, lowercase(before.search_query@), before.filters,
        before.provider_category_filter, before.group_by_category);
    lemma_find_selectable_skips_headers(items, 0, true);
    lemma_select_forward_bound(items, 0);
}

proof fn lemma_select_backward_bound(items: Seq<ProviderListItem>, idx: int)
    requires
        0 <= idx,
    ensures
        0 <= select_backward(items, idx) <= idx,
    decreases idx,
{
    if is_header(items, idx) && idx > 0 {
        lemma_select_backward_bound(items, idx - 1);
    }
}

proof fn lemma_select_forward_bound(items: Seq<ProviderListItem>, idx: int)
    requires
        0 <= idx,
    ensures
        0 <= select_forward(items, 0, idx) <= if idx > items.len() { idx } else { items.len() as int },
    decreases items.len() - idx,
{
    if is_header(items, idx) && idx < items.len() - 1 {
        lemma_select_forward_bound(items, idx + 1);
    }
}

/// The panels of the models tab as last drawn, for mouse hit-testing: the
/// bare row region of the model list, the detail panel, the provider card,
/// and the scroll offsets of the grouped and flat lists.
#[derive(Debug, Clone, Copy, PartialEq, Eq, Structural)]
pub struct ModelPanels {
    pub model_list_area: Option<Rect>,
    pub model_detail_area: Option<Rect>,
    pub provider_card_area: Option<Rect>,
    pub group_offset: usize,
    pub model_offset: usize,
}

/// The scroll offset of the list the center panel shows.
pub open spec fn shown_offset(s: ModelsApp, panels: ModelPanels) -> usize {
    if s.spec_list_mode() == ListMode::Grouped { panels.group_offset } else { panels.model_offset }
}

/// The models tab after a mouse event. On the model list, a click focuses
/// the list and selects the row under the cursor, and the wheel focuses it
/// and moves the selection; on the detail panel or provider card, a click
/// focuses the details and the wheel also scrolls them.
pub open spec fn spec_models_mouse(s: ModelsApp, panels: ModelPanels, kind: MouseKind, pos: CursorPos) -> ModelsApp {
    let in_list = spec_hit(panels.model_list_area, pos);
    let in_details = spec_hit(panels.model_detail_area, pos) || spec_hit(panels.provider_card_area, pos);
    let listed = ModelsApp { focus: Focus::Models, ..s };
    let detailed = ModelsApp { focus: Focus::Details, ..s };
    match kind {
        MouseKind::LeftDown => if in_list {
            match panels.model_list_area {
                Some(area) => match spec_row_at(area, shown_offset(s, panels), 0, s.spec_nav_len() as usize, pos.row) {
                    Some(i) => after_select_at(listed, i),
                    None => listed,
                },
                None => listed,
            }
        } else if in_details {
            detailed
        } else {
            s
        },
        MouseKind::ScrollDown => if in_list {
            after_next(listed)
        } else if in_details {
            ModelsApp {
                detail_scroll: ScrollOffset {
                    offset: if s.detail_scroll.offset == u16::MAX { u16::MAX } else { (s.detail_scroll.offset + 1) as u16 },
                },
                ..detailed
            }
        } else {
            s
        },
        MouseKind::ScrollUp => if in_list {
            after_prev(listed)
        } else if in_details {
            ModelsApp {
                detail_scroll: ScrollOffset {
                    offset: if s.detail_scroll.offset == 0 { 0 } else { (s.detail_scroll.offset - 1) as u16 },
                },
                ..detailed
            }
        } else {
            s
        },
        _ => s,
    }
}

/// Mouse handling in the models tab keeps the list and rows current: it
/// only moves focus, selection and detail scroll.
pub proof fn lemma_mouse_keeps_rows_current(s: ModelsApp, panels: ModelPanels, kind: MouseKind, pos: CursorPos, ps: Seq<ProviderInfo>)
    requires
        rows_current(s, ps),
    ensures
        rows_current(spec_models_mouse(s, panels, kind, pos), ps),
{
    let listed = ModelsApp { focus: Focus::Models, ..s };
    let detailed = ModelsApp { focus: Focus::Details, ..s };
    lemma_rows_current_kept(s, listed, ps);
    lemma_rows_current_kept(s, detailed, ps);
    let up = ModelsApp {
        detail_scroll: ScrollOffset {
            offset: if s.detail_scroll.offset == 0 { 0 } else { (s.detail_scroll.offset - 1) as u16 },
        },
        ..detailed
    };
    let down = ModelsApp {
        detail_scroll: ScrollOffset {
            offset: if s.detail_scroll.offset == u16::MAX { u16::MAX } else { (s.detail_scroll.offset + 1) as u16 },
        },
        ..detailed
    };
    lemma_rows_current_kept(s, up, ps);
    lemma_rows_current_kept(s, down, ps);
    assert(listed.spec_nav_len() == s.spec_nav_len());
    if listed.spec_nav_selected() + 1 < listed.spec_nav_len() {
        lemma_moving_keeps_rows_current(listed, (listed.spec_nav_selected() + 1) as usize, ps);
    }
    if listed.spec_nav_selected() > 0 {
        lemma_moving_keeps_rows_current(listed, (listed.spec_nav_selected() - 1) as usize, ps);
    }
    match panels.model_list_area {
        Some(area) => match spec_row_at(area, shown_offset(s, panels), 0, s.spec_nav_len() as usize, pos.row) {
            Some(i) => {
                if i < listed.spec_nav_len() {
                    lemma_moving_keeps_rows_current(listed, i, ps);
                }
            },
            None => {},
        },
        None => {},
    }
}

/// Handle a mouse event on the models tab. All changes are made to `app`
/// directly, so no message is sent.
pub fn handle_models_mouse(app: &mut ModelsApp, panels: ModelPanels, kind: MouseKind, pos: CursorPos) -> (r: Option<Message>)
    ensures
        r is None,
        *final(app) == spec_models_mouse(*old(app), panels, kind, pos),
{
    let in_list = hit(panels.model_list_area, &pos);
    let in_details = hit(panels.model_detail_area, &pos) || hit(panels.provider_card_area, &pos);
    match kind {
        MouseKind::LeftDown => {
            if in_list {
                app.focus = Focus::Models;
                match panels.model_list_area {
                    Some(area) => {
                        let offset = if app.list_mode() == ListMode::Grouped {
                            panels.group_offset
                        } else {
                            panels.model_offset
                        };
                        match row_at(area, offset, 0, app.mouse_row_count(), pos.row) {
                            Some(idx) => app.select_model_at_index(idx),
                            None => {},
                        }
                    },
                    None => {},
                }
            } else if in_details {
                app.focus = Focus::Details;
            }
        },
        MouseKind::ScrollDown => {
            if in_list {
                app.focus = Focus::Models;
                app.next_model();
            } else if in_details {
                app.focus = Focus::Details;
                app.detail_scroll.increment(1);
            }
        },
        MouseKind::ScrollUp => {
            if in_list {
                app.focus = Focus::Models;
                app.prev_model();
            } else if in_details {
                app.focus = Focus::Details;
                app.detail_scroll.decrement(1);
            }
        },
        _ => {},
    }
    None
}

/// List position `i` is a member of one of the groups `gs`.
pub open spec fn in_some_group(gs: Seq<ModelGroup>, i: int) -> bool {
    exists|k: int, t: int| 0 <= k < gs.len() && 0 <= t < gs[k].member_indices@.len() && #[trigger] gs[k].member_indices@[t] == i
}

/// In the grouped view (all providers, not drilled into a group), the group
/// rows partition the model list: every offering sits in exactly one row,
/// at exactly one place in it; each row lists its members in ascending list
/// order, with as many provenances as members, its offering count equal to
/// the number of members, its first entry equal to its first member and its
/// provider count equal to the number of distinct providers among them.
/// The selection is one of the rows, or 0 when there are none.
pub proof fn lemma_grouped_rows_partition_list(s: ModelsApp, ps: Seq<ProviderInfo>)
    requires
        rows_current(s, ps),
        s.spec_is_all_selected(),
        s.drill_key is None,
        s.filtered_models@.len() <= usize::MAX,
    ensures
        ({
            let es = entries_view(s.filtered_models@);
            let gs = s.groups@;
            let n = es.len();
            &&& forall|k: int| 0 <= k < gs.len() ==> {
                let g = #[trigger] gs[k];
                &&& g.member_indices@.len() > 0
                &&& g.offering_count == g.member_indices@.len()
                &&& g.member_provenance@.len() == g.member_indices@.len()
                &&& g.first_entry == g.member_indices@[0]
                &&& g.provider_count == member_providers(es, g.member_indices@).len()
                &&& forall|t: int| 0 <= t < g.member_indices@.len() ==> #[trigger] g.member_indices@[t] < n
                &&& forall|t: int, u: int| 0 <= t < u < g.member_indices@.len()
                    ==> #[trigger] g.member_indices@[t] < #[trigger] g.member_indices@[u]
            }
            &&& forall|i: int| 0 <= i < n ==> #[trigger] in_some_group(gs, i)
            &&& forall|k1: int, t1: int, k2: int, t2: int|
                0 <= k1 < gs.len() && 0 <= t1 < gs[k1].member_indices@.len()
                && 0 <= k2 < gs.len() && 0 <= t2 < gs[k2].member_indices@.len()
                && #[trigger] gs[k1].member_indices@[t1] == #[trigger] gs[k2].member_indices@[t2]
                ==> k1 == k2 && t1 == t2
            &&& (s.selected_group < gs.len() || (gs.len() == 0 && s.selected_group == 0))
        }),
{
    let es = entries_view(s.filtered_models@);
    let snap = s.identity_snapshot@;
    let n = es.len();
    let gs = s.groups@;
    let rows = s.spec_group_rows(es);
    lemma_groups_partition(snap, es, n);
    lemma_sorted_groups_partition(snap, es, groups_upto(snap, es, n), s.sort_order, s.sort_ascending, n);
    lemma_providers_exact(snap, es, n);
    lemma_sorted_providers_exact(es, groups_upto(snap, es, n), s.sort_order, s.sort_ascending);
    assert(groups_match(gs, rows));
    assert(groups_partition(snap, es, rows, n));
    assert(providers_exact(es, rows));
    assert forall|k: int| 0 <= k < gs.len() implies {
        let g = #[trigger] gs[k];
        &&& g.member_indices@.len() > 0
        &&& g.offering_count == g.member_indices@.len()
        &&& g.member_provenance@.len() == g.member_indices@.len()
        &&& g.first_entry == g.member_indices@[0]
        &&& g.provider_count == member_providers(es, g.member_indices@).len()
        &&& forall|t: int| 0 <= t < g.member_indices@.len() ==> #[trigger] g.member_indices@[t] < n
        &&& forall|t: int, u: int| 0 <= t < u < g.member_indices@.len()
            ==> #[trigger] g.member_indices@[t] < #[trigger] g.member_indices@[u]
    } by {
        let v = rows[k];
        assert(group_matches(gs[k], v));
        v.providers.unique_seq_to_set();
        assert forall|t: int| 0 <= t < v.members.len() implies #[trigger] v.members[t] < n by {}
        assert forall|t: int, u: int| 0 <= t < u < v.members.len() implies #[trigger] v.members[t] < #[trigger] v.members[u] by {}
    }
    assert forall|i: int| 0 <= i < n implies #[trigger] in_some_group(gs, i) by {
        assert(is_member(rows, i));
        let (k, t) = choose|k: int, t: int| 0 <= k < rows.len() && 0 <= t < rows[k].members.len() && #[trigger] rows[k].members[t] == i;
        assert(group_matches(gs[k], rows[k]));
        assert(gs[k].member_indices@[t] == i);
    }
    assert forall|k1: int, t1: int, k2: int, t2: int|
        0 <= k1 < gs.len() && 0 <= t1 < gs[k1].member_indices@.len()
        && 0 <= k2 < gs.len() && 0 <= t2 < gs[k2].member_indices@.len()
        && #[trigger] gs[k1].member_indices@[t1] == #[trigger] gs[k2].member_indices@[t2]
        implies k1 == k2 && t1 == t2 by {
        assert(group_matches(gs[k1], rows[k1]));
        assert(group_matches(gs[k2], rows[k2]));
        let x = rows[k1].members[t1];
        assert(rows[k2].members[t2] == x);
        assert(identity_of(snap, es[x as int]).key == rows[k1].key);
        assert(identity_of(snap, es[x as int]).key == rows[k2].key);
        if k1 != k2 {
            if k1 < k2 {
                assert(rows[k1].key != rows[k2].key);
            } else {
                assert(rows[k2].key != rows[k1].key);
            }
        }
        if t1 < t2 {
            assert(rows[k1].members[t1] < rows[k1].members[t2]);
        } else if t2 < t1 {
            assert(rows[k1].members[t2] < rows[k1].members[t1]);
        }
    }
}

/// Drilling into a grouped row and backing out: the back key is used, the
/// drill is gone, the grouped view is back with the same row selected, and a
/// second back press is not used and changes nothing. The list and rows are
/// current for the catalog `ps` when Enter is pressed, as every operation of
/// the models tab leaves them ([`rows_current`]).
pub proof fn lemma_drill_round_trip(
    s0: ModelsApp,
    s1: ModelsApp,
    s2: ModelsApp,
    s3: ModelsApp,
    r1: bool,
    r2: bool,
    ps: Seq<ProviderInfo>,
)
    requires
        s0.spec_list_mode() == ListMode::Grouped,
        s0.selected_group < s0.groups@.len(),
        rows_current(s0, ps),
        ModelsApp::spec_enter_selection(s0, s1, ps),
        ModelsApp::spec_escape_back(s1, s2, r1, ps),
        ModelsApp::spec_escape_back(s2, s3, r2, ps),
    ensures
        r1,
        s2.drill_key is None,
        s2.drill_name is None,
        s2.spec_list_mode() == ListMode::Grouped,
        s2.selected_group == s0.selected_group,
        !r2,
        s3 == s2,
{
    let mid1 = detail_top(ModelsApp { drill_key: s1.drill_key, drill_name: s1.drill_name, selected_model: 0, ..s0 });
    assert(refreshed(mid1, s1, ps));
    assert(s1.drill_key is Some);
    assert(s1.selected_group == s0.selected_group);
    let mid2 = detail_top(ModelsApp { drill_key: None, drill_name: None, ..s1 });
    assert(refreshed(mid2, s2, ps));
    assert(mid2.spec_is_all_selected());
    assert(mid2.spec_scope_entries(ps) == s0.spec_scope_entries(ps));
    assert(mid2.spec_list_entries(ps) == s0.spec_list_entries(ps));
    let es = mid2.spec_list_entries(ps);
    assert(mid2.spec_group_rows(es) == s0.spec_group_rows(es));
    assert(s2.groups@.len() == s0.groups@.len());
    assert(s2.spec_list_mode() == ListMode::Grouped);
}

} // verus!

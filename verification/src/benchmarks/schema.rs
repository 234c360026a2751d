//! The benchmark source data the views read: metric definitions, model rows
//! and the derived groupings (radar groups, creator openness, default sort).

use vstd::prelude::*;
use crate::text::{str_eq, truncate, truncate_spec, owned};

verus! {

/// Unit/scale of a metric's values.
#[derive(Debug, Clone, Copy, PartialEq, Eq, Structural)]
pub enum MetricKind {
    Percentage,
    Index,
    Elo,
    TokensPerSec,
    Seconds,
    UsdPerMTok,
}

/// Whether a benchmarked model row is a reasoning variant.
#[derive(Debug, Clone, Copy, PartialEq, Eq, Structural)]
pub enum ReasoningStatus {
    /// The source gives no reasoning status for the row.
    Unmarked,
    Reasoning,
    NonReasoning,
    Adaptive,
}

/// Which reasoning variants the benchmark list shows.
#[derive(Debug, Clone, Copy, PartialEq, Eq, Structural)]
pub enum ReasoningFilter {
    All,
    Reasoning,
    NonReasoning,
}

impl ReasoningFilter {
    /// The filter after this one: all, reasoning, non-reasoning, and around.
    pub open spec fn spec_next(self) -> ReasoningFilter {
        match self {
            ReasoningFilter::All => ReasoningFilter::Reasoning,
            ReasoningFilter::Reasoning => ReasoningFilter::NonReasoning,
            ReasoningFilter::NonReasoning => ReasoningFilter::All,
        }
    }

    /// Cycle to the next filter.
    pub fn next(self) -> (r: ReasoningFilter)
        ensures
            r == self.spec_next(),
    {
        match self {
            ReasoningFilter::All => ReasoningFilter::Reasoning,
            ReasoningFilter::Reasoning => ReasoningFilter::NonReasoning,
            ReasoningFilter::NonReasoning => ReasoningFilter::All,
        }
    }

    /// Does a row with this reasoning status pass?
    pub open spec fn spec_matches(self, status: ReasoningStatus) -> bool {
        match self {
            ReasoningFilter::All => true,
            ReasoningFilter::Reasoning => status == ReasoningStatus::Reasoning,
            ReasoningFilter::NonReasoning => status == ReasoningStatus::NonReasoning,
        }
    }

    /// Does `model` pass the filter?
    pub fn matches(self, model: &ModelRow) -> (r: bool)
        ensures
            r == self.spec_matches(model.reasoning_status),
    {
        match self {
            ReasoningFilter::All => true,
            ReasoningFilter::Reasoning => model.reasoning_status == ReasoningStatus::Reasoning,
            ReasoningFilter::NonReasoning => model.reasoning_status == ReasoningStatus::NonReasoning,
        }
    }

    /// Title indicator text for the filter (empty when showing all).
    pub open spec fn spec_label(self) -> Seq<char> {
        match self {
            ReasoningFilter::All => Seq::empty(),
            ReasoningFilter::Reasoning => "Reasoning"@,
            ReasoningFilter::NonReasoning => "Non-reasoning"@,
        }
    }

    /// Title indicator text for the filter (empty when showing all).
    pub fn label(self) -> (r: &'static str)
        ensures
            r@ == self.spec_label(),
    {
        match self {
            ReasoningFilter::All => {
                proof {
                    reveal_strlit("");
                }
                ""
            },
            ReasoningFilter::Reasoning => "Reasoning",
            ReasoningFilter::NonReasoning => "Non-reasoning",
        }
    }
}

impl Default for ReasoningFilter {
    /// Showing all rows is the starting filter.
    fn default() -> (r: ReasoningFilter)
        ensures
            r == ReasoningFilter::All,
    {
        ReasoningFilter::All
    }
}

/// One score cell. The score itself is carried as `order_key`, an integer that
/// orders cells exactly as their values order; rendering the value is left to
/// the caller.
#[derive(Debug, Clone, Copy, PartialEq, Eq, Structural)]
pub struct ScoreCell {
    pub order_key: i64,
}

/// A model's score for one metric id.
#[derive(Debug, Clone)]
pub struct MetricScore {
    pub metric_id: String,
    pub cell: ScoreCell,
}

/// Definition of one metric column of a source.
#[derive(Debug, Clone)]
pub struct MetricDef {
    pub id: String,
    pub label: String,
    pub short_label: Option<String>,
    pub kind: MetricKind,
    pub group: String,
    pub higher_is_better: bool,
    pub last_updated: Option<String>,
    pub description: Option<String>,
}

/// One benchmarked model.
#[derive(Debug, Clone)]
pub struct ModelRow {
    pub id: String,
    pub name: String,
    pub display_name: String,
    pub creator: String,
    pub creator_name: String,
    pub release_date: Option<String>,
    pub reasoning_status: ReasoningStatus,
    pub open_weights: Option<bool>,
    pub context_window: Option<u64>,
    pub scores: Vec<MetricScore>,
}

/// Provenance of a source file.
#[derive(Debug, Clone)]
pub struct SourceMeta {
    pub id: String,
    pub name: String,
    pub url: String,
    pub fetched_at: String,
    pub verified: bool,
}

/// A loaded benchmark source: its metric columns and model rows.
#[derive(Debug, Clone)]
pub struct SourceFile {
    pub source: SourceMeta,
    pub metrics: Vec<MetricDef>,
    pub models: Vec<ModelRow>,
}

/// Key the benchmark list is sorted by.
#[derive(Debug, Clone, Copy, PartialEq, Eq, Structural)]
pub enum SortKey {
    Name,
    ReleaseDate,
    /// Index into the source's `metrics`.
    Metric(usize),
}

/// Load state of one source slot.
pub enum SourceLoad {
    Loading,
    Loaded(SourceFile),
    Failed,
}

/// What identifies a benchmark source: its id and its display name.
#[derive(Debug, Clone)]
pub struct SourceDescriptor {
    pub id: String,
    pub name: String,
}

/// One source slot: the source's descriptor and its load state.
pub struct SourceSlot {
    pub descriptor: SourceDescriptor,
    pub load: SourceLoad,
}

/// The benchmark sources known to the browser, each with its load state.
pub struct MultiStore {
    pub sources: Vec<SourceSlot>,
}

impl MultiStore {
    /// The loaded file of slot `idx`, if that slot has loaded.
    pub open spec fn spec_file(&self, idx: int) -> Option<SourceFile> {
        if 0 <= idx < self.sources@.len() {
            match self.sources@[idx].load {
                SourceLoad::Loaded(f) => Some(f),
                _ => None,
            }
        } else {
            None
        }
    }

    /// The file of slot `idx` when it has loaded.
    pub fn file(&self, idx: usize) -> (r: Option<&SourceFile>)
        ensures
            r is None <==> self.spec_file(idx as int) is None,
            r matches Some(f) ==> self.spec_file(idx as int) == Some(*f),
    {
        if idx < self.sources.len() {
            match &self.sources[idx].load {
                SourceLoad::Loaded(f) => Some(f),
                _ => None,
            }
        } else {
            None
        }
    }

    /// Slot `idx` exists and failed to load.
    pub open spec fn spec_is_failed(&self, idx: int) -> bool {
        0 <= idx < self.sources@.len() && self.sources@[idx].load is Failed
    }

    /// Slot `idx` exists and is still loading.
    pub open spec fn spec_is_loading(&self, idx: int) -> bool {
        0 <= idx < self.sources@.len() && self.sources@[idx].load is Loading
    }
}

// ── Score lookup ──────────────────────────────────────────────────────────

/// The first cell among the first `n` scores whose metric id is `id`.
pub open spec fn score_in(scores: Seq<MetricScore>, id: Seq<char>, n: nat) -> Option<ScoreCell>
    decreases n,
{
    if n == 0 || n > scores.len() {
        None
    } else {
        match score_in(scores, id, (n - 1) as nat) {
            Some(c) => Some(c),
            None => if scores[n - 1].metric_id@ == id {
                Some(scores[n - 1].cell)
            } else {
                None
            },
        }
    }
}

/// Once a match is found among the first `k` scores, longer prefixes keep it.
pub proof fn lemma_score_in_stable(scores: Seq<MetricScore>, id: Seq<char>, k: nat, n: nat)
    requires
        k <= n <= scores.len(),
        score_in(scores, id, k) is Some,
    ensures
        score_in(scores, id, n) == score_in(scores, id, k),
    decreases n,
{
    if k < n {
        lemma_score_in_stable(scores, id, k, (n - 1) as nat);
    }
}

/// The model's cell for metric id `id` (the first one listed).
pub open spec fn score_of(model: ModelRow, id: Seq<char>) -> Option<ScoreCell> {
    score_in(model.scores@, id, model.scores@.len())
}

/// The model's cell for metric id `id`.
pub fn find_score(model: &ModelRow, id: &str) -> (r: Option<ScoreCell>)
    ensures
        r == score_of(*model, id@),
{
    let mut i: usize = 0;
    while i < model.scores.len()
        invariant
            i <= model.scores.len(),
            score_in(model.scores@, id@, i as nat) is None,
        decreases model.scores.len() - i,
    {
        if str_eq(model.scores[i].metric_id.as_str(), id) {
            proof {
                lemma_score_in_stable(model.scores@, id@, (i + 1) as nat, model.scores@.len());
            }
            return Some(model.scores[i].cell);
        }
        i = i + 1;
    }
    None
}

/// The model's cell for metric `metric_idx` of `file` (None when the metric
/// index is out of range or the model has no score for it).
pub open spec fn metric_cell(file: SourceFile, model: ModelRow, metric_idx: int) -> Option<ScoreCell> {
    if 0 <= metric_idx < file.metrics@.len() {
        score_of(model, file.metrics@[metric_idx].id@)
    } else {
        None
    }
}

/// The model's cell for metric `metric_idx` of `file`.
pub fn metric_score(file: &SourceFile, model: &ModelRow, metric_idx: usize) -> (r: Option<ScoreCell>)
    ensures
        r == metric_cell(*file, *model, metric_idx as int),
{
    if metric_idx < file.metrics.len() {
        find_score(model, file.metrics[metric_idx].id.as_str())
    } else {
        None
    }
}

// ── Metric groups ─────────────────────────────────────────────────────────

/// Distinct metric groups of the first `n` metrics, in order of first
/// appearance.
pub open spec fn groups_upto(ms: Seq<MetricDef>, n: nat) -> Seq<Seq<char>>
    decreases n,
{
    if n == 0 || n > ms.len() {
        Seq::empty()
    } else {
        let acc = groups_upto(ms, (n - 1) as nat);
        if acc.contains(ms[n - 1].group@) {
            acc
        } else {
            acc.push(ms[n - 1].group@)
        }
    }
}

/// Distinct metric groups of a source, in order of first appearance.
pub open spec fn spec_groups_in_order(file: SourceFile) -> Seq<Seq<char>> {
    groups_upto(file.metrics@, file.metrics@.len())
}

/// Is `g` already among the first `n` entries of `v`?
fn contains_string(v: &Vec<String>, g: &str) -> (r: bool)
    ensures
        r == v@.map_values(|s: String| s@).contains(g@),
{
    let mut i: usize = 0;
    while i < v.len()
        invariant
            i <= v.len(),
            forall|j: int| 0 <= j < i ==> v@[j]@ != g@,
        decreases v.len() - i,
    {
        if str_eq(v[i].as_str(), g) {
            assert(v@.map_values(|s: String| s@)[i as int] == g@);
            return true;
        }
        i = i + 1;
    }
    false
}

/// Distinct metric groups of a source, in order of first appearance.
pub fn groups_in_order(file: &SourceFile) -> (r: Vec<String>)
    ensures
        r@.map_values(|s: String| s@) == spec_groups_in_order(*file),
{
    let mut out: Vec<String> = Vec::new();
    let mut i: usize = 0;
    while i < file.metrics.len()
        invariant
            i <= file.metrics.len(),
            out@.map_values(|s: String| s@) == groups_upto(file.metrics@, i as nat),
        decreases file.metrics.len() - i,
    {
        let g = file.metrics[i].group.as_str();
        if !contains_string(&out, g) {
            out.push(owned(g));
            assert(out@.map_values(|s: String| s@) =~= groups_upto(file.metrics@, i as nat).push(g@));
        }
        i = i + 1;
    }
    out
}

/// Number of `higher_is_better` metrics among the first `n` that belong to
/// group `g`.
pub open spec fn hib_count(ms: Seq<MetricDef>, g: Seq<char>, n: nat) -> nat
    decreases n,
{
    if n == 0 || n > ms.len() {
        0
    } else {
        hib_count(ms, g, (n - 1) as nat) + if ms[n - 1].group@ == g && ms[n - 1].higher_is_better {
            1nat
        } else {
            0nat
        }
    }
}

/// Fewest `higher_is_better` metrics a group needs to be drawn as a radar.
pub const RADAR_MIN_AXES: usize = 3;

/// The groups among the first `n` of `gs` that hold at least
/// [`RADAR_MIN_AXES`] higher-is-better metrics.
pub open spec fn radar_filter(ms: Seq<MetricDef>, gs: Seq<Seq<char>>, n: nat) -> Seq<Seq<char>>
    decreases n,
{
    if n == 0 || n > gs.len() {
        Seq::empty()
    } else {
        let acc = radar_filter(ms, gs, (n - 1) as nat);
        if hib_count(ms, gs[n - 1], ms.len()) >= RADAR_MIN_AXES {
            acc.push(gs[n - 1])
        } else {
            acc
        }
    }
}

/// Radar preset groups of a source: metric groups (in order of first
/// appearance) with at least [`RADAR_MIN_AXES`] higher-is-better metrics.
pub open spec fn spec_radar_groups(file: SourceFile) -> Seq<Seq<char>> {
    let gs = spec_groups_in_order(file);
    radar_filter(file.metrics@, gs, gs.len())
}

/// Count the higher-is-better metrics of group `g`.
fn count_hib(file: &SourceFile, g: &str) -> (r: usize)
    ensures
        r == hib_count(file.metrics@, g@, file.metrics@.len()),
{
    let mut c: usize = 0;
    let mut i: usize = 0;
    while i < file.metrics.len()
        invariant
            i <= file.metrics.len(),
            c == hib_count(file.metrics@, g@, i as nat),
            c <= i,
        decreases file.metrics.len() - i,
    {
        if file.metrics[i].higher_is_better && str_eq(file.metrics[i].group.as_str(), g) {
            c = c + 1;
        }
        i = i + 1;
    }
    c
}

/// Radar preset groups of a source.
pub fn radar_groups(file: &SourceFile) -> (r: Vec<String>)
    ensures
        r@.map_values(|s: String| s@) == spec_radar_groups(*file),
{
    let gs = groups_in_order(file);
    let ghost gsv = gs@.map_values(|s: String| s@);
    let mut out: Vec<String> = Vec::new();
    let mut i: usize = 0;
    while i < gs.len()
        invariant
            i <= gs.len(),
            gsv == gs@.map_values(|s: String| s@),
            out@.map_values(|s: String| s@) == radar_filter(file.metrics@, gsv, i as nat),
        decreases gs.len() - i,
    {
        if count_hib(file, gs[i].as_str()) >= RADAR_MIN_AXES {
            out.push(owned(gs[i].as_str()));
            assert(out@.map_values(|s: String| s@) =~= radar_filter(file.metrics@, gsv, i as nat).push(gsv[i as int]));
        }
        i = i + 1;
    }
    out
}

/// Indices (ascending) of the first `n` metrics that belong to group `g`.
pub open spec fn group_indices(ms: Seq<MetricDef>, g: Seq<char>, n: nat) -> Seq<usize>
    decreases n,
{
    if n == 0 || n > ms.len() {
        Seq::empty()
    } else {
        let acc = group_indices(ms, g, (n - 1) as nat);
        if ms[n - 1].group@ == g {
            acc.push((n - 1) as usize)
        } else {
            acc
        }
    }
}

/// Indices of the metrics of group `g`, in file order.
pub fn metric_indices_in_group(file: &SourceFile, g: &str) -> (r: Vec<usize>)
    ensures
        r@ == group_indices(file.metrics@, g@, file.metrics@.len()),
{
    let mut out: Vec<usize> = Vec::new();
    let mut i: usize = 0;
    while i < file.metrics.len()
        invariant
            i <= file.metrics.len(),
            out@ == group_indices(file.metrics@, g@, i as nat),
        decreases file.metrics.len() - i,
    {
        if str_eq(file.metrics[i].group.as_str(), g) {
            out.push(i);
        }
        i = i + 1;
    }
    out
}

/// Column header for a metric: its curated short label when set, otherwise
/// the label cut to 11 characters.
pub open spec fn spec_short_label(m: MetricDef) -> Seq<char> {
    match m.short_label {
        Some(s) => s@,
        None => truncate_spec(m.label@, 11),
    }
}

/// Column header for a metric.
pub fn short_label(m: &MetricDef) -> (r: String)
    ensures
        r@ == spec_short_label(*m),
{
    match &m.short_label {
        Some(s) => owned(s.as_str()),
        None => truncate(m.label.as_str(), 11),
    }
}


// ── Default sort ──────────────────────────────────────────────────────────

/// Some model of the source carries a release date.
pub open spec fn any_dated(ms: Seq<ModelRow>) -> bool {
    exists|i: int| 0 <= i < ms.len() && (#[trigger] ms[i]).release_date is Some
}

/// The sort a freshly loaded source starts with: release date when any model
/// is dated, else its first metric, else name.
pub open spec fn spec_default_sort(file: SourceFile) -> SortKey {
    if any_dated(file.models@) {
        SortKey::ReleaseDate
    } else if file.metrics@.len() > 0 {
        SortKey::Metric(0)
    } else {
        SortKey::Name
    }
}

/// The sort a freshly loaded source starts with.
pub fn default_sort(file: &SourceFile) -> (r: SortKey)
    ensures
        r == spec_default_sort(*file),
{
    let mut i: usize = 0;
    while i < file.models.len()
        invariant
            i <= file.models.len(),
            forall|j: int| 0 <= j < i ==> (#[trigger] file.models@[j]).release_date is None,
        decreases file.models.len() - i,
    {
        if file.models[i].release_date.is_some() {
            return SortKey::ReleaseDate;
        }
        i = i + 1;
    }
    if file.metrics.len() > 0 {
        SortKey::Metric(0)
    } else {
        SortKey::Name
    }
}

// ── Creator openness ──────────────────────────────────────────────────────

/// Creator slug to openness (open weights or not), looked up by exact slug.
#[derive(Debug, Clone)]
pub struct OpennessMap {
    pub entries: Vec<(String, bool)>,
}

/// The value of the first of the first `n` entries keyed `k`.
pub open spec fn lookup_in(e: Seq<(String, bool)>, k: Seq<char>, n: nat) -> Option<bool>
    decreases n,
{
    if n == 0 || n > e.len() {
        None
    } else {
        match lookup_in(e, k, (n - 1) as nat) {
            Some(v) => Some(v),
            None => if e[n - 1].0@ == k { Some(e[n - 1].1) } else { None },
        }
    }
}

/// Lookups over a prefix that already found `k` are unaffected by what follows.
pub proof fn lemma_lookup_stable(e: Seq<(String, bool)>, k: Seq<char>, a: nat, b: nat)
    requires
        a <= b <= e.len(),
        lookup_in(e, k, a) is Some,
    ensures
        lookup_in(e, k, b) == lookup_in(e, k, a),
    decreases b,
{
    if a < b {
        lemma_lookup_stable(e, k, a, (b - 1) as nat);
    }
}

/// Changing entry `j` (the first keyed `k`) to value `v` changes only the
/// lookup of `k`.
pub proof fn lemma_lookup_update(e: Seq<(String, bool)>, j: int, k: Seq<char>, v: bool, q: Seq<char>, n: nat)
    requires
        0 <= j < e.len(),
        n <= e.len(),
        e[j].0@ == k,
        lookup_in(e, k, j as nat) is None,
    ensures
        lookup_in(e.update(j, (e[j].0, v)), q, n) == if q == k && n > j {
            Some(v)
        } else {
            lookup_in(e, q, n)
        },
    decreases n,
{
    if n > 0 {
        lemma_lookup_update(e, j, k, v, q, (n - 1) as nat);
        if q == k && n - 1 > j {
            assert(lookup_in(e.update(j, (e[j].0, v)), q, (n - 1) as nat) == Some(v));
        }
    }
}

/// Appending an entry keyed `k` only affects the lookup of `k`, and only when
/// `k` was absent.
pub proof fn lemma_lookup_push(e: Seq<(String, bool)>, entry: (String, bool), q: Seq<char>, n: nat)
    requires
        n <= e.len(),
    ensures
        lookup_in(e.push(entry), q, n) == lookup_in(e, q, n),
    decreases n,
{
    if n > 0 {
        lemma_lookup_push(e, entry, q, (n - 1) as nat);
    }
}

impl OpennessMap {
    /// The openness recorded for `k`.
    pub open spec fn spec_get(&self, k: Seq<char>) -> Option<bool> {
        lookup_in(self.entries@, k, self.entries@.len())
    }

    /// An empty map.
    pub fn new() -> (r: OpennessMap)
        ensures
            forall|k: Seq<char>| r.spec_get(k) is None,
    {
        OpennessMap { entries: Vec::new() }
    }

    /// The openness recorded for creator `k`.
    pub fn get(&self, k: &str) -> (r: Option<bool>)
        ensures
            r == self.spec_get(k@),
    {
        match self.position(k) {
            Some(j) => Some(self.entries[j].1),
            None => None,
        }
    }

    /// Index of the first entry keyed `k`.
    fn position(&self, k: &str) -> (r: Option<usize>)
        ensures
            r is None ==> self.spec_get(k@) is None,
            r matches Some(j) ==> {
                &&& j < self.entries@.len()
                &&& self.entries@[j as int].0@ == k@
                &&& lookup_in(self.entries@, k@, j as nat) is None
                &&& self.spec_get(k@) == Some(self.entries@[j as int].1)
            },
    {
        let mut i: usize = 0;
        while i < self.entries.len()
            invariant
                i <= self.entries.len(),
                lookup_in(self.entries@, k@, i as nat) is None,
            decreases self.entries.len() - i,
        {
            if str_eq(self.entries[i].0.as_str(), k) {
                proof {
                    lemma_lookup_stable(self.entries@, k@, (i + 1) as nat, self.entries@.len());
                }
                return Some(i);
            }
            i = i + 1;
        }
        None
    }

    /// Record openness `v` for creator `k`, replacing any earlier value.
    pub fn insert(&mut self, k: &str, v: bool)
        ensures
            forall|q: Seq<char>| #[trigger] final(self).spec_get(q) == if q == k@ {
                Some(v)
            } else {
                old(self).spec_get(q)
            },
    {
        let ghost e0 = self.entries@;
        match self.position(k) {
            Some(j) => {
                let key = self.entries[j].0.clone();
                self.entries.set(j, (key, v));
                proof {
                    assert(self.entries@ =~= e0.update(j as int, (e0[j as int].0, v)));
                    assert forall|q: Seq<char>| #[trigger] self.spec_get(q) == if q == k@ {
                        Some(v)
                    } else {
                        lookup_in(e0, q, e0.len())
                    } by {
                        lemma_lookup_update(e0, j as int, k@, v, q, e0.len());
                    }
                }
            },
            None => {
                self.entries.push((owned(k), v));
                proof {
                    assert forall|q: Seq<char>| #[trigger] self.spec_get(q) == if q == k@ {
                        Some(v)
                    } else {
                        lookup_in(e0, q, e0.len())
                    } by {
                        lemma_lookup_push(e0, (self.entries@.last().0, v), q, e0.len());
                        assert(self.entries@ == e0.push(self.entries@.last()));
                    }
                }
            },
        }
    }
}

/// Openness of creator `c` judged from the first `n` models: open when any of
/// its models is marked open, closed when its models are marked only closed,
/// unknown when none is marked.
pub open spec fn openness_upto(ms: Seq<ModelRow>, c: Seq<char>, n: nat) -> Option<bool>
    decreases n,
{
    if n == 0 || n > ms.len() {
        None
    } else {
        let prev = openness_upto(ms, c, (n - 1) as nat);
        let m = ms[n - 1];
        if m.creator@ == c {
            match m.open_weights {
                Some(b) => Some(b || prev == Some(true)),
                None => prev,
            }
        } else {
            prev
        }
    }
}

/// Creator openness derived from a source's models.
pub open spec fn spec_creator_openness(ms: Seq<ModelRow>, c: Seq<char>) -> Option<bool> {
    openness_upto(ms, c, ms.len())
}

/// Derive creator openness from a source's models.
pub fn creator_openness(models: &Vec<ModelRow>) -> (r: OpennessMap)
    ensures
        forall|c: Seq<char>| #[trigger] r.spec_get(c) == spec_creator_openness(models@, c),
{
    let mut map = OpennessMap::new();
    let mut i: usize = 0;
    while i < models.len()
        invariant
            i <= models.len(),
            forall|c: Seq<char>| #[trigger] map.spec_get(c) == openness_upto(models@, c, i as nat),
        decreases models.len() - i,
    {
        let m = &models[i];
        match m.open_weights {
            Some(b) => {
                let cur = map.get(m.creator.as_str());
                let v = b || cur == Some(true);
                map.insert(m.creator.as_str(), v);
            },
            None => {},
        }
        i = i + 1;
    }
    map
}

} // verus!

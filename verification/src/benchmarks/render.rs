//! Text pieces of the benchmark views: section-header blurbs, value-column
//! headers and comparator cells.

use vstd::prelude::*;
use crate::text::{chars_of, owned, string_from_chars, push_str};
use crate::benchmarks::schema::{
    SourceFile, MetricDef, MetricKind, SortKey, group_indices, spec_short_label, short_label,
};
use crate::benchmarks::radar::{em_dash, em_dash_string};
use crate::benchmarks::schema::{ModelRow, ReasoningStatus, OpennessMap, MultiStore};
use crate::benchmarks::app::resolved_openness;
use crate::palette::{TermColor, TextSpan, TextSpanView, span_view};

verus! {

/// What the detail panel's comparator column shows next to each value.
#[derive(Debug, Clone, Copy, PartialEq, Eq, Structural)]
pub enum ComparatorMode {
    Off,
    /// Mean over the source's models.
    FieldAvg,
    /// Mean over models released within six months of this one.
    PeerAvg,
    /// Rank among the source's models.
    Rank,
}

impl ComparatorMode {
    /// The mode after this one: field avg, peer avg, rank, off, and around.
    pub open spec fn spec_next(self) -> ComparatorMode {
        match self {
            ComparatorMode::FieldAvg => ComparatorMode::PeerAvg,
            ComparatorMode::PeerAvg => ComparatorMode::Rank,
            ComparatorMode::Rank => ComparatorMode::Off,
            ComparatorMode::Off => ComparatorMode::FieldAvg,
        }
    }

    /// Cycle to the next comparator mode.
    pub fn next(self) -> (r: ComparatorMode)
        ensures
            r == self.spec_next(),
    {
        match self {
            ComparatorMode::FieldAvg => ComparatorMode::PeerAvg,
            ComparatorMode::PeerAvg => ComparatorMode::Rank,
            ComparatorMode::Rank => ComparatorMode::Off,
            ComparatorMode::Off => ComparatorMode::FieldAvg,
        }
    }

    /// Suffix appended to the detail panel title for this mode.
    pub open spec fn spec_title_suffix(self) -> Seq<char> {
        match self {
            ComparatorMode::Off => Seq::empty(),
            ComparatorMode::FieldAvg => " \u{00B7} vs field avg"@,
            ComparatorMode::PeerAvg => " \u{00B7} vs peers (\u{00B1}6mo)"@,
            ComparatorMode::Rank => " \u{00B7} rank"@,
        }
    }

    /// Suffix appended to the detail panel title for this mode.
    pub fn title_suffix(self) -> (r: &'static str)
        ensures
            r@ == self.spec_title_suffix(),
    {
        match self {
            ComparatorMode::Off => {
                proof {
                    reveal_strlit("");
                }
                ""
            },
            ComparatorMode::FieldAvg => " \u{00B7} vs field avg",
            ComparatorMode::PeerAvg => " \u{00B7} vs peers (\u{00B1}6mo)",
            ComparatorMode::Rank => " \u{00B7} rank",
        }
    }
}

impl Default for ComparatorMode {
    /// Field average is the starting comparator.
    fn default() -> (r: ComparatorMode)
        ensures
            r == ComparatorMode::FieldAvg,
    {
        ComparatorMode::FieldAvg
    }
}

/// Cycling the comparator four times returns to the start.
pub proof fn lemma_comparator_cycle(m: ComparatorMode)
    ensures
        m.spec_next().spec_next().spec_next().spec_next() == m,
        m.spec_next() != m,
{
}

/// Short human-readable scale blurb for a metric kind.
pub open spec fn spec_kind_blurb(kind: MetricKind) -> Seq<char> {
    match kind {
        MetricKind::Percentage => "% score"@,
        MetricKind::Index => "index"@,
        MetricKind::Elo => "Elo rating"@,
        MetricKind::TokensPerSec => "tokens/sec"@,
        MetricKind::Seconds => "seconds"@,
        MetricKind::UsdPerMTok => "$ per 1M tokens"@,
    }
}

/// Short human-readable scale blurb for a metric kind, used as the
/// parenthetical suffix on uniform-kind section headers and in the glossary.
pub fn kind_blurb(kind: MetricKind) -> (r: &'static str)
    ensures
        r@ == spec_kind_blurb(kind),
{
    match kind {
        MetricKind::Percentage => "% score",
        MetricKind::Index => "index",
        MetricKind::Elo => "Elo rating",
        MetricKind::TokensPerSec => "tokens/sec",
        MetricKind::Seconds => "seconds",
        MetricKind::UsdPerMTok => "$ per 1M tokens",
    }
}

/// Direction phrase for one metric.
pub open spec fn spec_direction_blurb(higher_is_better: bool) -> Seq<char> {
    if higher_is_better { "higher is better"@ } else { "lower is better"@ }
}

/// Direction phrase for a single metric (glossary meta line).
pub fn direction_blurb(higher_is_better: bool) -> (r: &'static str)
    ensures
        r@ == spec_direction_blurb(higher_is_better),
{
    if higher_is_better {
        "higher is better"
    } else {
        "lower is better"
    }
}

/// The indices of the metrics in group `g`.
pub open spec fn members(file: SourceFile, g: Seq<char>) -> Seq<usize> {
    group_indices(file.metrics@, g, file.metrics@.len())
}

/// Every metric of group `g` has the kind of its first member.
pub open spec fn group_kind_uniform(file: SourceFile, g: Seq<char>) -> bool {
    let idx = members(file, g);
    forall|j: int| 0 <= j < idx.len() ==> file.metrics@[#[trigger] idx[j] as int].kind == file.metrics@[idx[0] as int].kind
}

/// Every metric of group `g` has the direction of its first member.
pub open spec fn group_direction_uniform(file: SourceFile, g: Seq<char>) -> bool {
    let idx = members(file, g);
    forall|j: int| 0 <= j < idx.len() ==> file.metrics@[#[trigger] idx[j] as int].higher_is_better
        == file.metrics@[idx[0] as int].higher_is_better
}

/// The scale blurb shared by a group, when it has members that all share one
/// kind.
pub open spec fn spec_group_kind_blurb(file: SourceFile, g: Seq<char>) -> Option<Seq<char>> {
    let idx = members(file, g);
    if idx.len() > 0 && group_kind_uniform(file, g) {
        Some(spec_kind_blurb(file.metrics@[idx[0] as int].kind))
    } else {
        None
    }
}

/// The direction phrase shared by a group, when it has members that all
/// agree on it.
pub open spec fn spec_group_direction_blurb(file: SourceFile, g: Seq<char>) -> Option<Seq<char>> {
    let idx = members(file, g);
    if idx.len() > 0 && group_direction_uniform(file, g) {
        Some(spec_direction_blurb(file.metrics@[idx[0] as int].higher_is_better))
    } else {
        None
    }
}

/// Every index `group_indices` yields is in range and names a member of `g`.
pub proof fn lemma_group_indices_valid(ms: Seq<MetricDef>, g: Seq<char>, n: nat)
    requires
        n <= ms.len(),
        n <= usize::MAX,
    ensures
        forall|j: int| 0 <= j < group_indices(ms, g, n).len() ==> {
            &&& #[trigger] group_indices(ms, g, n)[j] < n
            &&& ms[group_indices(ms, g, n)[j] as int].group@ == g
        },
    decreases n,
{
    if n > 0 {
        lemma_group_indices_valid(ms, g, (n - 1) as nat);
        let acc = group_indices(ms, g, (n - 1) as nat);
        let cur = group_indices(ms, g, n);
        assert forall|j: int| 0 <= j < cur.len() implies {
            &&& #[trigger] cur[j] < n
            &&& ms[cur[j] as int].group@ == g
        } by {
            if j < acc.len() {
                assert(cur[j] == acc[j]);
            } else {
                assert(cur[j] == (n - 1) as usize);
            }
        }
    }
}

/// Find the members of group `g`.
pub(crate) fn member_indices(file: &SourceFile, g: &str) -> (r: Vec<usize>)
    ensures
        r@ == members(*file, g@),
        forall|j: int| 0 <= j < r@.len() ==> #[trigger] r@[j] < file.metrics@.len(),
{
    let r = crate::benchmarks::schema::metric_indices_in_group(file, g);
    let _n = file.metrics.len();
    proof {
        lemma_group_indices_valid(file.metrics@, g@, file.metrics@.len());
    }
    r
}

/// The shared scale blurb for `group`, when every metric in it has the same
/// kind. Mixed-kind groups give `None` so no suffix is appended.
pub fn group_kind_blurb(file: &SourceFile, group: &str) -> (r: Option<&'static str>)
    ensures
        r is None <==> spec_group_kind_blurb(*file, group@) is None,
        r matches Some(s) ==> spec_group_kind_blurb(*file, group@) == Some(s@),
{
    let idx = member_indices(file, group);
    if idx.len() == 0 {
        return None;
    }
    let first = file.metrics[idx[0]].kind;
    let mut i: usize = 0;
    while i < idx.len()
        invariant
            0 < idx.len(),
            i <= idx.len(),
            idx@ == members(*file, group@),
            forall|j: int| 0 <= j < idx@.len() ==> #[trigger] idx@[j] < file.metrics@.len(),
            first == file.metrics@[idx@[0] as int].kind,
            forall|j: int| 0 <= j < i ==> file.metrics@[#[trigger] idx@[j] as int].kind == first,
        decreases idx.len() - i,
    {
        if file.metrics[idx[i]].kind != first {
            return None;
        }
        i = i + 1;
    }
    Some(kind_blurb(first))
}

/// Direction phrase when every metric in the group agrees on it.
pub fn group_direction_blurb(file: &SourceFile, group: &str) -> (r: Option<&'static str>)
    ensures
        r is None <==> spec_group_direction_blurb(*file, group@) is None,
        r matches Some(s) ==> spec_group_direction_blurb(*file, group@) == Some(s@),
{
    let idx = member_indices(file, group);
    if idx.len() == 0 {
        return None;
    }
    let first = file.metrics[idx[0]].higher_is_better;
    let mut i: usize = 0;
    while i < idx.len()
        invariant
            0 < idx.len(),
            i <= idx.len(),
            idx@ == members(*file, group@),
            forall|j: int| 0 <= j < idx@.len() ==> #[trigger] idx@[j] < file.metrics@.len(),
            first == file.metrics@[idx@[0] as int].higher_is_better,
            forall|j: int| 0 <= j < i ==> file.metrics@[#[trigger] idx@[j] as int].higher_is_better == first,
        decreases idx.len() - i,
    {
        if file.metrics[idx[i]].higher_is_better != first {
            return None;
        }
        i = i + 1;
    }
    Some(direction_blurb(first))
}

/// The separator between the scale and direction blurbs.
pub open spec fn middle_dot_sep() -> Seq<char> {
    seq![' ', '\u{00B7}', ' ']
}

/// Combined section-header suffix: scale blurb and/or direction, joined with
/// " · " when both are present.
pub open spec fn spec_group_header_suffix(file: SourceFile, g: Seq<char>) -> Option<Seq<char>> {
    match (spec_group_kind_blurb(file, g), spec_group_direction_blurb(file, g)) {
        (Some(k), Some(d)) => Some(k + middle_dot_sep() + d),
        (Some(k), None) => Some(k),
        (None, Some(d)) => Some(d),
        (None, None) => None,
    }
}

/// Combined section-header suffix for `group`.
pub fn group_header_suffix(file: &SourceFile, group: &str) -> (r: Option<String>)
    ensures
        r is None <==> spec_group_header_suffix(*file, group@) is None,
        r matches Some(s) ==> spec_group_header_suffix(*file, group@) == Some(s@),
{
    match (group_kind_blurb(file, group), group_direction_blurb(file, group)) {
        (Some(kind), Some(dir)) => {
            let mut v = chars_of(kind);
            v.push(' ');
            v.push('\u{00B7}');
            v.push(' ');
            let d = chars_of(dir);
            let mut i: usize = 0;
            let ghost base = v@;
            while i < d.len()
                invariant
                    i <= d.len(),
                    v@ == base + d@.take(i as int),
                decreases d.len() - i,
            {
                v.push(d[i]);
                i = i + 1;
                assert(v@ =~= base + d@.take(i as int));
            }
            assert(v@ =~= kind@ + middle_dot_sep() + dir@);
            Some(string_from_chars(&v))
        },
        (Some(kind), None) => Some(owned(kind)),
        (None, Some(dir)) => Some(owned(dir)),
        (None, None) => None,
    }
}

/// Header label for the active sort value column: empty for name sort,
/// "Released" for date sort, the metric's short label for a metric sort (an
/// em-dash when the metric is unknown).
pub open spec fn spec_list_value_header(file: Option<SourceFile>, key: SortKey) -> Seq<char> {
    match key {
        SortKey::Name => Seq::empty(),
        SortKey::ReleaseDate => "Released"@,
        SortKey::Metric(mi) => match file {
            Some(f) => if mi < f.metrics@.len() {
                spec_short_label(f.metrics@[mi as int])
            } else {
                em_dash()
            },
            None => em_dash(),
        },
    }
}

/// Header label for the active sort value column.
pub fn list_value_header(file: Option<&SourceFile>, key: SortKey) -> (r: String)
    ensures
        r@ == spec_list_value_header(
            match file { Some(f) => Some(*f), None => None },
            key,
        ),
{
    match key {
        SortKey::Name => {
            let v: Vec<char> = Vec::new();
            assert(v@ =~= Seq::<char>::empty());
            string_from_chars(&v)
        },
        SortKey::ReleaseDate => owned("Released"),
        SortKey::Metric(mi) => match file {
            Some(f) => if mi < f.metrics.len() {
                short_label(&f.metrics[mi])
            } else {
                em_dash_string()
            },
            None => em_dash_string(),
        },
    }
}


/// Color of the `index`-th selected model in comparison views (eight colors,
/// repeating).
pub open spec fn spec_compare_color(index: usize) -> TermColor {
    let i = index % 8;
    if i == 0 { TermColor::Red }
    else if i == 1 { TermColor::Green }
    else if i == 2 { TermColor::Blue }
    else if i == 3 { TermColor::Yellow }
    else if i == 4 { TermColor::Magenta }
    else if i == 5 { TermColor::Cyan }
    else if i == 6 { TermColor::LightRed }
    else { TermColor::LightGreen }
}

/// Color palette for selected models in comparison mode.
pub fn compare_colors(index: usize) -> (r: TermColor)
    ensures
        r == spec_compare_color(index),
{
    let i = index % 8;
    if i == 0 { TermColor::Red }
    else if i == 1 { TermColor::Green }
    else if i == 2 { TermColor::Blue }
    else if i == 3 { TermColor::Yellow }
    else if i == 4 { TermColor::Magenta }
    else if i == 5 { TermColor::Cyan }
    else if i == 6 { TermColor::LightRed }
    else { TermColor::LightGreen }
}

/// Reasoning indicator of a list row: text and color.
pub open spec fn spec_reasoning_span(status: ReasoningStatus) -> (Seq<char>, TermColor) {
    match status {
        ReasoningStatus::Reasoning => ("R  "@, TermColor::Cyan),
        ReasoningStatus::NonReasoning => ("NR "@, TermColor::DarkGray),
        ReasoningStatus::Adaptive => ("AR "@, TermColor::Yellow),
        ReasoningStatus::Unmarked => ("   "@, TermColor::Reset),
    }
}

/// Reasoning status indicator (R / NR / AR / blank).
pub fn reasoning_span(model: &ModelRow) -> (r: (&'static str, TermColor))
    ensures
        (r.0@, r.1) == spec_reasoning_span(model.reasoning_status),
{
    match model.reasoning_status {
        ReasoningStatus::Reasoning => ("R  ", TermColor::Cyan),
        ReasoningStatus::NonReasoning => ("NR ", TermColor::DarkGray),
        ReasoningStatus::Adaptive => ("AR ", TermColor::Yellow),
        ReasoningStatus::Unmarked => ("   ", TermColor::Reset),
    }
}

/// Open/closed indicator of a list row: text and color.
pub open spec fn spec_openness_span(open: Option<bool>) -> (Seq<char>, TermColor) {
    match open {
        Some(true) => ("O "@, TermColor::Green),
        Some(false) => ("C "@, TermColor::Red),
        None => ("  "@, TermColor::Reset),
    }
}

/// Open/closed source indicator. Openness is resolved per model first,
/// falling back to the creator-openness map.
pub fn openness_span(model: &ModelRow, openness: &OpennessMap) -> (r: (&'static str, TermColor))
    ensures
        (r.0@, r.1) == spec_openness_span(resolved_openness(*model, *openness)),
{
    let open = match model.open_weights {
        Some(b) => Some(b),
        None => openness.get(model.creator.as_str()),
    };
    match open {
        Some(true) => ("O ", TermColor::Green),
        Some(false) => ("C ", TermColor::Red),
        None => ("  ", TermColor::Reset),
    }
}

/// What the list panel shows instead of rows for the active source.
#[derive(Debug, Clone, Copy, PartialEq, Eq, Structural)]
pub enum SourceState {
    /// The source failed to load.
    Failed,
    /// The source is not loaded yet.
    Loading,
    /// The source loaded with no models.
    NoModels,
    /// The source has rows to show.
    Ready,
}

/// Loading / failed / empty state of the active source; `Ready` when a
/// loaded non-empty file is available.
pub open spec fn spec_source_state(store: MultiStore, active: int) -> SourceState {
    if store.spec_is_failed(active) {
        SourceState::Failed
    } else {
        match store.spec_file(active) {
            None => SourceState::Loading,
            Some(f) => if f.models@.len() == 0 { SourceState::NoModels } else { SourceState::Ready },
        }
    }
}

/// Loading / failed / empty state of the active source.
pub fn source_state(store: &MultiStore, active: usize) -> (r: SourceState)
    ensures
        r == spec_source_state(*store, active as int),
{
    if crate::benchmarks::app::BenchmarksApp::active_is_failed(store, active) {
        return SourceState::Failed;
    }
    match store.file(active) {
        None => SourceState::Loading,
        Some(f) => if f.models.len() == 0 { SourceState::NoModels } else { SourceState::Ready },
    }
}

/// The name a failure message gives source slot `active`: its descriptor's
/// name, or "source" when there is no such slot.
pub open spec fn spec_failed_source_name(store: MultiStore, active: int) -> Seq<char> {
    if 0 <= active < store.sources@.len() {
        store.sources@[active].descriptor.name@
    } else {
        "source"@
    }
}

/// The line the list panel shows in place of rows: a red "✗ Failed to fetch
/// <name> data" for a failed source, a yellow "Loading..." while not loaded,
/// a gray "No models" for an empty file, and nothing when there are rows.
pub open spec fn spec_source_state_line(store: MultiStore, active: int) -> Option<TextSpanView> {
    match spec_source_state(store, active) {
        SourceState::Failed => Some(TextSpanView {
            text: "\u{2717} Failed to fetch "@ + spec_failed_source_name(store, active) + " data"@,
            color: Some(TermColor::Red),
        }),
        SourceState::Loading => Some(TextSpanView { text: "Loading..."@, color: Some(TermColor::Yellow) }),
        SourceState::NoModels => Some(TextSpanView { text: "No models"@, color: Some(TermColor::DarkGray) }),
        SourceState::Ready => None,
    }
}

/// The loading / failed / empty line of the active source, if any.
pub fn source_state_line(store: &MultiStore, active: usize) -> (r: Option<TextSpan>)
    ensures
        match r {
            Some(sp) => spec_source_state_line(*store, active as int) == Some(span_view(sp)),
            None => spec_source_state_line(*store, active as int) is None,
        },
{
    match source_state(store, active) {
        SourceState::Failed => {
            let name: &str = match crate::benchmarks::app::BenchmarksApp::active_descriptor(store, active) {
                Some(d) => d.name.as_str(),
                None => "source",
            };
            let mut t: Vec<char> = Vec::new();
            push_str(&mut t, "\u{2717} Failed to fetch ");
            push_str(&mut t, name);
            push_str(&mut t, " data");
            Some(TextSpan { text: string_from_chars(&t), color: Some(TermColor::Red) })
        },
        SourceState::Loading => Some(TextSpan { text: owned("Loading..."), color: Some(TermColor::Yellow) }),
        SourceState::NoModels => Some(TextSpan { text: owned("No models"), color: Some(TermColor::DarkGray) }),
        SourceState::Ready => None,
    }
}

} // verus!

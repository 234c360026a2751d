//! Benchmark browsing state: focus, filters, creator sidebar, sorting and
//! list navigation.

use vstd::prelude::*;
use crate::text::{str_eq, owned, chars_of, to_lower, lowercase, contains_seq, contains_lower};
use crate::sorting::{insertion_sorted, SortVal, SortValView, sort_by_keys, is_stable_sort, key_views, lex_le, val_view, stable_arrangement, ordered};
use crate::palette::TermColor;
use crate::benchmarks::schema::{SortKey, ModelRow, OpennessMap, ReasoningFilter, SourceFile, spec_radar_groups, radar_groups, metric_cell, metric_score, score_of, find_score, MetricKind, MultiStore, SourceLoad, SourceDescriptor, spec_default_sort, default_sort, spec_creator_openness, creator_openness};
use crate::sorting::{all_below, lemma_val_le_total, val_le};
use crate::benchmarks::render::ComparatorMode;
use crate::scroll::ScrollOffset;

verus! {

/// Page size for page up/down navigation.
pub const PAGE_SIZE: usize = 10;

/// A single entry in the dynamic sort picker.
#[derive(Debug, Clone)]
pub struct SortOption {
    pub key: SortKey,
    pub label: String,
}

/// Which panel of the benchmark view has keyboard focus.
#[derive(Debug, Clone, Copy, PartialEq, Eq, Structural)]
pub enum BenchmarkFocus {
    Creators,
    List,
    Details,
    Compare,
}

impl Default for BenchmarkFocus {
    /// The model list starts focused.
    fn default() -> (r: BenchmarkFocus)
        ensures
            r == BenchmarkFocus::List,
    {
        BenchmarkFocus::List
    }
}

/// One row of the creator sidebar.
#[derive(Debug, Clone, PartialEq, Eq)]
pub enum CreatorListItem {
    All,
    /// Non-selectable section header.
    GroupHeader(String),
    /// Creator slug.
    Creator(String),
}

/// Per-model source filter: prefers the model's own `open_weights`, falling
/// back to the creator-openness map. Entries with unknown openness are
/// excluded when filtering by Open or Closed.
#[derive(Debug, Clone, Copy, PartialEq, Eq, Structural)]
pub enum SourceFilter {
    All,
    Open,
    Closed,
}

impl Default for SourceFilter {
    /// All models are shown at first.
    fn default() -> (r: SourceFilter)
        ensures
            r == SourceFilter::All,
    {
        SourceFilter::All
    }
}

/// A model's openness: its own `open_weights` when set, otherwise its
/// creator's entry in `openness`.
pub open spec fn resolved_openness(model: ModelRow, openness: OpennessMap) -> Option<bool> {
    match model.open_weights {
        Some(b) => Some(b),
        None => openness.spec_get(model.creator@),
    }
}

impl SourceFilter {
    /// The filter after this one: all, open, closed, and around.
    pub open spec fn spec_next(self) -> SourceFilter {
        match self {
            SourceFilter::All => SourceFilter::Open,
            SourceFilter::Open => SourceFilter::Closed,
            SourceFilter::Closed => SourceFilter::All,
        }
    }

    /// Cycle to the next filter.
    pub fn next(self) -> (r: SourceFilter)
        ensures
            r == self.spec_next(),
    {
        match self {
            SourceFilter::All => SourceFilter::Open,
            SourceFilter::Open => SourceFilter::Closed,
            SourceFilter::Closed => SourceFilter::All,
        }
    }

    /// Display label.
    pub open spec fn spec_label(self) -> Seq<char> {
        match self {
            SourceFilter::All => "All"@,
            SourceFilter::Open => "Open"@,
            SourceFilter::Closed => "Closed"@,
        }
    }

    /// Display label.
    pub fn label(self) -> (r: &'static str)
        ensures
            r@ == self.spec_label(),
    {
        match self {
            SourceFilter::All => "All",
            SourceFilter::Open => "Open",
            SourceFilter::Closed => "Closed",
        }
    }

    /// Does a model of resolved openness `open` pass?
    pub open spec fn spec_passes(self, open: Option<bool>) -> bool {
        match self {
            SourceFilter::All => true,
            SourceFilter::Open => open == Some(true),
            SourceFilter::Closed => open == Some(false),
        }
    }

    /// Check if a model passes the filter. Openness is resolved per model
    /// first, falling back to the creator-openness map.
    pub fn matches(self, model: &ModelRow, openness: &OpennessMap) -> (r: bool)
        ensures
            r == self.spec_passes(resolved_openness(*model, *openness)),
    {
        let open = match model.open_weights {
            Some(b) => Some(b),
            None => openness.get(model.creator.as_str()),
        };
        match self {
            SourceFilter::All => true,
            SourceFilter::Open => open == Some(true),
            SourceFilter::Closed => open == Some(false),
        }
    }
}

/// Cycling the source filter three times returns to the start.
pub proof fn lemma_source_filter_cycle(f: SourceFilter)
    ensures
        f.spec_next().spec_next().spec_next() == f,
        f.spec_next() != f,
{
}

/// Region a model creator is based in.
#[derive(Debug, Clone, Copy, PartialEq, Eq, Structural)]
pub enum CreatorRegion {
    US,
    China,
    Europe,
    MiddleEast,
    SouthKorea,
    Canada,
    Other,
}

/// The region of a creator slug.
pub open spec fn spec_region_of(s: Seq<char>) -> CreatorRegion {
    if s == "openai"@ || s == "anthropic"@ || s == "google"@ || s == "meta"@ || s == "xai"@ || s == "aws"@ || s == "nvidia"@ || s == "perplexity"@ || s == "azure"@ || s == "ibm"@ || s == "databricks"@ || s == "servicenow"@ || s == "snowflake"@ || s == "liquidai"@ || s == "nous-research"@ || s == "ai2"@ || s == "prime-intellect"@ || s == "deepcogito"@ || s == "reka-ai"@ {
        CreatorRegion::US
    } else if s == "deepseek"@ || s == "alibaba"@ || s == "kimi"@ || s == "minimax"@ || s == "stepfun"@ || s == "baidu"@ || s == "bytedance_seed"@ || s == "xiaomi"@ || s == "inclusionai"@ || s == "kwaikat"@ || s == "zai"@ || s == "openchat"@ {
        CreatorRegion::China
    } else if s == "mistral"@ {
        CreatorRegion::Europe
    } else if s == "tii-uae"@ || s == "mbzuai"@ || s == "ai21-labs"@ {
        CreatorRegion::MiddleEast
    } else if s == "naver"@ || s == "korea-telecom"@ || s == "lg"@ || s == "upstage"@ || s == "motif-technologies"@ {
        CreatorRegion::SouthKorea
    } else if s == "cohere"@ {
        CreatorRegion::Canada
    } else {
        CreatorRegion::Other
    }
}

/// The region whose label is `s`, if any.
pub open spec fn spec_region_from_label(s: Seq<char>) -> Option<CreatorRegion> {
    if s == "US"@ {
        Some(CreatorRegion::US)
    } else if s == "China"@ {
        Some(CreatorRegion::China)
    } else if s == "Europe"@ {
        Some(CreatorRegion::Europe)
    } else if s == "Middle East"@ {
        Some(CreatorRegion::MiddleEast)
    } else if s == "S. Korea"@ {
        Some(CreatorRegion::SouthKorea)
    } else if s == "Canada"@ {
        Some(CreatorRegion::Canada)
    } else if s == "Other"@ {
        Some(CreatorRegion::Other)
    } else {
        None
    }
}

impl CreatorRegion {
    /// Full region name.
    pub open spec fn spec_label(self) -> Seq<char> {
        match self {
            CreatorRegion::US => "US"@,
            CreatorRegion::China => "China"@,
            CreatorRegion::Europe => "Europe"@,
            CreatorRegion::MiddleEast => "Middle East"@,
            CreatorRegion::SouthKorea => "S. Korea"@,
            CreatorRegion::Canada => "Canada"@,
            CreatorRegion::Other => "Other"@,
        }
    }

    /// Full region name.
    pub fn label(self) -> (r: &'static str)
        ensures
            r@ == self.spec_label(),
    {
        match self {
            CreatorRegion::US => "US",
            CreatorRegion::China => "China",
            CreatorRegion::Europe => "Europe",
            CreatorRegion::MiddleEast => "Middle East",
            CreatorRegion::SouthKorea => "S. Korea",
            CreatorRegion::Canada => "Canada",
            CreatorRegion::Other => "Other",
        }
    }

    /// Two-letter region tag.
    pub open spec fn spec_short_label(self) -> Seq<char> {
        match self {
            CreatorRegion::US => "US"@,
            CreatorRegion::China => "CN"@,
            CreatorRegion::Europe => "EU"@,
            CreatorRegion::MiddleEast => "ME"@,
            CreatorRegion::SouthKorea => "KR"@,
            CreatorRegion::Canada => "CA"@,
            CreatorRegion::Other => "??"@,
        }
    }

    /// Two-letter region tag.
    pub fn short_label(self) -> (r: &'static str)
        ensures
            r@ == self.spec_short_label(),
    {
        match self {
            CreatorRegion::US => "US",
            CreatorRegion::China => "CN",
            CreatorRegion::Europe => "EU",
            CreatorRegion::MiddleEast => "ME",
            CreatorRegion::SouthKorea => "KR",
            CreatorRegion::Canada => "CA",
            CreatorRegion::Other => "??",
        }
    }

    /// Display color.
    pub open spec fn spec_color(self) -> TermColor {
        match self {
            CreatorRegion::US => TermColor::Blue,
            CreatorRegion::China => TermColor::Red,
            CreatorRegion::Europe => TermColor::Magenta,
            CreatorRegion::MiddleEast => TermColor::Yellow,
            CreatorRegion::SouthKorea => TermColor::Cyan,
            CreatorRegion::Canada => TermColor::Green,
            CreatorRegion::Other => TermColor::DarkGray,
        }
    }

    /// Display color.
    pub fn color(self) -> (r: TermColor)
        ensures
            r == self.spec_color(),
    {
        match self {
            CreatorRegion::US => TermColor::Blue,
            CreatorRegion::China => TermColor::Red,
            CreatorRegion::Europe => TermColor::Magenta,
            CreatorRegion::MiddleEast => TermColor::Yellow,
            CreatorRegion::SouthKorea => TermColor::Cyan,
            CreatorRegion::Canada => TermColor::Green,
            CreatorRegion::Other => TermColor::DarkGray,
        }
    }

    /// The region whose label is `label`.
    pub fn from_label(label: &str) -> (r: Option<CreatorRegion>)
        ensures
            r == spec_region_from_label(label@),
    {
        if str_eq(label, "US") {
            return Some(CreatorRegion::US);
        }
        if str_eq(label, "China") {
            return Some(CreatorRegion::China);
        }
        if str_eq(label, "Europe") {
            return Some(CreatorRegion::Europe);
        }
        if str_eq(label, "Middle East") {
            return Some(CreatorRegion::MiddleEast);
        }
        if str_eq(label, "S. Korea") {
            return Some(CreatorRegion::SouthKorea);
        }
        if str_eq(label, "Canada") {
            return Some(CreatorRegion::Canada);
        }
        if str_eq(label, "Other") {
            return Some(CreatorRegion::Other);
        }
        None
    }

    /// The region of a creator slug (unknown creators are `Other`).
    pub fn from_creator(slug: &str) -> (r: CreatorRegion)
        ensures
            r == spec_region_of(slug@),
    {
        if str_eq(slug, "openai") || str_eq(slug, "anthropic") || str_eq(slug, "google") || str_eq(slug, "meta") || str_eq(slug, "xai") || str_eq(slug, "aws") || str_eq(slug, "nvidia") || str_eq(slug, "perplexity") || str_eq(slug, "azure") || str_eq(slug, "ibm") || str_eq(slug, "databricks") || str_eq(slug, "servicenow") || str_eq(slug, "snowflake") || str_eq(slug, "liquidai") || str_eq(slug, "nous-research") || str_eq(slug, "ai2") || str_eq(slug, "prime-intellect") || str_eq(slug, "deepcogito") || str_eq(slug, "reka-ai") {
            return CreatorRegion::US;
        }
        if str_eq(slug, "deepseek") || str_eq(slug, "alibaba") || str_eq(slug, "kimi") || str_eq(slug, "minimax") || str_eq(slug, "stepfun") || str_eq(slug, "baidu") || str_eq(slug, "bytedance_seed") || str_eq(slug, "xiaomi") || str_eq(slug, "inclusionai") || str_eq(slug, "kwaikat") || str_eq(slug, "zai") || str_eq(slug, "openchat") {
            return CreatorRegion::China;
        }
        if str_eq(slug, "mistral") {
            return CreatorRegion::Europe;
        }
        if str_eq(slug, "tii-uae") || str_eq(slug, "mbzuai") || str_eq(slug, "ai21-labs") {
            return CreatorRegion::MiddleEast;
        }
        if str_eq(slug, "naver") || str_eq(slug, "korea-telecom") || str_eq(slug, "lg") || str_eq(slug, "upstage") || str_eq(slug, "motif-technologies") {
            return CreatorRegion::SouthKorea;
        }
        if str_eq(slug, "cohere") {
            return CreatorRegion::Canada;
        }
        CreatorRegion::Other
    }
}

/// A region's label reads back as that region.
pub proof fn lemma_region_label_roundtrip(r: CreatorRegion)
    ensures
        spec_region_from_label(r.spec_label()) == Some(r),
{
    reveal_strlit("US");
    reveal_strlit("China");
    reveal_strlit("Europe");
    reveal_strlit("Middle East");
    reveal_strlit("S. Korea");
    reveal_strlit("Canada");
    reveal_strlit("Other");
    assert("US"@.len() != "China"@.len() || "US"@[0] != "China"@[0]);
    assert("US"@.len() != "Europe"@.len() || "US"@[0] != "Europe"@[0]);
    assert("US"@.len() != "Middle East"@.len() || "US"@[0] != "Middle East"@[0]);
    assert("US"@.len() != "S. Korea"@.len() || "US"@[0] != "S. Korea"@[0]);
    assert("US"@.len() != "Canada"@.len() || "US"@[0] != "Canada"@[0]);
    assert("US"@.len() != "Other"@.len() || "US"@[0] != "Other"@[0]);
    assert("China"@.len() != "Europe"@.len() || "China"@[0] != "Europe"@[0]);
    assert("China"@.len() != "Middle East"@.len() || "China"@[0] != "Middle East"@[0]);
    assert("China"@.len() != "S. Korea"@.len() || "China"@[0] != "S. Korea"@[0]);
    assert("China"@.len() != "Canada"@.len() || "China"@[0] != "Canada"@[0]);
    assert("China"@.len() != "Other"@.len() || "China"@[0] != "Other"@[0]);
    assert("Europe"@.len() != "Middle East"@.len() || "Europe"@[0] != "Middle East"@[0]);
    assert("Europe"@.len() != "S. Korea"@.len() || "Europe"@[0] != "S. Korea"@[0]);
    assert("Europe"@.len() != "Canada"@.len() || "Europe"@[0] != "Canada"@[0]);
    assert("Europe"@.len() != "Other"@.len() || "Europe"@[0] != "Other"@[0]);
    assert("Middle East"@.len() != "S. Korea"@.len() || "Middle East"@[0] != "S. Korea"@[0]);
    assert("Middle East"@.len() != "Canada"@.len() || "Middle East"@[0] != "Canada"@[0]);
    assert("Middle East"@.len() != "Other"@.len() || "Middle East"@[0] != "Other"@[0]);
    assert("S. Korea"@.len() != "Canada"@.len() || "S. Korea"@[0] != "Canada"@[0]);
    assert("S. Korea"@.len() != "Other"@.len() || "S. Korea"@[0] != "Other"@[0]);
    assert("Canada"@.len() != "Other"@.len() || "Canada"@[0] != "Other"@[0]);
}

/// How creators are grouped in the sidebar (toggle, not filter).
#[derive(Debug, Clone, Copy, PartialEq, Eq, Structural)]
pub enum CreatorGrouping {
    Ungrouped,
    ByRegion,
    ByType,
}

impl Default for CreatorGrouping {
    /// Creators start ungrouped.
    fn default() -> (r: CreatorGrouping)
        ensures
            r == CreatorGrouping::Ungrouped,
    {
        CreatorGrouping::Ungrouped
    }
}

/// Kind of organization a model creator is.
#[derive(Debug, Clone, Copy, PartialEq, Eq, Structural)]
pub enum CreatorType {
    Startup,
    Giant,
    Research,
}

/// The organization type of a creator slug.
pub open spec fn spec_type_of(s: Seq<char>) -> CreatorType {
    if s == "google"@ || s == "meta"@ || s == "aws"@ || s == "nvidia"@ || s == "alibaba"@ || s == "azure"@ || s == "ibm"@ || s == "servicenow"@ || s == "snowflake"@ || s == "baidu"@ || s == "bytedance_seed"@ || s == "xiaomi"@ || s == "naver"@ || s == "korea-telecom"@ || s == "lg"@ || s == "kwaikat"@ || s == "databricks"@ || s == "zai"@ || s == "inclusionai"@ {
        CreatorType::Giant
    } else if s == "tii-uae"@ || s == "mbzuai"@ || s == "nous-research"@ || s == "ai2"@ || s == "openchat"@ {
        CreatorType::Research
    } else {
        CreatorType::Startup
    }
}

/// The type whose label is `s`, if any.
pub open spec fn spec_type_from_label(s: Seq<char>) -> Option<CreatorType> {
    if s == "Startup"@ {
        Some(CreatorType::Startup)
    } else if s == "Big Tech"@ {
        Some(CreatorType::Giant)
    } else if s == "Research"@ {
        Some(CreatorType::Research)
    } else {
        None
    }
}

impl CreatorType {
    /// Display color.
    pub open spec fn spec_color(self) -> TermColor {
        match self {
            CreatorType::Startup => TermColor::Green,
            CreatorType::Giant => TermColor::Blue,
            CreatorType::Research => TermColor::Magenta,
        }
    }

    /// Display color.
    pub fn color(self) -> (r: TermColor)
        ensures
            r == self.spec_color(),
    {
        match self {
            CreatorType::Startup => TermColor::Green,
            CreatorType::Giant => TermColor::Blue,
            CreatorType::Research => TermColor::Magenta,
        }
    }

    /// Full type name.
    pub open spec fn spec_label(self) -> Seq<char> {
        match self {
            CreatorType::Startup => "Startup"@,
            CreatorType::Giant => "Big Tech"@,
            CreatorType::Research => "Research"@,
        }
    }

    /// Full type name.
    pub fn label(self) -> (r: &'static str)
        ensures
            r@ == self.spec_label(),
    {
        match self {
            CreatorType::Startup => "Startup",
            CreatorType::Giant => "Big Tech",
            CreatorType::Research => "Research",
        }
    }

    /// Two-letter type tag.
    pub open spec fn spec_short_label(self) -> Seq<char> {
        match self {
            CreatorType::Startup => "SU"@,
            CreatorType::Giant => "BT"@,
            CreatorType::Research => "RS"@,
        }
    }

    /// Two-letter type tag.
    pub fn short_label(self) -> (r: &'static str)
        ensures
            r@ == self.spec_short_label(),
    {
        match self {
            CreatorType::Startup => "SU",
            CreatorType::Giant => "BT",
            CreatorType::Research => "RS",
        }
    }

    /// The type whose label is `label`.
    pub fn from_label(label: &str) -> (r: Option<CreatorType>)
        ensures
            r == spec_type_from_label(label@),
    {
        if str_eq(label, "Startup") {
            return Some(CreatorType::Startup);
        }
        if str_eq(label, "Big Tech") {
            return Some(CreatorType::Giant);
        }
        if str_eq(label, "Research") {
            return Some(CreatorType::Research);
        }
        None
    }

    /// The organization type of a creator slug (unknown creators are
    /// startups).
    pub fn from_creator(slug: &str) -> (r: CreatorType)
        ensures
            r == spec_type_of(slug@),
    {
        if str_eq(slug, "google") || str_eq(slug, "meta") || str_eq(slug, "aws") || str_eq(slug, "nvidia") || str_eq(slug, "alibaba") || str_eq(slug, "azure") || str_eq(slug, "ibm") || str_eq(slug, "servicenow") || str_eq(slug, "snowflake") || str_eq(slug, "baidu") || str_eq(slug, "bytedance_seed") || str_eq(slug, "xiaomi") || str_eq(slug, "naver") || str_eq(slug, "korea-telecom") || str_eq(slug, "lg") || str_eq(slug, "kwaikat") || str_eq(slug, "databricks") || str_eq(slug, "zai") || str_eq(slug, "inclusionai") {
            return CreatorType::Giant;
        }
        if str_eq(slug, "tii-uae") || str_eq(slug, "mbzuai") || str_eq(slug, "nous-research") || str_eq(slug, "ai2") || str_eq(slug, "openchat") {
            return CreatorType::Research;
        }
        CreatorType::Startup
    }
}

/// A creator type's label reads back as that type.
pub proof fn lemma_type_label_roundtrip(t: CreatorType)
    ensures
        spec_type_from_label(t.spec_label()) == Some(t),
{
    reveal_strlit("Startup");
    reveal_strlit("Big Tech");
    reveal_strlit("Research");
    assert("Startup"@.len() != "Big Tech"@.len() || "Startup"@[0] != "Big Tech"@[0]);
    assert("Startup"@.len() != "Research"@.len() || "Startup"@[0] != "Research"@[0]);
    assert("Big Tech"@.len() != "Research"@.len() || "Big Tech"@[0] != "Research"@[0]);
}

/// What the lower half of the compare view shows.
#[derive(Debug, Clone, Copy, PartialEq, Eq, Structural)]
pub enum BottomView {
    Detail,
    H2H,
    Scatter,
    Radar,
}

impl Default for BottomView {
    /// The detail view is shown first.
    fn default() -> (r: BottomView)
        ensures
            r == BottomView::Detail,
    {
        BottomView::Detail
    }
}


/// Pre-computed creator info: display name and model counts.
#[derive(Debug, Clone)]
pub struct CreatorInfo {
    pub slug: String,
    pub display_name: String,
    /// Models of this creator in the source.
    pub count: usize,
    /// Of those, the models passing the active filters.
    pub filtered_count: usize,
}

/// Browsing state of the benchmark tab.
#[derive(Debug, Clone)]
pub struct BenchmarksApp {
    /// Index of the active source in the store.
    pub active_source: usize,
    /// Indices into the active source's models, in display order.
    pub filtered_indices: Vec<usize>,
    pub selected: usize,
    pub focus: BenchmarkFocus,
    pub sort_key: SortKey,
    pub sort_descending: bool,
    pub search_query: String,
    pub creator_list_items: Vec<CreatorListItem>,
    pub selected_creator: usize,
    pub source_filter: SourceFilter,
    pub reasoning_filter: ReasoningFilter,
    pub creator_grouping: CreatorGrouping,
    pub creator_info: Vec<CreatorInfo>,
    /// Creator -> openness, derived from the active source's models.
    pub creator_openness: OpennessMap,
    pub bottom_view: BottomView,
    pub h2h_scroll: ScrollOffset,
    pub show_detail_overlay: bool,
    pub show_creators_in_compare: bool,
    /// Scatter axis metric indices into the active source's metrics.
    pub scatter_x: usize,
    pub scatter_y: usize,
    /// Index into the source's radar groups of the active radar preset.
    pub radar_group: usize,
    pub show_sort_picker: bool,
    pub sort_picker_selected: usize,
    pub loading: bool,
    pub detail_scroll: ScrollOffset,
    pub comparator: ComparatorMode,
    pub show_glossary: bool,
    pub glossary_scroll: ScrollOffset,
    pub show_column_picker: bool,
    pub column_picker_selected: usize,
    /// Metric columns picked for the leaderboard (indices into the metrics).
    pub visible_columns: Vec<usize>,
}

/// `len - 1`, or 0 for an empty list.
pub open spec fn last_index(len: nat) -> nat {
    if len == 0 { 0 } else { (len - 1) as nat }
}

impl BenchmarksApp {
    /// `self` with the model selection moved to `idx` and the detail panel
    /// scrolled back to the top.
    pub open spec fn with_selected(self, idx: usize) -> BenchmarksApp {
        BenchmarksApp { selected: idx, detail_scroll: ScrollOffset { offset: 0 }, ..self }
    }

    /// Scroll the detail panel back to the top.
    pub fn reset_detail_scroll(&mut self)
        ensures
            *final(self) == (BenchmarksApp { detail_scroll: ScrollOffset { offset: 0 }, ..*old(self) }),
    {
        self.detail_scroll.jump_top();
    }

    /// Move the model selection down one row (stays on the last row).
    pub fn next(&mut self)
        ensures
            *final(self) == if old(self).selected < last_index(old(self).filtered_indices@.len()) {
                old(self).with_selected((old(self).selected + 1) as usize)
            } else {
                *old(self)
            },
    {
        if self.selected < self.filtered_indices.len().saturating_sub(1) {
            self.selected = self.selected + 1;
            self.reset_detail_scroll();
        }
    }

    /// Move the model selection up one row (stays on the first row).
    pub fn prev(&mut self)
        ensures
            *final(self) == if old(self).selected > 0 {
                old(self).with_selected((old(self).selected - 1) as usize)
            } else {
                *old(self)
            },
    {
        if self.selected > 0 {
            self.selected = self.selected - 1;
            self.reset_detail_scroll();
        }
    }

    /// Select the first model row.
    pub fn select_first(&mut self)
        ensures
            *final(self) == if old(self).selected > 0 {
                old(self).with_selected(0)
            } else {
                *old(self)
            },
    {
        if self.selected > 0 {
            self.selected = 0;
            self.reset_detail_scroll();
        }
    }

    /// Select the last model row.
    pub fn select_last(&mut self)
        ensures
            *final(self) == if old(self).selected < last_index(old(self).filtered_indices@.len()) {
                old(self).with_selected(last_index(old(self).filtered_indices@.len()) as usize)
            } else {
                *old(self)
            },
    {
        let last = self.filtered_indices.len().saturating_sub(1);
        if self.selected < last {
            self.selected = last;
            self.reset_detail_scroll();
        }
    }

    /// Move the model selection down one page, stopping at the last row.
    pub fn page_down(&mut self)
        ensures
            *final(self) == old(self).with_selected(
                if old(self).selected + PAGE_SIZE < last_index(old(self).filtered_indices@.len()) {
                    (old(self).selected + PAGE_SIZE) as usize
                } else {
                    last_index(old(self).filtered_indices@.len()) as usize
                },
            ),
    {
        let last_index = self.filtered_indices.len().saturating_sub(1);
        self.selected = if self.selected.saturating_add(PAGE_SIZE) < last_index {
            self.selected + PAGE_SIZE
        } else {
            last_index
        };
        self.reset_detail_scroll();
    }

    /// Move the model selection up one page, stopping at the first row.
    pub fn page_up(&mut self)
        ensures
            *final(self) == old(self).with_selected(
                if old(self).selected < PAGE_SIZE { 0 } else { (old(self).selected - PAGE_SIZE) as usize },
            ),
    {
        self.selected = self.selected.saturating_sub(PAGE_SIZE);
        self.reset_detail_scroll();
    }

    /// The focus after a right move. With a comparison open, focus alternates
    /// between the comparison and the left panel (creators or list); otherwise
    /// it cycles creators, list, details.
    pub open spec fn spec_focus_right(self, has_compare: bool) -> BenchmarkFocus {
        if has_compare {
            match self.focus {
                BenchmarkFocus::Compare => if self.show_creators_in_compare {
                    BenchmarkFocus::Creators
                } else {
                    BenchmarkFocus::List
                },
                _ => BenchmarkFocus::Compare,
            }
        } else {
            match self.focus {
                BenchmarkFocus::Creators => BenchmarkFocus::List,
                BenchmarkFocus::List => BenchmarkFocus::Details,
                BenchmarkFocus::Details => BenchmarkFocus::Creators,
                BenchmarkFocus::Compare => BenchmarkFocus::Creators,
            }
        }
    }

    /// The focus after a left move: the browse cycle in reverse.
    pub open spec fn spec_focus_left(self, has_compare: bool) -> BenchmarkFocus {
        if has_compare {
            match self.focus {
                BenchmarkFocus::Compare => if self.show_creators_in_compare {
                    BenchmarkFocus::Creators
                } else {
                    BenchmarkFocus::List
                },
                _ => BenchmarkFocus::Compare,
            }
        } else {
            match self.focus {
                BenchmarkFocus::Creators => BenchmarkFocus::Details,
                BenchmarkFocus::List => BenchmarkFocus::Creators,
                BenchmarkFocus::Details => BenchmarkFocus::List,
                BenchmarkFocus::Compare => BenchmarkFocus::List,
            }
        }
    }

    /// Move focus right.
    pub fn focus_right(&mut self, has_compare: bool)
        ensures
            *final(self) == (BenchmarksApp { focus: old(self).spec_focus_right(has_compare), ..*old(self) }),
    {
        self.focus = if has_compare {
            let left = if self.show_creators_in_compare {
                BenchmarkFocus::Creators
            } else {
                BenchmarkFocus::List
            };
            match self.focus {
                BenchmarkFocus::Compare => left,
                _ => BenchmarkFocus::Compare,
            }
        } else {
            match self.focus {
                BenchmarkFocus::Creators => BenchmarkFocus::List,
                BenchmarkFocus::List => BenchmarkFocus::Details,
                BenchmarkFocus::Details => BenchmarkFocus::Creators,
                BenchmarkFocus::Compare => BenchmarkFocus::Creators,
            }
        };
    }

    /// Move focus left.
    pub fn focus_left(&mut self, has_compare: bool)
        ensures
            *final(self) == (BenchmarksApp { focus: old(self).spec_focus_left(has_compare), ..*old(self) }),
    {
        self.focus = if has_compare {
            let left = if self.show_creators_in_compare {
                BenchmarkFocus::Creators
            } else {
                BenchmarkFocus::List
            };
            match self.focus {
                BenchmarkFocus::Compare => left,
                _ => BenchmarkFocus::Compare,
            }
        } else {
            match self.focus {
                BenchmarkFocus::Creators => BenchmarkFocus::Details,
                BenchmarkFocus::List => BenchmarkFocus::Creators,
                BenchmarkFocus::Details => BenchmarkFocus::List,
                BenchmarkFocus::Compare => BenchmarkFocus::List,
            }
        };
    }

    /// The bottom view after a cycle: head-to-head, scatter, radar, and
    /// around; the detail view moves to head-to-head.
    pub open spec fn spec_next_bottom_view(v: BottomView) -> BottomView {
        match v {
            BottomView::H2H => BottomView::Scatter,
            BottomView::Scatter => BottomView::Radar,
            BottomView::Radar => BottomView::H2H,
            BottomView::Detail => BottomView::H2H,
        }
    }

    /// Cycle the compare view's lower panel.
    pub fn cycle_bottom_view(&mut self)
        ensures
            *final(self) == (BenchmarksApp {
                bottom_view: Self::spec_next_bottom_view(old(self).bottom_view),
                ..*old(self)
            }),
    {
        self.bottom_view = match self.bottom_view {
            BottomView::H2H => BottomView::Scatter,
            BottomView::Scatter => BottomView::Radar,
            BottomView::Radar => BottomView::H2H,
            BottomView::Detail => BottomView::H2H,
        };
    }

    /// Cycle the scatter X-axis metric (wraps over the source's metrics).
    pub fn cycle_scatter_x(&mut self, file: &SourceFile)
        ensures
            *final(self) == if file.metrics@.len() > 0 {
                BenchmarksApp {
                    scatter_x: ((old(self).scatter_x + 1) % (file.metrics@.len() as int)) as usize,
                    ..*old(self)
                }
            } else {
                *old(self)
            },
    {
        let n = file.metrics.len();
        if n > 0 {
            self.scatter_x = wrap_next(self.scatter_x, n);
        }
    }

    /// Cycle the scatter Y-axis metric (wraps over the source's metrics).
    pub fn cycle_scatter_y(&mut self, file: &SourceFile)
        ensures
            *final(self) == if file.metrics@.len() > 0 {
                BenchmarksApp {
                    scatter_y: ((old(self).scatter_y + 1) % (file.metrics@.len() as int)) as usize,
                    ..*old(self)
                }
            } else {
                *old(self)
            },
    {
        let n = file.metrics.len();
        if n > 0 {
            self.scatter_y = wrap_next(self.scatter_y, n);
        }
    }

    /// Cycle the radar preset group (wraps over the source's radar groups).
    pub fn cycle_radar_group(&mut self, file: &SourceFile)
        ensures
            *final(self) == if spec_radar_groups(*file).len() > 0 {
                BenchmarksApp {
                    radar_group: ((old(self).radar_group + 1) % (spec_radar_groups(*file).len() as int)) as usize,
                    ..*old(self)
                }
            } else {
                *old(self)
            },
    {
        let n = radar_groups(file).len();
        if n > 0 {
            self.radar_group = wrap_next(self.radar_group, n);
        }
    }

    /// Auto-transition the bottom view on the number of selected models: two
    /// or more leave the detail view for head-to-head; fewer return to detail
    /// and close the detail overlay.
    pub fn update_bottom_view(&mut self, selection_count: usize)
        ensures
            *final(self) == if selection_count >= 2 && old(self).bottom_view == BottomView::Detail {
                BenchmarksApp {
                    bottom_view: BottomView::H2H,
                    h2h_scroll: ScrollOffset { offset: 0 },
                    ..*old(self)
                }
            } else if selection_count < 2 && old(self).bottom_view != BottomView::Detail {
                BenchmarksApp {
                    bottom_view: BottomView::Detail,
                    show_detail_overlay: false,
                    h2h_scroll: ScrollOffset { offset: 0 },
                    ..*old(self)
                }
            } else {
                *old(self)
            },
    {
        if selection_count >= 2 && self.bottom_view == BottomView::Detail {
            self.bottom_view = BottomView::H2H;
            self.h2h_scroll.jump_top();
        } else if selection_count < 2 && self.bottom_view != BottomView::Detail {
            self.bottom_view = BottomView::Detail;
            self.show_detail_overlay = false;
            self.h2h_scroll.jump_top();
        }
    }

    /// Scroll the head-to-head table down a line.
    pub fn scroll_h2h_down(&mut self)
        ensures
            final(self).h2h_scroll.offset == if old(self).h2h_scroll.offset + 1 > u16::MAX {
                u16::MAX as int
            } else {
                old(self).h2h_scroll.offset + 1
            },
            *final(self) == (BenchmarksApp { h2h_scroll: final(self).h2h_scroll, ..*old(self) }),
    {
        self.h2h_scroll.increment(1);
    }

    /// Scroll the head-to-head table up a line.
    pub fn scroll_h2h_up(&mut self)
        ensures
            final(self).h2h_scroll.offset == if old(self).h2h_scroll.offset < 1 {
                0
            } else {
                old(self).h2h_scroll.offset - 1
            },
            *final(self) == (BenchmarksApp { h2h_scroll: final(self).h2h_scroll, ..*old(self) }),
    {
        self.h2h_scroll.decrement(1);
    }

    /// Scroll the head-to-head table to the top.
    pub fn scroll_h2h_top(&mut self)
        ensures
            *final(self) == (BenchmarksApp { h2h_scroll: ScrollOffset { offset: 0 }, ..*old(self) }),
    {
        self.h2h_scroll.jump_top();
    }

    /// Scroll the head-to-head table down `page` lines (a page larger than
    /// the scroll range scrolls as far as it goes).
    pub fn scroll_h2h_page_down(&mut self, page: usize)
        ensures
            final(self).h2h_scroll.offset == if old(self).h2h_scroll.offset + clamp_u16(page) > u16::MAX {
                u16::MAX as int
            } else {
                old(self).h2h_scroll.offset + clamp_u16(page)
            },
            *final(self) == (BenchmarksApp { h2h_scroll: final(self).h2h_scroll, ..*old(self) }),
    {
        self.h2h_scroll.increment(to_u16_saturating(page));
    }

    /// Scroll the head-to-head table up `page` lines.
    pub fn scroll_h2h_page_up(&mut self, page: usize)
        ensures
            final(self).h2h_scroll.offset == if old(self).h2h_scroll.offset < clamp_u16(page) {
                0
            } else {
                old(self).h2h_scroll.offset - clamp_u16(page)
            },
            *final(self) == (BenchmarksApp { h2h_scroll: final(self).h2h_scroll, ..*old(self) }),
    {
        self.h2h_scroll.decrement(to_u16_saturating(page));
    }
}

/// Row `i` of the sidebar is a (non-selectable) group header.
pub open spec fn header_at(items: Seq<CreatorListItem>, i: int) -> bool {
    0 <= i < items.len() && items[i] is GroupHeader
}

/// The first row at or after `i` that is not a header (a row past the end
/// when every remaining row is a header).
pub open spec fn next_selectable(items: Seq<CreatorListItem>, i: int) -> int
    decreases items.len() - i,
{
    if i < 0 || i >= items.len() || !header_at(items, i) {
        i
    } else {
        next_selectable(items, i + 1)
    }
}

/// The last row at or before `i` that is not a header, if any.
pub open spec fn prev_selectable(items: Seq<CreatorListItem>, i: int) -> Option<int>
    decreases i,
{
    if i < 0 {
        None
    } else if !header_at(items, i) {
        Some(i)
    } else if i == 0 {
        None
    } else {
        prev_selectable(items, i - 1)
    }
}

/// The row `next_selectable` finds is not a header, and every row skipped
/// on the way is one.
pub proof fn lemma_next_selectable(items: Seq<CreatorListItem>, i: int)
    requires
        0 <= i,
    ensures
        next_selectable(items, i) >= i,
        !header_at(items, next_selectable(items, i)),
        forall|j: int| i <= j < next_selectable(items, i) ==> header_at(items, j),
    decreases items.len() - i,
{
    if i < items.len() && header_at(items, i) {
        lemma_next_selectable(items, i + 1);
    }
}

/// The row `prev_selectable` finds is not a header, and every row skipped on
/// the way is one.
pub proof fn lemma_prev_selectable(items: Seq<CreatorListItem>, i: int)
    requires
        0 <= i,
    ensures
        prev_selectable(items, i) matches Some(k) ==> {
            &&& 0 <= k <= i
            &&& !header_at(items, k)
            &&& forall|j: int| k < j <= i ==> header_at(items, j)
        },
        prev_selectable(items, i) is None ==> forall|j: int| 0 <= j <= i ==> header_at(items, j),
    decreases i,
{
    if header_at(items, i) && i > 0 {
        lemma_prev_selectable(items, i - 1);
    }
}

impl BenchmarksApp {
    /// Is sidebar row `idx` a group header?
    pub fn is_header(&self, idx: usize) -> (r: bool)
        ensures
            r == header_at(self.creator_list_items@, idx as int),
    {
        if idx < self.creator_list_items.len() {
            match &self.creator_list_items[idx] {
                CreatorListItem::GroupHeader(_) => true,
                _ => false,
            }
        } else {
            false
        }
    }

    /// The sidebar selection after moving from `start` to the nearest
    /// selectable row: forward, the first non-header at or after `start`
    /// unless every row up to the last is a header; backward, the last
    /// non-header at or before `start`. When no row qualifies the selection
    /// stays.
    pub open spec fn spec_skip_to_selectable(self, start: usize, forward: bool) -> usize {
        let items = self.creator_list_items@;
        if forward {
            let k = next_selectable(items, start as int);
            if k == start || k <= last_index(items.len()) { k as usize } else { self.selected_creator }
        } else {
            match prev_selectable(items, start as int) {
                Some(k) => k as usize,
                None => self.selected_creator,
            }
        }
    }

    /// Move the sidebar selection to the nearest selectable row from
    /// `start`, skipping headers.
    pub fn skip_to_selectable(&mut self, start: usize, forward: bool)
        ensures
            *final(self) == (BenchmarksApp {
                selected_creator: old(self).spec_skip_to_selectable(start, forward),
                ..*old(self)
            }),
    {
        let max = self.creator_list_items.len().saturating_sub(1);
        let mut idx = start;
        proof {
            lemma_next_selectable(self.creator_list_items@, start as int);
            lemma_prev_selectable(self.creator_list_items@, start as int);
        }
        while self.is_header(idx)
            invariant
                max == last_index(self.creator_list_items@.len()),
                forward ==> {
                    &&& start <= idx
                    &&& (idx <= max || idx == start)
                    &&& next_selectable(self.creator_list_items@, idx as int)
                        == next_selectable(self.creator_list_items@, start as int)
                },
                !forward ==> {
                    &&& idx <= start
                    &&& prev_selectable(self.creator_list_items@, idx as int)
                        == prev_selectable(self.creator_list_items@, start as int)
                },
            decreases (if forward { self.creator_list_items@.len() - idx } else { idx as int }),
        {
            if forward {
                proof {
                    lemma_next_selectable(self.creator_list_items@, idx + 1);
                }
                if idx >= max {
                    return;
                }
                idx = idx + 1;
            } else {
                if idx == 0 {
                    return;
                }
                idx = idx - 1;
            }
        }
        self.selected_creator = idx;
    }

    /// Move the sidebar selection down to the next selectable row.
    pub fn next_creator(&mut self)
        ensures
            *final(self) == if old(self).selected_creator < last_index(old(self).creator_list_items@.len()) {
                BenchmarksApp {
                    selected_creator: old(self).spec_skip_to_selectable((old(self).selected_creator + 1) as usize, true),
                    ..*old(self)
                }
            } else {
                *old(self)
            },
    {
        let max = self.creator_list_items.len().saturating_sub(1);
        if self.selected_creator < max {
            self.skip_to_selectable(self.selected_creator + 1, true);
        }
    }

    /// Move the sidebar selection up to the previous selectable row.
    pub fn prev_creator(&mut self)
        ensures
            *final(self) == if old(self).selected_creator > 0 {
                BenchmarksApp {
                    selected_creator: old(self).spec_skip_to_selectable((old(self).selected_creator - 1) as usize, false),
                    ..*old(self)
                }
            } else {
                *old(self)
            },
    {
        if self.selected_creator > 0 {
            self.skip_to_selectable(self.selected_creator - 1, false);
        }
    }

    /// Select the first selectable sidebar row.
    pub fn select_first_creator(&mut self)
        ensures
            *final(self) == (BenchmarksApp {
                selected_creator: old(self).spec_skip_to_selectable(0, true),
                ..*old(self)
            }),
    {
        self.skip_to_selectable(0, true);
    }

    /// Select the last selectable sidebar row.
    pub fn select_last_creator(&mut self)
        ensures
            *final(self) == (BenchmarksApp {
                selected_creator: old(self).spec_skip_to_selectable(
                    last_index(old(self).creator_list_items@.len()) as usize, false),
                ..*old(self)
            }),
    {
        let max = self.creator_list_items.len().saturating_sub(1);
        self.skip_to_selectable(max, false);
    }

    /// Move the sidebar selection down a page.
    pub fn page_down_creator(&mut self)
        ensures
            *final(self) == (BenchmarksApp {
                selected_creator: old(self).spec_skip_to_selectable(
                    if old(self).selected_creator + PAGE_SIZE < last_index(old(self).creator_list_items@.len()) {
                        (old(self).selected_creator + PAGE_SIZE) as usize
                    } else {
                        last_index(old(self).creator_list_items@.len()) as usize
                    },
                    true,
                ),
                ..*old(self)
            }),
    {
        let max = self.creator_list_items.len().saturating_sub(1);
        let target = if self.selected_creator.saturating_add(PAGE_SIZE) < max {
            self.selected_creator + PAGE_SIZE
        } else {
            max
        };
        self.skip_to_selectable(target, true);
    }

    /// Move the sidebar selection up a page.
    pub fn page_up_creator(&mut self)
        ensures
            *final(self) == (BenchmarksApp {
                selected_creator: old(self).spec_skip_to_selectable(
                    if old(self).selected_creator < PAGE_SIZE {
                        0
                    } else {
                        (old(self).selected_creator - PAGE_SIZE) as usize
                    },
                    true,
                ),
                ..*old(self)
            }),
    {
        let target = self.selected_creator.saturating_sub(PAGE_SIZE);
        self.skip_to_selectable(target, true);
    }
}

// ── Filters ───────────────────────────────────────────────────────────────

/// The model's display name, name, creator slug or creator name contains the
/// (lowercase) query, compared in lowercase.
pub open spec fn search_hit(q: Seq<char>, m: ModelRow) -> bool {
    ||| contains_seq(lowercase(m.display_name@), q)
    ||| contains_seq(lowercase(m.name@), q)
    ||| contains_seq(lowercase(m.creator@), q)
    ||| contains_seq(lowercase(m.creator_name@), q)
}

/// Does `m` match the lowercase query `q`?
pub fn search_hit_exec(q: &Vec<char>, m: &ModelRow) -> (r: bool)
    ensures
        r == search_hit(q@, *m),
{
    contains_lower(m.display_name.as_str(), q) || contains_lower(m.name.as_str(), q)
        || contains_lower(m.creator.as_str(), q) || contains_lower(m.creator_name.as_str(), q)
}

impl BenchmarksApp {
    /// A search query, source filter or reasoning filter is active.
    pub open spec fn spec_has_active_filters(self) -> bool {
        self.search_query@.len() > 0 || self.source_filter != SourceFilter::All
            || self.reasoning_filter != ReasoningFilter::All
    }

    /// `m` passes the source, reasoning and search filters.
    pub open spec fn spec_model_matches(self, m: ModelRow) -> bool {
        &&& self.source_filter.spec_passes(resolved_openness(m, self.creator_openness))
        &&& self.reasoning_filter.spec_matches(m.reasoning_status)
        &&& (self.search_query@.len() == 0 || search_hit(lowercase(self.search_query@), m))
    }

    /// Is a search query, source filter or reasoning filter active?
    pub fn has_active_filters(&self) -> (r: bool)
        ensures
            r == self.spec_has_active_filters(),
    {
        !self.search_query.as_str().is_empty() || self.source_filter != SourceFilter::All
            || self.reasoning_filter != ReasoningFilter::All
    }

    /// Does `model` pass the source, reasoning and search filters?
    pub fn model_matches_filters(&self, model: &ModelRow) -> (r: bool)
        ensures
            r == self.spec_model_matches(*model),
    {
        if !self.source_filter.matches(model, &self.creator_openness) {
            return false;
        }
        if !self.reasoning_filter.matches(model) {
            return false;
        }
        if !self.search_query.as_str().is_empty() {
            let ql = to_lower(self.search_query.as_str());
            let q = chars_of(ql.as_str());
            return search_hit_exec(&q, model);
        }
        true
    }
}

// ── Creator sidebar ──────────────────────────────────────────────────────

/// Distinct non-empty creator slugs of the first `n` models, in order of
/// first appearance.
pub open spec fn creators_upto(ms: Seq<ModelRow>, n: nat) -> Seq<Seq<char>>
    decreases n,
{
    if n == 0 || n > ms.len() {
        Seq::empty()
    } else {
        let acc = creators_upto(ms, (n - 1) as nat);
        let c = ms[n - 1].creator@;
        if c.len() == 0 || acc.contains(c) { acc } else { acc.push(c) }
    }
}

/// Sidebar name of creator `c`: the creator name of its first model among the
/// first `n`, or the slug when that name is empty.
pub open spec fn display_upto(ms: Seq<ModelRow>, c: Seq<char>, n: nat) -> Option<Seq<char>>
    decreases n,
{
    if n == 0 || n > ms.len() {
        None
    } else {
        match display_upto(ms, c, (n - 1) as nat) {
            Some(d) => Some(d),
            None => if ms[n - 1].creator@ == c {
                Some(if ms[n - 1].creator_name@.len() == 0 { c } else { ms[n - 1].creator_name@ })
            } else {
                None
            },
        }
    }
}

/// Number of the first `n` models made by `c`.
pub open spec fn count_upto(ms: Seq<ModelRow>, c: Seq<char>, n: nat) -> nat
    decreases n,
{
    if n == 0 || n > ms.len() {
        0
    } else {
        count_upto(ms, c, (n - 1) as nat) + if ms[n - 1].creator@ == c { 1nat } else { 0nat }
    }
}

impl BenchmarksApp {
    /// A model counts toward its creator's filtered count: always when no
    /// filter is active, otherwise when it passes the filters.
    pub open spec fn spec_counts(self, m: ModelRow) -> bool {
        !self.spec_has_active_filters() || self.spec_model_matches(m)
    }

    /// Number of the first `n` models made by `c` that count toward the
    /// filtered count.
    pub open spec fn pass_upto(self, ms: Seq<ModelRow>, c: Seq<char>, n: nat) -> nat
        decreases n,
    {
        if n == 0 || n > ms.len() {
            0
        } else {
            self.pass_upto(ms, c, (n - 1) as nat) + if ms[n - 1].creator@ == c && self.spec_counts(ms[n - 1]) {
                1nat
            } else {
                0nat
            }
        }
    }

    /// `infos` describes the creators of the first `n` models: slug, sidebar
    /// name, model count and filtered count, in order of first appearance.
    pub open spec fn infos_describe(self, ms: Seq<ModelRow>, n: nat, infos: Seq<CreatorInfo>) -> bool {
        let cs = creators_upto(ms, n);
        &&& infos.len() == cs.len()
        &&& forall|k: int| 0 <= k < infos.len() ==> {
            &&& (#[trigger] infos[k]).slug@ == cs[k]
            &&& display_upto(ms, cs[k], n) == Some(infos[k].display_name@)
            &&& infos[k].count == count_upto(ms, cs[k], n)
            &&& infos[k].filtered_count == self.pass_upto(ms, cs[k], n)
        }
    }
}

/// The creator list has no repeats, holds no empty slug, and holds exactly
/// the non-empty creators seen so far.
pub proof fn lemma_creators_upto(ms: Seq<ModelRow>, n: nat)
    requires
        n <= ms.len(),
    ensures
        creators_upto(ms, n).no_duplicates(),
        forall|c: Seq<char>| #[trigger] creators_upto(ms, n).contains(c) ==> c.len() > 0,
        forall|c: Seq<char>| c.len() > 0 && !#[trigger] creators_upto(ms, n).contains(c) ==> {
            &&& count_upto(ms, c, n) == 0
            &&& display_upto(ms, c, n) is None
        },
        forall|c: Seq<char>| #[trigger] creators_upto(ms, n).contains(c) ==> display_upto(ms, c, n) is Some,
    decreases n,
{
    if n > 0 {
        lemma_creators_upto(ms, (n - 1) as nat);
        let acc = creators_upto(ms, (n - 1) as nat);
        let cur = creators_upto(ms, n);
        let c = ms[n - 1].creator@;
        assert forall|x: Seq<char>| acc.contains(x) implies #[trigger] cur.contains(x) by {
            let j = choose|j: int| 0 <= j < acc.len() && acc[j] == x;
            if !(c.len() == 0 || acc.contains(c)) {
                assert(cur[j] == x);
            }
        }
        assert forall|x: Seq<char>| #[trigger] cur.contains(x) implies x == c || acc.contains(x) by {
            let j = choose|j: int| 0 <= j < cur.len() && cur[j] == x;
            if j < acc.len() {
                assert(acc[j] == x);
            }
        }
        assert forall|x: Seq<char>| #[trigger] cur.contains(x) implies x.len() > 0 by {
            if x != c {
                assert(acc.contains(x));
            } else if c.len() == 0 {
                assert(cur == acc);
            }
        }
        assert forall|x: Seq<char>| #[trigger] cur.contains(x) implies display_upto(ms, x, n) is Some by {
            if acc.contains(x) {
            } else {
                assert(x == c);
            }
        }
        assert forall|x: Seq<char>| x.len() > 0 && !#[trigger] cur.contains(x) implies {
            &&& count_upto(ms, x, n) == 0
            &&& display_upto(ms, x, n) is None
        } by {
            assert(!acc.contains(x));
            if x == c {
                assert(cur.contains(c)) by {
                    assert(cur == acc.push(c));
                    assert(cur[acc.len() as int] == c);
                }
            }
        }
        if !(c.len() == 0 || acc.contains(c)) {
            assert forall|i: int, j: int| 0 <= i < j < cur.len() implies cur[i] != cur[j] by {
                if j == acc.len() {
                    assert(acc.contains(cur[i]));
                }
            }
        }
    }
}

/// A creator's filtered count never exceeds its model count.
pub proof fn lemma_pass_le_count(app: BenchmarksApp, ms: Seq<ModelRow>, c: Seq<char>, n: nat)
    ensures
        app.pass_upto(ms, c, n) <= count_upto(ms, c, n),
    decreases n,
{
    if n > 0 && n <= ms.len() {
        lemma_pass_le_count(app, ms, c, (n - 1) as nat);
    }
}

/// Filtered counts depend only on the filters and the openness map.
pub proof fn lemma_pass_upto_same_filters(a: BenchmarksApp, b: BenchmarksApp, ms: Seq<ModelRow>, c: Seq<char>, n: nat)
    requires
        a.search_query@ == b.search_query@,
        a.source_filter == b.source_filter,
        a.reasoning_filter == b.reasoning_filter,
        a.creator_openness == b.creator_openness,
    ensures
        a.pass_upto(ms, c, n) == b.pass_upto(ms, c, n),
    decreases n,
{
    if n > 0 && n <= ms.len() {
        lemma_pass_upto_same_filters(a, b, ms, c, (n - 1) as nat);
    }
}

/// The first sidebar-info entry whose slug is `c`.
fn find_info(slugs: &Vec<String>, c: &str) -> (r: Option<usize>)
    ensures
        r is None ==> forall|k: int| 0 <= k < slugs@.len() ==> slugs@[k]@ != c@,
        r matches Some(k) ==> k < slugs@.len() && slugs@[k as int]@ == c@,
{
    let mut i: usize = 0;
    while i < slugs.len()
        invariant
            i <= slugs.len(),
            forall|k: int| 0 <= k < i ==> slugs@[k]@ != c@,
        decreases slugs.len() - i,
    {
        if str_eq(slugs[i].as_str(), c) {
            return Some(i);
        }
        i = i + 1;
    }
    None
}

impl BenchmarksApp {
    /// Tally each non-empty creator of `file`: sidebar name, model count and
    /// filtered count, in order of first appearance.
    pub fn collect_creator_info(&self, file: &SourceFile) -> (r: Vec<CreatorInfo>)
        ensures
            self.infos_describe(file.models@, file.models@.len(), r@),
    {
        let ghost ms = file.models@;
        let mut slugs: Vec<String> = Vec::new();
        let mut names: Vec<String> = Vec::new();
        let mut counts: Vec<usize> = Vec::new();
        let mut passes: Vec<usize> = Vec::new();
        let filtering = self.has_active_filters();
        let mut i: usize = 0;
        while i < file.models.len()
            invariant
                ms == file.models@,
                i <= ms.len(),
                filtering == self.spec_has_active_filters(),
                slugs@.len() == creators_upto(ms, i as nat).len(),
                names@.len() == slugs@.len(),
                counts@.len() == slugs@.len(),
                passes@.len() == slugs@.len(),
                forall|k: int| 0 <= k < slugs@.len() ==> {
                    &&& (#[trigger] slugs@[k])@ == creators_upto(ms, i as nat)[k]
                    &&& display_upto(ms, slugs@[k]@, i as nat) == Some(names@[k]@)
                    &&& counts@[k] == count_upto(ms, slugs@[k]@, i as nat)
                    &&& passes@[k] == self.pass_upto(ms, slugs@[k]@, i as nat)
                    &&& counts@[k] <= i
                    &&& passes@[k] <= i
                },
            decreases ms.len() - i,
        {
            proof {
                lemma_creators_upto(ms, i as nat);
            }
            let m = &file.models[i];
            if !m.creator.as_str().is_empty() {
                let passes_now = !filtering || self.model_matches_filters(m);
                let ghost cs0 = creators_upto(ms, i as nat);
                let ghost slugs0 = slugs@;
                match find_info(&slugs, m.creator.as_str()) {
                    Some(k) => {
                        let c = counts[k] + 1;
                        counts.set(k, c);
                        if passes_now {
                            let p = passes[k] + 1;
                            passes.set(k, p);
                        }
                        proof {
                            assert(cs0.contains(m.creator@)) by {
                                assert(cs0[k as int] == m.creator@);
                            }
                            assert(creators_upto(ms, (i + 1) as nat) == cs0);
                            assert forall|j: int| 0 <= j < slugs@.len() && j != k implies slugs@[j]@ != m.creator@ by {
                                assert(cs0[j] != cs0[k as int]);
                            }
                            assert forall|j: int| 0 <= j < slugs@.len() implies {
                                &&& (#[trigger] slugs@[j])@ == creators_upto(ms, (i + 1) as nat)[j]
                                &&& display_upto(ms, slugs@[j]@, (i + 1) as nat) == Some(names@[j]@)
                                &&& counts@[j] == count_upto(ms, slugs@[j]@, (i + 1) as nat)
                                &&& passes@[j] == self.pass_upto(ms, slugs@[j]@, (i + 1) as nat)
                                &&& counts@[j] <= i + 1
                                &&& passes@[j] <= i + 1
                            } by {
                                assert(slugs@[j] == slugs0[j]);
                            }
                        }
                    },
                    None => {
                        proof {
                            assert(!cs0.contains(m.creator@)) by {
                                if cs0.contains(m.creator@) {
                                    let j = choose|j: int| 0 <= j < cs0.len() && cs0[j] == m.creator@;
                                    assert(slugs@[j]@ == m.creator@);
                                }
                            }
                        }
                        slugs.push(owned(m.creator.as_str()));
                        let name = if m.creator_name.as_str().is_empty() {
                            owned(m.creator.as_str())
                        } else {
                            owned(m.creator_name.as_str())
                        };
                        names.push(name);
                        counts.push(1);
                        passes.push(if passes_now { 1 } else { 0 });
                        proof {
                            assert(creators_upto(ms, (i + 1) as nat) == cs0.push(m.creator@));
                            assert forall|j: int| 0 <= j < slugs@.len() implies {
                                &&& (#[trigger] slugs@[j])@ == creators_upto(ms, (i + 1) as nat)[j]
                                &&& display_upto(ms, slugs@[j]@, (i + 1) as nat) == Some(names@[j]@)
                                &&& counts@[j] == count_upto(ms, slugs@[j]@, (i + 1) as nat)
                                &&& passes@[j] == self.pass_upto(ms, slugs@[j]@, (i + 1) as nat)
                                &&& counts@[j] <= i + 1
                                &&& passes@[j] <= i + 1
                            } by {
                                if j < slugs0.len() {
                                    assert(slugs@[j] == slugs0[j]);
                                    assert(slugs0[j]@ != m.creator@);
                                } else {
                                    assert(count_upto(ms, m.creator@, i as nat) == 0);
                                    assert(display_upto(ms, m.creator@, i as nat) is None);
                                    lemma_pass_le_count(*self, ms, m.creator@, i as nat);
                                }
                            }
                        }
                    },
                }
            } else {
                proof {
                    assert(creators_upto(ms, (i + 1) as nat) == creators_upto(ms, i as nat));
                    assert forall|j: int| 0 <= j < slugs@.len() implies (#[trigger] slugs@[j])@ != m.creator@ by {
                        assert(creators_upto(ms, i as nat).contains(slugs@[j]@)) by {
                            assert(creators_upto(ms, i as nat)[j] == slugs@[j]@);
                        }
                    }
                }
            }
            i = i + 1;
        }
        let mut out: Vec<CreatorInfo> = Vec::new();
        let mut k: usize = 0;
        while k < slugs.len()
            invariant
                k <= slugs.len(),
                names@.len() == slugs@.len(),
                counts@.len() == slugs@.len(),
                passes@.len() == slugs@.len(),
                out@.len() == k,
                forall|j: int| 0 <= j < k ==> {
                    &&& (#[trigger] out@[j]).slug@ == slugs@[j]@
                    &&& out@[j].display_name@ == names@[j]@
                    &&& out@[j].count == counts@[j]
                    &&& out@[j].filtered_count == passes@[j]
                },
            decreases slugs.len() - k,
        {
            out.push(CreatorInfo {
                slug: owned(slugs[k].as_str()),
                display_name: owned(names[k].as_str()),
                count: counts[k],
                filtered_count: passes[k],
            });
            k = k + 1;
        }
        out
    }
}

/// Positions (in order) of the creator infos the sidebar lists: all of them,
/// or when filtering, those with a non-zero filtered count.
pub open spec fn kept_upto(infos: Seq<CreatorInfo>, filtering: bool, n: nat) -> Seq<int>
    decreases n,
{
    if n == 0 || n > infos.len() {
        Seq::empty()
    } else {
        let acc = kept_upto(infos, filtering, (n - 1) as nat);
        if !filtering || infos[n - 1].filtered_count > 0 { acc.push(n - 1) } else { acc }
    }
}

/// Positions of the listed creator infos.
pub open spec fn kept_infos(infos: Seq<CreatorInfo>, filtering: bool) -> Seq<int> {
    kept_upto(infos, filtering, infos.len())
}

/// Kept positions are valid positions.
pub proof fn lemma_kept_valid(infos: Seq<CreatorInfo>, filtering: bool, n: nat)
    requires
        n <= infos.len(),
    ensures
        forall|k: int| 0 <= k < kept_upto(infos, filtering, n).len() ==> 0 <= #[trigger] kept_upto(infos, filtering, n)[k] < n,
    decreases n,
{
    if n > 0 {
        lemma_kept_valid(infos, filtering, (n - 1) as nat);
        let acc = kept_upto(infos, filtering, (n - 1) as nat);
        assert forall|k: int| 0 <= k < kept_upto(infos, filtering, n).len() implies 0 <= #[trigger] kept_upto(infos, filtering, n)[k] < n by {
            if k < acc.len() {
                assert(kept_upto(infos, filtering, n)[k] == acc[k]);
            }
        }
    }
}

/// `cs` lists the slugs of the kept creator infos, ordered by lowercase
/// sidebar name; creators whose lowercase names are equal keep the order in
/// which they were first seen (their order among the kept infos).
pub open spec fn creator_order(infos: Seq<CreatorInfo>, kept: Seq<int>, cs: Seq<Seq<char>>) -> bool {
    exists|perm: Seq<int>| {
        &&& perm.len() == kept.len()
        &&& cs.len() == kept.len()
        &&& forall|k: int| 0 <= k < perm.len() ==> 0 <= #[trigger] perm[k] < kept.len() && cs[k] == infos[kept[perm[k]]].slug@
        &&& forall|i: int, j: int| 0 <= i < j < perm.len() ==> #[trigger] perm[i] != #[trigger] perm[j]
        &&& forall|i: int, j: int| 0 <= i < j < perm.len() ==> lex_le(
            lowercase(infos[kept[#[trigger] perm[i]]].display_name@),
            lowercase(infos[kept[#[trigger] perm[j]]].display_name@),
        )
        &&& forall|i: int, j: int| 0 <= i < j < perm.len()
            && lowercase(infos[kept[#[trigger] perm[i]]].display_name@)
                == lowercase(infos[kept[#[trigger] perm[j]]].display_name@) ==> perm[i] < perm[j]
    }
}

/// The sidebar's creator slugs: the kept creators sorted by lowercase name.
pub fn sorted_creator_slugs(infos: &Vec<CreatorInfo>, filtering: bool) -> (r: Vec<String>)
    ensures
        creator_order(infos@, kept_infos(infos@, filtering), r@.map_values(|s: String| s@)),
{
    let mut kept: Vec<usize> = Vec::new();
    let mut keys: Vec<SortVal> = Vec::new();
    let mut idx: Vec<usize> = Vec::new();
    let mut i: usize = 0;
    while i < infos.len()
        invariant
            i <= infos.len(),
            kept@.len() == kept_upto(infos@, filtering, i as nat).len(),
            forall|k: int| 0 <= k < kept@.len() ==> kept@[k] as int == #[trigger] kept_upto(infos@, filtering, i as nat)[k],
            forall|k: int| 0 <= k < kept@.len() ==> #[trigger] kept@[k] < i,
            keys@.len() == kept@.len(),
            idx@.len() == kept@.len(),
            forall|k: int| 0 <= k < idx@.len() ==> #[trigger] idx@[k] == k,
            forall|k: int| 0 <= k < keys@.len() ==> val_view(#[trigger] keys@[k])
                == SortValView::Text(Some(lowercase(infos@[kept@[k] as int].display_name@))),
        decreases infos.len() - i,
    {
        if !filtering || infos[i].filtered_count > 0 {
            let ghost k0 = kept@.len();
            idx.push(kept.len());
            kept.push(i);
            let l = to_lower(infos[i].display_name.as_str());
            keys.push(SortVal::Text(Some(chars_of(l.as_str()))));
        }
        i = i + 1;
    }
    let sorted = sort_by_keys(&idx, &keys, false);
    let ghost kv = key_views(keys@);
    let mut out: Vec<String> = Vec::new();
    let mut k: usize = 0;
    while k < sorted.len()
        invariant
            k <= sorted.len(),
            kept@.len() == keys@.len(),
            out@.len() == k,
            forall|j: int| 0 <= j < sorted@.len() ==> #[trigger] sorted@[j] < keys@.len(),
            forall|j: int| 0 <= j < k ==> (#[trigger] out@[j])@ == infos@[kept@[sorted@[j] as int] as int].slug@,
            forall|j: int| 0 <= j < kept@.len() ==> #[trigger] kept@[j] < infos@.len(),
        decreases sorted.len() - k,
    {
        let p = sorted[k];
        out.push(owned(infos[kept[p]].slug.as_str()));
        k = k + 1;
    }
    proof {
        lemma_kept_valid(infos@, filtering, infos@.len());
        let kept_s = kept_infos(infos@, filtering);
        assert(kept_upto(infos@, filtering, i as nat) == kept_s);
        let pos = choose|pos: Seq<int>| stable_arrangement(kv, false, idx@, sorted@, pos);
        let perm = sorted@.map_values(|x: usize| x as int);
        let cs = out@.map_values(|s: String| s@);
        assert forall|j: int| 0 <= j < perm.len() implies 0 <= #[trigger] perm[j] < kept_s.len() && cs[j] == infos@[kept_s[perm[j]]].slug@ by {
            assert(sorted@[j] == idx@[pos[j]]);
        }
        assert forall|a: int, b: int| 0 <= a < b < perm.len() implies #[trigger] perm[a] != #[trigger] perm[b] by {
            assert(sorted@[a] == idx@[pos[a]]);
            assert(sorted@[b] == idx@[pos[b]]);
        }
        assert forall|a: int, b: int| 0 <= a < b < perm.len() implies lex_le(
            lowercase(infos@[kept_s[#[trigger] perm[a]]].display_name@),
            lowercase(infos@[kept_s[#[trigger] perm[b]]].display_name@),
        ) by {
            assert(ordered(kv, false, sorted@[a], sorted@[b]));
            assert(kv[sorted@[a] as int] == val_view(keys@[sorted@[a] as int]));
            assert(kv[sorted@[b] as int] == val_view(keys@[sorted@[b] as int]));
        }
        assert forall|a: int, b: int| 0 <= a < b < perm.len()
            && lowercase(infos@[kept_s[#[trigger] perm[a]]].display_name@)
                == lowercase(infos@[kept_s[#[trigger] perm[b]]].display_name@) implies perm[a] < perm[b] by {
            assert(kv[sorted@[a] as int] == val_view(keys@[sorted@[a] as int]));
            assert(kv[sorted@[b] as int] == val_view(keys@[sorted@[b] as int]));
            assert(kv[sorted@[a] as int] == kv[sorted@[b] as int]);
            lemma_val_le_total(kv[sorted@[a] as int], kv[sorted@[a] as int]);
            assert(ordered(kv, false, sorted@[b], sorted@[a]));
            assert(sorted@[a] == idx@[pos[a]]);
            assert(sorted@[b] == idx@[pos[b]]);
        }
        assert(creator_order(infos@, kept_s, cs));
    }
    out
}

/// Ghost form of a sidebar row.
pub ghost enum ItemView {
    All,
    Header(Seq<char>),
    Creator(Seq<char>),
}

/// The ghost form of a sidebar row.
pub open spec fn item_view(i: CreatorListItem) -> ItemView {
    match i {
        CreatorListItem::All => ItemView::All,
        CreatorListItem::GroupHeader(h) => ItemView::Header(h@),
        CreatorListItem::Creator(c) => ItemView::Creator(c@),
    }
}

/// The ghost form of the sidebar rows.
pub open spec fn items_view(s: Seq<CreatorListItem>) -> Seq<ItemView> {
    s.map_values(|i: CreatorListItem| item_view(i))
}

/// The first `n` slugs of `cs` whose region is `r`, in order.
pub open spec fn region_members(cs: Seq<Seq<char>>, r: CreatorRegion, n: nat) -> Seq<Seq<char>>
    decreases n,
{
    if n == 0 || n > cs.len() {
        Seq::empty()
    } else {
        let acc = region_members(cs, r, (n - 1) as nat);
        if spec_region_of(cs[n - 1]) == r { acc.push(cs[n - 1]) } else { acc }
    }
}

/// The first `n` slugs of `cs` whose organization type is `t`, in order.
pub open spec fn type_members(cs: Seq<Seq<char>>, t: CreatorType, n: nat) -> Seq<Seq<char>>
    decreases n,
{
    if n == 0 || n > cs.len() {
        Seq::empty()
    } else {
        let acc = type_members(cs, t, (n - 1) as nat);
        if spec_type_of(cs[n - 1]) == t { acc.push(cs[n - 1]) } else { acc }
    }
}

/// Creator rows for the given slugs.
pub open spec fn creator_rows(cs: Seq<Seq<char>>) -> Seq<ItemView> {
    cs.map_values(|c: Seq<char>| ItemView::Creator(c))
}

/// A header row followed by its creators; nothing when there are none.
pub open spec fn section(label: Seq<char>, members: Seq<Seq<char>>) -> Seq<ItemView> {
    if members.len() == 0 {
        Seq::empty()
    } else {
        seq![ItemView::Header(label)] + creator_rows(members)
    }
}

/// The section of region `r`.
pub open spec fn region_section(cs: Seq<Seq<char>>, r: CreatorRegion) -> Seq<ItemView> {
    section(r.spec_label(), region_members(cs, r, cs.len()))
}

/// The section of organization type `t`.
pub open spec fn type_section(cs: Seq<Seq<char>>, t: CreatorType) -> Seq<ItemView> {
    section(t.spec_label(), type_members(cs, t, cs.len()))
}

/// Sidebar rows for sorted creator slugs `cs`: "All", then the creators —
/// plainly, by region (US, China, Europe, Middle East, S. Korea, Canada,
/// Other) or by type (Startup, Big Tech, Research), each non-empty group
/// under its header.
pub open spec fn spec_layout(grouping: CreatorGrouping, cs: Seq<Seq<char>>) -> Seq<ItemView> {
    seq![ItemView::All] + match grouping {
        CreatorGrouping::Ungrouped => creator_rows(cs),
        CreatorGrouping::ByRegion => region_section(cs, CreatorRegion::US)
            + region_section(cs, CreatorRegion::China)
            + region_section(cs, CreatorRegion::Europe)
            + region_section(cs, CreatorRegion::MiddleEast)
            + region_section(cs, CreatorRegion::SouthKorea)
            + region_section(cs, CreatorRegion::Canada)
            + region_section(cs, CreatorRegion::Other),
        CreatorGrouping::ByType => type_section(cs, CreatorType::Startup)
            + type_section(cs, CreatorType::Giant)
            + type_section(cs, CreatorType::Research),
    }
}

/// Append one creator row per slug.
fn push_creators(items: &mut Vec<CreatorListItem>, cs: &Vec<String>)
    ensures
        items_view(final(items)@) == items_view(old(items)@) + creator_rows(cs@.map_values(|s: String| s@)),
{
    let ghost base = items_view(items@);
    let ghost csv = cs@.map_values(|s: String| s@);
    let mut i: usize = 0;
    while i < cs.len()
        invariant
            i <= cs.len(),
            csv == cs@.map_values(|s: String| s@),
            items_view(items@) == base + creator_rows(csv.take(i as int)),
        decreases cs.len() - i,
    {
        let ghost prev = items@;
        items.push(CreatorListItem::Creator(owned(cs[i].as_str())));
        proof {
            assert(items_view(items@) =~= items_view(prev).push(ItemView::Creator(csv[i as int])));
            assert(creator_rows(csv.take(i + 1)) =~= creator_rows(csv.take(i as int)).push(ItemView::Creator(csv[i as int])));
        }
        i = i + 1;
    }
    assert(csv.take(cs.len() as int) =~= csv);
}

/// Append the region section of `r`.
fn push_region_section(items: &mut Vec<CreatorListItem>, cs: &Vec<String>, r: CreatorRegion)
    ensures
        items_view(final(items)@) == items_view(old(items)@) + region_section(cs@.map_values(|s: String| s@), r),
{
    let ghost csv = cs@.map_values(|s: String| s@);
    let mut group: Vec<String> = Vec::new();
    let mut i: usize = 0;
    while i < cs.len()
        invariant
            i <= cs.len(),
            csv == cs@.map_values(|s: String| s@),
            group@.map_values(|s: String| s@) == region_members(csv, r, i as nat),
        decreases cs.len() - i,
    {
        if CreatorRegion::from_creator(cs[i].as_str()) == r {
            group.push(owned(cs[i].as_str()));
            assert(group@.map_values(|s: String| s@) =~= region_members(csv, r, i as nat).push(csv[i as int]));
        }
        i = i + 1;
    }
    if group.len() > 0 {
        let ghost before = items_view(items@);
        items.push(CreatorListItem::GroupHeader(owned(r.label())));
        assert(items_view(items@) =~= before + seq![ItemView::Header(r.spec_label())]);
        push_creators(items, &group);
        assert(items_view(items@) =~= before + region_section(csv, r));
    } else {
        assert(items_view(items@) =~= items_view(items@) + region_section(csv, r));
    }
}

/// Append the type section of `t`.
fn push_type_section(items: &mut Vec<CreatorListItem>, cs: &Vec<String>, t: CreatorType)
    ensures
        items_view(final(items)@) == items_view(old(items)@) + type_section(cs@.map_values(|s: String| s@), t),
{
    let ghost csv = cs@.map_values(|s: String| s@);
    let mut group: Vec<String> = Vec::new();
    let mut i: usize = 0;
    while i < cs.len()
        invariant
            i <= cs.len(),
            csv == cs@.map_values(|s: String| s@),
            group@.map_values(|s: String| s@) == type_members(csv, t, i as nat),
        decreases cs.len() - i,
    {
        if CreatorType::from_creator(cs[i].as_str()) == t {
            group.push(owned(cs[i].as_str()));
            assert(group@.map_values(|s: String| s@) =~= type_members(csv, t, i as nat).push(csv[i as int]));
        }
        i = i + 1;
    }
    if group.len() > 0 {
        let ghost before = items_view(items@);
        items.push(CreatorListItem::GroupHeader(owned(t.label())));
        assert(items_view(items@) =~= before + seq![ItemView::Header(t.spec_label())]);
        push_creators(items, &group);
        assert(items_view(items@) =~= before + type_section(csv, t));
    } else {
        assert(items_view(items@) =~= items_view(items@) + type_section(csv, t));
    }
}

/// The sidebar rows for sorted creator slugs under `grouping`.
pub fn layout_items(grouping: CreatorGrouping, cs: &Vec<String>) -> (r: Vec<CreatorListItem>)
    ensures
        items_view(r@) == spec_layout(grouping, cs@.map_values(|s: String| s@)),
{
    let ghost csv = cs@.map_values(|s: String| s@);
    let mut items: Vec<CreatorListItem> = Vec::new();
    items.push(CreatorListItem::All);
    assert(items_view(items@) =~= seq![ItemView::All]);
    match grouping {
        CreatorGrouping::Ungrouped => {
            push_creators(&mut items, cs);
        },
        CreatorGrouping::ByRegion => {
            push_region_section(&mut items, cs, CreatorRegion::US);
            push_region_section(&mut items, cs, CreatorRegion::China);
            push_region_section(&mut items, cs, CreatorRegion::Europe);
            push_region_section(&mut items, cs, CreatorRegion::MiddleEast);
            push_region_section(&mut items, cs, CreatorRegion::SouthKorea);
            push_region_section(&mut items, cs, CreatorRegion::Canada);
            push_region_section(&mut items, cs, CreatorRegion::Other);
            assert(items_view(items@) =~= spec_layout(grouping, csv));
        },
        CreatorGrouping::ByType => {
            push_type_section(&mut items, cs, CreatorType::Startup);
            push_type_section(&mut items, cs, CreatorType::Giant);
            push_type_section(&mut items, cs, CreatorType::Research);
            assert(items_view(items@) =~= spec_layout(grouping, csv));
        },
    }
    items
}

impl BenchmarksApp {
    /// The sidebar of `self` is the one built from `file` under the current
    /// filters and grouping: `creator_info` tallies the creators, and the rows
    /// are "All" plus the kept creators sorted by lowercase name, laid out per
    /// the grouping.
    pub open spec fn sidebar_built(self, file: SourceFile) -> bool {
        &&& self.infos_describe(file.models@, file.models@.len(), self.creator_info@)
        &&& exists|cs: Seq<Seq<char>>| {
            &&& creator_order(self.creator_info@, kept_infos(self.creator_info@, self.spec_has_active_filters()), cs)
            &&& items_view(self.creator_list_items@) == spec_layout(self.creator_grouping, cs)
        }
    }

    /// Rebuild the creator sidebar from `file` under the current filters and
    /// grouping.
    pub fn build_creator_list(&mut self, file: &SourceFile)
        ensures
            final(self).sidebar_built(*file),
            *final(self) == (BenchmarksApp {
                creator_info: final(self).creator_info,
                creator_list_items: final(self).creator_list_items,
                ..*old(self)
            }),
    {
        let infos = self.collect_creator_info(file);
        let filtering = self.has_active_filters();
        let cs = sorted_creator_slugs(&infos, filtering);
        let items = layout_items(self.creator_grouping, &cs);
        let ghost before = *self;
        self.creator_info = infos;
        self.creator_list_items = items;
        proof {
            let ms = file.models@;
            let crs = creators_upto(ms, ms.len());
            assert forall|k: int| 0 <= k < self.creator_info@.len() implies
                #[trigger] self.creator_info@[k].filtered_count == self.pass_upto(ms, crs[k], ms.len()) by {
                lemma_pass_upto_same_filters(before, *self, ms, crs[k], ms.len());
            }
            assert(self.infos_describe(ms, ms.len(), self.creator_info@));
            let csv = cs@.map_values(|s: String| s@);
            assert(creator_order(self.creator_info@, kept_infos(self.creator_info@, self.spec_has_active_filters()), csv));
            assert(items_view(self.creator_list_items@) == spec_layout(self.creator_grouping, csv));
        }
    }
}

// ── Filtered, sorted model list ──────────────────────────────────────────

/// The value a model is sorted by under `key`: its name, its release date
/// text (dates are ISO, so text order is date order; dateless first), or its
/// score for the metric (missing first).
pub open spec fn spec_sort_val(file: SourceFile, m: ModelRow, key: SortKey) -> SortValView {
    match key {
        SortKey::Name => SortValView::Text(Some(m.name@)),
        SortKey::ReleaseDate => SortValView::Text(match m.release_date {
            Some(d) => Some(d@),
            None => None,
        }),
        SortKey::Metric(mi) => SortValView::Num(match metric_cell(file, m, mi as int) {
            Some(c) => Some(c.order_key),
            None => None,
        }),
    }
}

/// Sort values of every model of `file` under `key`.
pub open spec fn sort_views(file: SourceFile, key: SortKey) -> Seq<SortValView> {
    Seq::new(file.models@.len(), |i: int| spec_sort_val(file, file.models@[i], key))
}

/// The sort value of `m`.
pub fn sort_val(file: &SourceFile, m: &ModelRow, key: SortKey) -> (r: SortVal)
    ensures
        val_view(r) == spec_sort_val(*file, *m, key),
{
    match key {
        SortKey::Name => SortVal::Text(Some(chars_of(m.name.as_str()))),
        SortKey::ReleaseDate => match &m.release_date {
            Some(d) => SortVal::Text(Some(chars_of(d.as_str()))),
            None => SortVal::Text(None),
        },
        SortKey::Metric(mi) => match metric_score(file, m, mi) {
            Some(c) => SortVal::Num(Some(c.order_key)),
            None => SortVal::Num(None),
        },
    }
}

/// Sort values of every model of `file` under `key`.
pub fn sort_vals(file: &SourceFile, key: SortKey) -> (r: Vec<SortVal>)
    ensures
        key_views(r@) == sort_views(*file, key),
        r@.len() == file.models@.len(),
{
    let mut keys: Vec<SortVal> = Vec::new();
    let mut i: usize = 0;
    while i < file.models.len()
        invariant
            i <= file.models.len(),
            keys@.len() == i,
            forall|j: int| 0 <= j < i ==> val_view(#[trigger] keys@[j]) == spec_sort_val(*file, file.models@[j], key),
        decreases file.models.len() - i,
    {
        keys.push(sort_val(file, &file.models[i], key));
        i = i + 1;
    }
    assert(key_views(keys@) =~= sort_views(*file, key));
    keys
}

/// Rows kept for the active sort column: every row for name sort; dated rows
/// for date sort; rows scored on the metric for a metric sort (all rows when
/// the metric index is out of range).
pub open spec fn has_sort_value(file: SourceFile, m: ModelRow, key: SortKey) -> bool {
    match key {
        SortKey::Name => true,
        SortKey::ReleaseDate => m.release_date is Some,
        SortKey::Metric(mi) => mi < file.metrics@.len() ==> score_of(m, file.metrics@[mi as int].id@) is Some,
    }
}

/// Does `m` keep its row for the active sort column?
pub fn has_sort_value_exec(file: &SourceFile, m: &ModelRow, key: SortKey) -> (r: bool)
    ensures
        r == has_sort_value(*file, *m, key),
{
    match key {
        SortKey::Name => true,
        SortKey::ReleaseDate => m.release_date.is_some(),
        SortKey::Metric(mi) => if mi < file.metrics.len() {
            find_score(m, file.metrics[mi].id.as_str()).is_some()
        } else {
            true
        },
    }
}

impl BenchmarksApp {
    /// The slug of the selected sidebar creator ("All" and headers select no
    /// creator).
    pub open spec fn spec_selected_slug(self) -> Option<Seq<char>> {
        if self.selected_creator < self.creator_list_items@.len() {
            match self.creator_list_items@[self.selected_creator as int] {
                CreatorListItem::Creator(s) => Some(s@),
                _ => None,
            }
        } else {
            None
        }
    }

    /// Model `m` is listed: it passes the source and reasoning filters, is by
    /// the selected creator (if any), matches the search (display name, name,
    /// creator slug or creator name, case-insensitively) and has a value for
    /// the active sort column.
    pub open spec fn spec_row_shown(self, file: SourceFile, m: ModelRow) -> bool {
        let q = lowercase(self.search_query@);
        &&& self.source_filter.spec_passes(resolved_openness(m, self.creator_openness))
        &&& self.reasoning_filter.spec_matches(m.reasoning_status)
        &&& (self.spec_selected_slug() matches Some(s) ==> m.creator@ == s)
        &&& (q.len() == 0 || search_hit(q, m))
        &&& has_sort_value(file, m, self.sort_key)
    }

    /// Indices of the listed models among the first `n`, in file order.
    pub open spec fn shown_upto(self, file: SourceFile, n: nat) -> Seq<usize>
        decreases n,
    {
        if n == 0 || n > file.models@.len() {
            Seq::empty()
        } else {
            let acc = self.shown_upto(file, (n - 1) as nat);
            if self.spec_row_shown(file, file.models@[n - 1]) { acc.push((n - 1) as usize) } else { acc }
        }
    }

    /// Indices of the listed models, in file order.
    pub open spec fn spec_shown(self, file: SourceFile) -> Seq<usize> {
        self.shown_upto(file, file.models@.len())
    }

    /// The model list shows exactly the listed models of `file`, stably
    /// sorted by the active key and direction.
    pub open spec fn list_built(self, file: SourceFile) -> bool {
        is_stable_sort(sort_views(file, self.sort_key), self.sort_descending, self.spec_shown(file), self.filtered_indices@)
    }

    /// The slug of the selected sidebar creator.
    pub fn selected_creator_slug(&self) -> (r: Option<&String>)
        ensures
            r is None <==> self.spec_selected_slug() is None,
            r matches Some(s) ==> self.spec_selected_slug() == Some(s@),
    {
        if self.selected_creator < self.creator_list_items.len() {
            match &self.creator_list_items[self.selected_creator] {
                CreatorListItem::Creator(s) => Some(s),
                _ => None,
            }
        } else {
            None
        }
    }

    /// Re-sort the listed models by the active sort key and direction
    /// (stable: equal values keep their order).
    pub fn apply_sort(&mut self, file: &SourceFile)
        requires
            all_below(old(self).filtered_indices@, file.models@.len()),
        ensures
            is_stable_sort(sort_views(*file, old(self).sort_key), old(self).sort_descending,
                old(self).filtered_indices@, final(self).filtered_indices@),
            final(self).filtered_indices@ == insertion_sorted(sort_views(*file, old(self).sort_key),
                old(self).sort_descending, old(self).filtered_indices@),
            *final(self) == (BenchmarksApp { filtered_indices: final(self).filtered_indices, ..*old(self) }),
    {
        let keys = sort_vals(file, self.sort_key);
        let sorted = sort_by_keys(&self.filtered_indices, &keys, self.sort_descending);
        self.filtered_indices = sorted;
    }

    /// Recompute the listed models: filter, drop rows without a value for the
    /// sort column, sort, and keep the selection when it is still in range
    /// (otherwise select the first row); the detail panel scrolls to the top.
    pub fn update_filtered(&mut self, file: &SourceFile)
        ensures
            is_stable_sort(sort_views(*file, old(self).sort_key), old(self).sort_descending,
                old(self).spec_shown(*file), final(self).filtered_indices@),
            final(self).filtered_indices@ == insertion_sorted(sort_views(*file, old(self).sort_key),
                old(self).sort_descending, old(self).spec_shown(*file)),
            final(self).selected == if old(self).selected >= final(self).filtered_indices@.len() {
                0
            } else {
                old(self).selected
            },
            *final(self) == (BenchmarksApp {
                filtered_indices: final(self).filtered_indices,
                selected: final(self).selected,
                detail_scroll: ScrollOffset { offset: 0 },
                ..*old(self)
            }),
            final(self).list_built(*file),
    {
        let ghost before = *self;
        let ql = to_lower(self.search_query.as_str());
        let q = chars_of(ql.as_str());
        let mut shown: Vec<usize> = Vec::new();
        let mut i: usize = 0;
        while i < file.models.len()
            invariant
                i <= file.models.len(),
                q@ == lowercase(self.search_query@),
                shown@ == self.shown_upto(*file, i as nat),
                all_below(shown@, i as nat),
            decreases file.models.len() - i,
        {
            let m = &file.models[i];
            let mut keep = self.source_filter.matches(m, &self.creator_openness)
                && self.reasoning_filter.matches(m);
            if keep {
                match self.selected_creator_slug() {
                    Some(slug) => {
                        if !str_eq(m.creator.as_str(), slug.as_str()) {
                            keep = false;
                        }
                    },
                    None => {},
                }
            }
            if keep && q.len() != 0 {
                keep = search_hit_exec(&q, m);
            }
            if keep {
                keep = has_sort_value_exec(file, m, self.sort_key);
            }
            if keep {
                shown.push(i);
            }
            i = i + 1;
        }
        self.filtered_indices = shown;
        self.apply_sort(file);
        if self.selected >= self.filtered_indices.len() {
            self.selected = 0;
        }
        self.reset_detail_scroll();
        proof {
            lemma_shown_same(before, *self, *file, file.models@.len());
        }
    }
}

/// Which models are listed depends only on the filters, the sidebar
/// selection and the sort key.
pub proof fn lemma_shown_same(a: BenchmarksApp, b: BenchmarksApp, file: SourceFile, n: nat)
    requires
        a.search_query@ == b.search_query@,
        a.source_filter == b.source_filter,
        a.reasoning_filter == b.reasoning_filter,
        a.creator_openness == b.creator_openness,
        a.creator_list_items@ == b.creator_list_items@,
        a.selected_creator == b.selected_creator,
        a.sort_key == b.sort_key,
    ensures
        a.shown_upto(file, n) == b.shown_upto(file, n),
    decreases n,
{
    if n > 0 && n <= file.models@.len() {
        lemma_shown_same(a, b, file, (n - 1) as nat);
    }
}

/// Every model listed among the first `n` is shown by the filters.
proof fn lemma_shown_rows(app: BenchmarksApp, file: SourceFile, n: nat)
    requires
        n <= file.models@.len(),
        n <= usize::MAX,
    ensures
        forall|t: int| 0 <= t < app.shown_upto(file, n).len() ==> #[trigger] app.shown_upto(file, n)[t] < n
            && app.spec_row_shown(file, file.models@[app.shown_upto(file, n)[t] as int]),
    decreases n,
{
    if n > 0 {
        let m = (n - 1) as nat;
        lemma_shown_rows(app, file, m);
        let prev = app.shown_upto(file, m);
        let cur = app.shown_upto(file, n);
        assert forall|t: int| 0 <= t < cur.len() implies #[trigger] cur[t] < n
            && app.spec_row_shown(file, file.models@[cur[t] as int]) by {
            if app.spec_row_shown(file, file.models@[m as int]) {
                assert(cur == prev.push(m as usize));
                if t < prev.len() {
                    assert(cur[t] == prev[t]);
                } else {
                    assert(cur[t] == m as usize);
                }
            } else {
                assert(cur == prev);
            }
        }
    }
}

/// Two listed models, in list order, are shown by the filters and are in
/// key order for the active sort.
proof fn lemma_listed_pair(app: BenchmarksApp, file: SourceFile, i: int, j: int)
    requires
        app.list_built(file),
        file.models@.len() <= usize::MAX,
        0 <= i < j < app.filtered_indices@.len(),
    ensures
        app.filtered_indices@[i] < file.models@.len(),
        app.filtered_indices@[j] < file.models@.len(),
        app.spec_row_shown(file, file.models@[app.filtered_indices@[i] as int]),
        app.spec_row_shown(file, file.models@[app.filtered_indices@[j] as int]),
        ({
            let a = file.models@[app.filtered_indices@[i] as int];
            let b = file.models@[app.filtered_indices@[j] as int];
            if app.sort_descending {
                val_le(spec_sort_val(file, b, app.sort_key), spec_sort_val(file, a, app.sort_key))
            } else {
                val_le(spec_sort_val(file, a, app.sort_key), spec_sort_val(file, b, app.sort_key))
            }
        }),
{
    broadcast use vstd::seq_lib::group_to_multiset_ensures;
    let out = app.filtered_indices@;
    let shown = app.spec_shown(file);
    let keys = sort_views(file, app.sort_key);
    lemma_shown_rows(app, file, file.models@.len());
    assert forall|t: int| 0 <= t < out.len() implies #[trigger] out[t] < file.models@.len()
        && app.spec_row_shown(file, file.models@[out[t] as int]) by {
        assert(out.contains(out[t]));
        assert(out.to_multiset().count(out[t]) > 0);
        assert(shown.contains(out[t]));
        let u = choose|u: int| 0 <= u < shown.len() && shown[u] == out[t];
        assert(app.spec_row_shown(file, file.models@[shown[u] as int]));
    }
    assert(out[i] < file.models@.len() && out[j] < file.models@.len());
    assert(ordered(keys, app.sort_descending, out[i], out[j]));
    assert(keys[out[i] as int] == spec_sort_val(file, file.models@[out[i] as int], app.sort_key));
    assert(keys[out[j] as int] == spec_sort_val(file, file.models@[out[j] as int], app.sort_key));
}

/// Under the release-date sort the list runs by release date (ISO dates, so
/// text order is date order): every listed model has a date, and with the
/// descending sort (the default) a model listed earlier was released no
/// earlier than one listed later; with the ascending sort, no later.
pub proof fn lemma_release_date_order(app: BenchmarksApp, file: SourceFile, i: int, j: int)
    requires
        app.list_built(file),
        app.sort_key == SortKey::ReleaseDate,
        file.models@.len() <= usize::MAX,
        0 <= i < j < app.filtered_indices@.len(),
    ensures
        file.models@[app.filtered_indices@[i] as int].release_date is Some,
        file.models@[app.filtered_indices@[j] as int].release_date is Some,
        app.sort_descending ==> lex_le(
            file.models@[app.filtered_indices@[j] as int].release_date.unwrap()@,
            file.models@[app.filtered_indices@[i] as int].release_date.unwrap()@,
        ),
        !app.sort_descending ==> lex_le(
            file.models@[app.filtered_indices@[i] as int].release_date.unwrap()@,
            file.models@[app.filtered_indices@[j] as int].release_date.unwrap()@,
        ),
{
    lemma_listed_pair(app, file, i, j);
}

/// Under the name sort the list runs by name (code point order): ascending
/// (the default) a model listed earlier has a name no later than one listed
/// after it; descending, no earlier.
pub proof fn lemma_name_order(app: BenchmarksApp, file: SourceFile, i: int, j: int)
    requires
        app.list_built(file),
        app.sort_key == SortKey::Name,
        file.models@.len() <= usize::MAX,
        0 <= i < j < app.filtered_indices@.len(),
    ensures
        !app.sort_descending ==> lex_le(
            file.models@[app.filtered_indices@[i] as int].name@,
            file.models@[app.filtered_indices@[j] as int].name@,
        ),
        app.sort_descending ==> lex_le(
            file.models@[app.filtered_indices@[j] as int].name@,
            file.models@[app.filtered_indices@[i] as int].name@,
        ),
{
    lemma_listed_pair(app, file, i, j);
}

/// Under a metric sort the list runs by score: every listed model is scored
/// on the metric, and descending a model listed earlier scores no lower
/// (by the cell's order key) than one listed later; ascending, no higher.
pub proof fn lemma_metric_order(app: BenchmarksApp, file: SourceFile, mi: usize, i: int, j: int)
    requires
        app.list_built(file),
        app.sort_key == SortKey::Metric(mi),
        mi < file.metrics@.len(),
        file.models@.len() <= usize::MAX,
        0 <= i < j < app.filtered_indices@.len(),
    ensures
        metric_cell(file, file.models@[app.filtered_indices@[i] as int], mi as int) is Some,
        metric_cell(file, file.models@[app.filtered_indices@[j] as int], mi as int) is Some,
        app.sort_descending ==>
            metric_cell(file, file.models@[app.filtered_indices@[j] as int], mi as int).unwrap().order_key
                <= metric_cell(file, file.models@[app.filtered_indices@[i] as int], mi as int).unwrap().order_key,
        !app.sort_descending ==>
            metric_cell(file, file.models@[app.filtered_indices@[i] as int], mi as int).unwrap().order_key
                <= metric_cell(file, file.models@[app.filtered_indices@[j] as int], mi as int).unwrap().order_key,
{
    lemma_listed_pair(app, file, i, j);
}

// ── Sorting choices ───────────────────────────────────────────────────────

/// Default direction for a sort key: descending, except ascending for name
/// and for lower-is-better metrics.
pub open spec fn spec_default_descending(file: SourceFile, key: SortKey) -> bool {
    match key {
        SortKey::Name => false,
        SortKey::ReleaseDate => true,
        SortKey::Metric(mi) => if mi < file.metrics@.len() {
            file.metrics@[mi as int].higher_is_better
        } else {
            true
        },
    }
}

/// Label of a sort-picker option.
pub open spec fn option_label(file: SourceFile, i: int) -> Seq<char> {
    if i == 0 {
        "Release Date"@
    } else if i == 1 {
        "Name"@
    } else {
        file.metrics@[i - 2].label@
    }
}

/// Key of a sort-picker option.
pub open spec fn option_key(i: int) -> SortKey {
    if i == 0 {
        SortKey::ReleaseDate
    } else if i == 1 {
        SortKey::Name
    } else {
        SortKey::Metric((i - 2) as usize)
    }
}

/// Short label for a sort key, shown in the list title: "Name", "Date", or
/// the metric's label (an em-dash when the metric is unknown).
pub open spec fn spec_sort_label(file: Option<SourceFile>, key: SortKey) -> Seq<char> {
    match key {
        SortKey::Name => "Name"@,
        SortKey::ReleaseDate => "Date"@,
        SortKey::Metric(mi) => match file {
            Some(f) => if mi < f.metrics@.len() {
                f.metrics@[mi as int].label@
            } else {
                crate::benchmarks::radar::em_dash()
            },
            None => crate::benchmarks::radar::em_dash(),
        },
    }
}

/// The position of the first creator row for slug `s` among the first `n`
/// rows.
pub open spec fn creator_pos_upto(items: Seq<CreatorListItem>, s: Seq<char>, n: nat) -> Option<int>
    decreases n,
{
    if n == 0 || n > items.len() {
        None
    } else {
        match creator_pos_upto(items, s, (n - 1) as nat) {
            Some(p) => Some(p),
            None => if item_view(items[n - 1]) == ItemView::Creator(s) { Some(n - 1) } else { None },
        }
    }
}

/// A found position stays the first one as more rows are considered.
pub proof fn lemma_creator_pos_stable(items: Seq<CreatorListItem>, s: Seq<char>, a: nat, b: nat)
    requires
        a <= b <= items.len(),
        creator_pos_upto(items, s, a) is Some,
    ensures
        creator_pos_upto(items, s, b) == creator_pos_upto(items, s, a),
    decreases b,
{
    if a < b {
        lemma_creator_pos_stable(items, s, a, (b - 1) as nat);
    }
}

/// The first creator info whose slug is `s`, among the first `n`.
pub open spec fn info_upto(infos: Seq<CreatorInfo>, s: Seq<char>, n: nat) -> Option<CreatorInfo>
    decreases n,
{
    if n == 0 || n > infos.len() {
        None
    } else {
        match info_upto(infos, s, (n - 1) as nat) {
            Some(i) => Some(i),
            None => if infos[n - 1].slug@ == s { Some(infos[n - 1]) } else { None },
        }
    }
}

/// A found info stays the first one as more infos are considered.
pub proof fn lemma_info_stable(infos: Seq<CreatorInfo>, s: Seq<char>, a: nat, b: nat)
    requires
        a <= b <= infos.len(),
        info_upto(infos, s, a) is Some,
    ensures
        info_upto(infos, s, b) == info_upto(infos, s, a),
    decreases b,
{
    if a < b {
        lemma_info_stable(infos, s, a, (b - 1) as nat);
    }
}

/// Sum of the model counts of the first `n` infos.
pub open spec fn total_count(infos: Seq<CreatorInfo>, n: nat) -> nat
    decreases n,
{
    if n == 0 || n > infos.len() { 0 } else { total_count(infos, (n - 1) as nat) + infos[n - 1].count as nat }
}

impl BenchmarksApp {
    /// The info for creator slug `s`.
    pub open spec fn spec_info(self, s: Seq<char>) -> Option<CreatorInfo> {
        info_upto(self.creator_info@, s, self.creator_info@.len())
    }

    /// Sum of the filtered counts of the creator rows among the first `n`
    /// sidebar rows.
    pub open spec fn listed_filtered_total(self, n: nat) -> nat
        decreases n,
    {
        if n == 0 || n > self.creator_list_items@.len() {
            0
        } else {
            self.listed_filtered_total((n - 1) as nat) + match self.creator_list_items@[n - 1] {
                CreatorListItem::Creator(s) => match self.spec_info(s@) {
                    Some(i) => i.filtered_count as nat,
                    None => 0nat,
                },
                _ => 0nat,
            }
        }
    }

    /// Total model count shown for the visible creators: the filtered counts
    /// of the listed creators while filtering, otherwise all models counted.
    pub open spec fn spec_filtered_creator_count(self) -> nat {
        if self.spec_has_active_filters() {
            self.listed_filtered_total(self.creator_list_items@.len())
        } else {
            total_count(self.creator_info@, self.creator_info@.len())
        }
    }

    /// Sidebar name and count for a creator slug: the filtered count while
    /// filtering, the total otherwise; an unknown slug shows itself and 0.
    pub open spec fn spec_creator_display(self, s: Seq<char>) -> (Seq<char>, usize) {
        match self.spec_info(s) {
            Some(i) => (i.display_name@, if self.spec_has_active_filters() { i.filtered_count } else { i.count }),
            None => (s, 0),
        }
    }

    /// The info for creator slug `slug`.
    fn find_creator_info(&self, slug: &str) -> (r: Option<usize>)
        ensures
            r is None ==> self.spec_info(slug@) is None,
            r matches Some(k) ==> k < self.creator_info@.len() && self.spec_info(slug@) == Some(self.creator_info@[k as int]),
    {
        let mut i: usize = 0;
        while i < self.creator_info.len()
            invariant
                i <= self.creator_info.len(),
                info_upto(self.creator_info@, slug@, i as nat) is None,
            decreases self.creator_info.len() - i,
        {
            if str_eq(self.creator_info[i].slug.as_str(), slug) {
                proof {
                    lemma_info_stable(self.creator_info@, slug@, (i + 1) as nat, self.creator_info@.len());
                }
                return Some(i);
            }
            i = i + 1;
        }
        None
    }

    /// Sidebar name and count for a creator slug.
    pub fn creator_display(&self, slug: &str) -> (r: (String, usize))
        ensures
            (r.0@, r.1) == self.spec_creator_display(slug@),
    {
        match self.find_creator_info(slug) {
            Some(k) => {
                let count = if self.has_active_filters() {
                    self.creator_info[k].filtered_count
                } else {
                    self.creator_info[k].count
                };
                (owned(self.creator_info[k].display_name.as_str()), count)
            },
            None => (owned(slug), 0),
        }
    }

    /// Total model count across the visible creators.
    pub fn filtered_creator_count(&self) -> (r: usize)
        requires
            self.spec_filtered_creator_count() <= usize::MAX,
        ensures
            r == self.spec_filtered_creator_count(),
    {
        if self.has_active_filters() {
            let mut sum: usize = 0;
            let mut i: usize = 0;
            while i < self.creator_list_items.len()
                invariant
                    i <= self.creator_list_items.len(),
                    sum == self.listed_filtered_total(i as nat),
                    self.spec_has_active_filters(),
                    self.listed_filtered_total(self.creator_list_items@.len()) <= usize::MAX,
                decreases self.creator_list_items.len() - i,
            {
                proof {
                    self.lemma_listed_total_monotone((i + 1) as nat, self.creator_list_items@.len());
                }
                match &self.creator_list_items[i] {
                    CreatorListItem::Creator(slug) => {
                        match self.find_creator_info(slug.as_str()) {
                            Some(k) => {
                                sum = sum + self.creator_info[k].filtered_count;
                            },
                            None => {},
                        }
                    },
                    _ => {},
                }
                i = i + 1;
            }
            sum
        } else {
            let mut sum: usize = 0;
            let mut i: usize = 0;
            while i < self.creator_info.len()
                invariant
                    i <= self.creator_info.len(),
                    sum == total_count(self.creator_info@, i as nat),
                    total_count(self.creator_info@, self.creator_info@.len()) <= usize::MAX,
                decreases self.creator_info.len() - i,
            {
                proof {
                    lemma_total_count_monotone(self.creator_info@, (i + 1) as nat, self.creator_info@.len());
                }
                sum = sum + self.creator_info[i].count;
                i = i + 1;
            }
            sum
        }
    }

    /// Running sums of listed filtered counts never decrease.
    pub proof fn lemma_listed_total_monotone(self, a: nat, b: nat)
        requires
            a <= b <= self.creator_list_items@.len(),
        ensures
            self.listed_filtered_total(a) <= self.listed_filtered_total(b),
        decreases b,
    {
        if a < b {
            self.lemma_listed_total_monotone(a, (b - 1) as nat);
        }
    }

    /// Display name of the selected sidebar creator, or `None` for "All".
    pub fn selected_creator_name(&self) -> (r: Option<String>)
        ensures
            r is None <==> self.spec_selected_slug() is None,
            r matches Some(n) ==> n@ == self.spec_creator_display(self.spec_selected_slug()->0).0,
    {
        match self.selected_creator_slug() {
            Some(slug) => {
                let (name, _) = self.creator_display(slug.as_str());
                Some(name)
            },
            None => None,
        }
    }

    /// The creator-openness map of the active source.
    pub fn creator_openness(&self) -> (r: &OpennessMap)
        ensures
            *r == self.creator_openness,
    {
        &self.creator_openness
    }

    /// The model under the list selection.
    pub fn current_model<'a>(&self, file: &'a SourceFile) -> (r: Option<&'a ModelRow>)
        ensures
            r is Some <==> self.selected < self.filtered_indices@.len()
                && self.filtered_indices@[self.selected as int] < file.models@.len(),
            r matches Some(m) ==> *m == file.models@[self.filtered_indices@[self.selected as int] as int],
    {
        if self.selected < self.filtered_indices.len() {
            let i = self.filtered_indices[self.selected];
            if i < file.models.len() {
                return Some(&file.models[i]);
            }
        }
        None
    }

    /// Default direction for a sort key.
    pub fn default_descending(file: &SourceFile, key: SortKey) -> (r: bool)
        ensures
            r == spec_default_descending(*file, key),
    {
        match key {
            SortKey::Name => false,
            SortKey::ReleaseDate => true,
            SortKey::Metric(mi) => if mi < file.metrics.len() {
                file.metrics[mi].higher_is_better
            } else {
                true
            },
        }
    }

    /// Flip the sort direction and re-sort.
    pub fn toggle_sort_direction(&mut self, file: &SourceFile)
        requires
            all_below(old(self).filtered_indices@, file.models@.len()),
        ensures
            final(self).sort_descending == !old(self).sort_descending,
            is_stable_sort(sort_views(*file, old(self).sort_key), !old(self).sort_descending,
                old(self).filtered_indices@, final(self).filtered_indices@),
            *final(self) == (BenchmarksApp {
                filtered_indices: final(self).filtered_indices,
                sort_descending: !old(self).sort_descending,
                ..*old(self)
            }),
    {
        self.sort_descending = !self.sort_descending;
        self.apply_sort(file);
    }

    /// Jump directly to a sort key. If already on that key, toggle the
    /// direction; otherwise switch to it with its default direction and
    /// rebuild the list.
    pub fn quick_sort(&mut self, key: SortKey, file: &SourceFile)
        requires
            old(self).sort_key == key ==> all_below(old(self).filtered_indices@, file.models@.len()),
        ensures
            old(self).sort_key == key ==> {
                &&& is_stable_sort(sort_views(*file, key), !old(self).sort_descending,
                    old(self).filtered_indices@, final(self).filtered_indices@)
                &&& *final(self) == (BenchmarksApp {
                    filtered_indices: final(self).filtered_indices,
                    sort_descending: !old(self).sort_descending,
                    ..*old(self)
                })
            },
            old(self).sort_key != key ==> {
                &&& final(self).list_built(*file)
                &&& final(self).selected == if old(self).selected >= final(self).filtered_indices@.len() {
                    0
                } else {
                    old(self).selected
                }
                &&& *final(self) == (BenchmarksApp {
                    filtered_indices: final(self).filtered_indices,
                    selected: final(self).selected,
                    detail_scroll: ScrollOffset { offset: 0 },
                    sort_key: key,
                    sort_descending: spec_default_descending(*file, key),
                    ..*old(self)
                })
            },
    {
        if self.sort_key == key {
            self.sort_descending = !self.sort_descending;
            self.apply_sort(file);
        } else {
            self.sort_key = key;
            self.sort_descending = Self::default_descending(file, key);
            self.update_filtered(file);
        }
    }

    /// The sort-picker options: release date, name, then every metric in
    /// file order.
    pub fn sort_options(file: &SourceFile) -> (r: Vec<SortOption>)
        ensures
            r@.len() == file.metrics@.len() + 2,
            forall|i: int| 0 <= i < r@.len() ==> (#[trigger] r@[i]).key == option_key(i)
                && r@[i].label@ == option_label(*file, i),
    {
        let mut opts: Vec<SortOption> = Vec::new();
        opts.push(SortOption { key: SortKey::ReleaseDate, label: owned("Release Date") });
        opts.push(SortOption { key: SortKey::Name, label: owned("Name") });
        let mut i: usize = 0;
        while i < file.metrics.len()
            invariant
                i <= file.metrics.len(),
                opts@.len() == i + 2,
                forall|j: int| 0 <= j < opts@.len() ==> (#[trigger] opts@[j]).key == option_key(j)
                    && opts@[j].label@ == option_label(*file, j),
            decreases file.metrics.len() - i,
        {
            opts.push(SortOption { key: SortKey::Metric(i), label: owned(file.metrics[i].label.as_str()) });
            i = i + 1;
        }
        opts
    }

    /// Short label for the active sort key.
    pub fn sort_label(file: Option<&SourceFile>, key: SortKey) -> (r: String)
        ensures
            r@ == spec_sort_label(match file { Some(f) => Some(*f), None => None }, key),
    {
        match key {
            SortKey::Name => owned("Name"),
            SortKey::ReleaseDate => owned("Date"),
            SortKey::Metric(mi) => match file {
                Some(f) => if mi < f.metrics.len() {
                    owned(f.metrics[mi].label.as_str())
                } else {
                    crate::benchmarks::radar::em_dash_string()
                },
                None => crate::benchmarks::radar::em_dash_string(),
            },
        }
    }

    /// The quick-sort key for the first metric, if the source has one.
    pub fn quick_sort_metric_first(file: &SourceFile) -> (r: Option<SortKey>)
        ensures
            r == if file.metrics@.len() == 0 { None } else { Some(SortKey::Metric(0)) },
    {
        if file.metrics.len() == 0 {
            None
        } else {
            Some(SortKey::Metric(0))
        }
    }

    /// The quick-sort key for the first tokens-per-second metric, if any.
    pub fn quick_sort_speed(file: &SourceFile) -> (r: Option<SortKey>)
        ensures
            r matches Some(k) ==> k matches SortKey::Metric(i) && i < file.metrics@.len()
                && file.metrics@[i as int].kind == MetricKind::TokensPerSec
                && forall|j: int| 0 <= j < i ==> file.metrics@[j].kind != MetricKind::TokensPerSec,
            r is None ==> forall|j: int| 0 <= j < file.metrics@.len() ==> file.metrics@[j].kind != MetricKind::TokensPerSec,
    {
        let mut i: usize = 0;
        while i < file.metrics.len()
            invariant
                i <= file.metrics.len(),
                forall|j: int| 0 <= j < i ==> file.metrics@[j].kind != MetricKind::TokensPerSec,
            decreases file.metrics.len() - i,
        {
            if file.metrics[i].kind == MetricKind::TokensPerSec {
                return Some(SortKey::Metric(i));
            }
            i = i + 1;
        }
        None
    }

    /// Whether the source has any model carrying a reasoning status (the
    /// reasoning filter is a no-op otherwise); `false` when not loaded.
    pub fn reasoning_filter_available(file: Option<&SourceFile>) -> (r: bool)
        ensures
            r == match file {
                Some(f) => has_reasoning_status(*f),
                None => false,
            },
    {
        match file {
            Some(f) => {
                let mut i: usize = 0;
                while i < f.models.len()
                    invariant
                        i <= f.models.len(),
                        file == Some(f),
                        forall|j: int| 0 <= j < i ==> (#[trigger] f.models@[j]).reasoning_status
                            == crate::benchmarks::schema::ReasoningStatus::Unmarked,
                    decreases f.models.len() - i,
                {
                    if f.models[i].reasoning_status != crate::benchmarks::schema::ReasoningStatus::Unmarked {
                        assert(f.models@[i as int].reasoning_status != crate::benchmarks::schema::ReasoningStatus::Unmarked);
                        assert(has_reasoning_status(*f));
                        return true;
                    }
                    i = i + 1;
                }
                false
            },
            None => false,
        }
    }

    /// The active source's file, if loaded.
    pub fn active_file(store: &MultiStore, active: usize) -> (r: Option<&SourceFile>)
        ensures
            r is None <==> store.spec_file(active as int) is None,
            r matches Some(f) ==> store.spec_file(active as int) == Some(*f),
    {
        store.file(active)
    }

    /// The descriptor of source slot `active`, when that slot exists.
    pub fn active_descriptor(store: &MultiStore, active: usize) -> (r: Option<&SourceDescriptor>)
        ensures
            r is None <==> active >= store.sources@.len(),
            r matches Some(d) ==> *d == store.sources@[active as int].descriptor,
    {
        if active < store.sources.len() {
            Some(&store.sources[active].descriptor)
        } else {
            None
        }
    }

    /// `true` when the active source is still loading.
    pub fn active_is_loading(store: &MultiStore, active: usize) -> (r: bool)
        ensures
            r == store.spec_is_loading(active as int),
    {
        active < store.sources.len() && match &store.sources[active].load {
            SourceLoad::Loading => true,
            _ => false,
        }
    }

    /// `true` when the active source failed to load.
    pub fn active_is_failed(store: &MultiStore, active: usize) -> (r: bool)
        ensures
            r == store.spec_is_failed(active as int),
    {
        active < store.sources.len() && match &store.sources[active].load {
            SourceLoad::Failed => true,
            _ => false,
        }
    }
}

impl BenchmarksApp {
    /// The per-source view settings are at their starting values: no search,
    /// no filters, no grouping, first rows selected, default scatter axes and
    /// radar group, detail view, no overlays, panels scrolled to the top.
    pub open spec fn view_reset(self) -> bool {
        &&& self.search_query@.len() == 0
        &&& self.source_filter == SourceFilter::All
        &&& self.reasoning_filter == ReasoningFilter::All
        &&& self.creator_grouping == CreatorGrouping::Ungrouped
        &&& self.selected == 0
        &&& self.selected_creator == 0
        &&& self.scatter_x == 0
        &&& self.scatter_y == 1
        &&& self.radar_group == 0
        &&& self.bottom_view == BottomView::Detail
        &&& !self.show_detail_overlay
        &&& !self.show_sort_picker
        &&& self.h2h_scroll.offset == 0
        &&& self.detail_scroll.offset == 0
    }

    /// The view is built from `file`: openness derived from its models, the
    /// sidebar and the model list built under the current settings.
    pub open spec fn built_from(self, file: SourceFile) -> bool {
        &&& forall|c: Seq<char>| #[trigger] self.creator_openness.spec_get(c) == spec_creator_openness(file.models@, c)
        &&& self.sidebar_built(file)
        &&& self.list_built(file)
    }

    /// Construct against the active source's file (or `None` while it
    /// loads): source 0, list focused, descending sort by the source's default
    /// key (release date without a file), every view setting at its start.
    pub fn new(file: Option<&SourceFile>) -> (r: BenchmarksApp)
        ensures
            r.view_reset(),
            r.active_source == 0,
            r.focus == BenchmarkFocus::List,
            r.sort_descending,
            r.loading,
            !r.show_creators_in_compare,
            r.sort_picker_selected == 0,
            r.comparator == ComparatorMode::FieldAvg,
            !r.show_glossary,
            r.glossary_scroll.offset == 0,
            !r.show_column_picker,
            r.column_picker_selected == 0,
            r.visible_columns@.len() == 0,
            match file {
                Some(f) => r.sort_key == spec_default_sort(*f) && r.built_from(*f),
                None => {
                    &&& r.sort_key == SortKey::ReleaseDate
                    &&& r.filtered_indices@.len() == 0
                    &&& r.creator_list_items@.len() == 0
                    &&& r.creator_info@.len() == 0
                    &&& forall|c: Seq<char>| r.creator_openness.spec_get(c) is None
                },
            },
    {
        let sort_key = match file {
            Some(f) => default_sort(f),
            None => SortKey::ReleaseDate,
        };
        let mut app = BenchmarksApp {
            active_source: 0,
            filtered_indices: Vec::new(),
            selected: 0,
            focus: BenchmarkFocus::List,
            sort_key,
            sort_descending: true,
            search_query: String::new(),
            creator_list_items: Vec::new(),
            selected_creator: 0,
            source_filter: SourceFilter::All,
            reasoning_filter: ReasoningFilter::All,
            creator_grouping: CreatorGrouping::Ungrouped,
            creator_info: Vec::new(),
            creator_openness: OpennessMap::new(),
            bottom_view: BottomView::Detail,
            h2h_scroll: ScrollOffset { offset: 0 },
            show_detail_overlay: false,
            show_creators_in_compare: false,
            scatter_x: 0,
            scatter_y: 1,
            radar_group: 0,
            show_sort_picker: false,
            sort_picker_selected: 0,
            loading: true,
            detail_scroll: ScrollOffset { offset: 0 },
            comparator: ComparatorMode::FieldAvg,
            show_glossary: false,
            glossary_scroll: ScrollOffset { offset: 0 },
            show_column_picker: false,
            column_picker_selected: 0,
            visible_columns: Vec::new(),
        };
        match file {
            Some(f) => {
                app.creator_openness = creator_openness(&f.models);
                app.build_creator_list(f);
                let ghost mid = app;
                app.update_filtered(f);
                proof {
                    lemma_sidebar_transfer(mid, app, *f);
                }
            },
            None => {},
        }
        app
    }

}

impl BenchmarksApp {
    /// Fields that rebuilding from a source leaves alone.
    pub open spec fn keeps_settings(self, other: BenchmarksApp) -> bool {
        &&& self.active_source == other.active_source
        &&& self.focus == other.focus
        &&& self.show_creators_in_compare == other.show_creators_in_compare
        &&& self.sort_picker_selected == other.sort_picker_selected
        &&& self.comparator == other.comparator
        &&& self.show_glossary == other.show_glossary
        &&& self.glossary_scroll == other.glossary_scroll
        &&& self.show_column_picker == other.show_column_picker
        &&& self.column_picker_selected == other.column_picker_selected
    }

    /// Reset all view state for the active source. With its file loaded, the
    /// source's default sort and direction apply and everything is rebuilt;
    /// otherwise the view is empty (only "All" in the sidebar) and shows
    /// loading unless the source failed.
    pub fn reset_for_source(&mut self, store: &MultiStore)
        ensures
            final(self).view_reset(),
            final(self).keeps_settings(*old(self)),
            match store.spec_file(old(self).active_source as int) {
                Some(f) => {
                    &&& !final(self).loading
                    &&& final(self).sort_key == spec_default_sort(f)
                    &&& final(self).sort_descending == spec_default_descending(f, spec_default_sort(f))
                    &&& final(self).built_from(f)
                },
                None => {
                    &&& final(self).loading == !store.spec_is_failed(old(self).active_source as int)
                    &&& final(self).sort_key == SortKey::ReleaseDate
                    &&& final(self).sort_descending
                    &&& forall|c: Seq<char>| final(self).creator_openness.spec_get(c) is None
                    &&& final(self).creator_info@.len() == 0
                    &&& items_view(final(self).creator_list_items@) == seq![ItemView::All]
                    &&& final(self).filtered_indices@.len() == 0
                },
            },
    {
        let active = self.active_source;
        self.search_query = String::new();
        self.source_filter = SourceFilter::All;
        self.reasoning_filter = ReasoningFilter::All;
        self.creator_grouping = CreatorGrouping::Ungrouped;
        self.selected = 0;
        self.selected_creator = 0;
        self.scatter_x = 0;
        self.scatter_y = 1;
        self.radar_group = 0;
        self.bottom_view = BottomView::Detail;
        self.show_detail_overlay = false;
        self.show_sort_picker = false;
        self.h2h_scroll.jump_top();
        self.reset_detail_scroll();
        match store.file(active) {
            Some(file) => {
                self.loading = false;
                self.sort_key = default_sort(file);
                self.sort_descending = Self::default_descending(file, self.sort_key);
                self.creator_openness = creator_openness(&file.models);
                self.build_creator_list(file);
                let ghost mid = *self;
                self.update_filtered(file);
                proof {
                    lemma_sidebar_transfer(mid, *self, *file);
                }
            },
            None => {
                self.loading = !Self::active_is_failed(store, active);
                self.sort_key = SortKey::ReleaseDate;
                self.sort_descending = true;
                self.creator_openness = OpennessMap::new();
                self.creator_info = Vec::new();
                let mut items: Vec<CreatorListItem> = Vec::new();
                items.push(CreatorListItem::All);
                self.creator_list_items = items;
                assert(items_view(self.creator_list_items@) =~= seq![ItemView::All]);
                self.filtered_indices = Vec::new();
            },
        }
    }

    /// Switch to the next (or previous) source, wrapping, and reset the view
    /// for it. Nothing happens when the store has no sources.
    pub fn switch_source(&mut self, store: &MultiStore, forward: bool)
        requires
            old(self).active_source + store.sources@.len() <= usize::MAX,
        ensures
            store.sources@.len() == 0 ==> *final(self) == *old(self),
            store.sources@.len() > 0 ==> {
                let n = store.sources@.len() as int;
                let a = old(self).active_source as int;
                &&& final(self).active_source == if forward { (a + 1) % n } else { (a + n - 1) % n }
                &&& final(self).view_reset()
                &&& final(self).focus == old(self).focus
                &&& final(self).show_creators_in_compare == old(self).show_creators_in_compare
                &&& final(self).sort_picker_selected == old(self).sort_picker_selected
                &&& final(self).comparator == old(self).comparator
                &&& final(self).show_glossary == old(self).show_glossary
                &&& final(self).glossary_scroll == old(self).glossary_scroll
                &&& final(self).show_column_picker == old(self).show_column_picker
                &&& final(self).column_picker_selected == old(self).column_picker_selected
                &&& match store.spec_file(final(self).active_source as int) {
                    Some(f) => {
                        &&& !final(self).loading
                        &&& final(self).sort_key == spec_default_sort(f)
                        &&& final(self).sort_descending == spec_default_descending(f, spec_default_sort(f))
                        &&& final(self).built_from(f)
                    },
                    None => {
                        &&& final(self).loading == !store.spec_is_failed(final(self).active_source as int)
                        &&& final(self).sort_key == SortKey::ReleaseDate
                        &&& final(self).sort_descending
                        &&& forall|c: Seq<char>| final(self).creator_openness.spec_get(c) is None
                        &&& final(self).creator_info@.len() == 0
                        &&& items_view(final(self).creator_list_items@) == seq![ItemView::All]
                        &&& final(self).filtered_indices@.len() == 0
                    },
                }
            },
    {
        let count = store.sources.len();
        if count == 0 {
            return;
        }
        self.active_source = if forward {
            (self.active_source + 1) % count
        } else {
            (self.active_source + count - 1) % count
        };
        self.reset_for_source(store);
    }

    /// Rebuild everything after the active source's file first lands: the
    /// source's default sort and direction, openness, sidebar (first row
    /// selected) and list (first row selected).
    pub fn rebuild(&mut self, file: &SourceFile)
        ensures
            !final(self).loading,
            final(self).sort_key == spec_default_sort(*file),
            final(self).sort_descending == spec_default_descending(*file, spec_default_sort(*file)),
            final(self).built_from(*file),
            final(self).selected_creator == 0,
            final(self).selected == 0,
            final(self).detail_scroll.offset == 0,
            final(self).keeps_settings(*old(self)),
            final(self).search_query == old(self).search_query,
            final(self).source_filter == old(self).source_filter,
            final(self).reasoning_filter == old(self).reasoning_filter,
            final(self).creator_grouping == old(self).creator_grouping,
    {
        self.loading = false;
        self.sort_key = default_sort(file);
        self.sort_descending = Self::default_descending(file, self.sort_key);
        self.creator_openness = creator_openness(&file.models);
        self.build_creator_list(file);
        let ghost built = *self;
        self.selected_creator = 0;
        self.selected = 0;
        let ghost mid = *self;
        proof {
            lemma_sidebar_transfer(built, mid, *file);
        }
        self.update_filtered(file);
        proof {
            lemma_sidebar_transfer(mid, *self, *file);
        }
        self.reset_detail_scroll();
    }

    /// Rebuild the sidebar and the list after a search or filter change. The
    /// selected creator stays selected when it is still listed (otherwise
    /// "All" is selected); the first model row is selected.
    pub fn rebuild_after_filter_change(&mut self, file: &SourceFile)
        ensures
            final(self).sidebar_built(*file),
            final(self).list_built(*file),
            final(self).selected_creator == match old(self).spec_selected_slug() {
                Some(s) => match creator_pos_upto(final(self).creator_list_items@, s, final(self).creator_list_items@.len()) {
                    Some(p) => p as usize,
                    None => 0usize,
                },
                None => 0usize,
            },
            final(self).selected == 0,
            final(self).detail_scroll.offset == 0,
            *final(self) == (BenchmarksApp {
                creator_info: final(self).creator_info,
                creator_list_items: final(self).creator_list_items,
                selected_creator: final(self).selected_creator,
                filtered_indices: final(self).filtered_indices,
                selected: 0,
                detail_scroll: ScrollOffset { offset: 0 },
                ..*old(self)
            }),
    {
        let prev: Option<String> = match self.selected_creator_slug() {
            Some(s) => Some(owned(s.as_str())),
            None => None,
        };
        self.build_creator_list(file);
        let ghost built = *self;
        let mut new_pos: usize = 0;
        match &prev {
            Some(slug) => {
                let mut i: usize = 0;
                let mut found = false;
                while i < self.creator_list_items.len() && !found
                    invariant
                        i <= self.creator_list_items.len(),
                        !found ==> creator_pos_upto(self.creator_list_items@, slug@, i as nat) is None,
                        !found ==> new_pos == 0,
                        found ==> creator_pos_upto(self.creator_list_items@, slug@, self.creator_list_items@.len())
                            == Some(new_pos as int),
                    decreases self.creator_list_items.len() - i + (if found { 0int } else { 1int }),
                {
                    let hit = match &self.creator_list_items[i] {
                        CreatorListItem::Creator(c) => str_eq(c.as_str(), slug.as_str()),
                        _ => false,
                    };
                    if hit {
                        proof {
                            lemma_creator_pos_stable(self.creator_list_items@, slug@, (i + 1) as nat, self.creator_list_items@.len());
                        }
                        new_pos = i;
                        found = true;
                    } else {
                        i = i + 1;
                    }
                }
            },
            None => {},
        }
        self.selected_creator = new_pos;
        self.selected = 0;
        let ghost mid = *self;
        proof {
            lemma_sidebar_transfer(built, mid, *file);
        }
        self.update_filtered(file);
        proof {
            lemma_sidebar_transfer(mid, *self, *file);
        }
        self.reset_detail_scroll();
    }

    /// Cycle the open/closed filter and rebuild.
    pub fn cycle_source_filter(&mut self, file: &SourceFile)
        ensures
            final(self).source_filter == old(self).source_filter.spec_next(),
            final(self).sidebar_built(*file),
            final(self).list_built(*file),
            final(self).selected == 0,
    {
        self.source_filter = self.source_filter.next();
        self.rebuild_after_filter_change(file);
    }

    /// Cycle the reasoning filter and rebuild.
    pub fn cycle_reasoning_filter(&mut self, file: &SourceFile)
        ensures
            final(self).reasoning_filter == old(self).reasoning_filter.spec_next(),
            final(self).sidebar_built(*file),
            final(self).list_built(*file),
            final(self).selected == 0,
    {
        self.reasoning_filter = self.reasoning_filter.next();
        self.rebuild_after_filter_change(file);
    }

    /// Toggle grouping creators by region (back to ungrouped when already by
    /// region); the sidebar is rebuilt with its first row selected.
    pub fn toggle_region_grouping(&mut self, file: &SourceFile)
        ensures
            final(self).creator_grouping == if old(self).creator_grouping == CreatorGrouping::ByRegion {
                CreatorGrouping::Ungrouped
            } else {
                CreatorGrouping::ByRegion
            },
            final(self).sidebar_built(*file),
            *final(self) == (BenchmarksApp {
                creator_grouping: final(self).creator_grouping,
                creator_info: final(self).creator_info,
                creator_list_items: final(self).creator_list_items,
                selected_creator: 0,
                ..*old(self)
            }),
    {
        self.creator_grouping = if self.creator_grouping == CreatorGrouping::ByRegion {
            CreatorGrouping::Ungrouped
        } else {
            CreatorGrouping::ByRegion
        };
        self.build_creator_list(file);
        let ghost built = *self;
        self.selected_creator = 0;
        proof {
            lemma_sidebar_transfer(built, *self, *file);
        }
    }

    /// Toggle grouping creators by type (back to ungrouped when already by
    /// type); the sidebar is rebuilt with its first row selected.
    pub fn toggle_type_grouping(&mut self, file: &SourceFile)
        ensures
            final(self).creator_grouping == if old(self).creator_grouping == CreatorGrouping::ByType {
                CreatorGrouping::Ungrouped
            } else {
                CreatorGrouping::ByType
            },
            final(self).sidebar_built(*file),
            *final(self) == (BenchmarksApp {
                creator_grouping: final(self).creator_grouping,
                creator_info: final(self).creator_info,
                creator_list_items: final(self).creator_list_items,
                selected_creator: 0,
                ..*old(self)
            }),
    {
        self.creator_grouping = if self.creator_grouping == CreatorGrouping::ByType {
            CreatorGrouping::Ungrouped
        } else {
            CreatorGrouping::ByType
        };
        self.build_creator_list(file);
        let ghost built = *self;
        self.selected_creator = 0;
        proof {
            lemma_sidebar_transfer(built, *self, *file);
        }
    }
}

/// A built sidebar stays built when only the model list, the selections or
/// the scroll positions change: it depends on the filters, the openness map
/// and the grouping alone.
pub proof fn lemma_sidebar_transfer(a: BenchmarksApp, b: BenchmarksApp, file: SourceFile)
    requires
        a.sidebar_built(file),
        a.search_query@ == b.search_query@,
        a.source_filter == b.source_filter,
        a.reasoning_filter == b.reasoning_filter,
        a.creator_openness == b.creator_openness,
        a.creator_info == b.creator_info,
        a.creator_list_items == b.creator_list_items,
        a.creator_grouping == b.creator_grouping,
    ensures
        b.sidebar_built(file),
{
    let ms = file.models@;
    let crs = creators_upto(ms, ms.len());
    assert forall|k: int| 0 <= k < b.creator_info@.len() implies
        #[trigger] b.creator_info@[k].filtered_count == b.pass_upto(ms, crs[k], ms.len()) by {
        lemma_pass_upto_same_filters(a, b, ms, crs[k], ms.len());
    }
    let cs = choose|cs: Seq<Seq<char>>| {
        &&& creator_order(a.creator_info@, kept_infos(a.creator_info@, a.spec_has_active_filters()), cs)
        &&& items_view(a.creator_list_items@) == spec_layout(a.creator_grouping, cs)
    };
    assert(creator_order(b.creator_info@, kept_infos(b.creator_info@, b.spec_has_active_filters()), cs));
    assert(items_view(b.creator_list_items@) == spec_layout(b.creator_grouping, cs));
}

/// Label of the metric a scatter axis advances to, for the status line
/// (`None` when no source is loaded or it has no metrics).
pub open spec fn spec_peek_next_metric_label(file: Option<SourceFile>, current: usize) -> Option<Seq<char>> {
    match file {
        Some(f) => if f.metrics@.len() == 0 {
            None
        } else {
            Some(f.metrics@[(current + 1) % (f.metrics@.len() as int)].label@)
        },
        None => None,
    }
}

/// Label of the metric a scatter axis advances to.
pub fn peek_next_metric_label(file: Option<&SourceFile>, current: usize) -> (r: Option<String>)
    ensures
        r is None <==> spec_peek_next_metric_label(match file { Some(f) => Some(*f), None => None }, current) is None,
        r matches Some(l) ==> spec_peek_next_metric_label(match file { Some(f) => Some(*f), None => None }, current) == Some(l@),
{
    match file {
        Some(f) => {
            let n = f.metrics.len();
            if n == 0 {
                return None;
            }
            let next = wrap_next(current, n);
            Some(owned(f.metrics[next].label.as_str()))
        },
        None => None,
    }
}

/// Name of the radar group the preset advances to, for the status line.
pub open spec fn spec_peek_next_radar_group_label(file: Option<SourceFile>, radar_group: usize) -> Option<Seq<char>> {
    match file {
        Some(f) => {
            let groups = spec_radar_groups(f);
            if groups.len() == 0 { None } else { Some(groups[(radar_group + 1) % (groups.len() as int)]) }
        },
        None => None,
    }
}

/// Name of the radar group the preset advances to.
pub fn peek_next_radar_group_label(file: Option<&SourceFile>, radar_group: usize) -> (r: Option<String>)
    ensures
        r is None <==> spec_peek_next_radar_group_label(match file { Some(f) => Some(*f), None => None }, radar_group) is None,
        r matches Some(l) ==> spec_peek_next_radar_group_label(match file { Some(f) => Some(*f), None => None }, radar_group) == Some(l@),
{
    match file {
        Some(f) => {
            let groups = radar_groups(f);
            if groups.len() == 0 {
                return None;
            }
            let next = wrap_next(radar_group, groups.len());
            assert(groups@.map_values(|s: String| s@)[next as int] == groups@[next as int]@);
            Some(owned(groups[next].as_str()))
        },
        None => None,
    }
}

/// Some model of the source carries a reasoning status.
pub open spec fn has_reasoning_status(f: SourceFile) -> bool {
    exists|i: int| 0 <= i < f.models@.len()
        && (#[trigger] f.models@[i]).reasoning_status != crate::benchmarks::schema::ReasoningStatus::Unmarked
}

/// Running totals of model counts never decrease.
pub proof fn lemma_total_count_monotone(infos: Seq<CreatorInfo>, a: nat, b: nat)
    requires
        a <= b <= infos.len(),
    ensures
        total_count(infos, a) <= total_count(infos, b),
    decreases b,
{
    if a < b {
        lemma_total_count_monotone(infos, a, (b - 1) as nat);
    }
}

/// `page` limited to the `u16` range.
pub open spec fn clamp_u16(page: usize) -> int {
    if page > u16::MAX { u16::MAX as int } else { page as int }
}

/// `page` limited to the `u16` range.
pub fn to_u16_saturating(page: usize) -> (r: u16)
    ensures
        r == clamp_u16(page),
{
    if page > 65535 { 65535 } else { page as u16 }
}

/// `(i + 1) % n`, without overflow.
pub fn wrap_next(i: usize, n: usize) -> (r: usize)
    requires
        n > 0,
    ensures
        r == (i + 1) % (n as int),
{
    let m = i % n;
    proof {
        vstd::arithmetic::div_mod::lemma_add_mod_noop(i as int, 1, n as int);
        vstd::arithmetic::div_mod::lemma_mod_pos_bound(i as int, n as int);
        if n > 1 {
            vstd::arithmetic::div_mod::lemma_small_mod(1, n as nat);
        }
        if m + 1 < n {
            vstd::arithmetic::div_mod::lemma_small_mod((m + 1) as nat, n as nat);
        } else {
            vstd::arithmetic::div_mod::lemma_mod_self_0(n as int);
        }
    }
    if m + 1 == n { 0 } else { m + 1 }
}

/// The metric a key sorts by, if any.
pub open spec fn sort_metric(key: SortKey) -> Option<usize> {
    match key {
        SortKey::Metric(m) => Some(m),
        _ => None,
    }
}

/// The leaderboard's metric columns: the picked columns, then the sorted
/// metric when it is not among them.
pub open spec fn spec_effective_columns(visible: Seq<usize>, key: SortKey) -> Seq<usize> {
    match key {
        SortKey::Metric(m) => if visible.contains(m) { visible } else { visible.push(m) },
        _ => visible,
    }
}

impl BenchmarksApp {
    /// The leaderboard's metric columns: the picked columns, then the sorted
    /// metric when it is not among them.
    pub fn effective_columns(&self) -> (r: Vec<usize>)
        ensures
            r@ == spec_effective_columns(self.visible_columns@, self.sort_key),
    {
        let mut r: Vec<usize> = Vec::new();
        let mut present = false;
        let mut i: usize = 0;
        while i < self.visible_columns.len()
            invariant
                i <= self.visible_columns@.len(),
                r@ == self.visible_columns@.take(i as int),
                present == (exists|j: int| 0 <= j < i && Some(#[trigger] self.visible_columns@[j]) == sort_metric(self.sort_key)),
            decreases self.visible_columns.len() - i,
        {
            let c = self.visible_columns[i];
            match self.sort_key {
                SortKey::Metric(m) => if c == m { present = true; },
                _ => {},
            }
            r.push(c);
            i = i + 1;
            assert(r@ =~= self.visible_columns@.take(i as int));
        }
        assert(self.visible_columns@.take(i as int) =~= self.visible_columns@);
        match self.sort_key {
            SortKey::Metric(m) => {
                if !present {
                    r.push(m);
                } else {
                    let ghost j = choose|j: int| 0 <= j < i && Some(#[trigger] self.visible_columns@[j]) == sort_metric(self.sort_key);
                    assert(self.visible_columns@[j] == m);
                    assert(self.visible_columns@.contains(m));
                }
            },
            _ => {},
        }
        r
    }
}

} // verus!

//! Key and mouse dispatch: which message an input event produces, given the
//! relevant view state. Reading events from the terminal and applying the
//! messages happen elsewhere.

use vstd::prelude::*;
use crate::models::app::Focus;
use crate::benchmarks::app::{BenchmarkFocus, BottomView};
use crate::mouse::{Rect, popup_row_at, spec_row_at, popup_offset};

verus! {

/// A key, as far as dispatch distinguishes keys.
#[derive(Debug, Clone, Copy, PartialEq, Eq, Structural)]
pub enum Key {
    Char(char),
    Up,
    Down,
    Left,
    Right,
    PageUp,
    PageDown,
    Tab,
    BackTab,
    Esc,
    Enter,
    Backspace,
    Other,
}

/// Shared navigation actions across all tabs.
#[derive(Debug, Clone, Copy, PartialEq, Eq, Structural)]
pub enum NavAction {
    Down,
    Up,
    First,
    Last,
    PageDown,
    PageUp,
    FocusLeft,
    FocusRight,
    FocusNext,
    Search,
    ClearEsc,
}

/// Top-level tabs.
#[derive(Debug, Clone, Copy, PartialEq, Eq, Structural)]
pub enum Tab {
    Models,
    Agents,
    Benchmarks,
    Status,
}

/// Input mode.
#[derive(Debug, Clone, Copy, PartialEq, Eq, Structural)]
pub enum Mode {
    Normal,
    Search,
}

/// Focus on the agents tab.
#[derive(Debug, Clone, Copy, PartialEq, Eq, Structural)]
pub enum AgentFocus {
    List,
    Details,
}

/// Focus on the status tab.
#[derive(Debug, Clone, Copy, PartialEq, Eq, Structural)]
pub enum StatusFocus {
    List,
    Details,
}

/// What dispatch reads of the agents tab.
#[derive(Debug, Clone, Copy, PartialEq, Eq, Structural)]
pub struct AgentsView {
    pub focus: AgentFocus,
    pub show_picker: bool,
    pub show_add_form: bool,
}

/// What dispatch reads of the status tab.
#[derive(Debug, Clone, Copy, PartialEq, Eq, Structural)]
pub struct StatusView {
    pub focus: StatusFocus,
    pub show_picker: bool,
}

/// The view state input dispatch depends on.
#[derive(Debug, Clone, Copy, PartialEq, Eq, Structural)]
pub struct KeyContext {
    pub current_tab: Tab,
    pub mode: Mode,
    pub show_help: bool,
    pub models_focus: Focus,
    /// `None` while the agents tab has no state.
    pub agents: Option<AgentsView>,
    /// `None` while the status tab has no state.
    pub status: Option<StatusView>,
    pub bench_focus: BenchmarkFocus,
    pub bench_bottom_view: BottomView,
    pub bench_show_detail_overlay: bool,
    pub bench_show_sort_picker: bool,
    pub bench_show_glossary: bool,
    pub bench_show_column_picker: bool,
    /// Some model of the active benchmark source carries a reasoning status.
    pub reasoning_filter_available: bool,
    /// Number of benchmark models selected for comparison.
    pub selections: usize,
}

/// Messages the input layer sends to the application.
#[derive(Debug, Clone, Copy, PartialEq, Eq, Structural)]
pub enum Message {
    AddAgentBackspace,
    AddAgentInput(char),
    AddAgentSave,
    AddAgentToggleField,
    ClearBenchmarkSelections,
    ClearSearch,
    CloseAddAgent,
    CloseDetailOverlay,
    ClosePicker,
    CloseSortPicker,
    ColumnPickerCancel,
    ColumnPickerFirst,
    ColumnPickerLast,
    ColumnPickerNext,
    ColumnPickerPrev,
    ColumnPickerSave,
    ColumnPickerToggle,
    CopyAgentName,
    CopyFull,
    CopyModelId,
    CopyProviderApi,
    CopyProviderDoc,
    CycleAgentSort,
    CycleBenchmarkSource,
    CycleBenchmarkView,
    CycleComparator,
    CycleDataSourceNext,
    CycleDataSourcePrev,
    CycleProviderCategory,
    CycleRadarPreset,
    CycleReasoningFilter,
    CycleScatterX,
    CycleScatterY,
    CycleSort,
    EnterSearch,
    ExitSearch,
    FocusBenchmarkLeft,
    FocusBenchmarkRight,
    FocusModelLeft,
    FocusModelRight,
    NextAgent,
    NextBenchmark,
    NextBenchmarkCreator,
    NextModel,
    NextOverallStatusPanel,
    NextSearchMatch,
    NextStatusProvider,
    NextTab,
    OpenAddAgent,
    OpenAgentDocs,
    OpenAgentRepo,
    OpenBenchmarkUrl,
    OpenColumnPicker,
    OpenPicker,
    OpenProviderDoc,
    OpenSortPicker,
    OpenStatusPage,
    OpenStatusPicker,
    PageDownAgent,
    PageDownBenchmark,
    PageDownBenchmarkCreator,
    PageDownModel,
    PageDownStatusProvider,
    PageScrollBenchmarkDetailDown,
    PageScrollBenchmarkDetailUp,
    PageScrollDetailDown,
    PageScrollDetailUp,
    PageScrollModelDetailDown,
    PageScrollModelDetailUp,
    PageScrollStatusDetailDown,
    PageScrollStatusDetailUp,
    PageUpAgent,
    PageUpBenchmark,
    PageUpBenchmarkCreator,
    PageUpModel,
    PageUpStatusProvider,
    PickerNext,
    PickerPrev,
    PickerSave,
    PickerToggle,
    PrevAgent,
    PrevBenchmark,
    PrevBenchmarkCreator,
    PrevModel,
    PrevOverallStatusPanel,
    PrevSearchMatch,
    PrevStatusProvider,
    PrevTab,
    Quit,
    RefreshAgents,
    RefreshBenchmarkSource,
    RefreshModels,
    RefreshStatus,
    ScrollBenchmarkDetailBottom,
    ScrollBenchmarkDetailDown,
    ScrollBenchmarkDetailTop,
    ScrollBenchmarkDetailUp,
    ScrollDetailBottom,
    ScrollDetailDown,
    ScrollDetailTop,
    ScrollDetailUp,
    ScrollGlossaryDown,
    ScrollGlossaryUp,
    ScrollH2HDown,
    ScrollH2HPageDown,
    ScrollH2HPageUp,
    ScrollH2HTop,
    ScrollH2HUp,
    ScrollHelpDown,
    ScrollHelpUp,
    ScrollModelDetailBottom,
    ScrollModelDetailDown,
    ScrollModelDetailTop,
    ScrollModelDetailUp,
    ScrollStatusDetailBottom,
    ScrollStatusDetailDown,
    ScrollStatusDetailTop,
    ScrollStatusDetailUp,
    SearchBackspace,
    SearchInput(char),
    SelectFirstAgent,
    SelectFirstBenchmark,
    SelectFirstBenchmarkCreator,
    SelectFirstModel,
    SelectFirstStatusProvider,
    SelectLastAgent,
    SelectLastBenchmark,
    SelectLastBenchmarkCreator,
    SelectLastModel,
    SelectLastStatusProvider,
    SortPickerConfirm,
    SortPickerNext,
    SortPickerPrev,
    SwitchAgentFocus,
    SwitchStatusFocus,
    ToggleBenchmarkSelection,
    ToggleBenchmarkSortDir,
    ToggleCliFilter,
    ToggleComparePanel,
    ToggleDetailOverlay,
    ToggleFree,
    ToggleGlossary,
    ToggleGrouping,
    ToggleHelp,
    ToggleInstalledFilter,
    ToggleOpenSourceFilter,
    ToggleOpenWeights,
    ToggleReasoning,
    ToggleRegionGrouping,
    ToggleSortDir,
    ToggleTools,
    ToggleTypeGrouping,
}

/// The agents tab's provider picker is open.
pub open spec fn spec_agents_show_picker(ctx: KeyContext) -> bool {
    match ctx.agents { Some(a) => a.show_picker, None => false }
}

/// The agents tab's provider picker is open.
pub fn agents_show_picker(ctx: KeyContext) -> (r: bool)
    ensures
        r == spec_agents_show_picker(ctx),
{
    match ctx.agents { Some(a) => a.show_picker, None => false }
}

/// The agents tab's add-agent form is open.
pub open spec fn spec_agents_show_add_form(ctx: KeyContext) -> bool {
    match ctx.agents { Some(a) => a.show_add_form, None => false }
}

/// The agents tab's add-agent form is open.
pub fn agents_show_add_form(ctx: KeyContext) -> (r: bool)
    ensures
        r == spec_agents_show_add_form(ctx),
{
    match ctx.agents { Some(a) => a.show_add_form, None => false }
}

/// The status tab's tracker picker is open.
pub open spec fn spec_status_show_picker(ctx: KeyContext) -> bool {
    match ctx.status { Some(s) => s.show_picker, None => false }
}

/// The status tab's tracker picker is open.
pub fn status_show_picker(ctx: KeyContext) -> (r: bool)
    ensures
        r == spec_status_show_picker(ctx),
{
    match ctx.status { Some(s) => s.show_picker, None => false }
}

/// The shared navigation action a key stands for, on any tab.
pub open spec fn spec_parse_nav_key(code: Key, ctrl: bool) -> Option<NavAction> {
    match code {
        Key::Char('j') | Key::Down => Some(NavAction::Down),
        Key::Char('k') | Key::Up => Some(NavAction::Up),
        Key::Char('g') => Some(NavAction::First),
        Key::Char('G') => Some(NavAction::Last),
        Key::Char('d') if ctrl => Some(NavAction::PageDown),
        Key::Char('u') if ctrl => Some(NavAction::PageUp),
        Key::PageDown => Some(NavAction::PageDown),
        Key::PageUp => Some(NavAction::PageUp),
        Key::Char('h') | Key::Left => Some(NavAction::FocusLeft),
        Key::Char('l') | Key::Right => Some(NavAction::FocusRight),
        Key::Tab | Key::BackTab => Some(NavAction::FocusNext),
        Key::Char('/') => Some(NavAction::Search),
        Key::Esc => Some(NavAction::ClearEsc),
        _ => None,
    }
}

/// The shared navigation action a key stands for, on any tab.
pub fn parse_nav_key(code: Key, ctrl: bool) -> (r: Option<NavAction>)
    ensures
        r == spec_parse_nav_key(code, ctrl),
{
    match code {
        Key::Char('j') | Key::Down => Some(NavAction::Down),
        Key::Char('k') | Key::Up => Some(NavAction::Up),
        Key::Char('g') => Some(NavAction::First),
        Key::Char('G') => Some(NavAction::Last),
        Key::Char('d') if ctrl => Some(NavAction::PageDown),
        Key::Char('u') if ctrl => Some(NavAction::PageUp),
        Key::PageDown => Some(NavAction::PageDown),
        Key::PageUp => Some(NavAction::PageUp),
        Key::Char('h') | Key::Left => Some(NavAction::FocusLeft),
        Key::Char('l') | Key::Right => Some(NavAction::FocusRight),
        Key::Tab | Key::BackTab => Some(NavAction::FocusNext),
        Key::Char('/') => Some(NavAction::Search),
        Key::Esc => Some(NavAction::ClearEsc),
        _ => None,
    }
}

/// Navigation on the models tab: list moves while the list has focus, detail scrolling while the detail panel has it.
pub open spec fn spec_resolve_models_nav(focus: Focus, action: NavAction) -> Option<Message> {
    match action {
        NavAction::Down => match focus {
            Focus::Models => Some(Message::NextModel),
            Focus::Details => Some(Message::ScrollModelDetailDown),
        },
        NavAction::Up => match focus {
            Focus::Models => Some(Message::PrevModel),
            Focus::Details => Some(Message::ScrollModelDetailUp),
        },
        NavAction::First => match focus {
            Focus::Models => Some(Message::SelectFirstModel),
            Focus::Details => Some(Message::ScrollModelDetailTop),
        },
        NavAction::Last => match focus {
            Focus::Models => Some(Message::SelectLastModel),
            Focus::Details => Some(Message::ScrollModelDetailBottom),
        },
        NavAction::PageDown => match focus {
            Focus::Models => Some(Message::PageDownModel),
            Focus::Details => Some(Message::PageScrollModelDetailDown),
        },
        NavAction::PageUp => match focus {
            Focus::Models => Some(Message::PageUpModel),
            Focus::Details => Some(Message::PageScrollModelDetailUp),
        },
        NavAction::FocusLeft => Some(Message::FocusModelLeft),
        NavAction::FocusRight | NavAction::FocusNext => Some(Message::FocusModelRight),
        NavAction::Search => Some(Message::EnterSearch),
        NavAction::ClearEsc => Some(Message::ClearSearch),
    }
}

/// Navigation on the models tab: list moves while the list has focus, detail scrolling while the detail panel has it.
pub fn resolve_models_nav(focus: Focus, action: NavAction) -> (r: Option<Message>)
    ensures
        r == spec_resolve_models_nav(focus, action),
{
    match action {
        NavAction::Down => match focus {
            Focus::Models => Some(Message::NextModel),
            Focus::Details => Some(Message::ScrollModelDetailDown),
        },
        NavAction::Up => match focus {
            Focus::Models => Some(Message::PrevModel),
            Focus::Details => Some(Message::ScrollModelDetailUp),
        },
        NavAction::First => match focus {
            Focus::Models => Some(Message::SelectFirstModel),
            Focus::Details => Some(Message::ScrollModelDetailTop),
        },
        NavAction::Last => match focus {
            Focus::Models => Some(Message::SelectLastModel),
            Focus::Details => Some(Message::ScrollModelDetailBottom),
        },
        NavAction::PageDown => match focus {
            Focus::Models => Some(Message::PageDownModel),
            Focus::Details => Some(Message::PageScrollModelDetailDown),
        },
        NavAction::PageUp => match focus {
            Focus::Models => Some(Message::PageUpModel),
            Focus::Details => Some(Message::PageScrollModelDetailUp),
        },
        NavAction::FocusLeft => Some(Message::FocusModelLeft),
        NavAction::FocusRight | NavAction::FocusNext => Some(Message::FocusModelRight),
        NavAction::Search => Some(Message::EnterSearch),
        NavAction::ClearEsc => Some(Message::ClearSearch),
    }
}

/// Navigation on the agents tab (list focus when the tab has no state yet).
pub open spec fn spec_resolve_agents_nav(agents: Option<AgentsView>, action: NavAction) -> Option<Message> {
    let focus = match agents { Some(a) => a.focus, None => AgentFocus::List };
    match action {
        NavAction::Down => if focus == AgentFocus::List { Some(Message::NextAgent) } else { Some(Message::ScrollDetailDown) },
        NavAction::Up => if focus == AgentFocus::List { Some(Message::PrevAgent) } else { Some(Message::ScrollDetailUp) },
        NavAction::First => if focus == AgentFocus::List { Some(Message::SelectFirstAgent) } else { Some(Message::ScrollDetailTop) },
        NavAction::Last => if focus == AgentFocus::List { Some(Message::SelectLastAgent) } else { Some(Message::ScrollDetailBottom) },
        NavAction::PageDown => if focus == AgentFocus::List { Some(Message::PageDownAgent) } else { Some(Message::PageScrollDetailDown) },
        NavAction::PageUp => if focus == AgentFocus::List { Some(Message::PageUpAgent) } else { Some(Message::PageScrollDetailUp) },
        NavAction::FocusLeft | NavAction::FocusRight | NavAction::FocusNext => Some(Message::SwitchAgentFocus),
        NavAction::Search => Some(Message::EnterSearch),
        NavAction::ClearEsc => Some(Message::ClearSearch),
    }
}

/// Navigation on the agents tab (list focus when the tab has no state yet).
pub fn resolve_agents_nav(agents: Option<AgentsView>, action: NavAction) -> (r: Option<Message>)
    ensures
        r == spec_resolve_agents_nav(agents, action),
{
    let focus = match agents { Some(a) => a.focus, None => AgentFocus::List };
    match action {
        NavAction::Down => if focus == AgentFocus::List { Some(Message::NextAgent) } else { Some(Message::ScrollDetailDown) },
        NavAction::Up => if focus == AgentFocus::List { Some(Message::PrevAgent) } else { Some(Message::ScrollDetailUp) },
        NavAction::First => if focus == AgentFocus::List { Some(Message::SelectFirstAgent) } else { Some(Message::ScrollDetailTop) },
        NavAction::Last => if focus == AgentFocus::List { Some(Message::SelectLastAgent) } else { Some(Message::ScrollDetailBottom) },
        NavAction::PageDown => if focus == AgentFocus::List { Some(Message::PageDownAgent) } else { Some(Message::PageScrollDetailDown) },
        NavAction::PageUp => if focus == AgentFocus::List { Some(Message::PageUpAgent) } else { Some(Message::PageScrollDetailUp) },
        NavAction::FocusLeft | NavAction::FocusRight | NavAction::FocusNext => Some(Message::SwitchAgentFocus),
        NavAction::Search => Some(Message::EnterSearch),
        NavAction::ClearEsc => Some(Message::ClearSearch),
    }
}

/// Navigation on the status tab (list focus when the tab has no state yet).
pub open spec fn spec_resolve_status_nav(status: Option<StatusView>, action: NavAction) -> Option<Message> {
    let focus = match status { Some(a) => a.focus, None => StatusFocus::List };
    match action {
        NavAction::Down => if focus == StatusFocus::List { Some(Message::NextStatusProvider) } else { Some(Message::ScrollStatusDetailDown) },
        NavAction::Up => if focus == StatusFocus::List { Some(Message::PrevStatusProvider) } else { Some(Message::ScrollStatusDetailUp) },
        NavAction::First => if focus == StatusFocus::List { Some(Message::SelectFirstStatusProvider) } else { Some(Message::ScrollStatusDetailTop) },
        NavAction::Last => if focus == StatusFocus::List { Some(Message::SelectLastStatusProvider) } else { Some(Message::ScrollStatusDetailBottom) },
        NavAction::PageDown => if focus == StatusFocus::List { Some(Message::PageDownStatusProvider) } else { Some(Message::PageScrollStatusDetailDown) },
        NavAction::PageUp => if focus == StatusFocus::List { Some(Message::PageUpStatusProvider) } else { Some(Message::PageScrollStatusDetailUp) },
        NavAction::FocusLeft => if focus == StatusFocus::Details { Some(Message::PrevOverallStatusPanel) } else { Some(Message::SwitchStatusFocus) },
        NavAction::FocusRight => if focus == StatusFocus::Details { Some(Message::NextOverallStatusPanel) } else { Some(Message::SwitchStatusFocus) },
        NavAction::FocusNext => Some(Message::SwitchStatusFocus),
        NavAction::Search => Some(Message::EnterSearch),
        NavAction::ClearEsc => Some(Message::ClearSearch),
    }
}

/// Navigation on the status tab (list focus when the tab has no state yet).
pub fn resolve_status_nav(status: Option<StatusView>, action: NavAction) -> (r: Option<Message>)
    ensures
        r == spec_resolve_status_nav(status, action),
{
    let focus = match status { Some(a) => a.focus, None => StatusFocus::List };
    match action {
        NavAction::Down => if focus == StatusFocus::List { Some(Message::NextStatusProvider) } else { Some(Message::ScrollStatusDetailDown) },
        NavAction::Up => if focus == StatusFocus::List { Some(Message::PrevStatusProvider) } else { Some(Message::ScrollStatusDetailUp) },
        NavAction::First => if focus == StatusFocus::List { Some(Message::SelectFirstStatusProvider) } else { Some(Message::ScrollStatusDetailTop) },
        NavAction::Last => if focus == StatusFocus::List { Some(Message::SelectLastStatusProvider) } else { Some(Message::ScrollStatusDetailBottom) },
        NavAction::PageDown => if focus == StatusFocus::List { Some(Message::PageDownStatusProvider) } else { Some(Message::PageScrollStatusDetailDown) },
        NavAction::PageUp => if focus == StatusFocus::List { Some(Message::PageUpStatusProvider) } else { Some(Message::PageScrollStatusDetailUp) },
        NavAction::FocusLeft => if focus == StatusFocus::Details { Some(Message::PrevOverallStatusPanel) } else { Some(Message::SwitchStatusFocus) },
        NavAction::FocusRight => if focus == StatusFocus::Details { Some(Message::NextOverallStatusPanel) } else { Some(Message::SwitchStatusFocus) },
        NavAction::FocusNext => Some(Message::SwitchStatusFocus),
        NavAction::Search => Some(Message::EnterSearch),
        NavAction::ClearEsc => Some(Message::ClearSearch),
    }
}

/// Navigation on the benchmarks tab: per panel; in the comparison only the head-to-head table scrolls; Esc closes the detail overlay before clearing the search.
pub open spec fn spec_resolve_benchmarks_nav(ctx: KeyContext, action: NavAction) -> Option<Message> {
    let focus = ctx.bench_focus;
    let is_h2h_compare = focus == BenchmarkFocus::Compare && ctx.bench_bottom_view == BottomView::H2H;
    match action {
        NavAction::Down => match focus {
            BenchmarkFocus::Creators => Some(Message::NextBenchmarkCreator),
            BenchmarkFocus::List => Some(Message::NextBenchmark),
            BenchmarkFocus::Details => Some(Message::ScrollBenchmarkDetailDown),
            BenchmarkFocus::Compare => if is_h2h_compare { Some(Message::ScrollH2HDown) } else { None },
        },
        NavAction::Up => match focus {
            BenchmarkFocus::Creators => Some(Message::PrevBenchmarkCreator),
            BenchmarkFocus::List => Some(Message::PrevBenchmark),
            BenchmarkFocus::Details => Some(Message::ScrollBenchmarkDetailUp),
            BenchmarkFocus::Compare => if is_h2h_compare { Some(Message::ScrollH2HUp) } else { None },
        },
        NavAction::First => match focus {
            BenchmarkFocus::Creators => Some(Message::SelectFirstBenchmarkCreator),
            BenchmarkFocus::List => Some(Message::SelectFirstBenchmark),
            BenchmarkFocus::Details => Some(Message::ScrollBenchmarkDetailTop),
            BenchmarkFocus::Compare => if is_h2h_compare { Some(Message::ScrollH2HTop) } else { None },
        },
        NavAction::Last => match focus {
            BenchmarkFocus::Creators => Some(Message::SelectLastBenchmarkCreator),
            BenchmarkFocus::List => Some(Message::SelectLastBenchmark),
            BenchmarkFocus::Details => Some(Message::ScrollBenchmarkDetailBottom),
            BenchmarkFocus::Compare => None,
        },
        NavAction::PageDown => match focus {
            BenchmarkFocus::Creators => Some(Message::PageDownBenchmarkCreator),
            BenchmarkFocus::List => Some(Message::PageDownBenchmark),
            BenchmarkFocus::Details => Some(Message::PageScrollBenchmarkDetailDown),
            BenchmarkFocus::Compare => if is_h2h_compare { Some(Message::ScrollH2HPageDown) } else { None },
        },
        NavAction::PageUp => match focus {
            BenchmarkFocus::Creators => Some(Message::PageUpBenchmarkCreator),
            BenchmarkFocus::List => Some(Message::PageUpBenchmark),
            BenchmarkFocus::Details => Some(Message::PageScrollBenchmarkDetailUp),
            BenchmarkFocus::Compare => if is_h2h_compare { Some(Message::ScrollH2HPageUp) } else { None },
        },
        NavAction::FocusLeft => Some(Message::FocusBenchmarkLeft),
        NavAction::FocusRight | NavAction::FocusNext => Some(Message::FocusBenchmarkRight),
        NavAction::Search => Some(Message::EnterSearch),
        NavAction::ClearEsc => if ctx.bench_show_detail_overlay { Some(Message::CloseDetailOverlay) } else { Some(Message::ClearSearch) },
    }
}

/// Navigation on the benchmarks tab: per panel; in the comparison only the head-to-head table scrolls; Esc closes the detail overlay before clearing the search.
pub fn resolve_benchmarks_nav(ctx: KeyContext, action: NavAction) -> (r: Option<Message>)
    ensures
        r == spec_resolve_benchmarks_nav(ctx, action),
{
    let focus = ctx.bench_focus;
    let is_h2h_compare = focus == BenchmarkFocus::Compare && ctx.bench_bottom_view == BottomView::H2H;
    match action {
        NavAction::Down => match focus {
            BenchmarkFocus::Creators => Some(Message::NextBenchmarkCreator),
            BenchmarkFocus::List => Some(Message::NextBenchmark),
            BenchmarkFocus::Details => Some(Message::ScrollBenchmarkDetailDown),
            BenchmarkFocus::Compare => if is_h2h_compare { Some(Message::ScrollH2HDown) } else { None },
        },
        NavAction::Up => match focus {
            BenchmarkFocus::Creators => Some(Message::PrevBenchmarkCreator),
            BenchmarkFocus::List => Some(Message::PrevBenchmark),
            BenchmarkFocus::Details => Some(Message::ScrollBenchmarkDetailUp),
            BenchmarkFocus::Compare => if is_h2h_compare { Some(Message::ScrollH2HUp) } else { None },
        },
        NavAction::First => match focus {
            BenchmarkFocus::Creators => Some(Message::SelectFirstBenchmarkCreator),
            BenchmarkFocus::List => Some(Message::SelectFirstBenchmark),
            BenchmarkFocus::Details => Some(Message::ScrollBenchmarkDetailTop),
            BenchmarkFocus::Compare => if is_h2h_compare { Some(Message::ScrollH2HTop) } else { None },
        },
        NavAction::Last => match focus {
            BenchmarkFocus::Creators => Some(Message::SelectLastBenchmarkCreator),
            BenchmarkFocus::List => Some(Message::SelectLastBenchmark),
            BenchmarkFocus::Details => Some(Message::ScrollBenchmarkDetailBottom),
            BenchmarkFocus::Compare => None,
        },
        NavAction::PageDown => match focus {
            BenchmarkFocus::Creators => Some(Message::PageDownBenchmarkCreator),
            BenchmarkFocus::List => Some(Message::PageDownBenchmark),
            BenchmarkFocus::Details => Some(Message::PageScrollBenchmarkDetailDown),
            BenchmarkFocus::Compare => if is_h2h_compare { Some(Message::ScrollH2HPageDown) } else { None },
        },
        NavAction::PageUp => match focus {
            BenchmarkFocus::Creators => Some(Message::PageUpBenchmarkCreator),
            BenchmarkFocus::List => Some(Message::PageUpBenchmark),
            BenchmarkFocus::Details => Some(Message::PageScrollBenchmarkDetailUp),
            BenchmarkFocus::Compare => if is_h2h_compare { Some(Message::ScrollH2HPageUp) } else { None },
        },
        NavAction::FocusLeft => Some(Message::FocusBenchmarkLeft),
        NavAction::FocusRight | NavAction::FocusNext => Some(Message::FocusBenchmarkRight),
        NavAction::Search => Some(Message::EnterSearch),
        NavAction::ClearEsc => if ctx.bench_show_detail_overlay { Some(Message::CloseDetailOverlay) } else { Some(Message::ClearSearch) },
    }
}

/// Keys while the sort picker is open.
pub open spec fn spec_handle_sort_picker_keys(code: Key) -> Option<Message> {
    match code {
        Key::Char('j') | Key::Down => Some(Message::SortPickerNext),
        Key::Char('k') | Key::Up => Some(Message::SortPickerPrev),
        Key::Enter => Some(Message::SortPickerConfirm),
        Key::Esc | Key::Char('s') => Some(Message::CloseSortPicker),
        _ => None,
    }
}

/// Keys while the sort picker is open.
pub fn handle_sort_picker_keys(code: Key) -> (r: Option<Message>)
    ensures
        r == spec_handle_sort_picker_keys(code),
{
    match code {
        Key::Char('j') | Key::Down => Some(Message::SortPickerNext),
        Key::Char('k') | Key::Up => Some(Message::SortPickerPrev),
        Key::Enter => Some(Message::SortPickerConfirm),
        Key::Esc | Key::Char('s') => Some(Message::CloseSortPicker),
        _ => None,
    }
}

/// Glossary popup keys: `i`/Esc close, arrows and `j`/`k` scroll; every other key is swallowed.
pub open spec fn spec_handle_glossary_keys(code: Key) -> Option<Message> {
    match code {
        Key::Char('i') | Key::Esc => Some(Message::ToggleGlossary),
        Key::Char('j') | Key::Down => Some(Message::ScrollGlossaryDown),
        Key::Char('k') | Key::Up => Some(Message::ScrollGlossaryUp),
        _ => None,
    }
}

/// Glossary popup keys: `i`/Esc close, arrows and `j`/`k` scroll; every other key is swallowed.
pub fn handle_glossary_keys(code: Key) -> (r: Option<Message>)
    ensures
        r == spec_handle_glossary_keys(code),
{
    match code {
        Key::Char('i') | Key::Esc => Some(Message::ToggleGlossary),
        Key::Char('j') | Key::Down => Some(Message::ScrollGlossaryDown),
        Key::Char('k') | Key::Up => Some(Message::ScrollGlossaryUp),
        _ => None,
    }
}

/// Column picker popup keys; every other key is swallowed.
pub open spec fn spec_handle_column_picker_keys(code: Key, ctrl: bool) -> Option<Message> {
    match code {
        Key::Char('j') | Key::Down => Some(Message::ColumnPickerNext),
        Key::Char('k') | Key::Up => Some(Message::ColumnPickerPrev),
        Key::Char('g') => Some(Message::ColumnPickerFirst),
        Key::Char('G') => Some(Message::ColumnPickerLast),
        Key::Char('d') if ctrl => Some(Message::ColumnPickerLast),
        Key::Char('u') if ctrl => Some(Message::ColumnPickerFirst),
        Key::PageDown => Some(Message::ColumnPickerLast),
        Key::PageUp => Some(Message::ColumnPickerFirst),
        Key::Char(' ') => Some(Message::ColumnPickerToggle),
        Key::Enter => Some(Message::ColumnPickerSave),
        Key::Esc => Some(Message::ColumnPickerCancel),
        _ => None,
    }
}

/// Column picker popup keys; every other key is swallowed.
pub fn handle_column_picker_keys(code: Key, ctrl: bool) -> (r: Option<Message>)
    ensures
        r == spec_handle_column_picker_keys(code, ctrl),
{
    match code {
        Key::Char('j') | Key::Down => Some(Message::ColumnPickerNext),
        Key::Char('k') | Key::Up => Some(Message::ColumnPickerPrev),
        Key::Char('g') => Some(Message::ColumnPickerFirst),
        Key::Char('G') => Some(Message::ColumnPickerLast),
        Key::Char('d') if ctrl => Some(Message::ColumnPickerLast),
        Key::Char('u') if ctrl => Some(Message::ColumnPickerFirst),
        Key::PageDown => Some(Message::ColumnPickerLast),
        Key::PageUp => Some(Message::ColumnPickerFirst),
        Key::Char(' ') => Some(Message::ColumnPickerToggle),
        Key::Enter => Some(Message::ColumnPickerSave),
        Key::Esc => Some(Message::ColumnPickerCancel),
        _ => None,
    }
}

/// Add-agent form keys; every other key is swallowed so typing stays in the form.
pub open spec fn spec_handle_add_agent_keys(code: Key) -> Option<Message> {
    match code {
        Key::Esc => Some(Message::CloseAddAgent),
        Key::Enter => Some(Message::AddAgentSave),
        Key::Tab | Key::Down | Key::Up => Some(Message::AddAgentToggleField),
        Key::Backspace => Some(Message::AddAgentBackspace),
        Key::Char(c) => Some(Message::AddAgentInput(c)),
        _ => None,
    }
}

/// Add-agent form keys; every other key is swallowed so typing stays in the form.
pub fn handle_add_agent_keys(code: Key) -> (r: Option<Message>)
    ensures
        r == spec_handle_add_agent_keys(code),
{
    match code {
        Key::Esc => Some(Message::CloseAddAgent),
        Key::Enter => Some(Message::AddAgentSave),
        Key::Tab | Key::Down | Key::Up => Some(Message::AddAgentToggleField),
        Key::Backspace => Some(Message::AddAgentBackspace),
        Key::Char(c) => Some(Message::AddAgentInput(c)),
        _ => None,
    }
}

/// Keys of the tracker checkbox pickers.
pub open spec fn spec_handle_picker_keys(code: Key) -> Option<Message> {
    match code {
        Key::Char('j') | Key::Down => Some(Message::PickerNext),
        Key::Char('k') | Key::Up => Some(Message::PickerPrev),
        Key::Char(' ') => Some(Message::PickerToggle),
        Key::Enter => Some(Message::PickerSave),
        Key::Esc => Some(Message::ClosePicker),
        _ => None,
    }
}

/// Keys of the tracker checkbox pickers.
pub fn handle_picker_keys(code: Key) -> (r: Option<Message>)
    ensures
        r == spec_handle_picker_keys(code),
{
    match code {
        Key::Char('j') | Key::Down => Some(Message::PickerNext),
        Key::Char('k') | Key::Up => Some(Message::PickerPrev),
        Key::Char(' ') => Some(Message::PickerToggle),
        Key::Enter => Some(Message::PickerSave),
        Key::Esc => Some(Message::ClosePicker),
        _ => None,
    }
}

/// Keys while typing a search.
pub open spec fn spec_handle_search_mode(code: Key) -> Option<Message> {
    match code {
        Key::Esc | Key::Enter => Some(Message::ExitSearch),
        Key::Backspace => Some(Message::SearchBackspace),
        Key::Char(c) => Some(Message::SearchInput(c)),
        _ => None,
    }
}

/// Keys while typing a search.
pub fn handle_search_mode(code: Key) -> (r: Option<Message>)
    ensures
        r == spec_handle_search_mode(code),
{
    match code {
        Key::Esc | Key::Enter => Some(Message::ExitSearch),
        Key::Backspace => Some(Message::SearchBackspace),
        Key::Char(c) => Some(Message::SearchInput(c)),
        _ => None,
    }
}

/// Keys on the models tab: navigation first, then the tab's own keys.
pub open spec fn spec_handle_models_keys(ctx: KeyContext, code: Key, ctrl: bool) -> Option<Message> {
    match spec_parse_nav_key(code, ctrl) {
        Some(action) => spec_resolve_models_nav(ctx.models_focus, action),
        None => match code {
            Key::Char('c') => Some(Message::CopyFull),
            Key::Char('C') => Some(Message::CopyModelId),
            Key::Char('D') => Some(Message::CopyProviderDoc),
            Key::Char('A') => Some(Message::CopyProviderApi),
            Key::Char('o') => Some(Message::OpenProviderDoc),
            Key::Char('r') => Some(Message::RefreshModels),
            Key::Char('s') => Some(Message::CycleSort),
            Key::Char('S') => Some(Message::ToggleSortDir),
            Key::Char('1') => Some(Message::ToggleReasoning),
            Key::Char('2') => Some(Message::ToggleTools),
            Key::Char('3') => Some(Message::ToggleOpenWeights),
            Key::Char('4') => Some(Message::ToggleFree),
            Key::Char('5') => Some(Message::CycleProviderCategory),
            Key::Char('6') => Some(Message::ToggleGrouping),
            _ => None,
        },
    }
}

/// Keys on the models tab: navigation first, then the tab's own keys.
pub fn handle_models_keys(ctx: KeyContext, code: Key, ctrl: bool) -> (r: Option<Message>)
    ensures
        r == spec_handle_models_keys(ctx, code, ctrl),
{
    match parse_nav_key(code, ctrl) {
        Some(action) => resolve_models_nav(ctx.models_focus, action),
        None => match code {
            Key::Char('c') => Some(Message::CopyFull),
            Key::Char('C') => Some(Message::CopyModelId),
            Key::Char('D') => Some(Message::CopyProviderDoc),
            Key::Char('A') => Some(Message::CopyProviderApi),
            Key::Char('o') => Some(Message::OpenProviderDoc),
            Key::Char('r') => Some(Message::RefreshModels),
            Key::Char('s') => Some(Message::CycleSort),
            Key::Char('S') => Some(Message::ToggleSortDir),
            Key::Char('1') => Some(Message::ToggleReasoning),
            Key::Char('2') => Some(Message::ToggleTools),
            Key::Char('3') => Some(Message::ToggleOpenWeights),
            Key::Char('4') => Some(Message::ToggleFree),
            Key::Char('5') => Some(Message::CycleProviderCategory),
            Key::Char('6') => Some(Message::ToggleGrouping),
            _ => None,
        },
    }
}

/// Keys on the agents tab: navigation first, then the tab's own keys.
pub open spec fn spec_handle_agents_keys(ctx: KeyContext, code: Key, ctrl: bool) -> Option<Message> {
    match spec_parse_nav_key(code, ctrl) {
        Some(action) => spec_resolve_agents_nav(ctx.agents, action),
        None => match code {
            Key::Char('o') => Some(Message::OpenAgentDocs),
            Key::Char('r') => Some(Message::OpenAgentRepo),
            Key::Char('R') => Some(Message::RefreshAgents),
            Key::Char('c') => Some(Message::CopyAgentName),
            Key::Char('1') => Some(Message::ToggleInstalledFilter),
            Key::Char('2') => Some(Message::ToggleCliFilter),
            Key::Char('3') => Some(Message::ToggleOpenSourceFilter),
            Key::Char('a') => Some(Message::OpenPicker),
            Key::Char('A') => Some(Message::OpenAddAgent),
            Key::Char('n') => Some(Message::NextSearchMatch),
            Key::Char('N') => Some(Message::PrevSearchMatch),
            Key::Char('s') => Some(Message::CycleAgentSort),
            _ => None,
        },
    }
}

/// Keys on the agents tab: navigation first, then the tab's own keys.
pub fn handle_agents_keys(ctx: KeyContext, code: Key, ctrl: bool) -> (r: Option<Message>)
    ensures
        r == spec_handle_agents_keys(ctx, code, ctrl),
{
    match parse_nav_key(code, ctrl) {
        Some(action) => resolve_agents_nav(ctx.agents, action),
        None => match code {
            Key::Char('o') => Some(Message::OpenAgentDocs),
            Key::Char('r') => Some(Message::OpenAgentRepo),
            Key::Char('R') => Some(Message::RefreshAgents),
            Key::Char('c') => Some(Message::CopyAgentName),
            Key::Char('1') => Some(Message::ToggleInstalledFilter),
            Key::Char('2') => Some(Message::ToggleCliFilter),
            Key::Char('3') => Some(Message::ToggleOpenSourceFilter),
            Key::Char('a') => Some(Message::OpenPicker),
            Key::Char('A') => Some(Message::OpenAddAgent),
            Key::Char('n') => Some(Message::NextSearchMatch),
            Key::Char('N') => Some(Message::PrevSearchMatch),
            Key::Char('s') => Some(Message::CycleAgentSort),
            _ => None,
        },
    }
}

/// Keys on the benchmarks tab: navigation first, then grouping, filters, sources, sorting, selections and view toggles; some keys only act in browse or compare mode.
pub open spec fn spec_handle_benchmarks_keys(ctx: KeyContext, code: Key, ctrl: bool) -> Option<Message> {
    match spec_parse_nav_key(code, ctrl) {
        Some(action) => spec_resolve_benchmarks_nav(ctx, action),
        None => match code {
            Key::Char('1') => Some(Message::ToggleRegionGrouping),
            Key::Char('2') => Some(Message::ToggleTypeGrouping),
            Key::Char('3') if ctx.reasoning_filter_available => Some(Message::CycleReasoningFilter),
            Key::Char('4') => Some(Message::CycleBenchmarkSource),
            Key::Char('{') => Some(Message::CycleDataSourcePrev),
            Key::Char('}') => Some(Message::CycleDataSourceNext),
            Key::Char('r') => Some(Message::RefreshBenchmarkSource),
            Key::Char('s') => Some(Message::OpenSortPicker),
            Key::Char('S') => Some(Message::ToggleBenchmarkSortDir),
            Key::Char('i') => Some(Message::ToggleGlossary),
            Key::Char('c') if ctx.selections > 0 => Some(Message::ClearBenchmarkSelections),
            Key::Char('C') if ctx.selections < 2 => Some(Message::OpenColumnPicker),
            Key::Char('o') => Some(Message::OpenBenchmarkUrl),
            Key::Char(' ') => Some(Message::ToggleBenchmarkSelection),
            Key::Char('v') if ctx.selections >= 2 => Some(Message::CycleBenchmarkView),
            Key::Char('x') if ctx.bench_bottom_view == BottomView::Scatter => Some(Message::CycleScatterX),
            Key::Char('y') if ctx.bench_bottom_view == BottomView::Scatter => Some(Message::CycleScatterY),
            Key::Char('a') if ctx.bench_bottom_view == BottomView::Radar => Some(Message::CycleRadarPreset),
            Key::Char('a') if ctx.selections < 2 => Some(Message::CycleComparator),
            Key::Char('d') if ctx.selections >= 2 => Some(Message::ToggleDetailOverlay),
            Key::Char('t') if ctx.selections >= 2 => Some(Message::ToggleComparePanel),
            _ => None,
        },
    }
}

/// Keys on the benchmarks tab: navigation first, then grouping, filters, sources, sorting, selections and view toggles; some keys only act in browse or compare mode.
pub fn handle_benchmarks_keys(ctx: KeyContext, code: Key, ctrl: bool) -> (r: Option<Message>)
    ensures
        r == spec_handle_benchmarks_keys(ctx, code, ctrl),
{
    match parse_nav_key(code, ctrl) {
        Some(action) => resolve_benchmarks_nav(ctx, action),
        None => match code {
            Key::Char('1') => Some(Message::ToggleRegionGrouping),
            Key::Char('2') => Some(Message::ToggleTypeGrouping),
            Key::Char('3') if ctx.reasoning_filter_available => Some(Message::CycleReasoningFilter),
            Key::Char('4') => Some(Message::CycleBenchmarkSource),
            Key::Char('{') => Some(Message::CycleDataSourcePrev),
            Key::Char('}') => Some(Message::CycleDataSourceNext),
            Key::Char('r') => Some(Message::RefreshBenchmarkSource),
            Key::Char('s') => Some(Message::OpenSortPicker),
            Key::Char('S') => Some(Message::ToggleBenchmarkSortDir),
            Key::Char('i') => Some(Message::ToggleGlossary),
            Key::Char('c') if ctx.selections > 0 => Some(Message::ClearBenchmarkSelections),
            Key::Char('C') if ctx.selections < 2 => Some(Message::OpenColumnPicker),
            Key::Char('o') => Some(Message::OpenBenchmarkUrl),
            Key::Char(' ') => Some(Message::ToggleBenchmarkSelection),
            Key::Char('v') if ctx.selections >= 2 => Some(Message::CycleBenchmarkView),
            Key::Char('x') if ctx.bench_bottom_view == BottomView::Scatter => Some(Message::CycleScatterX),
            Key::Char('y') if ctx.bench_bottom_view == BottomView::Scatter => Some(Message::CycleScatterY),
            Key::Char('a') if ctx.bench_bottom_view == BottomView::Radar => Some(Message::CycleRadarPreset),
            Key::Char('a') if ctx.selections < 2 => Some(Message::CycleComparator),
            Key::Char('d') if ctx.selections >= 2 => Some(Message::ToggleDetailOverlay),
            Key::Char('t') if ctx.selections >= 2 => Some(Message::ToggleComparePanel),
            _ => None,
        },
    }
}

/// Keys on the status tab: navigation first, then the tab's own keys.
pub open spec fn spec_handle_status_keys(ctx: KeyContext, code: Key, ctrl: bool) -> Option<Message> {
    match spec_parse_nav_key(code, ctrl) {
        Some(action) => spec_resolve_status_nav(ctx.status, action),
        None => match code {
            Key::Char('o') => Some(Message::OpenStatusPage),
            Key::Char('r') => Some(Message::RefreshStatus),
            Key::Char('a') => Some(Message::OpenStatusPicker),
            _ => None,
        },
    }
}

/// Keys on the status tab: navigation first, then the tab's own keys.
pub fn handle_status_keys(ctx: KeyContext, code: Key, ctrl: bool) -> (r: Option<Message>)
    ensures
        r == spec_handle_status_keys(ctx, code, ctrl),
{
    match parse_nav_key(code, ctrl) {
        Some(action) => resolve_status_nav(ctx.status, action),
        None => match code {
            Key::Char('o') => Some(Message::OpenStatusPage),
            Key::Char('r') => Some(Message::RefreshStatus),
            Key::Char('a') => Some(Message::OpenStatusPicker),
            _ => None,
        },
    }
}

/// Keys outside search: an open modal popup takes every key; then the global keys (quit, tab switching, help); then the active tab's keys.
pub open spec fn spec_handle_normal_mode(ctx: KeyContext, code: Key, ctrl: bool) -> Option<Message> {
    match ctx.current_tab {
        Tab::Agents if spec_agents_show_picker(ctx) => spec_handle_picker_keys(code),
        Tab::Agents if spec_agents_show_add_form(ctx) => spec_handle_add_agent_keys(code),
        Tab::Status if spec_status_show_picker(ctx) => spec_handle_picker_keys(code),
        Tab::Benchmarks if ctx.bench_show_sort_picker => spec_handle_sort_picker_keys(code),
        Tab::Benchmarks if ctx.bench_show_glossary => spec_handle_glossary_keys(code),
        Tab::Benchmarks if ctx.bench_show_column_picker => spec_handle_column_picker_keys(code, ctrl),
        _ => match code {
            Key::Char('q') => Some(Message::Quit),
            Key::Char('c') if ctrl => Some(Message::Quit),
            Key::Char('[') => Some(Message::PrevTab),
            Key::Char(']') => Some(Message::NextTab),
            Key::Char('?') => Some(Message::ToggleHelp),
            _ => match ctx.current_tab {
                Tab::Models => spec_handle_models_keys(ctx, code, ctrl),
                Tab::Agents => spec_handle_agents_keys(ctx, code, ctrl),
                Tab::Benchmarks => spec_handle_benchmarks_keys(ctx, code, ctrl),
                Tab::Status => spec_handle_status_keys(ctx, code, ctrl),
            },
        },
    }
}

/// Keys outside search: an open modal popup takes every key; then the global keys (quit, tab switching, help); then the active tab's keys.
pub fn handle_normal_mode(ctx: KeyContext, code: Key, ctrl: bool) -> (r: Option<Message>)
    ensures
        r == spec_handle_normal_mode(ctx, code, ctrl),
{
    match ctx.current_tab {
        Tab::Agents if agents_show_picker(ctx) => handle_picker_keys(code),
        Tab::Agents if agents_show_add_form(ctx) => handle_add_agent_keys(code),
        Tab::Status if status_show_picker(ctx) => handle_picker_keys(code),
        Tab::Benchmarks if ctx.bench_show_sort_picker => handle_sort_picker_keys(code),
        Tab::Benchmarks if ctx.bench_show_glossary => handle_glossary_keys(code),
        Tab::Benchmarks if ctx.bench_show_column_picker => handle_column_picker_keys(code, ctrl),
        _ => match code {
            Key::Char('q') => Some(Message::Quit),
            Key::Char('c') if ctrl => Some(Message::Quit),
            Key::Char('[') => Some(Message::PrevTab),
            Key::Char(']') => Some(Message::NextTab),
            Key::Char('?') => Some(Message::ToggleHelp),
            _ => match ctx.current_tab {
                Tab::Models => handle_models_keys(ctx, code, ctrl),
                Tab::Agents => handle_agents_keys(ctx, code, ctrl),
                Tab::Benchmarks => handle_benchmarks_keys(ctx, code, ctrl),
                Tab::Status => handle_status_keys(ctx, code, ctrl),
            },
        },
    }
}

/// A key press: the help popup takes scroll and dismiss keys; otherwise the input mode decides.
pub open spec fn spec_handle_key(ctx: KeyContext, code: Key, ctrl: bool) -> Option<Message> {
    if ctx.show_help {
        match code {
            Key::Char('?') | Key::Esc => Some(Message::ToggleHelp),
            Key::Char('j') | Key::Down => Some(Message::ScrollHelpDown),
            Key::Char('k') | Key::Up => Some(Message::ScrollHelpUp),
            _ => None,
        }
    } else {
        match ctx.mode {
            Mode::Normal => spec_handle_normal_mode(ctx, code, ctrl),
            Mode::Search => spec_handle_search_mode(code),
        }
    }
}

/// A key press: the help popup takes scroll and dismiss keys; otherwise the input mode decides.
pub fn handle_key(ctx: KeyContext, code: Key, ctrl: bool) -> (r: Option<Message>)
    ensures
        r == spec_handle_key(ctx, code, ctrl),
{
    if ctx.show_help {
        match code {
            Key::Char('?') | Key::Esc => Some(Message::ToggleHelp),
            Key::Char('j') | Key::Down => Some(Message::ScrollHelpDown),
            Key::Char('k') | Key::Up => Some(Message::ScrollHelpUp),
            _ => None,
        }
    } else {
        match ctx.mode {
            Mode::Normal => handle_normal_mode(ctx, code, ctrl),
            Mode::Search => handle_search_mode(code),
        }
    }
}

/// A per-tab modal popup is open and swallows mouse input.
pub open spec fn spec_modal_popup_open(ctx: KeyContext) -> bool {
    match ctx.current_tab {
        Tab::Agents => spec_agents_show_picker(ctx) || spec_agents_show_add_form(ctx),
        Tab::Status => spec_status_show_picker(ctx),
        Tab::Benchmarks => ctx.bench_show_sort_picker || ctx.bench_show_glossary || ctx.bench_show_column_picker,
        Tab::Models => false,
    }
}

/// True when a per-tab modal popup is open and should swallow mouse input
/// so clicks and scrolling don't leak to the panels behind it.
pub fn modal_popup_open(ctx: KeyContext) -> (r: bool)
    ensures
        r == spec_modal_popup_open(ctx),
{
    match ctx.current_tab {
        Tab::Agents => agents_show_picker(ctx) || agents_show_add_form(ctx),
        Tab::Status => status_show_picker(ctx),
        Tab::Benchmarks => ctx.bench_show_sort_picker || ctx.bench_show_glossary || ctx.bench_show_column_picker,
        Tab::Models => false,
    }
}

/// Kind of a mouse event, as far as dispatch distinguishes them.
#[derive(Debug, Clone, Copy, PartialEq, Eq, Structural)]
pub enum MouseKind {
    LeftDown,
    OtherDown,
    ScrollDown,
    ScrollUp,
    Moved,
    Drag,
    Other,
}

/// The wheel messages of the open modal popup: (down, up).
pub open spec fn spec_popup_wheel_pair(ctx: KeyContext) -> Option<(Message, Message)> {
    match ctx.current_tab {
        Tab::Agents if spec_agents_show_add_form(ctx) => None,
        Tab::Agents | Tab::Status => Some((Message::PickerNext, Message::PickerPrev)),
        Tab::Benchmarks if ctx.bench_show_sort_picker => Some((Message::SortPickerNext, Message::SortPickerPrev)),
        Tab::Benchmarks if ctx.bench_show_glossary => Some((Message::ScrollGlossaryDown, Message::ScrollGlossaryUp)),
        Tab::Benchmarks if ctx.bench_show_column_picker => Some((Message::ColumnPickerNext, Message::ColumnPickerPrev)),
        _ => None,
    }
}

/// The wheel messages of the open modal popup: (down, up).
pub fn popup_wheel_pair(ctx: KeyContext) -> (r: Option<(Message, Message)>)
    ensures
        r == spec_popup_wheel_pair(ctx),
{
    match ctx.current_tab {
        Tab::Agents if agents_show_add_form(ctx) => None,
        Tab::Agents | Tab::Status => Some((Message::PickerNext, Message::PickerPrev)),
        Tab::Benchmarks if ctx.bench_show_sort_picker => Some((Message::SortPickerNext, Message::SortPickerPrev)),
        Tab::Benchmarks if ctx.bench_show_glossary => Some((Message::ScrollGlossaryDown, Message::ScrollGlossaryUp)),
        Tab::Benchmarks if ctx.bench_show_column_picker => Some((Message::ColumnPickerNext, Message::ColumnPickerPrev)),
        _ => None,
    }
}

/// Where a mouse event goes before the panels see it.
#[derive(Debug, Clone, Copy, PartialEq, Eq, Structural)]
pub enum MouseRoute {
    /// Consumed here, with this message (if any).
    Done(Option<Message>),
    /// A left click inside an open modal popup: select the row under it.
    PopupClick,
    /// Not consumed: the header tab bar and the active tab handle it.
    PassThrough,
}

/// Mouse routing: motion is dropped; the help popup scrolls on the wheel and
/// closes on a click; an open modal popup turns the wheel into its own
/// scroll/selection messages, takes left clicks, and swallows the rest.
pub open spec fn spec_route_mouse(ctx: KeyContext, kind: MouseKind) -> MouseRoute {
    if kind == MouseKind::Moved || kind == MouseKind::Drag {
        MouseRoute::Done(None)
    } else if ctx.show_help {
        MouseRoute::Done(match kind {
            MouseKind::ScrollDown => Some(Message::ScrollHelpDown),
            MouseKind::ScrollUp => Some(Message::ScrollHelpUp),
            MouseKind::LeftDown => Some(Message::ToggleHelp),
            _ => None,
        })
    } else if spec_modal_popup_open(ctx) {
        if kind == MouseKind::LeftDown {
            MouseRoute::PopupClick
        } else {
            MouseRoute::Done(match spec_popup_wheel_pair(ctx) {
                Some((down, up)) => match kind {
                    MouseKind::ScrollDown => Some(down),
                    MouseKind::ScrollUp => Some(up),
                    _ => None,
                },
                None => None,
            })
        }
    } else {
        MouseRoute::PassThrough
    }
}

/// Route a mouse event.
pub fn route_mouse(ctx: KeyContext, kind: MouseKind) -> (r: MouseRoute)
    ensures
        r == spec_route_mouse(ctx, kind),
{
    if kind == MouseKind::Moved || kind == MouseKind::Drag {
        MouseRoute::Done(None)
    } else if ctx.show_help {
        MouseRoute::Done(match kind {
            MouseKind::ScrollDown => Some(Message::ScrollHelpDown),
            MouseKind::ScrollUp => Some(Message::ScrollHelpUp),
            MouseKind::LeftDown => Some(Message::ToggleHelp),
            _ => None,
        })
    } else if modal_popup_open(ctx) {
        if kind == MouseKind::LeftDown {
            MouseRoute::PopupClick
        } else {
            MouseRoute::Done(match popup_wheel_pair(ctx) {
                Some((down, up)) => match kind {
                    MouseKind::ScrollDown => Some(down),
                    MouseKind::ScrollUp => Some(up),
                    _ => None,
                },
                None => None,
            })
        }
    } else {
        MouseRoute::PassThrough
    }
}

/// The message a click on a row of the open modal popup sends: confirm for
/// the sort picker, toggle for the checkbox pickers; the glossary, the
/// add-agent form and the models tab have no clickable rows.
pub open spec fn spec_popup_click_message(ctx: KeyContext) -> Option<Message> {
    match ctx.current_tab {
        Tab::Benchmarks if ctx.bench_show_sort_picker => Some(Message::SortPickerConfirm),
        Tab::Benchmarks if ctx.bench_show_column_picker => Some(Message::ColumnPickerToggle),
        Tab::Benchmarks => None,
        Tab::Agents => match ctx.agents {
            Some(a) => if a.show_add_form { None } else { Some(Message::PickerToggle) },
            None => None,
        },
        Tab::Status => match ctx.status {
            Some(_) => Some(Message::PickerToggle),
            None => None,
        },
        Tab::Models => None,
    }
}

/// Left click inside a modal popup: the row under the cursor (given the
/// popup's cached inner rect, current selection and row count) becomes the
/// selection, and the popup's act-on-row message is sent. Clicks outside the
/// rows, or in popups without rows, select nothing.
pub open spec fn spec_popup_click(ctx: KeyContext, inner: Option<Rect>, selected: usize, count: usize, click_row: u16) -> Option<(usize, Message)> {
    match (spec_popup_click_message(ctx), inner) {
        (Some(m), Some(r)) => match spec_row_at(r, popup_offset(selected, r.height as usize), 0, count, click_row) {
            Some(i) => Some((i, m)),
            None => None,
        },
        _ => None,
    }
}

/// Left click inside a modal popup: the new selection and the message.
pub fn popup_click(ctx: KeyContext, inner: Option<Rect>, selected: usize, count: usize, click_row: u16) -> (r: Option<(usize, Message)>)
    ensures
        r == spec_popup_click(ctx, inner, selected, count, click_row),
{
    let msg = match ctx.current_tab {
        Tab::Benchmarks if ctx.bench_show_sort_picker => Some(Message::SortPickerConfirm),
        Tab::Benchmarks if ctx.bench_show_column_picker => Some(Message::ColumnPickerToggle),
        Tab::Benchmarks => None,
        Tab::Agents => match ctx.agents {
            Some(a) => if a.show_add_form { None } else { Some(Message::PickerToggle) },
            None => None,
        },
        Tab::Status => match ctx.status {
            Some(_) => Some(Message::PickerToggle),
            None => None,
        },
        Tab::Models => None,
    };
    match (msg, inner) {
        (Some(m), Some(r)) => match popup_row_at(r, selected, count, click_row) {
            Some(i) => Some((i, m)),
            None => None,
        },
        _ => None,
    }
}

/// The header tab bar on row 0: " Models ", " Agents ", " Benchmarks ",
/// " Status ", each label padded by a space on both sides and the labels
/// separated by a one-column divider. The tab under a cell, if any.
pub open spec fn spec_tab_at(column: u16, row: u16) -> Option<Tab> {
    if row != 0 {
        None
    } else if column < 8 {
        Some(Tab::Models)
    } else if 9 <= column < 17 {
        Some(Tab::Agents)
    } else if 18 <= column < 30 {
        Some(Tab::Benchmarks)
    } else if 31 <= column < 39 {
        Some(Tab::Status)
    } else {
        None
    }
}

/// The header tab under a screen cell, if any.
pub fn tab_at(column: u16, row: u16) -> (r: Option<Tab>)
    ensures
        r == spec_tab_at(column, row),
{
    if row != 0 {
        None
    } else if column < 8 {
        Some(Tab::Models)
    } else if 9 <= column && column < 17 {
        Some(Tab::Agents)
    } else if 18 <= column && column < 30 {
        Some(Tab::Benchmarks)
    } else if 31 <= column && column < 39 {
        Some(Tab::Status)
    } else {
        None
    }
}

/// An open modal popup never lets input through to the panels behind it.
pub proof fn lemma_modal_swallows_mouse(ctx: KeyContext, kind: MouseKind)
    requires
        spec_modal_popup_open(ctx),
    ensures
        spec_route_mouse(ctx, kind) != MouseRoute::PassThrough,
{
}

/// While a modal popup is open, `q` does not quit.
pub proof fn lemma_modal_keeps_quit_key(ctx: KeyContext)
    requires
        ctx.current_tab == Tab::Benchmarks,
        ctx.bench_show_sort_picker || ctx.bench_show_glossary || ctx.bench_show_column_picker,
    ensures
        spec_handle_normal_mode(ctx, Key::Char('q'), false) != Some(Message::Quit),
{
}

/// On the models tab, outside help and search, the digit keys toggle the
/// capability filters whatever the modifier: `1` reasoning, `2` tool calling,
/// `3` open weights, `4` free.
pub proof fn lemma_models_filter_keys(ctx: KeyContext, ctrl: bool)
    requires
        ctx.current_tab == Tab::Models,
        !ctx.show_help,
        ctx.mode == Mode::Normal,
    ensures
        spec_handle_key(ctx, Key::Char('1'), ctrl) == Some(Message::ToggleReasoning),
        spec_handle_key(ctx, Key::Char('2'), ctrl) == Some(Message::ToggleTools),
        spec_handle_key(ctx, Key::Char('3'), ctrl) == Some(Message::ToggleOpenWeights),
        spec_handle_key(ctx, Key::Char('4'), ctrl) == Some(Message::ToggleFree),
{
}

/// On the models tab, outside help and search, the letter keys act on the
/// selected offering and the list: `c` copies the full entry (with ctrl it
/// quits), `C` the model id, `D` and `A` the provider's doc and API links,
/// `o` opens the provider's docs, `r` refreshes, `s` cycles the sort, `S`
/// flips its direction, `5` cycles the provider category and `6` toggles
/// grouping; `j`/`k` move the list while it has focus and scroll the detail
/// panel otherwise, `/` starts a search and Esc clears it.
pub proof fn lemma_models_action_keys(ctx: KeyContext, ctrl: bool)
    requires
        ctx.current_tab == Tab::Models,
        !ctx.show_help,
        ctx.mode == Mode::Normal,
    ensures
        spec_handle_key(ctx, Key::Char('c'), false) == Some(Message::CopyFull),
        spec_handle_key(ctx, Key::Char('c'), true) == Some(Message::Quit),
        spec_handle_key(ctx, Key::Char('C'), ctrl) == Some(Message::CopyModelId),
        spec_handle_key(ctx, Key::Char('D'), ctrl) == Some(Message::CopyProviderDoc),
        spec_handle_key(ctx, Key::Char('A'), ctrl) == Some(Message::CopyProviderApi),
        spec_handle_key(ctx, Key::Char('o'), ctrl) == Some(Message::OpenProviderDoc),
        spec_handle_key(ctx, Key::Char('r'), ctrl) == Some(Message::RefreshModels),
        spec_handle_key(ctx, Key::Char('s'), ctrl) == Some(Message::CycleSort),
        spec_handle_key(ctx, Key::Char('S'), ctrl) == Some(Message::ToggleSortDir),
        spec_handle_key(ctx, Key::Char('5'), ctrl) == Some(Message::CycleProviderCategory),
        spec_handle_key(ctx, Key::Char('6'), ctrl) == Some(Message::ToggleGrouping),
        spec_handle_key(ctx, Key::Char('/'), ctrl) == Some(Message::EnterSearch),
        spec_handle_key(ctx, Key::Esc, ctrl) == Some(Message::ClearSearch),
        spec_handle_key(ctx, Key::Char('j'), ctrl) == (if ctx.models_focus == Focus::Models {
            Some(Message::NextModel)
        } else {
            Some(Message::ScrollModelDetailDown)
        }),
        spec_handle_key(ctx, Key::Char('k'), ctrl) == (if ctx.models_focus == Focus::Models {
            Some(Message::PrevModel)
        } else {
            Some(Message::ScrollModelDetailUp)
        }),
{
}

} // verus!

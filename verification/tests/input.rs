use models_tui::benchmarks::app::{BenchmarkFocus, BottomView};
use models_tui::event::{
    handle_key, handle_normal_mode, modal_popup_open, parse_nav_key, popup_click, route_mouse,
    tab_at, AgentFocus, AgentsView, Key, KeyContext, Message, Mode, MouseKind, MouseRoute,
    NavAction, StatusFocus, StatusView, Tab,
};
use models_tui::models::app::Focus;
use models_tui::mouse::{hit, popup_row_at, row_at, CursorPos, Rect};

fn ctx() -> KeyContext {
    KeyContext {
        current_tab: Tab::Models,
        mode: Mode::Normal,
        show_help: false,
        models_focus: Focus::Models,
        agents: None,
        status: None,
        bench_focus: BenchmarkFocus::List,
        bench_bottom_view: BottomView::Detail,
        bench_show_detail_overlay: false,
        bench_show_sort_picker: false,
        bench_show_glossary: false,
        bench_show_column_picker: false,
        reasoning_filter_available: false,
        selections: 0,
    }
}

fn rect(x: u16, y: u16, w: u16, h: u16) -> Rect {
    Rect::new(x, y, w, h)
}

fn at(column: u16, row: u16) -> CursorPos {
    CursorPos { column, row }
}

#[test]
fn glossary_popup_wheel_scrolls_glossary() {
    let mut a = ctx();
    a.current_tab = Tab::Benchmarks;
    a.bench_show_glossary = true;
    assert_eq!(route_mouse(a, MouseKind::ScrollDown), MouseRoute::Done(Some(Message::ScrollGlossaryDown)));
    assert_eq!(route_mouse(a, MouseKind::ScrollUp), MouseRoute::Done(Some(Message::ScrollGlossaryUp)));
    // A left click goes to the popup, which has no clickable rows: nothing happens.
    assert_eq!(route_mouse(a, MouseKind::LeftDown), MouseRoute::PopupClick);
    assert_eq!(popup_click(a, None, 0, 0, 5), None);
}

#[test]
fn sort_picker_wheel_moves_selection() {
    let mut a = ctx();
    a.current_tab = Tab::Benchmarks;
    a.bench_show_sort_picker = true;
    assert_eq!(route_mouse(a, MouseKind::ScrollDown), MouseRoute::Done(Some(Message::SortPickerNext)));
    assert_eq!(route_mouse(a, MouseKind::ScrollUp), MouseRoute::Done(Some(Message::SortPickerPrev)));
}

#[test]
fn column_picker_wheel_moves_selection() {
    let mut a = ctx();
    a.current_tab = Tab::Benchmarks;
    a.bench_show_column_picker = true;
    assert_eq!(route_mouse(a, MouseKind::ScrollDown), MouseRoute::Done(Some(Message::ColumnPickerNext)));
}

#[test]
fn help_popup_wheel_scrolls_and_click_closes() {
    let mut a = ctx();
    a.show_help = true;
    assert_eq!(route_mouse(a, MouseKind::ScrollDown), MouseRoute::Done(Some(Message::ScrollHelpDown)));
    assert_eq!(route_mouse(a, MouseKind::LeftDown), MouseRoute::Done(Some(Message::ToggleHelp)));
}

#[test]
fn tracker_modal_click_selects_and_toggles_row() {
    let mut a = ctx();
    a.current_tab = Tab::Status;
    a.status = Some(StatusView { focus: StatusFocus::List, show_picker: true });
    let inner = Some(rect(0, 5, 50, 20));
    assert_eq!(route_mouse(a, MouseKind::LeftDown), MouseRoute::PopupClick);
    assert_eq!(popup_click(a, inner, 0, 30, 9), Some((4, Message::PickerToggle)));
    // A click below the item rows is swallowed and selects nothing.
    assert_eq!(popup_click(a, inner, 4, 30, 200), None);
}

#[test]
fn moved_events_are_ignored() {
    let a = ctx();
    assert_eq!(route_mouse(a, MouseKind::Moved), MouseRoute::Done(None));
    assert_eq!(route_mouse(a, MouseKind::Drag), MouseRoute::Done(None));
}

#[test]
fn open_modal_swallows_every_mouse_event() {
    let mut a = ctx();
    a.current_tab = Tab::Agents;
    a.agents = Some(AgentsView { focus: AgentFocus::List, show_picker: false, show_add_form: true });
    assert!(modal_popup_open(a));
    for kind in [MouseKind::LeftDown, MouseKind::OtherDown, MouseKind::ScrollDown, MouseKind::ScrollUp, MouseKind::Other] {
        assert_ne!(route_mouse(a, kind), MouseRoute::PassThrough);
    }
    // Without a popup, clicks reach the panels.
    assert_eq!(route_mouse(ctx(), MouseKind::LeftDown), MouseRoute::PassThrough);
}

#[test]
fn header_click_switches_tab() {
    assert_eq!(tab_at(11, 0), Some(Tab::Agents));
}

#[test]
fn render_header_click_switches_tab() {
    assert!(matches!(tab_at(11, 0), Some(Tab::Agents)));
}

#[test]
fn tab_bar_geometry() {
    assert_eq!(tab_at(0, 0), Some(Tab::Models));
    assert_eq!(tab_at(8, 0), None);
    assert_eq!(tab_at(20, 0), Some(Tab::Benchmarks));
    assert_eq!(tab_at(31, 0), Some(Tab::Status));
    assert_eq!(tab_at(39, 0), None);
    assert_eq!(tab_at(3, 1), None);
}

#[test]
fn quit_key_is_kept_by_open_picker() {
    let mut a = ctx();
    a.current_tab = Tab::Benchmarks;
    assert_eq!(handle_normal_mode(a, Key::Char('q'), false), Some(Message::Quit));
    a.bench_show_sort_picker = true;
    assert_ne!(handle_normal_mode(a, Key::Char('q'), false), Some(Message::Quit));
}

#[test]
fn search_mode_keys() {
    let mut a = ctx();
    a.mode = Mode::Search;
    assert_eq!(handle_key(a, Key::Char('x'), false), Some(Message::SearchInput('x')));
    assert_eq!(handle_key(a, Key::Esc, false), Some(Message::ExitSearch));
    assert_eq!(handle_key(a, Key::Backspace, false), Some(Message::SearchBackspace));
}

#[test]
fn nav_keys_parse() {
    assert_eq!(parse_nav_key(Key::Char('j'), false), Some(NavAction::Down));
    assert_eq!(parse_nav_key(Key::Up, false), Some(NavAction::Up));
    assert_eq!(parse_nav_key(Key::Char('g'), false), Some(NavAction::First));
    assert_eq!(parse_nav_key(Key::Char('G'), false), Some(NavAction::Last));
    assert_eq!(parse_nav_key(Key::Char('z'), false), None);
}

#[test]
fn hit_none_is_false() {
    assert!(!hit(None, &at(5, 5)));
}

#[test]
fn hit_inside_and_outside() {
    let area = Some(rect(2, 3, 10, 4));
    assert!(hit(area, &at(2, 3)));
    assert!(hit(area, &at(11, 6)));
    assert!(!hit(area, &at(12, 6)));
    assert!(!hit(area, &at(5, 7)));
    assert!(!hit(area, &at(1, 5)));
}

#[test]
fn hit_saturates_at_screen_edge() {
    let area = Some(rect(65530, 65530, 100, 100));
    assert!(hit(area, &at(65534, 65534)));
    assert!(!hit(area, &at(65535, 65530)));
}

#[test]
fn row_at_bare_list_no_skip() {
    let a = rect(0, 5, 20, 5);
    assert_eq!(row_at(a, 0, 0, 100, 5), Some(0));
    assert_eq!(row_at(a, 0, 0, 100, 6), Some(1));
    assert_eq!(row_at(a, 0, 0, 100, 9), Some(4));
}

#[test]
fn row_at_with_top_border_skip() {
    let a = rect(0, 5, 20, 6);
    assert_eq!(row_at(a, 0, 1, 100, 5), None);
    assert_eq!(row_at(a, 0, 1, 100, 6), Some(0));
    assert_eq!(row_at(a, 0, 1, 100, 7), Some(1));
}

#[test]
fn row_at_applies_scroll_offset() {
    let a = rect(0, 5, 20, 5);
    assert_eq!(row_at(a, 12, 0, 100, 5), Some(12));
    assert_eq!(row_at(a, 12, 0, 100, 7), Some(14));
}

#[test]
fn row_at_above_first_is_none() {
    let a = rect(0, 5, 20, 5);
    assert_eq!(row_at(a, 0, 0, 100, 4), None);
}

#[test]
fn row_at_below_last_visible_is_none() {
    let a = rect(0, 5, 20, 5);
    assert_eq!(row_at(a, 0, 0, 100, 10), None);
    assert_eq!(row_at(a, 0, 0, 100, 99), None);
}

#[test]
fn row_at_past_last_item_is_none() {
    let a = rect(0, 5, 20, 10);
    assert_eq!(row_at(a, 0, 0, 3, 7), Some(2));
    assert_eq!(row_at(a, 0, 0, 3, 8), None);
}

#[test]
fn popup_row_at_no_scroll_when_fits() {
    let inner = rect(0, 5, 20, 5);
    assert_eq!(popup_row_at(inner, 0, 4, 5), Some(0));
    assert_eq!(popup_row_at(inner, 3, 4, 7), Some(2));
    assert_eq!(popup_row_at(inner, 0, 4, 9), None);
    assert_eq!(popup_row_at(inner, 0, 4, 4), None);
}

#[test]
fn popup_row_at_accounts_for_scroll() {
    let inner = rect(0, 5, 20, 5);
    assert_eq!(popup_row_at(inner, 20, 30, 5), Some(16));
    assert_eq!(popup_row_at(inner, 20, 30, 9), Some(20));
}

use port_manager::dashboard::{Action, App, Key, StateTone};
use port_manager::inventory::PortInfo;
use port_manager::socket::Protocol;
use port_manager::sorting::SortBy;

fn row(port: u16, state: &str, name: Option<&str>, pid: Option<i32>) -> PortInfo {
    PortInfo {
        protocol: Protocol::Tcp,
        local_addr: format!("127.0.0.1:{}", port),
        remote_addr: "0.0.0.0:0".to_string(),
        state: state.to_string(),
        pid,
        process_name: name.map(|n| n.to_string()),
        port,
        tags: vec![],
        user: None,
    }
}

fn loaded() -> App {
    let mut app = App::new();
    app.set_ports(vec![
        row(8080, "LISTEN", Some("java"), Some(10)),
        row(22, "LISTEN", Some("sshd"), Some(20)),
        row(5432, "ESTABLISHED", None, None),
    ]);
    app
}

fn shown(app: &App) -> Vec<u16> {
    app.filtered_ports.iter().map(|p| p.port).collect()
}

#[test]
fn new_dashboard_is_empty() {
    let app = App::new();
    assert_eq!(app.search, "");
    assert!(!app.search_mode);
    assert!(app.ports.is_empty());
    assert!(app.filtered_ports.is_empty());
    assert_eq!(app.selected, None);
    assert_eq!(app.confirm_kill, None);
    assert_eq!(app.sort_by, SortBy::Port);
    assert_eq!(app.reservation_popup, None);
    assert_eq!(app.reservation_error, None);
    assert_eq!(app.selected_index(), 0);
    assert_eq!(app.current_selection(), None);
}

#[test]
fn snapshot_is_shown_in_the_order_of_the_column() {
    let app = loaded();
    assert_eq!(shown(&app), vec![22, 5432, 8080]);
    assert_eq!(app.ports.len(), 3);
}

#[test]
fn selection_moves_and_wraps() {
    let mut app = loaded();
    assert_eq!(app.selected_index(), 0);
    app.move_down();
    assert_eq!(app.selected, Some(1));
    app.move_down();
    assert_eq!(app.selected, Some(2));
    app.move_down();
    assert_eq!(app.selected, Some(0));
    app.move_up();
    assert_eq!(app.selected, Some(2));
    app.move_up();
    assert_eq!(app.selected, Some(1));
    assert_eq!(app.current_selection().map(|p| p.port), Some(5432));
}

#[test]
fn selection_stays_without_rows() {
    let mut app = App::new();
    app.move_down();
    assert_eq!(app.selected, None);
    app.move_up();
    assert_eq!(app.selected, None);
    assert_eq!(app.handle_key(Key::Char('j')), Action::Nothing);
    assert_eq!(app.selected, None);
}

#[test]
fn stale_selection_points_at_no_row() {
    let mut app = loaded();
    app.selected = Some(7);
    assert_eq!(app.current_selection(), None);
    app.move_down();
    assert_eq!(app.selected, Some(0));
    app.selected = Some(7);
    app.move_up();
    assert_eq!(app.selected, Some(6));
}

#[test]
fn keys_j_and_k_move_the_selection() {
    let mut app = loaded();
    assert_eq!(app.handle_key(Key::Char('j')), Action::Nothing);
    assert_eq!(app.selected, Some(1));
    assert_eq!(app.handle_key(Key::Char('k')), Action::Nothing);
    assert_eq!(app.selected, Some(0));
    assert_eq!(app.handle_key(Key::Char('k')), Action::Nothing);
    assert_eq!(app.selected, Some(2));
}

#[test]
fn key_q_asks_to_quit() {
    let mut app = loaded();
    assert_eq!(app.handle_key(Key::Char('q')), Action::Quit);
    assert_eq!(app.handle_key(Key::Char('t')), Action::ToggleTheme);
    assert_eq!(app.handle_key(Key::Other), Action::Nothing);
    assert_eq!(app.handle_key(Key::Enter), Action::Nothing);
    assert_eq!(app.handle_key(Key::Char('x')), Action::Nothing);
    assert_eq!(shown(&app), vec![22, 5432, 8080]);
}

#[test]
fn search_text_is_edited_and_narrows_the_rows() {
    let mut app = loaded();
    app.move_down();
    assert_eq!(app.handle_key(Key::Char('/')), Action::Nothing);
    assert!(app.search_mode);
    assert_eq!(app.search, "");
    assert_eq!(app.selected, Some(0));
    assert_eq!(app.handle_key(Key::Char('s')), Action::Nothing);
    assert_eq!(app.handle_key(Key::Char('S')), Action::Nothing);
    assert_eq!(app.search, "sS");
    assert_eq!(shown(&app), vec![22]);
    assert_eq!(app.handle_key(Key::Char('x')), Action::Nothing);
    assert_eq!(app.search, "sSx");
    assert!(shown(&app).is_empty());
    assert_eq!(app.handle_key(Key::Backspace), Action::Nothing);
    assert_eq!(app.search, "sS");
    assert_eq!(shown(&app), vec![22]);
    assert_eq!(app.handle_key(Key::Backspace), Action::Nothing);
    assert_eq!(app.handle_key(Key::Backspace), Action::Nothing);
    assert_eq!(app.handle_key(Key::Backspace), Action::Nothing);
    assert_eq!(app.search, "");
    assert_eq!(shown(&app), vec![22, 5432, 8080]);
    assert_eq!(app.handle_key(Key::Char('q')), Action::Nothing);
    assert_eq!(app.search, "q");
    assert_eq!(app.handle_key(Key::Other), Action::Nothing);
    assert_eq!(app.handle_key(Key::Enter), Action::Nothing);
    assert!(!app.search_mode);
    assert_eq!(app.search, "q");
    assert_eq!(app.handle_key(Key::Char('q')), Action::Quit);
}

#[test]
fn escape_ends_the_search_and_keeps_the_text() {
    let mut app = loaded();
    app.handle_key(Key::Char('/'));
    app.handle_key(Key::Char('8'));
    assert_eq!(app.handle_key(Key::Esc), Action::Nothing);
    assert!(!app.search_mode);
    assert_eq!(app.search, "8");
    assert_eq!(shown(&app), vec![8080]);
    app.handle_key(Key::Char('/'));
    assert_eq!(app.search, "");
    assert_eq!(shown(&app), vec![22, 5432, 8080]);
}

#[test]
fn kill_is_asked_for_only_after_confirmation() {
    let mut app = loaded();
    assert_eq!(app.handle_key(Key::Char('c')), Action::Nothing);
    assert_eq!(app.confirm_kill, Some((20, "sshd".to_string())));
    assert_eq!(app.handle_key(Key::Char('q')), Action::Nothing);
    assert_eq!(app.handle_key(Key::Char('j')), Action::Nothing);
    assert_eq!(app.selected, None);
    assert_eq!(app.confirm_kill, Some((20, "sshd".to_string())));
    assert_eq!(app.handle_key(Key::Char('y')), Action::Kill(20));
    assert_eq!(app.confirm_kill, None);
    assert_eq!(app.handle_key(Key::Char('y')), Action::Nothing);
}

#[test]
fn confirmation_can_be_called_off() {
    let mut app = loaded();
    app.handle_key(Key::Char('c'));
    assert_eq!(app.handle_key(Key::Char('n')), Action::Nothing);
    assert_eq!(app.confirm_kill, None);
    app.handle_key(Key::Char('c'));
    assert_eq!(app.handle_key(Key::Esc), Action::Nothing);
    assert_eq!(app.confirm_kill, None);
}

#[test]
fn row_without_process_cannot_be_killed() {
    let mut app = loaded();
    app.handle_key(Key::Char('j'));
    assert_eq!(app.current_selection().map(|p| p.port), Some(5432));
    assert_eq!(app.handle_key(Key::Char('c')), Action::Nothing);
    assert_eq!(app.confirm_kill, None);
    let mut nameless = App::new();
    nameless.set_ports(vec![row(1, "LISTEN", None, Some(99))]);
    nameless.handle_key(Key::Char('c'));
    assert_eq!(nameless.confirm_kill, Some((99, "-".to_string())));
}

#[test]
fn key_r_asks_to_reserve_the_selected_port() {
    let mut app = loaded();
    assert_eq!(app.handle_key(Key::Char('r')), Action::Reserve(22, "sshd".to_string()));
    app.handle_key(Key::Char('j'));
    assert_eq!(app.handle_key(Key::Char('r')), Action::Reserve(5432, "unknown".to_string()));
    assert_eq!(App::new().handle_key(Key::Char('r')), Action::Nothing);
}

#[test]
fn reservation_outcome_is_noted_for_display() {
    let mut app = loaded();
    let live = app.ports.clone();
    app.try_reserve_port(9090, "api".to_string(), &live);
    assert_eq!(app.reservation_popup, Some((9090, "api".to_string())));
    assert_eq!(app.reservation_error, None);
    assert!(app.reservation_manager.is_reserved(9090));
    app.try_reserve_port(9090, "other".to_string(), &live);
    assert_eq!(app.reservation_popup, Some((9090, "api".to_string())));
    assert_eq!(app.reservation_error, Some("Port 9090 is already reserved.".to_string()));
    app.try_reserve_port(22, "ssh".to_string(), &live);
    assert_eq!(
        app.reservation_error,
        Some("Port 22 is currently in use by another process.".to_string())
    );
    assert!(!app.reservation_manager.is_reserved(22));
    app.try_release_port(9090);
    assert_eq!(app.reservation_popup, Some((9090, "released".to_string())));
    assert!(!app.reservation_manager.is_reserved(9090));
    app.try_release_port(9090);
    assert_eq!(app.reservation_error, Some("Port 9090 was not reserved.".to_string()));
}

#[test]
fn key_u_releases_the_selected_port() {
    let mut app = loaded();
    app.try_reserve_port(22, "ssh".to_string(), &vec![]);
    assert!(app.reservation_manager.is_reserved(22));
    assert_eq!(app.handle_key(Key::Char('u')), Action::Nothing);
    assert!(!app.reservation_manager.is_reserved(22));
    assert_eq!(app.reservation_popup, Some((22, "released".to_string())));
    assert_eq!(app.handle_key(Key::Char('u')), Action::Nothing);
    assert_eq!(app.reservation_error, Some("Port 22 was not reserved.".to_string()));
}

#[test]
fn key_s_cycles_the_column_and_reorders() {
    let mut app = loaded();
    assert_eq!(app.handle_key(Key::Char('s')), Action::Nothing);
    assert_eq!(app.sort_by, SortBy::Process);
    assert_eq!(shown(&app), vec![5432, 8080, 22]);
    assert_eq!(app.handle_key(Key::Char('s')), Action::Nothing);
    assert_eq!(app.sort_by, SortBy::Protocol);
    assert_eq!(shown(&app), vec![5432, 8080, 22]);
    app.handle_key(Key::Char('s'));
    assert_eq!(app.sort_by, SortBy::State);
    app.handle_key(Key::Char('s'));
    assert_eq!(app.sort_by, SortBy::Port);
    assert_eq!(shown(&app), vec![22, 5432, 8080]);
}

#[test]
fn sort_ports_orders_what_is_on_display() {
    let mut app = loaded();
    app.sort_by = SortBy::Process;
    app.sort_ports();
    assert_eq!(shown(&app), vec![5432, 8080, 22]);
    assert_eq!(app.ports.len(), 3);
}

#[test]
fn new_snapshot_keeps_search_and_column() {
    let mut app = loaded();
    app.handle_key(Key::Char('/'));
    app.handle_key(Key::Char('2'));
    app.handle_key(Key::Char('2'));
    app.handle_key(Key::Enter);
    assert_eq!(shown(&app), vec![22]);
    app.set_ports(vec![row(2222, "LISTEN", None, None), row(80, "LISTEN", None, None)]);
    assert_eq!(shown(&app), vec![2222]);
    assert_eq!(app.search, "22");
}

#[test]
fn state_column_is_emphasised_by_state() {
    assert_eq!(row(1, "LISTEN", None, None).state_tone(), StateTone::Listening);
    assert_eq!(row(1, "ESTABLISHED", None, None).state_tone(), StateTone::Established);
    assert_eq!(row(1, "TIME_WAIT", None, None).state_tone(), StateTone::Waiting);
    assert_eq!(row(1, "CLOSE_WAIT", None, None).state_tone(), StateTone::Plain);
    assert_eq!(row(1, "UDP", None, None).state_tone(), StateTone::Plain);
    assert_eq!(row(1, "listen", None, None).state_tone(), StateTone::Plain);
    assert_eq!(row(1, "", None, None).state_tone(), StateTone::Plain);
}

#[test]
fn missing_process_is_shown_as_a_dash() {
    let known = row(1, "LISTEN", Some("sshd"), Some(812));
    assert_eq!(known.pid_label(), "812");
    assert_eq!(known.process_label(), "sshd");
    let unknown = row(1, "LISTEN", None, None);
    assert_eq!(unknown.pid_label(), "-");
    assert_eq!(unknown.process_label(), "-");
    assert_eq!(row(1, "LISTEN", None, Some(-7)).pid_label(), "-7");
    assert_eq!(row(1, "LISTEN", None, Some(0)).pid_label(), "0");
}

#[test]
fn reserved_port_is_marked_in_the_local_column() {
    let mut app = loaded();
    app.try_reserve_port(22, "ssh".to_string(), &vec![]);
    let marked = app.local_label(&app.filtered_ports[0]);
    assert_eq!(marked, "127.0.0.1:22 (reserved)");
    let plain = app.local_label(&app.filtered_ports[1]);
    assert_eq!(plain, "127.0.0.1:5432 ");
}

#[test]
fn search_box_follows_the_mode() {
    let mut app = loaded();
    assert_eq!(app.search_box(), "Type / to search...");
    assert_eq!(
        app.status_line(),
        "j/k: move  |  c: kill  |  r: reserve  |  u: unreserve  |  q: quit  |  Filter: "
    );
    app.handle_key(Key::Char('/'));
    assert_eq!(app.search_box(), "/");
    app.handle_key(Key::Char('s'));
    app.handle_key(Key::Char('h'));
    assert_eq!(app.search_box(), "/sh");
    app.handle_key(Key::Enter);
    assert_eq!(app.search_box(), "Filter: sh");
    assert_eq!(
        app.status_line(),
        "j/k: move  |  c: kill  |  r: reserve  |  u: unreserve  |  q: quit  |  Filter: sh"
    );
}

#[test]
fn reservation_is_announced() {
    let mut app = loaded();
    assert_eq!(app.reservation_notice(), None);
    app.try_reserve_port(9090, "api".to_string(), &vec![]);
    assert_eq!(
        app.reservation_notice(),
        Some("Port 9090 reserved for 'api'. Press any key to continue.".to_string())
    );
    app.try_release_port(9090);
    assert_eq!(
        app.reservation_notice(),
        Some("Port 9090 reserved for 'released'. Press any key to continue.".to_string())
    );
}

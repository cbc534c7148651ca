//! The state of the interactive dashboard and its reaction to key presses.
//!
//! The dashboard shows the snapshot, narrowed by a search text and ordered by
//! a column, with one row selected. A key press changes the state and may
//! ask for something that only the program around the state can do: quit,
//! signal a process, reserve a port against a fresh snapshot, or change the
//! colours.

use crate::filter::text_matches;
use crate::inventory::{port_in_use, port_views, PortInfo, PortInfoView};
use crate::process::text_view;
use crate::reservation::{after_release, after_reserve, release_result, reserve_result};
use crate::reservation::PortReservationManager;
use crate::sorting::{sort_by_column, stable_sorted, SortBy};
use crate::text::{decimal_string, decimal_text, integer_string, integer_text, text_eq};
use vstd::prelude::*;
use vstd::string::*;

verus! {

/// A key press, as far as the dashboard tells keys apart.
#[derive(Clone, Copy, Debug, PartialEq, Eq, Structural)]
pub enum Key {
    Char(char),
    Esc,
    Enter,
    Backspace,
    Other,
}

/// What a key press asks of the program around the dashboard.
#[derive(Debug, PartialEq, Eq)]
pub enum Action {
    /// Nothing.
    Nothing,
    /// Leave the program.
    Quit,
    /// Ask the process with this identifier to terminate.
    Kill(i32),
    /// Reserve this port for this service, against a fresh snapshot.
    Reserve(u16, String),
    /// Change the colours.
    ToggleTheme,
}

/// Mathematical model of an [`Action`].
pub enum ActionView {
    Nothing,
    Quit,
    Kill(i32),
    Reserve(u16, Seq<char>),
    ToggleTheme,
}

impl View for Action {
    type V = ActionView;

    open spec fn view(&self) -> ActionView {
        match *self {
            Action::Nothing => ActionView::Nothing,
            Action::Quit => ActionView::Quit,
            Action::Kill(pid) => ActionView::Kill(pid),
            Action::Reserve(port, service) => ActionView::Reserve(port, service@),
            Action::ToggleTheme => ActionView::ToggleTheme,
        }
    }
}

/// The state of the dashboard.
pub struct App {
    /// The search text.
    pub search: String,
    /// Whether key presses edit the search text.
    pub search_mode: bool,
    /// The snapshot.
    pub ports: Vec<PortInfo>,
    /// The rows on display: the snapshot, narrowed and ordered.
    pub filtered_ports: Vec<PortInfo>,
    /// The selected row.
    pub selected: Option<usize>,
    /// The process that the operator was asked to confirm the end of.
    pub confirm_kill: Option<(i32, String)>,
    /// The column that orders the rows.
    pub sort_by: SortBy,
    /// The reservation ledger.
    pub reservation_manager: PortReservationManager,
    /// The last reservation made or released: port and service.
    pub reservation_popup: Option<(u16, String)>,
    /// The message of the last refusal.
    pub reservation_error: Option<String>,
}

/// Mathematical model of an [`App`].
pub struct AppView {
    pub search: Seq<char>,
    pub search_mode: bool,
    pub ports: Seq<PortInfoView>,
    pub filtered_ports: Seq<PortInfoView>,
    pub selected: Option<usize>,
    pub confirm_kill: Option<(i32, Seq<char>)>,
    pub sort_by: SortBy,
    pub reservations: Map<u16, Seq<char>>,
    pub reservation_popup: Option<(u16, Seq<char>)>,
    pub reservation_error: Option<Seq<char>>,
}

/// The model of an optional pair of a number and a text.
pub open spec fn labelled_view<N>(pair: Option<(N, String)>) -> Option<(N, Seq<char>)> {
    match pair {
        Some((number, text)) => Some((number, text@)),
        None => None,
    }
}

impl View for App {
    type V = AppView;

    open spec fn view(&self) -> AppView {
        AppView {
            search: self.search@,
            search_mode: self.search_mode,
            ports: port_views(self.ports@),
            filtered_ports: port_views(self.filtered_ports@),
            selected: self.selected,
            confirm_kill: labelled_view(self.confirm_kill),
            sort_by: self.sort_by,
            reservations: self.reservation_manager@,
            reservation_popup: labelled_view(self.reservation_popup),
            reservation_error: text_view(self.reservation_error),
        }
    }
}

/// The rows on display for a snapshot: with an empty search text all of
/// them, else those that the search text matches; in the order of the column.
pub open spec fn visible_rows(ports: Seq<PortInfoView>, search: Seq<char>, by: SortBy) -> Seq<
    PortInfoView,
> {
    stable_sorted(
        if search.len() == 0 {
            ports
        } else {
            ports.filter(|row: PortInfoView| text_matches(row, search))
        },
        by,
    )
}

/// The state with its rows on display brought up to date.
pub open spec fn refreshed(app: AppView) -> AppView {
    AppView { filtered_ports: visible_rows(app.ports, app.search, app.sort_by), ..app }
}

/// The index of the selected row; the first row where none is selected.
pub open spec fn selected_index_of(app: AppView) -> usize {
    match app.selected {
        Some(index) => index,
        None => 0,
    }
}

/// The state after moving the selection one row down, from the last row on
/// to the first. Without rows nothing moves.
pub open spec fn moved_down(app: AppView) -> AppView {
    if app.filtered_ports.len() == 0 {
        app
    } else if selected_index_of(app) >= app.filtered_ports.len() - 1 {
        AppView { selected: Some(0), ..app }
    } else {
        AppView { selected: Some((selected_index_of(app) + 1) as usize), ..app }
    }
}

/// The state after moving the selection one row up, from the first row on
/// to the last. Without rows nothing moves.
pub open spec fn moved_up(app: AppView) -> AppView {
    if app.filtered_ports.len() == 0 {
        app
    } else if selected_index_of(app) == 0 {
        AppView { selected: Some((app.filtered_ports.len() - 1) as usize), ..app }
    } else {
        AppView { selected: Some((selected_index_of(app) - 1) as usize), ..app }
    }
}

/// The selected row, if the selection points at one.
pub open spec fn selection_of(app: AppView) -> Option<PortInfoView> {
    if selected_index_of(app) < app.filtered_ports.len() {
        Some(app.filtered_ports[selected_index_of(app) as int])
    } else {
        None
    }
}

/// The state after a request to reserve `port` for `service`, when `in_use`
/// tells whether a live socket holds the port: a granted request is shown
/// in the popup, a refused one leaves its message.
pub open spec fn reserve_tried(
    app: AppView,
    port: u16,
    service: Seq<char>,
    in_use: bool,
) -> AppView {
    match reserve_result(app.reservations, port, in_use) {
        Ok(_) => AppView {
            reservations: after_reserve(app.reservations, port, service, in_use),
            reservation_popup: Some((port, service)),
            ..app
        },
        Err(refusal) => AppView { reservation_error: Some(refusal.message_spec()), ..app },
    }
}

/// The state after a request to release `port`: a granted request is shown
/// in the popup, a refused one leaves its message.
pub open spec fn release_tried(app: AppView, port: u16) -> AppView {
    match release_result(app.reservations, port) {
        Ok(_) => AppView {
            reservations: after_release(app.reservations, port),
            reservation_popup: Some((port, "released"@)),
            ..app
        },
        Err(refusal) => AppView { reservation_error: Some(refusal.message_spec()), ..app },
    }
}

/// The name under which a row's process is shown, `otherwise` where it has none.
pub open spec fn display_name(row: PortInfoView, otherwise: Seq<char>) -> Seq<char> {
    match row.process_name {
        Some(name) => name,
        None => otherwise,
    }
}

/// The state with a new search text: the rows are brought up to date and
/// the first row is selected.
pub open spec fn searched(app: AppView, search: Seq<char>) -> AppView {
    refreshed(AppView { search, selected: Some(0), ..app })
}

/// The search text without its last character; the empty text stays empty.
pub open spec fn without_last(text: Seq<char>) -> Seq<char> {
    if text.len() == 0 {
        text
    } else {
        text.drop_last()
    }
}

/// The process that the operator is asked to confirm the end of.
pub open spec fn pending_pid(app: AppView) -> i32 {
    match app.confirm_kill {
        Some((pid, _)) => pid,
        None => 0,
    }
}

/// What a key press makes of the state while the operator is asked to
/// confirm the end of a process: `y` asks for the signal, `n` and escape
/// call it off, any other key is ignored.
pub open spec fn step_confirming(app: AppView, key: Key) -> (AppView, ActionView) {
    if key == Key::Char('y') {
        (AppView { confirm_kill: None, ..app }, ActionView::Kill(pending_pid(app)))
    } else if key == Key::Char('n') || key == Key::Esc {
        (AppView { confirm_kill: None, ..app }, ActionView::Nothing)
    } else {
        (app, ActionView::Nothing)
    }
}

/// What a key press makes of the state while the search text is edited:
/// escape and enter end the editing, backspace removes the last character, a
/// character is added to the text, any other key is ignored.
pub open spec fn step_searching(app: AppView, key: Key) -> (AppView, ActionView) {
    match key {
        Key::Esc => (AppView { search_mode: false, ..app }, ActionView::Nothing),
        Key::Enter => (AppView { search_mode: false, ..app }, ActionView::Nothing),
        Key::Backspace => (searched(app, without_last(app.search)), ActionView::Nothing),
        Key::Char(c) => (searched(app, app.search.push(c)), ActionView::Nothing),
        Key::Other => (app, ActionView::Nothing),
    }
}

/// What a key press makes of the state otherwise.
pub open spec fn step_browsing(app: AppView, key: Key) -> (AppView, ActionView) {
    if key == Key::Char('q') {
        (app, ActionView::Quit)
    } else if key == Key::Char('j') {
        (moved_down(app), ActionView::Nothing)
    } else if key == Key::Char('k') {
        (moved_up(app), ActionView::Nothing)
    } else if key == Key::Char('c') {
        match selection_of(app) {
            Some(row) => match row.pid {
                Some(pid) => (
                    AppView { confirm_kill: Some((pid, display_name(row, "-"@))), ..app },
                    ActionView::Nothing,
                ),
                None => (app, ActionView::Nothing),
            },
            None => (app, ActionView::Nothing),
        }
    } else if key == Key::Char('r') {
        match selection_of(app) {
            Some(row) => (app, ActionView::Reserve(row.port, display_name(row, "unknown"@))),
            None => (app, ActionView::Nothing),
        }
    } else if key == Key::Char('u') {
        match selection_of(app) {
            Some(row) => (release_tried(app, row.port), ActionView::Nothing),
            None => (app, ActionView::Nothing),
        }
    } else if key == Key::Char('/') {
        (searched(AppView { search_mode: true, ..app }, Seq::empty()), ActionView::Nothing)
    } else if key == Key::Char('t') {
        (app, ActionView::ToggleTheme)
    } else if key == Key::Char('s') {
        (refreshed(AppView { sort_by: app.sort_by.next_spec(), ..app }), ActionView::Nothing)
    } else {
        (app, ActionView::Nothing)
    }
}

/// What a key press makes of the state, and what it asks for. A pending
/// confirmation comes first, then the editing of the search text.
pub open spec fn step(app: AppView, key: Key) -> (AppView, ActionView) {
    if app.confirm_kill is Some {
        step_confirming(app, key)
    } else if app.search_mode {
        step_searching(app, key)
    } else {
        step_browsing(app, key)
    }
}

/// Calls `String::push`, which appends the character to the text.
#[verifier::external_body]
fn push_char(text: &mut String, c: char)
    ensures
        final(text)@ == old(text)@.push(c),
{
    text.push(c)
}

/// Calls `String::pop`, which removes the last character of the text and
/// returns it, or returns `None` for the empty text.
#[verifier::external_body]
fn pop_char(text: &mut String) -> (removed: Option<char>)
    ensures
        old(text)@.len() == 0 ==> removed is None && final(text)@ == old(text)@,
        old(text)@.len() > 0 ==> removed == Some(old(text)@.last()) && final(text)@ == old(
            text,
        )@.drop_last(),
{
    text.pop()
}

impl App {
    /// The dashboard before the first snapshot: nothing to show, nothing
    /// selected, ordered by port, with an empty ledger.
    pub fn new() -> (app: Self)
        ensures
            app@ == (AppView {
                search: Seq::empty(),
                search_mode: false,
                ports: Seq::empty(),
                filtered_ports: Seq::empty(),
                selected: None,
                confirm_kill: None,
                sort_by: SortBy::Port,
                reservations: Map::empty(),
                reservation_popup: None,
                reservation_error: None,
            }),
    {
        let app = App {
            search: String::new(),
            search_mode: false,
            ports: Vec::new(),
            filtered_ports: Vec::new(),
            selected: None,
            confirm_kill: None,
            sort_by: SortBy::Port,
            reservation_manager: PortReservationManager::new(),
            reservation_popup: None,
            reservation_error: None,
        };
        assert(app@.ports =~= Seq::<PortInfoView>::empty());
        assert(app@.filtered_ports =~= Seq::<PortInfoView>::empty());
        app
    }

    /// Takes over a new snapshot and brings the rows on display up to date.
    pub fn set_ports(&mut self, ports: Vec<PortInfo>)
        ensures
            final(self)@ == refreshed(AppView { ports: port_views(ports@), ..old(self)@ }),
    {
        self.ports = ports;
        self.update_filtered_ports();
    }

    /// Brings the rows on display up to date: the snapshot, narrowed by the
    /// search text and ordered by the column.
    pub fn update_filtered_ports(&mut self)
        ensures
            final(self)@ == refreshed(old(self)@),
    {
        let mut chosen: Vec<PortInfo> = Vec::new();
        let ghost pred = |row: PortInfoView| text_matches(row, self.search@);
        let ghost views = port_views(self.ports@);
        let narrowing = !self.search.as_str().is_empty();
        let mut i: usize = 0;
        assert(port_views(chosen@) =~= Seq::<PortInfoView>::empty());
        proof {
            assert(views.take(0) =~= Seq::<PortInfoView>::empty());
            reveal(Seq::filter);
        }
        while i < self.ports.len()
            invariant
                i <= self.ports.len(),
                *self == *old(self),
                views == port_views(self.ports@),
                pred == |row: PortInfoView| text_matches(row, self.search@),
                narrowing == (self.search@.len() != 0),
                port_views(chosen@) == if narrowing {
                    views.take(i as int).filter(pred)
                } else {
                    views.take(i as int)
                },
            decreases self.ports.len() - i,
        {
            let ghost before = chosen@;
            proof {
                assert(views.take(i + 1) == views.take(i as int).push(views[i as int]));
                views.take(i as int).lemma_filter_push(views[i as int], pred);
            }
            if !narrowing || self.ports[i].matches_text(self.search.as_str()) {
                let copy = self.ports[i].clone();
                chosen.push(copy);
                assert(port_views(chosen@) =~= port_views(before).push(copy@));
            }
            i += 1;
        }
        assert(views.take(self.ports.len() as int) == views);
        self.filtered_ports = sort_by_column(&chosen, self.sort_by);
    }

    /// Orders the rows on display by the column.
    pub fn sort_ports(&mut self)
        ensures
            final(self)@ == (AppView {
                filtered_ports: stable_sorted(old(self)@.filtered_ports, old(self)@.sort_by),
                ..old(self)@
            }),
    {
        self.filtered_ports = sort_by_column(&self.filtered_ports, self.sort_by);
    }

    /// The index of the selected row; the first row where none is selected.
    pub fn selected_index(&self) -> (index: usize)
        ensures
            index == selected_index_of(self@),
    {
        match self.selected {
            Some(index) => index,
            None => 0,
        }
    }

    /// Moves the selection one row down, from the last row on to the first.
    pub fn move_down(&mut self)
        ensures
            final(self)@ == moved_down(old(self)@),
    {
        let len = self.filtered_ports.len();
        if len == 0 {
            return ;
        }
        let i = self.selected_index();
        let next: usize = if i >= len - 1 {
            0
        } else {
            i + 1
        };
        self.selected = Some(next);
    }

    /// Moves the selection one row up, from the first row on to the last.
    pub fn move_up(&mut self)
        ensures
            final(self)@ == moved_up(old(self)@),
    {
        let len = self.filtered_ports.len();
        if len == 0 {
            return ;
        }
        let i = self.selected_index();
        let prev: usize = if i == 0 {
            len - 1
        } else {
            i - 1
        };
        self.selected = Some(prev);
    }

    /// The selected row, if the selection points at one.
    pub fn current_selection(&self) -> (row: Option<&PortInfo>)
        ensures
            match row {
                Some(record) => selection_of(self@) == Some(record@),
                None => selection_of(self@) is None,
            },
    {
        let i = self.selected_index();
        if i < self.filtered_ports.len() {
            Some(&self.filtered_ports[i])
        } else {
            None
        }
    }

    /// Asks the ledger to reserve `port` for `service` against the snapshot
    /// `live`, and notes the outcome for display.
    pub fn try_reserve_port(&mut self, port: u16, service: String, live: &Vec<PortInfo>)
        ensures
            final(self)@ == reserve_tried(
                old(self)@,
                port,
                service@,
                port_in_use(port_views(live@), port),
            ),
    {
        let shown = service.clone();
        match self.reservation_manager.reserve_port(port, service, live) {
            Ok(_) => {
                self.reservation_popup = Some((port, shown));
            },
            Err(refusal) => {
                self.reservation_error = Some(refusal.message());
            },
        }
    }

    /// Asks the ledger to release `port`, and notes the outcome for display.
    pub fn try_release_port(&mut self, port: u16)
        ensures
            final(self)@ == release_tried(old(self)@, port),
    {
        match self.reservation_manager.release_port(port) {
            Ok(_) => {
                self.reservation_popup = Some((port, String::from_str("released")));
            },
            Err(refusal) => {
                self.reservation_error = Some(refusal.message());
            },
        }
    }

    /// Reacts to a key press: changes the state and says what the program
    /// around the dashboard has to do.
    pub fn handle_key(&mut self, key: Key) -> (action: Action)
        ensures
            final(self)@ == step(old(self)@, key).0,
            action@ == step(old(self)@, key).1,
    {
        if let Some((pid, _)) = &self.confirm_kill {
            let pid: i32 = *pid;
            match key {
                Key::Char('y') => {
                    self.confirm_kill = None;
                    Action::Kill(pid)
                },
                Key::Char('n') | Key::Esc => {
                    self.confirm_kill = None;
                    Action::Nothing
                },
                _ => Action::Nothing,
            }
        } else if self.search_mode {
            match key {
                Key::Esc | Key::Enter => {
                    self.search_mode = false;
                },
                Key::Backspace => {
                    let _ = pop_char(&mut self.search);
                    self.selected = Some(0);
                    self.update_filtered_ports();
                },
                Key::Char(c) => {
                    push_char(&mut self.search, c);
                    self.selected = Some(0);
                    self.update_filtered_ports();
                },
                Key::Other => {},
            }
            Action::Nothing
        } else {
            self.browse(key)
        }
    }

    /// Reacts to a key press while rows are browsed.
    fn browse(&mut self, key: Key) -> (action: Action)
        ensures
            final(self)@ == step_browsing(old(self)@, key).0,
            action@ == step_browsing(old(self)@, key).1,
    {
        proof {
            reveal_strlit("-");
            reveal_strlit("unknown");
        }
        match key {
            Key::Char('q') => Action::Quit,
            Key::Char('j') => {
                self.move_down();
                Action::Nothing
            },
            Key::Char('k') => {
                self.move_up();
                Action::Nothing
            },
            Key::Char('c') => {
                let asked: Option<(i32, String)> = match self.current_selection() {
                    Some(row) => match row.pid {
                        Some(pid) => Some(
                            (
                                pid,
                                match &row.process_name {
                                    Some(name) => name.clone(),
                                    None => String::from_str("-"),
                                },
                            ),
                        ),
                        None => None,
                    },
                    None => None,
                };
                if asked.is_some() {
                    self.confirm_kill = asked;
                }
                Action::Nothing
            },
            Key::Char('r') => match self.current_selection() {
                Some(row) => Action::Reserve(
                    row.port,
                    match &row.process_name {
                        Some(name) => name.clone(),
                        None => String::from_str("unknown"),
                    },
                ),
                None => Action::Nothing,
            },
            Key::Char('u') => {
                let port: Option<u16> = match self.current_selection() {
                    Some(row) => Some(row.port),
                    None => None,
                };
                if let Some(port) = port {
                    self.try_release_port(port);
                }
                Action::Nothing
            },
            Key::Char('/') => {
                self.search_mode = true;
                self.search = String::new();
                self.selected = Some(0);
                self.update_filtered_ports();
                Action::Nothing
            },
            Key::Char('t') => Action::ToggleTheme,
            Key::Char('s') => {
                self.sort_by = self.sort_by.next();
                self.update_filtered_ports();
                Action::Nothing
            },
            _ => Action::Nothing,
        }
    }
}

/// How the state column of a row is emphasised.
#[derive(Clone, Copy, Debug, PartialEq, Eq, Structural)]
pub enum StateTone {
    Listening,
    Established,
    Waiting,
    Plain,
}

/// The emphasis of a state: listening, established and waiting connections
/// stand out, every other state is plain.
pub open spec fn tone_of(state: Seq<char>) -> StateTone {
    if state == "LISTEN"@ {
        StateTone::Listening
    } else if state == "ESTABLISHED"@ {
        StateTone::Established
    } else if state == "TIME_WAIT"@ {
        StateTone::Waiting
    } else {
        StateTone::Plain
    }
}

/// The process identifier column of a row: the number, or `-` without a process.
pub open spec fn pid_label_of(row: PortInfoView) -> Seq<char> {
    match row.pid {
        Some(pid) => integer_text(pid as int),
        None => "-"@,
    }
}

/// The local address column of a row: the address, a space, and a mark if
/// the port is reserved.
pub open spec fn local_label_of(row: PortInfoView, reserved: bool) -> Seq<char> {
    row.local_addr + " "@ + if reserved {
        "(reserved)"@
    } else {
        Seq::empty()
    }
}

/// The text of the search box: the search text behind a slash while it is
/// edited, else a hint if it is empty, else the text as the filter in force.
pub open spec fn search_box_of(app: AppView) -> Seq<char> {
    if app.search_mode {
        "/"@ + app.search
    } else if app.search.len() == 0 {
        "Type / to search..."@
    } else {
        "Filter: "@ + app.search
    }
}

/// The text of the status bar: the keys, and the filter in force.
pub open spec fn status_line_of(app: AppView) -> Seq<char> {
    "j/k: move  |  c: kill  |  r: reserve  |  u: unreserve  |  q: quit  |  Filter: "@
        + app.search
}

/// The notice of a reservation.
pub open spec fn notice_of(port: u16, service: Seq<char>) -> Seq<char> {
    "Port "@ + decimal_text(port as nat) + " reserved for '"@ + service
        + "'. Press any key to continue."@
}

impl PortInfo {
    /// The emphasis of the row's state.
    pub fn state_tone(&self) -> (tone: StateTone)
        ensures
            tone == tone_of(self@.state),
    {
        if text_eq(self.state.as_str(), "LISTEN") {
            StateTone::Listening
        } else if text_eq(self.state.as_str(), "ESTABLISHED") {
            StateTone::Established
        } else if text_eq(self.state.as_str(), "TIME_WAIT") {
            StateTone::Waiting
        } else {
            StateTone::Plain
        }
    }

    /// The process identifier column: the number, or `-` without a process.
    pub fn pid_label(&self) -> (label: String)
        ensures
            label@ == pid_label_of(self@),
    {
        match self.pid {
            Some(pid) => integer_string(pid),
            None => String::from_str("-"),
        }
    }

    /// The process column: the name, or `-` where none is known.
    pub fn process_label(&self) -> (label: String)
        ensures
            label@ == display_name(self@, "-"@),
    {
        match &self.process_name {
            Some(name) => name.clone(),
            None => String::from_str("-"),
        }
    }
}

impl App {
    /// The local address column of a row, with a mark if the ledger holds a
    /// reservation for the row's port.
    pub fn local_label(&self, row: &PortInfo) -> (label: String)
        ensures
            label@ == local_label_of(row@, self@.reservations.contains_key(row@.port)),
    {
        let mut label = row.local_addr.clone();
        label.append(" ");
        if self.reservation_manager.is_reserved(row.port) {
            label.append("(reserved)");
        }
        assert(label@ =~= local_label_of(row@, self@.reservations.contains_key(row@.port)));
        label
    }

    /// The text of the search box.
    pub fn search_box(&self) -> (text: String)
        ensures
            text@ == search_box_of(self@),
    {
        if self.search_mode {
            let mut text = String::from_str("/");
            text.append(self.search.as_str());
            text
        } else if self.search.as_str().is_empty() {
            String::from_str("Type / to search...")
        } else {
            let mut text = String::from_str("Filter: ");
            text.append(self.search.as_str());
            text
        }
    }

    /// The text of the status bar.
    pub fn status_line(&self) -> (text: String)
        ensures
            text@ == status_line_of(self@),
    {
        let mut text = String::from_str(
            "j/k: move  |  c: kill  |  r: reserve  |  u: unreserve  |  q: quit  |  Filter: ",
        );
        text.append(self.search.as_str());
        text
    }

    /// The notice of the last reservation made or released, if there is one.
    pub fn reservation_notice(&self) -> (notice: Option<String>)
        ensures
            match self@.reservation_popup {
                Some((port, service)) => text_view(notice) == Some(notice_of(port, service)),
                None => notice is None,
            },
    {
        match &self.reservation_popup {
            Some((port, service)) => {
                let mut text = String::from_str("Port ");
                let digits = decimal_string(*port as u64);
                text.append(digits.as_str());
                text.append(" reserved for '");
                text.append(service.as_str());
                text.append("'. Press any key to continue.");
                assert(text@ =~= notice_of(*port, service@));
                Some(text)
            },
            None => None,
        }
    }
}

} // verus!

//! The key-handling state machine of the interactive view. Each key gives the
//! next state, an event for the main loop, and an [`Effect`]: outside work
//! (writing files, running `ssh`, the clipboard) that the caller performs and
//! whose outcome it hands back through the `*_finished` methods.
use vstd::prelude::*;
use vstd::string::*;
use crate::app::{
    base_hosts, sorted_in_mode, add_started, deleted_current, edit_started, group_filter, moved_down, moved_up, refiltered,
    saved, theme_cycled, last_position, AppCommand, AppState, AppStateView, FilterMode,
    HostFormData, HostFormDataView, InputMode, Panel, SortMode, ViewMode, empty_form,
};
use crate::config::theme_name;
use crate::models::{host_views, opt_view, ssh_command_spec, HostsDatabase, HostsDatabaseView, SshHostView, group_views};
use crate::services::{can_record, connected_at, record_connection};
use crate::ssh::{error_text, SshError};
use crate::storage::{find_host_index, host_index, lemma_host_index};
use crate::text::{
    chars_of, decimal, first_word, first_word_text, owned, pop_char, push_char, push_decimal,
    push_str, str_eq, framed,
};

verus! {

/// A key, as the terminal reports it.
#[derive(Debug, Clone, Copy, PartialEq, Eq, Structural)]
pub enum KeyCode {
    Char(char),
    Enter,
    Esc,
    Tab,
    Backspace,
    Up,
    Down,
    Other,
}

/// A key press: the key and the bits of the modifier keys held with it
/// (0 when none is held).
#[derive(Debug, Clone, Copy, PartialEq, Eq, Structural)]
pub struct KeyInput {
    pub code: KeyCode,
    pub modifiers: u8,
}

/// What the main loop is told after an input.
#[derive(Debug, Clone, Copy, PartialEq, Eq, Structural)]
pub enum AppEvent {
    Quit,
    Resize(u16, u16),
    Key(KeyInput),
    Tick,
    Nothing,
}

/// Outside work that a key asks for.
#[derive(Debug)]
pub enum Effect {
    /// Nothing to do.
    Nothing,
    /// Write the database; on failure call [`AppState::report_save_error`].
    SaveHosts,
    /// Write the database, ignoring failure.
    SaveHostsQuietly,
    /// Write the settings, ignoring failure.
    SaveConfig,
    /// Copy a text to the clipboard, then call [`AppState::clipboard_finished`].
    CopyToClipboard { text: String, success: String },
    /// Run an interactive `ssh` session, then call [`AppState::session_finished`].
    OpenSession {
        host_id: String,
        hostname: String,
        port: u16,
        username: String,
        identity_file: Option<String>,
        proxy_jump: Option<String>,
    },
    /// Ping a host, then call [`AppState::ping_finished`].
    Ping { name: String, hostname: String, port: u16 },
    /// Run `ssh-copy-id`, then call [`AppState::copy_id_finished`].
    CopyId { hostname: String, port: u16, username: String },
    /// Read `~/.ssh/config`, then call [`AppState::import_loaded`] and, once the
    /// database is written, [`AppState::import_saved`]; on a read failure call
    /// [`AppState::import_failed`].
    ImportSshConfig,
    /// Write `~/.ssh/config`, then call [`AppState::ssh_export_finished`].
    ExportSshConfig,
    /// Write `sshman_hosts.csv`, then call [`AppState::csv_export_finished`].
    ExportCsv,
}

/// The mathematical value of an [`Effect`].
pub enum EffectView {
    Nothing,
    SaveHosts,
    SaveHostsQuietly,
    SaveConfig,
    CopyToClipboard { text: Seq<char>, success: Seq<char> },
    OpenSession {
        host_id: Seq<char>,
        hostname: Seq<char>,
        port: u16,
        username: Seq<char>,
        identity_file: Option<Seq<char>>,
        proxy_jump: Option<Seq<char>>,
    },
    Ping { name: Seq<char>, hostname: Seq<char>, port: u16 },
    CopyId { hostname: Seq<char>, port: u16, username: Seq<char> },
    ImportSshConfig,
    ExportSshConfig,
    ExportCsv,
}

impl View for Effect {
    type V = EffectView;

    open spec fn view(&self) -> EffectView {
        match self {
            Effect::Nothing => EffectView::Nothing,
            Effect::SaveHosts => EffectView::SaveHosts,
            Effect::SaveHostsQuietly => EffectView::SaveHostsQuietly,
            Effect::SaveConfig => EffectView::SaveConfig,
            Effect::CopyToClipboard { text, success } => EffectView::CopyToClipboard {
                text: text@,
                success: success@,
            },
            Effect::OpenSession { host_id, hostname, port, username, identity_file, proxy_jump } =>
            EffectView::OpenSession {
                host_id: host_id@,
                hostname: hostname@,
                port: *port,
                username: username@,
                identity_file: opt_view(*identity_file),
                proxy_jump: opt_view(*proxy_jump),
            },
            Effect::Ping { name, hostname, port } => EffectView::Ping {
                name: name@,
                hostname: hostname@,
                port: *port,
            },
            Effect::CopyId { hostname, port, username } => EffectView::CopyId {
                hostname: hostname@,
                port: *port,
                username: username@,
            },
            Effect::ImportSshConfig => EffectView::ImportSshConfig,
            Effect::ExportSshConfig => EffectView::ExportSshConfig,
            Effect::ExportCsv => EffectView::ExportCsv,
        }
    }
}

// ---------------------------------------------------------------------------
// Specifications of the steps
// ---------------------------------------------------------------------------

/// The selected host, when the selection is inside the list.
pub open spec fn selected(s: AppStateView) -> Option<SshHostView> {
    if s.filtered_index < s.filtered_hosts.len() {
        Some(s.filtered_hosts[s.filtered_index as int])
    } else {
        None
    }
}

/// The panel to the left.
pub open spec fn panel_left(p: Panel) -> Panel {
    match p {
        Panel::Hosts => Panel::Groups,
        Panel::Details => Panel::Hosts,
        Panel::Groups => Panel::Groups,
    }
}

/// The panel to the right.
pub open spec fn panel_right(p: Panel) -> Panel {
    match p {
        Panel::Groups => Panel::Hosts,
        Panel::Hosts => Panel::Details,
        Panel::Details => Panel::Details,
    }
}

/// The next sort mode: by name, favourites first, recent, most connected.
pub open spec fn next_sort(m: SortMode) -> SortMode {
    match m {
        SortMode::Alphabetical => SortMode::FavoritesFirst,
        SortMode::FavoritesFirst => SortMode::Recent,
        SortMode::Recent => SortMode::MostConnected,
        SortMode::MostConnected => SortMode::Alphabetical,
    }
}

/// The group panel's selection moved to a position, with the filter it stands
/// for applied.
pub open spec fn group_selected(s: AppStateView, idx: usize) -> AppStateView {
    let s1 = AppStateView { selected_group_index: idx, ..s };
    refiltered(AppStateView { filter_mode: group_filter(s1), ..s1 })
}

/// The selected host's favourite mark flipped in the database (first host with
/// its identifier), and the list recomputed.
pub open spec fn favorite_toggled(s: AppStateView) -> (AppStateView, EffectView) {
    match selected(s) {
        Some(h) => match host_index(s.db.hosts, h.id) {
            Some(i) => (
                refiltered(
                    AppStateView {
                        db: HostsDatabaseView {
                            hosts: s.db.hosts.update(
                                i,
                                SshHostView { is_favorite: !s.db.hosts[i].is_favorite, ..s.db.hosts[i] },
                            ),
                            ..s.db
                        },
                        ..s
                    },
                ),
                EffectView::SaveHostsQuietly,
            ),
            None => (s, EffectView::Nothing),
        },
        None => (s, EffectView::Nothing),
    }
}

/// Whether a character is a navigation key in normal mode.
pub open spec fn is_nav_key(c: char, plain: bool) -> bool {
    (plain && (c == 'q' || c == 'j' || c == 'k' || c == 'G' || c == 'g' || c == 'h' || c == 'l'))
        || c == '/' || c == ':' || c == 's'
}

/// What a navigation key does in normal mode: quit, move, switch panel, search,
/// command line, sort.
pub open spec fn nav_step(s: AppStateView, c: char, plain: bool) -> (AppStateView, AppEvent, EffectView) {
    if c == 'q' && plain {
        (AppStateView { should_quit: true, ..s }, AppEvent::Quit, EffectView::Nothing)
    } else if c == 'j' && plain {
        (
            if s.active_panel == Panel::Groups {
                if s.selected_group_index < 2 + s.groups.len() {
                    group_selected(s, (s.selected_group_index + 1) as usize)
                } else {
                    s
                }
            } else {
                moved_down(s)
            },
            AppEvent::Nothing,
            EffectView::Nothing,
        )
    } else if c == 'k' && plain {
        (
            if s.active_panel == Panel::Groups {
                if s.selected_group_index > 0 {
                    group_selected(s, (s.selected_group_index - 1) as usize)
                } else {
                    s
                }
            } else {
                moved_up(s)
            },
            AppEvent::Nothing,
            EffectView::Nothing,
        )
    } else if c == 'G' && plain {
        (
            AppStateView { filtered_index: last_position(s.filtered_hosts.len()), ..s },
            AppEvent::Nothing,
            EffectView::Nothing,
        )
    } else if c == 'g' && plain {
        (AppStateView { filtered_index: 0, ..s }, AppEvent::Nothing, EffectView::Nothing)
    } else if c == '/' {
        (
            AppStateView { input_mode: InputMode::Search, search_query: Seq::empty(), ..s },
            AppEvent::Nothing,
            EffectView::Nothing,
        )
    } else if c == ':' {
        (
            AppStateView { input_mode: InputMode::Command, command_buffer: Seq::empty(), ..s },
            AppEvent::Nothing,
            EffectView::Nothing,
        )
    } else if c == 'h' && plain {
        (
            AppStateView { active_panel: panel_left(s.active_panel), ..s },
            AppEvent::Nothing,
            EffectView::Nothing,
        )
    } else if c == 'l' && plain {
        (
            AppStateView { active_panel: panel_right(s.active_panel), ..s },
            AppEvent::Nothing,
            EffectView::Nothing,
        )
    } else if c == 's' {
        (
            refiltered(AppStateView { sort_mode: next_sort(s.sort_mode), ..s }),
            AppEvent::Nothing,
            EffectView::Nothing,
        )
    } else {
        (s, AppEvent::Nothing, EffectView::Nothing)
    }
}

/// What an action key does in normal mode: add, edit, delete, favourite, copy,
/// ping, copy the key, theme, help.
pub open spec fn action_step(s: AppStateView, c: char) -> (AppStateView, AppEvent, EffectView) {
if c == 'a' {
        (add_started(s), AppEvent::Nothing, EffectView::Nothing)
    } else if c == 'e' {
        (edit_started(s), AppEvent::Nothing, EffectView::Nothing)
    } else if c == 'd' {
        (
            deleted_current(s).0,
            AppEvent::Nothing,
            if deleted_current(s).1 {
                EffectView::SaveHosts
            } else {
                EffectView::Nothing
            },
        )
    } else if c == 'f' {
        (favorite_toggled(s).0, AppEvent::Nothing, favorite_toggled(s).1)
    } else if c == 'y' {
        (
            s,
            AppEvent::Nothing,
            match selected(s) {
                Some(h) => EffectView::CopyToClipboard {
                    text: h.hostname,
                    success: "Hostname copied to clipboard"@,
                },
                None => EffectView::Nothing,
            },
        )
    } else if c == 'c' {
        (
            s,
            AppEvent::Nothing,
            match selected(s) {
                Some(h) => EffectView::CopyToClipboard {
                    text: ssh_command_spec(h),
                    success: "SSH command copied to clipboard"@,
                },
                None => EffectView::Nothing,
            },
        )
    } else if c == 'p' {
        match selected(s) {
            Some(h) => (
                AppStateView {
                    message: Some("Testing connection to "@ + h.name + "..."@),
                    ..s
                },
                AppEvent::Nothing,
                EffectView::Ping { name: h.name, hostname: h.hostname, port: h.port },
            ),
            None => (s, AppEvent::Nothing, EffectView::Nothing),
        }
    } else if c == 'r' {
        (
            s,
            AppEvent::Nothing,
            match selected(s) {
                Some(h) => EffectView::CopyId {
                    hostname: h.hostname,
                    port: h.port,
                    username: h.username,
                },
                None => EffectView::Nothing,
            },
        )
    } else if c == 't' {
        (
            AppStateView {
                message: Some("Theme: "@ + theme_name(theme_cycled(s).config.theme)),
                ..theme_cycled(s)
            },
            AppEvent::Nothing,
            EffectView::SaveConfig,
        )
    } else if c == '?' {
        (AppStateView { view_mode: ViewMode::Help, ..s }, AppEvent::Nothing, EffectView::Nothing)
    } else {
        (s, AppEvent::Nothing, EffectView::Nothing)
    }
}

/// What a key does in normal mode.
pub open spec fn normal_step(s: AppStateView, k: KeyInput) -> (AppStateView, AppEvent, EffectView) {
    match k.code {
        KeyCode::Char(c) => if is_nav_key(c, k.modifiers == 0) {
            nav_step(s, c, k.modifiers == 0)
        } else {
            action_step(s, c)
        },
        KeyCode::Enter => match selected(s) {
            Some(h) => (
                AppStateView {
                    last_command: AppCommand::Connect,
                    message: Some("Connecting to "@ + h.name + "..."@),
                    ..s
                },
                AppEvent::Nothing,
                EffectView::OpenSession {
                    host_id: h.id,
                    hostname: h.hostname,
                    port: h.port,
                    username: h.username,
                    identity_file: h.identity_file,
                    proxy_jump: h.proxy_jump,
                },
            ),
            None => (s, AppEvent::Nothing, EffectView::Nothing),
        },
        KeyCode::Esc => (
            AppStateView { view_mode: ViewMode::Normal, ..s },
            AppEvent::Nothing,
            EffectView::Nothing,
        ),
        KeyCode::Up => (moved_up(s), AppEvent::Nothing, EffectView::Nothing),
        KeyCode::Down => (moved_down(s), AppEvent::Nothing, EffectView::Nothing),
        _ => (s, AppEvent::Nothing, EffectView::Nothing),
    }
}

/// A text without its last character, if any.
pub open spec fn popped(t: Seq<char>) -> Seq<char> {
    if t.len() > 0 {
        t.drop_last()
    } else {
        t
    }
}

/// What a key does in search mode: typing edits the query and the list follows it.
pub open spec fn search_step(s: AppStateView, k: KeyInput) -> AppStateView {
    match k.code {
        KeyCode::Esc => refiltered(
            AppStateView { input_mode: InputMode::Normal, search_query: Seq::empty(), ..s },
        ),
        KeyCode::Enter => refiltered(AppStateView { input_mode: InputMode::Normal, ..s }),
        KeyCode::Char(c) => refiltered(AppStateView { search_query: s.search_query.push(c), ..s }),
        KeyCode::Backspace => refiltered(
            AppStateView { search_query: popped(s.search_query), ..s },
        ),
        _ => s,
    }
}

/// What a typed command does.
pub open spec fn command_step(s: AppStateView, cmd: Seq<char>) -> (AppStateView, AppEvent, EffectView) {
    match first_word(cmd) {
        Some(w) => if w == "q"@ || w == "quit"@ {
            (AppStateView { should_quit: true, ..s }, AppEvent::Quit, EffectView::Nothing)
        } else if w == "add"@ {
            (add_started(s), AppEvent::Nothing, EffectView::Nothing)
        } else if w == "help"@ || w == "?"@ {
            (AppStateView { view_mode: ViewMode::Help, ..s }, AppEvent::Nothing, EffectView::Nothing)
        } else if w == "import"@ || w == "i"@ {
            (s, AppEvent::Nothing, EffectView::ImportSshConfig)
        } else if w == "export"@ || w == "e"@ {
            (s, AppEvent::Nothing, EffectView::ExportSshConfig)
        } else if w == "csv"@ {
            (s, AppEvent::Nothing, EffectView::ExportCsv)
        } else {
            (
                AppStateView { message: Some("Unknown command: "@ + cmd), ..s },
                AppEvent::Nothing,
                EffectView::Nothing,
            )
        },
        None => (
            AppStateView { message: Some("Unknown command: "@ + cmd), ..s },
            AppEvent::Nothing,
            EffectView::Nothing,
        ),
    }
}

/// What a key does in command mode: typing edits the command line, Enter runs it.
pub open spec fn command_mode_step(s: AppStateView, k: KeyInput) -> (
    AppStateView,
    AppEvent,
    EffectView,
) {
    match k.code {
        KeyCode::Esc => (
            AppStateView { input_mode: InputMode::Normal, command_buffer: Seq::empty(), ..s },
            AppEvent::Nothing,
            EffectView::Nothing,
        ),
        KeyCode::Enter => command_step(
            AppStateView { input_mode: InputMode::Normal, command_buffer: Seq::empty(), ..s },
            s.command_buffer,
        ),
        KeyCode::Char(c) => (
            AppStateView { command_buffer: s.command_buffer.push(c), ..s },
            AppEvent::Nothing,
            EffectView::Nothing,
        ),
        KeyCode::Backspace => (
            AppStateView { command_buffer: popped(s.command_buffer), ..s },
            AppEvent::Nothing,
            EffectView::Nothing,
        ),
        _ => (s, AppEvent::Nothing, EffectView::Nothing),
    }
}

/// The text of a form field by position: name, host name, user, port, identity
/// file, jump host, tags, notes.
pub open spec fn form_field(f: HostFormDataView, idx: usize) -> Seq<char> {
    if idx == 0 {
        f.name
    } else if idx == 1 {
        f.hostname
    } else if idx == 2 {
        f.username
    } else if idx == 3 {
        f.port
    } else if idx == 4 {
        f.identity_file
    } else if idx == 5 {
        f.proxy_jump
    } else if idx == 6 {
        f.tags
    } else {
        f.notes
    }
}

/// The form with the field at a position replaced; positions past the last
/// field leave it unchanged.
pub open spec fn with_form_field(f: HostFormDataView, idx: usize, t: Seq<char>) -> HostFormDataView {
    if idx == 0 {
        HostFormDataView { name: t, ..f }
    } else if idx == 1 {
        HostFormDataView { hostname: t, ..f }
    } else if idx == 2 {
        HostFormDataView { username: t, ..f }
    } else if idx == 3 {
        HostFormDataView { port: t, ..f }
    } else if idx == 4 {
        HostFormDataView { identity_file: t, ..f }
    } else if idx == 5 {
        HostFormDataView { proxy_jump: t, ..f }
    } else if idx == 6 {
        HostFormDataView { tags: t, ..f }
    } else if idx == 7 {
        HostFormDataView { notes: t, ..f }
    } else {
        f
    }
}

/// What a key does in insert mode, except Enter on the last field, which saves
/// the form (see [`saved`]).
pub open spec fn insert_step(s: AppStateView, k: KeyInput) -> AppStateView {
    match k.code {
        KeyCode::Esc => AppStateView {
            input_mode: InputMode::Normal,
            view_mode: ViewMode::Normal,
            form_data: empty_form(),
            ..s
        },
        KeyCode::Tab => AppStateView {
            form_field_index: ((s.form_field_index + 1) % 8) as usize,
            ..s
        },
        KeyCode::Enter => AppStateView { form_field_index: (s.form_field_index + 1) as usize, ..s },
        KeyCode::Up => AppStateView {
            form_field_index: if s.form_field_index == 0 {
                7
            } else {
                (s.form_field_index - 1) as usize
            },
            ..s
        },
        KeyCode::Down => AppStateView {
            form_field_index: ((s.form_field_index + 1) % 8) as usize,
            ..s
        },
        KeyCode::Char(c) => AppStateView {
            form_data: with_form_field(
                s.form_data,
                s.form_field_index,
                form_field(s.form_data, s.form_field_index).push(c),
            ),
            ..s
        },
        KeyCode::Backspace => AppStateView {
            form_data: with_form_field(
                s.form_data,
                s.form_field_index,
                popped(form_field(s.form_data, s.form_field_index)),
            ),
            ..s
        },
        _ => s,
    }
}

/// Whether a key in insert mode saves the form.
pub open spec fn saves_form(s: AppStateView, k: KeyInput) -> bool {
    k.code == KeyCode::Enter && s.form_field_index == 7
}

/// The limits within which key handling stays free of arithmetic overflow.
pub open spec fn handles_keys(s: AppStateView) -> bool {
    s.groups.len() + 3 <= usize::MAX && s.form_field_index < usize::MAX
}

// ---------------------------------------------------------------------------
// Handlers
// ---------------------------------------------------------------------------

/// Handles one key press in the current input mode.
pub fn handle_key_event(event: KeyInput, state: &mut AppState) -> (r: (AppEvent, Effect))
    requires
        handles_keys(old(state)@),
    ensures
        old(state)@.input_mode == InputMode::Normal ==> (final(state)@, r.0, r.1@) == normal_step(
            old(state)@,
            event,
        ),
        old(state)@.input_mode == InputMode::Search ==> final(state)@ == search_step(
            old(state)@,
            event,
        ) && r.0 == AppEvent::Nothing && r.1@ == EffectView::Nothing,
        old(state)@.input_mode == InputMode::Search && event.code == KeyCode::Esc
            ==> final(state)@.filtered_hosts == sorted_in_mode(
            base_hosts(old(state)@),
            old(state)@.sort_mode,
        ),
        old(state)@.input_mode == InputMode::Command ==> (final(state)@, r.0, r.1@)
            == command_mode_step(old(state)@, event),
        old(state)@.input_mode == InputMode::Insert ==> r.0 == AppEvent::Nothing && if saves_form(
            old(state)@,
            event,
        ) {
            exists|b: bool|
                saved(old(state)@, final(state)@, b) && r.1@ == if b {
                    EffectView::SaveHosts
                } else {
                    EffectView::Nothing
                }
        } else {
            final(state)@ == insert_step(old(state)@, event) && r.1@ == EffectView::Nothing
        },
        old(state)@.input_mode == InputMode::Insert && old(state)@.form_field_index < 8
            ==> final(state)@.form_field_index < 8,
        old(state)@.input_mode == InputMode::Normal && old(state)@.active_panel == Panel::Groups
            && event == (KeyInput { code: KeyCode::Char('j'), modifiers: 0 })
            ==> final(state)@.selected_group_index == (if old(state)@.selected_group_index < 2
            + old(state)@.groups.len() {
            old(state)@.selected_group_index + 1
        } else {
            old(state)@.selected_group_index as int
        }) && r.0 == AppEvent::Nothing,
        old(state)@.input_mode == InputMode::Normal && old(state)@.active_panel == Panel::Groups
            && event == (KeyInput { code: KeyCode::Char('k'), modifiers: 0 })
            ==> final(state)@.selected_group_index == (if old(state)@.selected_group_index > 0 {
            old(state)@.selected_group_index - 1
        } else {
            old(state)@.selected_group_index as int
        }) && r.0 == AppEvent::Nothing,
{
    match state.input_mode {
        InputMode::Normal => handle_normal_mode(event, state),
        InputMode::Search => handle_search_mode(event, state),
        InputMode::Command => handle_command_mode(event, state),
        InputMode::Insert => handle_insert_mode(event, state),
    }
}

/// A copy of the selected host's identifier.
fn selected_id(state: &AppState) -> (r: Option<String>)
    ensures
        match selected(state@) {
            Some(h) => r is Some && r->0@ == h.id,
            None => r is None,
        },
{
    match state.current_host() {
        Some(h) => Some(h.id.clone()),
        None => None,
    }
}

/// Flips the favourite mark of the selected host in the database.
fn toggle_favorite(state: &mut AppState) -> (r: Effect)
    ensures
        (final(state)@, r@) == favorite_toggled(old(state)@),
{
    match selected_id(state) {
        Some(id) => {
            proof {
                lemma_host_index(host_views(state.db.hosts@), id@);
            }
            match find_host_index(&state.db.hosts, id.as_str()) {
                Some(i) => {
                    let mut h = state.db.hosts[i].copy();
                    h.is_favorite = !h.is_favorite;
                    let ghost hv = h@;
                    let ghost before = state.db.hosts@;
                    state.db.hosts.set(i, h);
                    assert(host_views(state.db.hosts@) =~= host_views(before).update(i as int, hv));
                    state.filter_hosts();
                    Effect::SaveHostsQuietly
                },
                None => Effect::Nothing,
            }
        },
        None => Effect::Nothing,
    }
}

fn handle_nav_key(c: char, plain: bool, state: &mut AppState) -> (r: (AppEvent, Effect))
    requires
        handles_keys(old(state)@),
        is_nav_key(c, plain),
    ensures
        (final(state)@, r.0, r.1@) == nav_step(old(state)@, c, plain),
{
    if c == 'q' && plain {
        state.should_quit = true;
        (AppEvent::Quit, Effect::Nothing)
    } else if c == 'j' && plain {
        if state.active_panel == Panel::Groups {
            let max_index = 2 + state.groups.len();
            if state.selected_group_index < max_index {
                state.selected_group_index += 1;
                state.update_filter_from_group();
            }
        } else {
            state.move_selection_down();
        }
        (AppEvent::Nothing, Effect::Nothing)
    } else if c == 'k' && plain {
        if state.active_panel == Panel::Groups {
            if state.selected_group_index > 0 {
                state.selected_group_index -= 1;
                state.update_filter_from_group();
            }
        } else {
            state.move_selection_up();
        }
        (AppEvent::Nothing, Effect::Nothing)
    } else if c == 'G' && plain {
        state.move_to_bottom();
        (AppEvent::Nothing, Effect::Nothing)
    } else if c == 'g' && plain {
        state.move_to_top();
        (AppEvent::Nothing, Effect::Nothing)
    } else if c == '/' {
        state.input_mode = InputMode::Search;
        state.search_query = String::new();
        (AppEvent::Nothing, Effect::Nothing)
    } else if c == ':' {
        state.input_mode = InputMode::Command;
        state.command_buffer = String::new();
        (AppEvent::Nothing, Effect::Nothing)
    } else if c == 'h' && plain {
        state.active_panel = match state.active_panel {
            Panel::Hosts => Panel::Groups,
            Panel::Details => Panel::Hosts,
            Panel::Groups => Panel::Groups,
        };
        (AppEvent::Nothing, Effect::Nothing)
    } else if c == 'l' && plain {
        state.active_panel = match state.active_panel {
            Panel::Groups => Panel::Hosts,
            Panel::Hosts => Panel::Details,
            Panel::Details => Panel::Details,
        };
        (AppEvent::Nothing, Effect::Nothing)
    } else if c == 's' {
        let new_mode = match state.sort_mode {
            SortMode::Alphabetical => SortMode::FavoritesFirst,
            SortMode::FavoritesFirst => SortMode::Recent,
            SortMode::Recent => SortMode::MostConnected,
            SortMode::MostConnected => SortMode::Alphabetical,
        };
        state.set_sort_mode(new_mode);
        (AppEvent::Nothing, Effect::Nothing)
    } else {
        (AppEvent::Nothing, Effect::Nothing)
    }
}

fn handle_action_key(c: char, state: &mut AppState) -> (r: (AppEvent, Effect))
    ensures
        (final(state)@, r.0, r.1@) == action_step(old(state)@, c),
{
    if c == 'a' {
        state.start_add_host();
        (AppEvent::Nothing, Effect::Nothing)
    } else if c == 'e' {
        if state.current_host().is_some() {
            state.start_edit_host();
        }
        (AppEvent::Nothing, Effect::Nothing)
    } else if c == 'd' {
        if state.delete_current_host() {
            (AppEvent::Nothing, Effect::SaveHosts)
        } else {
            (AppEvent::Nothing, Effect::Nothing)
        }
    } else if c == 'f' {
        let effect = toggle_favorite(state);
        (AppEvent::Nothing, effect)
    } else if c == 'y' {
        let effect = match state.current_host() {
            Some(host) => Effect::CopyToClipboard {
                text: host.hostname.clone(),
                success: owned("Hostname copied to clipboard"),
            },
            None => Effect::Nothing,
        };
        (AppEvent::Nothing, effect)
    } else if c == 'c' {
        let effect = match state.current_host() {
            Some(host) => Effect::CopyToClipboard {
                text: host.ssh_command(),
                success: owned("SSH command copied to clipboard"),
            },
            None => Effect::Nothing,
        };
        (AppEvent::Nothing, effect)
    } else if c == 'p' {
        let target = match state.current_host() {
            Some(h) => Some((h.name.clone(), h.hostname.clone(), h.port)),
            None => None,
        };
        match target {
            Some((name, hostname, port)) => {
                state.message = Some(framed("Testing connection to ", name.as_str(), "..."));
                (AppEvent::Nothing, Effect::Ping { name, hostname, port })
            },
            None => (AppEvent::Nothing, Effect::Nothing),
        }
    } else if c == 'r' {
        let effect = match state.current_host() {
            Some(h) => Effect::CopyId {
                hostname: h.hostname.clone(),
                port: h.port,
                username: h.username.clone(),
            },
            None => Effect::Nothing,
        };
        (AppEvent::Nothing, effect)
    } else if c == 't' {
        state.cycle_theme();
        state.message = Some(framed("Theme: ", state.current_theme_name(), ""));
        proof {
            reveal_strlit("");
        }
        assert(("Theme: "@ + theme_name(state.config.theme) + ""@) =~= ("Theme: "@
            + theme_name(state.config.theme)));
        (AppEvent::Nothing, Effect::SaveConfig)
    } else if c == '?' {
        state.view_mode = ViewMode::Help;
        (AppEvent::Nothing, Effect::Nothing)
    } else {
        (AppEvent::Nothing, Effect::Nothing)
    }
}

fn handle_normal_mode(event: KeyInput, state: &mut AppState) -> (r: (AppEvent, Effect))
    requires
        handles_keys(old(state)@),
    ensures
        (final(state)@, r.0, r.1@) == normal_step(old(state)@, event),
{
    let plain = event.modifiers == 0;
    match event.code {
        KeyCode::Char(c) => {
            let nav = (plain && (c == 'q' || c == 'j' || c == 'k' || c == 'G' || c == 'g' || c
                == 'h' || c == 'l')) || c == '/' || c == ':' || c == 's';
            if nav {
                handle_nav_key(c, plain, state)
            } else {
                handle_action_key(c, state)
            }
        },
        KeyCode::Enter => {
            let session = match state.current_host() {
                Some(h) => Some(
                    (
                        h.name.clone(),
                        Effect::OpenSession {
                            host_id: h.id.clone(),
                            hostname: h.hostname.clone(),
                            port: h.port,
                            username: h.username.clone(),
                            identity_file: crate::models::copy_opt(&h.identity_file),
                            proxy_jump: crate::models::copy_opt(&h.proxy_jump),
                        },
                    ),
                ),
                None => None,
            };
            match session {
                Some((name, effect)) => {
                    state.last_command = AppCommand::Connect;
                    state.message = Some(framed("Connecting to ", name.as_str(), "..."));
                    (AppEvent::Nothing, effect)
                },
                None => (AppEvent::Nothing, Effect::Nothing),
            }
        },
        KeyCode::Esc => {
            state.view_mode = ViewMode::Normal;
            (AppEvent::Nothing, Effect::Nothing)
        },
        KeyCode::Up => {
            state.move_selection_up();
            (AppEvent::Nothing, Effect::Nothing)
        },
        KeyCode::Down => {
            state.move_selection_down();
            (AppEvent::Nothing, Effect::Nothing)
        },
        _ => (AppEvent::Nothing, Effect::Nothing),
    }
}

fn handle_search_mode(event: KeyInput, state: &mut AppState) -> (r: (AppEvent, Effect))
    ensures
        final(state)@ == search_step(old(state)@, event),
        event.code == KeyCode::Esc ==> final(state)@.filtered_hosts == sorted_in_mode(
            base_hosts(old(state)@),
            old(state)@.sort_mode,
        ),
        r.0 == AppEvent::Nothing,
        r.1@ == EffectView::Nothing,
{
    match event.code {
        KeyCode::Esc => {
            state.input_mode = InputMode::Normal;
            state.search_query = String::new();
            state.filter_hosts();
        },
        KeyCode::Enter => {
            state.input_mode = InputMode::Normal;
            state.filter_hosts();
        },
        KeyCode::Char(c) => {
            push_char(&mut state.search_query, c);
            state.filter_hosts();
        },
        KeyCode::Backspace => {
            pop_char(&mut state.search_query);
            state.filter_hosts();
        },
        _ => {},
    }
    (AppEvent::Nothing, Effect::Nothing)
}

fn handle_command_mode(event: KeyInput, state: &mut AppState) -> (r: (AppEvent, Effect))
    ensures
        (final(state)@, r.0, r.1@) == command_mode_step(old(state)@, event),
{
    match event.code {
        KeyCode::Esc => {
            state.input_mode = InputMode::Normal;
            state.command_buffer = String::new();
            (AppEvent::Nothing, Effect::Nothing)
        },
        KeyCode::Enter => {
            state.input_mode = InputMode::Normal;
            let cmd = state.command_buffer.clone();
            state.command_buffer = String::new();
            execute_command(cmd.as_str(), state)
        },
        KeyCode::Char(c) => {
            push_char(&mut state.command_buffer, c);
            (AppEvent::Nothing, Effect::Nothing)
        },
        KeyCode::Backspace => {
            pop_char(&mut state.command_buffer);
            (AppEvent::Nothing, Effect::Nothing)
        },
        _ => (AppEvent::Nothing, Effect::Nothing),
    }
}

/// Whether a word is the given text.
fn word_is(w: &Vec<char>, t: &str) -> (r: bool)
    ensures
        r == (w@ == t@),
{
    let tc = chars_of(t);
    if w.len() != tc.len() {
        return false;
    }
    let mut i: usize = 0;
    while i < w.len()
        invariant
            i <= w@.len(),
            w@.len() == tc@.len(),
            tc@ == t@,
            forall|k: int| 0 <= k < i ==> w@[k] == tc@[k],
        decreases w@.len() - i,
    {
        if w[i] != tc[i] {
            return false;
        }
        i += 1;
    }
    assert(w@ =~= tc@);
    true
}

/// Runs a typed command: `q`/`quit`, `add`, `help`/`?`, `import`/`i`,
/// `export`/`e`, `csv`; anything else is reported as unknown.
pub fn execute_command(cmd: &str, state: &mut AppState) -> (r: (AppEvent, Effect))
    ensures
        (final(state)@, r.0, r.1@) == command_step(old(state)@, cmd@),
{
    let cs = chars_of(cmd);
    match first_word_text(cs.as_slice()) {
        Some(w) => {
            if word_is(&w, "q") || word_is(&w, "quit") {
                state.should_quit = true;
                (AppEvent::Quit, Effect::Nothing)
            } else if word_is(&w, "add") {
                state.start_add_host();
                (AppEvent::Nothing, Effect::Nothing)
            } else if word_is(&w, "help") || word_is(&w, "?") {
                state.view_mode = ViewMode::Help;
                (AppEvent::Nothing, Effect::Nothing)
            } else if word_is(&w, "import") || word_is(&w, "i") {
                (AppEvent::Nothing, Effect::ImportSshConfig)
            } else if word_is(&w, "export") || word_is(&w, "e") {
                (AppEvent::Nothing, Effect::ExportSshConfig)
            } else if word_is(&w, "csv") {
                (AppEvent::Nothing, Effect::ExportCsv)
            } else {
                state.message = Some(framed("Unknown command: ", cmd, ""));
                proof {
                    reveal_strlit("");
                }
                assert(("Unknown command: "@ + cmd@ + ""@) =~= ("Unknown command: "@ + cmd@));
                (AppEvent::Nothing, Effect::Nothing)
            }
        },
        None => {
            state.message = Some(framed("Unknown command: ", cmd, ""));
            proof {
                reveal_strlit("");
            }
            assert(("Unknown command: "@ + cmd@ + ""@) =~= ("Unknown command: "@ + cmd@));
            (AppEvent::Nothing, Effect::Nothing)
        },
    }
}

/// Appends a character to the form field at a position.
fn push_form_field(form: &mut HostFormData, idx: usize, c: char)
    ensures
        final(form)@ == with_form_field(old(form)@, idx, form_field(old(form)@, idx).push(c)),
{
    if idx == 0 {
        push_char(&mut form.name, c);
    } else if idx == 1 {
        push_char(&mut form.hostname, c);
    } else if idx == 2 {
        push_char(&mut form.username, c);
    } else if idx == 3 {
        push_char(&mut form.port, c);
    } else if idx == 4 {
        push_char(&mut form.identity_file, c);
    } else if idx == 5 {
        push_char(&mut form.proxy_jump, c);
    } else if idx == 6 {
        push_char(&mut form.tags, c);
    } else if idx == 7 {
        push_char(&mut form.notes, c);
    }
}

/// Removes the last character of the form field at a position.
fn pop_form_field(form: &mut HostFormData, idx: usize)
    ensures
        final(form)@ == with_form_field(old(form)@, idx, popped(form_field(old(form)@, idx))),
{
    if idx == 0 {
        pop_char(&mut form.name);
    } else if idx == 1 {
        pop_char(&mut form.hostname);
    } else if idx == 2 {
        pop_char(&mut form.username);
    } else if idx == 3 {
        pop_char(&mut form.port);
    } else if idx == 4 {
        pop_char(&mut form.identity_file);
    } else if idx == 5 {
        pop_char(&mut form.proxy_jump);
    } else if idx == 6 {
        pop_char(&mut form.tags);
    } else if idx == 7 {
        pop_char(&mut form.notes);
    }
}

fn handle_insert_mode(event: KeyInput, state: &mut AppState) -> (r: (AppEvent, Effect))
    requires
        handles_keys(old(state)@),
    ensures
        r.0 == AppEvent::Nothing,
        if saves_form(old(state)@, event) {
            exists|b: bool|
                saved(old(state)@, final(state)@, b) && r.1@ == if b {
                    EffectView::SaveHosts
                } else {
                    EffectView::Nothing
                }
        } else {
            final(state)@ == insert_step(old(state)@, event) && r.1@ == EffectView::Nothing
        },
{
    match event.code {
        KeyCode::Esc => {
            state.input_mode = InputMode::Normal;
            state.view_mode = ViewMode::Normal;
            state.form_data = HostFormData::default();
            (AppEvent::Nothing, Effect::Nothing)
        },
        KeyCode::Tab => {
            state.form_field_index = (state.form_field_index + 1) % 8;
            (AppEvent::Nothing, Effect::Nothing)
        },
        KeyCode::Enter => {
            if state.form_field_index == 7 {
                let ok = state.save_host();
                if ok {
                    (AppEvent::Nothing, Effect::SaveHosts)
                } else {
                    (AppEvent::Nothing, Effect::Nothing)
                }
            } else {
                state.form_field_index += 1;
                (AppEvent::Nothing, Effect::Nothing)
            }
        },
        KeyCode::Up => {
            state.form_field_index = if state.form_field_index == 0 {
                7
            } else {
                state.form_field_index - 1
            };
            (AppEvent::Nothing, Effect::Nothing)
        },
        KeyCode::Down => {
            state.form_field_index = (state.form_field_index + 1) % 8;
            (AppEvent::Nothing, Effect::Nothing)
        },
        KeyCode::Char(c) => {
            let idx = state.form_field_index;
            push_form_field(&mut state.form_data, idx, c);
            (AppEvent::Nothing, Effect::Nothing)
        },
        KeyCode::Backspace => {
            let idx = state.form_field_index;
            pop_form_field(&mut state.form_data, idx);
            (AppEvent::Nothing, Effect::Nothing)
        },
        _ => (AppEvent::Nothing, Effect::Nothing),
    }
}

// ---------------------------------------------------------------------------
// Outcomes of outside work
// ---------------------------------------------------------------------------

/// The message after a clipboard copy.
pub open spec fn clipboard_message(result: Result<(), Seq<char>>, success: Seq<char>) -> Seq<char> {
    match result {
        Ok(_) => success,
        Err(e) => "Failed to copy: "@ + e,
    }
}

/// The view of a result whose error is a text.
pub open spec fn text_result(r: Result<(), String>) -> Result<(), Seq<char>> {
    match r {
        Ok(_) => Ok(()),
        Err(e) => Err(e@),
    }
}

/// The text of a failed session's error, empty on success.
pub open spec fn failure_text(result: Result<(), SshError>) -> Seq<char> {
    match result {
        Ok(_) => Seq::<char>::empty(),
        Err(e) => error_text(e),
    }
}

/// The state after a finished `ssh` session: on success the connection is
/// counted on the first host with the session's identifier and the message is
/// `Connection closed`; on failure the message reports the error.
pub open spec fn session_outcome_state(
    s: AppStateView,
    host_id: Seq<char>,
    ok: bool,
    error: Seq<char>,
    now: i64,
) -> (AppStateView, EffectView) {
    if ok {
        match host_index(s.db.hosts, host_id) {
            Some(i) => (
                AppStateView {
                    db: HostsDatabaseView {
                        hosts: s.db.hosts.update(i, connected_at(s.db.hosts[i], now)),
                        ..s.db
                    },
                    message: Some("Connection closed"@),
                    ..s
                },
                EffectView::SaveHostsQuietly,
            ),
            None => (
                AppStateView { message: Some("Connection closed"@), ..s },
                EffectView::Nothing,
            ),
        }
    } else {
        (AppStateView { message: Some("Connection failed: "@ + error), ..s }, EffectView::Nothing)
    }
}

impl AppState {
    /// Reports a finished clipboard copy: the success text, or `Failed to copy: `
    /// and the error.
    pub fn clipboard_finished(&mut self, result: Result<(), String>, success: &str)
        ensures
            final(self)@ == (AppStateView {
                message: Some(clipboard_message(text_result(result), success@)),
                ..old(self)@
            }),
    {
        match result {
            Ok(_) => {
                self.message = Some(owned(success));
            },
            Err(e) => {
                self.message = Some(framed("Failed to copy: ", e.as_str(), ""));
                proof {
                    reveal_strlit("");
                }
                assert(("Failed to copy: "@ + e@ + ""@) =~= ("Failed to copy: "@ + e@));
            },
        }
    }

    /// Reports a finished `ssh` session, made at `now`; asks for the database to
    /// be written when a connection was counted.
    pub fn session_finished(&mut self, host_id: &str, result: Result<(), SshError>, now: i64) -> (r:
        Effect)
        requires
            can_record(old(self)@.db, host_id@),
        ensures
            (final(self)@, r@) == session_outcome_state(
                old(self)@,
                host_id@,
                result is Ok,
                failure_text(result),
                now,
            ),
    {
        match result {
            Ok(_) => {
                let counted = record_connection(host_id, &mut self.db, now);
                self.message = Some(owned("Connection closed"));
                if counted {
                    Effect::SaveHostsQuietly
                } else {
                    Effect::Nothing
                }
            },
            Err(e) => {
                let text = e.describe();
                self.message = Some(framed("Connection failed: ", text.as_str(), ""));
                proof {
                    reveal_strlit("");
                }
                assert(("Connection failed: "@ + text@ + ""@) =~= ("Connection failed: "@
                    + text@));
                Effect::Nothing
            },
        }
    }

    /// Reports a finished `ssh` session that ended now, by the clock; asks for
    /// the database to be written when a connection was counted. The time
    /// recorded is whatever the clock reads.
    pub fn session_closed(&mut self, host_id: &str, result: Result<(), SshError>) -> (r: Effect)
        requires
            can_record(old(self)@.db, host_id@),
        ensures
            exists|now: i64|
                now >= 0 && (final(self)@, r@) == #[trigger] session_outcome_state(
                    old(self)@,
                    host_id@,
                    result is Ok,
                    failure_text(result),
                    now,
                ),
    {
        let now = crate::services::unix_now();
        self.session_finished(host_id, result, now)
    }

    /// Reports a finished ping: reachable with the latency in milliseconds, or
    /// unreachable with the error.
    pub fn ping_finished(&mut self, name: &str, result: Result<u64, SshError>)
        ensures
            final(self)@ == (AppStateView {
                message: Some(
                    match result {
                        Ok(latency) => name@ + " is reachable ("@ + decimal(latency as nat)
                            + "ms)"@,
                        Err(e) => name@ + " is unreachable: "@ + error_text(e),
                    },
                ),
                ..old(self)@
            }),
    {
        let mut m = owned(name);
        match result {
            Ok(latency) => {
                push_str(&mut m, " is reachable (");
                push_decimal(&mut m, latency);
                push_str(&mut m, "ms)");
            },
            Err(e) => {
                push_str(&mut m, " is unreachable: ");
                let text = e.describe();
                push_str(&mut m, text.as_str());
            },
        }
        self.message = Some(m);
    }

    /// Reports a finished `ssh-copy-id`.
    pub fn copy_id_finished(&mut self, result: Result<(), SshError>)
        ensures
            final(self)@ == (AppStateView {
                message: Some(
                    match result {
                        Ok(_) => "SSH key copied successfully"@,
                        Err(e) => "Key copy failed: "@ + error_text(e),
                    },
                ),
                ..old(self)@
            }),
    {
        match result {
            Ok(_) => {
                self.message = Some(owned("SSH key copied successfully"));
            },
            Err(e) => {
                let text = e.describe();
                self.message = Some(framed("Key copy failed: ", text.as_str(), ""));
                proof {
                    reveal_strlit("");
                }
                assert(("Key copy failed: "@ + text@ + ""@) =~= ("Key copy failed: "@ + text@));
            },
        }
    }

    /// Adds imported hosts and groups to the database; answers how many hosts
    /// were imported. The database then needs writing.
    pub fn import_loaded(&mut self, imported: HostsDatabase) -> (r: usize)
        ensures
            final(self)@ == (AppStateView {
                db: HostsDatabaseView {
                    hosts: old(self)@.db.hosts + imported@.hosts,
                    groups: old(self)@.db.groups + imported@.groups,
                },
                ..old(self)@
            }),
            r == imported@.hosts.len(),
    {
        crate::storage::extend_database(&mut self.db, imported)
    }

    /// Reports imported hosts once written: the list is recomputed.
    pub fn import_saved(&mut self, count: usize)
        ensures
            final(self)@ == (AppStateView {
                message: Some(
                    "Imported "@ + decimal(count as nat) + " hosts from SSH config"@,
                ),
                ..refiltered(old(self)@)
            }),
    {
        self.filter_hosts();
        let mut m = owned("Imported ");
        push_decimal(&mut m, count as u64);
        push_str(&mut m, " hosts from SSH config");
        self.message = Some(m);
    }

    /// Reports a failed import.
    pub fn import_failed(&mut self, error: &str)
        ensures
            final(self)@ == (AppStateView {
                message: Some("Import failed: "@ + error@),
                ..old(self)@
            }),
    {
        let mut m = owned("Import failed: ");
        push_str(&mut m, error);
        self.message = Some(m);
    }

    /// Reports a finished export as an OpenSSH configuration.
    pub fn ssh_export_finished(&mut self, result: Result<(), String>)
        ensures
            final(self)@ == (AppStateView {
                message: Some(
                    match result {
                        Ok(_) => "Exported "@ + decimal(old(self)@.db.hosts.len())
                            + " hosts to SSH config"@,
                        Err(e) => "Export failed: "@ + e@,
                    },
                ),
                ..old(self)@
            }),
    {
        self.export_finished(result, " hosts to SSH config");
    }

    /// Reports a finished export as CSV.
    pub fn csv_export_finished(&mut self, result: Result<(), String>)
        ensures
            final(self)@ == (AppStateView {
                message: Some(
                    match result {
                        Ok(_) => "Exported "@ + decimal(old(self)@.db.hosts.len())
                            + " hosts to sshman_hosts.csv"@,
                        Err(e) => "Export failed: "@ + e@,
                    },
                ),
                ..old(self)@
            }),
    {
        self.export_finished(result, " hosts to sshman_hosts.csv");
    }

    fn export_finished(&mut self, result: Result<(), String>, target: &str)
        ensures
            final(self)@ == (AppStateView {
                message: Some(
                    match result {
                        Ok(_) => "Exported "@ + decimal(old(self)@.db.hosts.len()) + target@,
                        Err(e) => "Export failed: "@ + e@,
                    },
                ),
                ..old(self)@
            }),
    {
        match result {
            Ok(_) => {
                let mut m = owned("Exported ");
                let n = self.db.hosts.len();
                assert(host_views(self.db.hosts@).len() == n);
                push_decimal(&mut m, n as u64);
                push_str(&mut m, target);
                self.message = Some(m);
            },
            Err(e) => {
                let mut m = owned("Export failed: ");
                push_str(&mut m, e.as_str());
                self.message = Some(m);
            },
        }
    }
}

} // verus!

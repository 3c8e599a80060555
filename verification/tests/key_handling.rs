use sshman::app::{AppCommand, AppState, FilterMode, InputMode, Panel, SortMode, ViewMode};
use sshman::commands::{execute_command, handle_key_event, AppEvent, Effect, KeyCode, KeyInput};
use sshman::config::AppConfig;
use sshman::models::{Group, HostsDatabase, SshHost};
use sshman::ssh::SshError;

fn host(id: &str, name: &str) -> SshHost {
    SshHost::with_id(id.to_string(), name.to_string(), format!("{}.example", name), "root".to_string())
}

fn state() -> AppState {
    let mut db = HostsDatabase::new();
    let mut a = host("1", "alpha");
    a.port = 2222;
    a.is_favorite = true;
    db.hosts = vec![a, host("2", "bravo"), host("3", "charlie")];
    let mut g = Group::with_id("g".to_string(), "prod".to_string());
    g.hosts = vec!["2".to_string()];
    db.groups.push(g);
    AppState::new(db, AppConfig::default())
}

fn key(code: KeyCode) -> KeyInput {
    KeyInput { code, modifiers: 0 }
}

fn ch(c: char) -> KeyInput {
    key(KeyCode::Char(c))
}

fn press(s: &mut AppState, k: KeyInput) -> (AppEvent, Effect) {
    handle_key_event(k, s)
}

fn type_text(s: &mut AppState, text: &str) {
    for c in text.chars() {
        press(s, ch(c));
    }
}

#[test]
fn q_quits() {
    let mut s = state();
    let (ev, eff) = press(&mut s, ch('q'));
    assert_eq!(ev, AppEvent::Quit);
    assert!(matches!(eff, Effect::Nothing));
    assert!(s.should_quit);
}

#[test]
fn q_with_a_modifier_is_not_quit() {
    let mut s = state();
    let (ev, _) = press(&mut s, KeyInput { code: KeyCode::Char('q'), modifiers: 2 });
    assert_eq!(ev, AppEvent::Nothing);
    assert!(!s.should_quit);
}

#[test]
fn moving_with_j_k_g_and_capital_g() {
    let mut s = state();
    press(&mut s, ch('j'));
    press(&mut s, ch('j'));
    assert_eq!(s.filtered_index, 2);
    press(&mut s, ch('j'));
    assert_eq!(s.filtered_index, 2);
    press(&mut s, ch('k'));
    assert_eq!(s.filtered_index, 1);
    press(&mut s, ch('g'));
    assert_eq!(s.filtered_index, 0);
    press(&mut s, ch('G'));
    assert_eq!(s.filtered_index, 2);
    press(&mut s, key(KeyCode::Up));
    assert_eq!(s.filtered_index, 1);
    press(&mut s, key(KeyCode::Down));
    assert_eq!(s.filtered_index, 2);
}

#[test]
fn switching_panels_and_choosing_a_group() {
    let mut s = state();
    press(&mut s, ch('h'));
    assert_eq!(s.active_panel, Panel::Groups);
    press(&mut s, ch('h'));
    assert_eq!(s.active_panel, Panel::Groups);
    press(&mut s, ch('j'));
    assert_eq!(s.selected_group_index, 1);
    assert_eq!(s.filter_mode, FilterMode::Favorites);
    assert_eq!(s.filtered_hosts.len(), 1);
    press(&mut s, ch('j'));
    press(&mut s, ch('j'));
    assert_eq!(s.selected_group_index, 3);
    assert_eq!(s.filter_mode, FilterMode::Group(0));
    assert_eq!(s.filtered_hosts[0].name, "bravo");
    press(&mut s, ch('j'));
    assert_eq!(s.selected_group_index, 3);
    press(&mut s, ch('l'));
    press(&mut s, ch('l'));
    assert_eq!(s.active_panel, Panel::Details);
    press(&mut s, ch('l'));
    assert_eq!(s.active_panel, Panel::Details);
}

#[test]
fn searching_narrows_and_escape_restores() {
    let mut s = state();
    press(&mut s, ch('/'));
    assert_eq!(s.input_mode, InputMode::Search);
    type_text(&mut s, "char");
    assert_eq!(s.search_query, "char");
    assert_eq!(s.filtered_hosts.len(), 1);
    press(&mut s, key(KeyCode::Backspace));
    assert_eq!(s.search_query, "cha");
    press(&mut s, key(KeyCode::Enter));
    assert_eq!(s.input_mode, InputMode::Normal);
    assert_eq!(s.search_query, "cha");
    press(&mut s, ch('/'));
    assert_eq!(s.search_query, "");
    type_text(&mut s, "zzz");
    assert!(s.filtered_hosts.is_empty());
    press(&mut s, key(KeyCode::Esc));
    assert_eq!(s.input_mode, InputMode::Normal);
    assert_eq!(s.search_query, "");
    assert_eq!(s.filtered_hosts.len(), 3);
}

#[test]
fn sorting_cycles_with_s() {
    let mut s = state();
    let mut modes = Vec::new();
    for _ in 0..4 {
        press(&mut s, ch('s'));
        modes.push(s.sort_mode);
    }
    assert_eq!(
        modes,
        vec![SortMode::FavoritesFirst, SortMode::Recent, SortMode::MostConnected, SortMode::Alphabetical]
    );
}

#[test]
fn command_line() {
    let mut s = state();
    press(&mut s, ch(':'));
    assert_eq!(s.input_mode, InputMode::Command);
    type_text(&mut s, "addx");
    press(&mut s, key(KeyCode::Backspace));
    assert_eq!(s.command_buffer, "add");
    let (ev, _) = press(&mut s, key(KeyCode::Enter));
    assert_eq!(ev, AppEvent::Nothing);
    assert_eq!(s.view_mode, ViewMode::AddHost);
    assert_eq!(s.input_mode, InputMode::Insert);
    assert_eq!(s.command_buffer, "");
}

#[test]
fn commands() {
    let mut s = state();
    assert!(matches!(execute_command("export", &mut s).1, Effect::ExportSshConfig));
    assert!(matches!(execute_command("e", &mut s).1, Effect::ExportSshConfig));
    assert!(matches!(execute_command("import now", &mut s).1, Effect::ImportSshConfig));
    assert!(matches!(execute_command("csv", &mut s).1, Effect::ExportCsv));
    execute_command("help", &mut s);
    assert_eq!(s.view_mode, ViewMode::Help);
    execute_command("frobnicate", &mut s);
    assert_eq!(s.message.as_deref(), Some("Unknown command: frobnicate"));
    execute_command("", &mut s);
    assert_eq!(s.message.as_deref(), Some("Unknown command: "));
    let (ev, _) = execute_command("quit", &mut s);
    assert_eq!(ev, AppEvent::Quit);
    assert!(s.should_quit);
}

#[test]
fn adding_through_insert_mode() {
    let mut s = state();
    press(&mut s, ch('a'));
    assert_eq!(s.view_mode, ViewMode::AddHost);
    type_text(&mut s, "delta");
    press(&mut s, key(KeyCode::Tab));
    type_text(&mut s, "d.example");
    press(&mut s, key(KeyCode::Down));
    type_text(&mut s, "adminx");
    press(&mut s, key(KeyCode::Backspace));
    press(&mut s, key(KeyCode::Enter));
    type_text(&mut s, "2200");
    assert_eq!(s.form_field_index, 3);
    for _ in 0..4 {
        let (_, eff) = press(&mut s, key(KeyCode::Enter));
        assert!(matches!(eff, Effect::Nothing));
    }
    assert_eq!(s.form_field_index, 7);
    let (ev, eff) = press(&mut s, key(KeyCode::Enter));
    assert_eq!(ev, AppEvent::Nothing);
    assert!(matches!(eff, Effect::SaveHosts));
    assert_eq!(s.db.hosts.len(), 4);
    let added = &s.db.hosts[3];
    assert_eq!(added.name, "delta");
    assert_eq!(added.hostname, "d.example");
    assert_eq!(added.username, "admin");
    assert_eq!(added.port, 2200);
    assert_eq!(s.view_mode, ViewMode::Normal);
}

#[test]
fn insert_mode_field_moves_and_escape() {
    let mut s = state();
    press(&mut s, ch('a'));
    press(&mut s, key(KeyCode::Up));
    assert_eq!(s.form_field_index, 7);
    press(&mut s, key(KeyCode::Tab));
    assert_eq!(s.form_field_index, 0);
    type_text(&mut s, "x");
    press(&mut s, key(KeyCode::Esc));
    assert_eq!(s.view_mode, ViewMode::Normal);
    assert_eq!(s.input_mode, InputMode::Normal);
    assert_eq!(s.form_data.name, "");
}

#[test]
fn saving_an_incomplete_form_asks_for_fields() {
    let mut s = state();
    press(&mut s, ch('a'));
    for _ in 0..7 {
        press(&mut s, key(KeyCode::Enter));
    }
    let (_, eff) = press(&mut s, key(KeyCode::Enter));
    assert!(matches!(eff, Effect::Nothing));
    assert_eq!(s.message.as_deref(), Some("Name, hostname and username are required"));
    assert_eq!(s.db.hosts.len(), 3);
}

#[test]
fn editing_with_e() {
    let mut s = state();
    press(&mut s, ch('e'));
    assert_eq!(s.view_mode, ViewMode::EditHost);
    assert_eq!(s.form_data.name, "alpha");
    assert_eq!(s.form_data.port, "2222");
}

#[test]
fn deleting_with_d() {
    let mut s = state();
    let (_, eff) = press(&mut s, ch('d'));
    assert!(matches!(eff, Effect::SaveHosts));
    assert_eq!(s.db.hosts.len(), 2);
    assert_eq!(s.message.as_deref(), Some("Host deleted"));
}

#[test]
fn toggling_a_favourite_with_f() {
    let mut s = state();
    press(&mut s, ch('j'));
    let (_, eff) = press(&mut s, ch('f'));
    assert!(matches!(eff, Effect::SaveHostsQuietly));
    assert!(s.db.hosts[1].is_favorite);
    assert!(s.filtered_hosts[1].is_favorite);
}

#[test]
fn copying_with_y_and_c() {
    let mut s = state();
    match press(&mut s, ch('y')).1 {
        Effect::CopyToClipboard { text, success } => {
            assert_eq!(text, "alpha.example");
            assert_eq!(success, "Hostname copied to clipboard");
        },
        other => panic!("unexpected {:?}", other),
    }
    match press(&mut s, ch('c')).1 {
        Effect::CopyToClipboard { text, success } => {
            assert_eq!(text, "ssh root@alpha.example -p 2222");
            assert_eq!(success, "SSH command copied to clipboard");
        },
        other => panic!("unexpected {:?}", other),
    }
}

#[test]
fn ping_copy_id_and_connect() {
    let mut s = state();
    match press(&mut s, ch('p')).1 {
        Effect::Ping { name, hostname, port } => {
            assert_eq!(name, "alpha");
            assert_eq!(hostname, "alpha.example");
            assert_eq!(port, 2222);
        },
        other => panic!("unexpected {:?}", other),
    }
    assert_eq!(s.message.as_deref(), Some("Testing connection to alpha..."));
    match press(&mut s, ch('r')).1 {
        Effect::CopyId { hostname, port, username } => {
            assert_eq!((hostname.as_str(), port, username.as_str()), ("alpha.example", 2222, "root"));
        },
        other => panic!("unexpected {:?}", other),
    }
    match press(&mut s, key(KeyCode::Enter)).1 {
        Effect::OpenSession { host_id, hostname, port, username, identity_file, proxy_jump } => {
            assert_eq!(host_id, "1");
            assert_eq!(hostname, "alpha.example");
            assert_eq!(port, 2222);
            assert_eq!(username, "root");
            assert_eq!(identity_file, None);
            assert_eq!(proxy_jump, None);
        },
        other => panic!("unexpected {:?}", other),
    }
    assert_eq!(s.last_command, AppCommand::Connect);
    assert_eq!(s.message.as_deref(), Some("Connecting to alpha..."));
}

#[test]
fn actions_without_a_selection_do_nothing() {
    let mut s = AppState::new(HostsDatabase::new(), AppConfig::default());
    for c in ['y', 'c', 'p', 'r', 'd', 'f'] {
        let (_, eff) = press(&mut s, ch(c));
        assert!(matches!(eff, Effect::Nothing));
    }
    let (_, eff) = press(&mut s, key(KeyCode::Enter));
    assert!(matches!(eff, Effect::Nothing));
    press(&mut s, ch('e'));
    assert_eq!(s.view_mode, ViewMode::Normal);
}

#[test]
fn theme_and_help_keys() {
    let mut s = state();
    let (_, eff) = press(&mut s, ch('t'));
    assert!(matches!(eff, Effect::SaveConfig));
    assert_eq!(s.message.as_deref(), Some("Theme: light"));
    assert_eq!(s.current_theme_name(), "light");
    press(&mut s, ch('?'));
    assert_eq!(s.view_mode, ViewMode::Help);
    press(&mut s, key(KeyCode::Esc));
    assert_eq!(s.view_mode, ViewMode::Normal);
}

#[test]
fn outcomes_of_outside_work() {
    let mut s = state();
    s.clipboard_finished(Ok(()), "Hostname copied to clipboard");
    assert_eq!(s.message.as_deref(), Some("Hostname copied to clipboard"));
    s.clipboard_finished(Err("no display".to_string()), "x");
    assert_eq!(s.message.as_deref(), Some("Failed to copy: no display"));
    let eff = s.session_finished("2", Ok(()), 1_700_000_000);
    assert!(matches!(eff, Effect::SaveHostsQuietly));
    assert_eq!(s.db.hosts[1].connect_count, 1);
    assert_eq!(s.db.hosts[1].last_connected, Some(1_700_000_000));
    assert_eq!(s.message.as_deref(), Some("Connection closed"));
    let eff = s.session_finished("9", Ok(()), 5);
    assert!(matches!(eff, Effect::Nothing));
    let eff = s.session_finished("2", Err(SshError::ConnectionFailed("boom".to_string())), 5);
    assert!(matches!(eff, Effect::Nothing));
    assert_eq!(s.message.as_deref(), Some("Connection failed: Connection failed: boom"));
    assert_eq!(s.db.hosts[1].connect_count, 1);
    s.ping_finished("alpha", Ok(12));
    assert_eq!(s.message.as_deref(), Some("alpha is reachable (12ms)"));
    s.ping_finished("alpha", Err(SshError::HostUnreachable("alpha.example".to_string())));
    assert_eq!(s.message.as_deref(), Some("alpha is unreachable: Host unreachable: alpha.example"));
    s.copy_id_finished(Ok(()));
    assert_eq!(s.message.as_deref(), Some("SSH key copied successfully"));
    s.copy_id_finished(Err(SshError::KeyCopyFailed("ssh-copy-id failed".to_string())));
    assert_eq!(s.message.as_deref(), Some("Key copy failed: Key copy failed: ssh-copy-id failed"));
    s.ssh_export_finished(Ok(()));
    assert_eq!(s.message.as_deref(), Some("Exported 3 hosts to SSH config"));
    s.csv_export_finished(Ok(()));
    assert_eq!(s.message.as_deref(), Some("Exported 3 hosts to sshman_hosts.csv"));
    s.csv_export_finished(Err("disk full".to_string()));
    assert_eq!(s.message.as_deref(), Some("Export failed: disk full"));
    s.import_failed("no such file");
    assert_eq!(s.message.as_deref(), Some("Import failed: no such file"));
}

#[test]
fn importing_into_the_view() {
    let mut s = state();
    let mut imported = HostsDatabase::new();
    imported.hosts.push(host("10", "echo"));
    imported.hosts.push(host("11", "foxtrot"));
    assert_eq!(s.import_loaded(imported), 2);
    assert_eq!(s.db.hosts.len(), 5);
    assert_eq!(s.filtered_hosts.len(), 3);
    s.import_saved(2);
    assert_eq!(s.filtered_hosts.len(), 5);
    assert_eq!(s.message.as_deref(), Some("Imported 2 hosts from SSH config"));
}

#[test]
fn a_session_closed_now_is_counted_with_the_clock() {
    let mut s = state();
    let eff = s.session_closed("3", Ok(()));
    assert!(matches!(eff, Effect::SaveHostsQuietly));
    assert_eq!(s.db.hosts[2].connect_count, 1);
    assert!(s.db.hosts[2].last_connected.expect("a time") > 1_600_000_000);
    assert_eq!(s.message.as_deref(), Some("Connection closed"));
}

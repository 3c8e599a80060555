use sshman::app::{sort_in_mode, AppState, HostFormData, SortMode};
use sshman::commands::{handle_key_event, KeyCode, KeyInput};
use sshman::config::{AppConfig, Theme};
use sshman::models::{HostsDatabase, SshHost};
use sshman::ssh_config::{parse_ssh_config, ssh_config_text};
use sshman::storage::{add_host, delete_host, find_host_index, update_host};

fn host(id: &str, name: &str) -> SshHost {
    SshHost::with_id(id.to_string(), name.to_string(), format!("{}.example", name), "root".to_string())
}

fn state_of(names: &[&str]) -> AppState {
    let mut db = HostsDatabase::new();
    for (i, n) in names.iter().enumerate() {
        let mut h = host(&i.to_string(), n);
        h.connect_count = (i as u32 * 7) % 5;
        db.hosts.push(h);
    }
    AppState::new(db, AppConfig::default())
}

fn press(s: &mut AppState, code: KeyCode) {
    handle_key_event(KeyInput { code, modifiers: 0 }, s);
}

#[test]
fn sorting_is_an_ordered_permutation() {
    let mut hosts = Vec::new();
    for (i, n) in ["delta", "Bravo", "alpha", "charlie", "bravo"].iter().enumerate() {
        let mut h = host(&i.to_string(), n);
        h.connect_count = [3, 1, 4, 1, 5][i];
        hosts.push(h);
    }
    let sorted = sort_in_mode(&hosts, SortMode::MostConnected);
    let counts: Vec<u32> = sorted.iter().map(|h| h.connect_count).collect();
    assert_eq!(counts, vec![5, 4, 3, 1, 1]);
    let mut ids: Vec<String> = sorted.iter().map(|h| h.id.clone()).collect();
    assert_eq!(ids, vec!["4", "2", "0", "1", "3"]);
    ids.sort();
    assert_eq!(ids, vec!["0", "1", "2", "3", "4"]);
}

#[test]
fn the_shown_list_only_holds_matches() {
    let mut s = state_of(&["web-1", "web-2", "db-1"]);
    s.search_query = "web".to_string();
    s.filter_hosts();
    let names: Vec<&str> = s.filtered_hosts.iter().map(|h| h.name.as_str()).collect();
    assert_eq!(names, vec!["web-1", "web-2"]);
}

#[test]
fn the_selection_stays_in_the_list() {
    let mut s = state_of(&["a", "b", "c"]);
    s.move_to_bottom();
    s.search_query = "a".to_string();
    s.filter_hosts();
    assert!(s.filtered_index < s.filtered_hosts.len());
    s.search_query = "zzzz".to_string();
    s.filter_hosts();
    assert!(s.filtered_hosts.is_empty());
    assert_eq!(s.filtered_index, 0);
}

#[test]
fn recomputing_twice_changes_nothing() {
    let mut s = state_of(&["c", "a", "b"]);
    s.move_selection_down();
    s.filter_hosts();
    let first: Vec<String> = s.filtered_hosts.iter().map(|h| h.id.clone()).collect();
    let index = s.filtered_index;
    s.filter_hosts();
    let second: Vec<String> = s.filtered_hosts.iter().map(|h| h.id.clone()).collect();
    assert_eq!(first, second);
    assert_eq!(index, s.filtered_index);
}

#[test]
fn down_then_up_comes_back() {
    let mut s = state_of(&["a", "b", "c"]);
    s.move_selection_down();
    let before = s.filtered_index;
    s.move_selection_down();
    s.move_selection_up();
    assert_eq!(s.filtered_index, before);
}

#[test]
fn typing_then_erasing_in_search_comes_back() {
    let mut s = state_of(&["alpha", "beta", "gamma"]);
    press(&mut s, KeyCode::Char('/'));
    press(&mut s, KeyCode::Char('a'));
    let query = s.search_query.clone();
    let list: Vec<String> = s.filtered_hosts.iter().map(|h| h.id.clone()).collect();
    press(&mut s, KeyCode::Char('l'));
    press(&mut s, KeyCode::Backspace);
    assert_eq!(s.search_query, query);
    let again: Vec<String> = s.filtered_hosts.iter().map(|h| h.id.clone()).collect();
    assert_eq!(again, list);
}

#[test]
fn five_theme_changes_come_back() {
    let mut s = state_of(&["a"]);
    let mut seen = vec![s.config.theme];
    for _ in 0..5 {
        s.cycle_theme();
        seen.push(s.config.theme);
    }
    assert_eq!(seen[5], Theme::Dark);
    for i in 0..5 {
        for j in 0..i {
            assert_ne!(seen[i], seen[j]);
        }
    }
}

#[test]
fn four_sort_changes_come_back() {
    let mut s = state_of(&["a", "b"]);
    for _ in 0..4 {
        press(&mut s, KeyCode::Char('s'));
    }
    assert_eq!(s.sort_mode, SortMode::Alphabetical);
}

#[test]
fn reading_after_writing_the_database() {
    let mut db = HostsDatabase::new();
    add_host(host("1", "a"), &mut db);
    add_host(host("2", "b"), &mut db);
    assert_eq!(find_host_index(&db.hosts, "2"), Some(1));
    let mut changed = host("1", "renamed");
    changed.port = 2022;
    update_host(changed, &mut db);
    assert_eq!(find_host_index(&db.hosts, "1"), Some(0));
    assert_eq!(db.hosts[0].name, "renamed");
    add_host(host("3", "c"), &mut db);
    assert_eq!(find_host_index(&db.hosts, "3"), Some(2));
    delete_host("1", &mut db);
    assert_eq!(find_host_index(&db.hosts, "1"), None);
    let names: Vec<&str> = db.hosts.iter().map(|h| h.name.as_str()).collect();
    assert_eq!(names, vec!["b", "c"]);
}

#[test]
fn editing_without_changes_keeps_the_host() {
    let mut h = host("42", "web");
    h.port = 8022;
    h.identity_file = Some("~/.ssh/web".to_string());
    h.proxy_jump = Some("bastion".to_string());
    h.notes = Some("front end".to_string());
    h.tags = vec!["prod".to_string(), "eu west".to_string()];
    h.is_favorite = true;
    let back = HostFormData::from_host(&h).to_host(Some(h.id.clone()));
    assert_eq!(back.id, h.id);
    assert_eq!(back.name, h.name);
    assert_eq!(back.hostname, h.hostname);
    assert_eq!(back.username, h.username);
    assert_eq!(back.port, h.port);
    assert_eq!(back.identity_file, h.identity_file);
    assert_eq!(back.password, h.password);
    assert_eq!(back.tags, h.tags);
    assert_eq!(back.notes, h.notes);
    assert_eq!(back.proxy_jump, h.proxy_jump);
    assert_eq!(back.env_vars, h.env_vars);
    assert_eq!(back.is_favorite, h.is_favorite);
    assert_eq!(back.connect_count, h.connect_count);
    assert_eq!(back.last_connected, h.last_connected);
}

#[test]
fn exported_hosts_read_back() {
    let mut db = HostsDatabase::new();
    let mut a = host("1", "alpha");
    a.username = String::new();
    a.port = 65535;
    a.identity_file = Some("/keys/a b".to_string());
    db.hosts.push(a);
    let mut b = host("2", "bravo");
    b.hostname = "bravo".to_string();
    b.env_vars = vec![("A".to_string(), " spaced ".to_string())];
    db.hosts.push(b);
    let entries = parse_ssh_config(&ssh_config_text(&db));
    assert_eq!(entries.len(), 2);
    assert_eq!(entries[0].name, "alpha");
    assert_eq!(entries[0].hostname, "alpha.example");
    assert_eq!(entries[0].username, "");
    assert_eq!(entries[0].port, 65535);
    assert_eq!(entries[0].identity_file.as_deref(), Some("/keys/a b"));
    assert_eq!(entries[1].hostname, "bravo");
    assert_eq!(entries[1].proxy_jump, None);
}

#[test]
fn the_group_selection_stays_in_the_panel() {
    let mut db = HostsDatabase::new();
    db.hosts.push(host("1", "a"));
    let mut s = AppState::new(db, AppConfig::default());
    s.add_group("one".to_string());
    s.add_group("two".to_string());
    press(&mut s, KeyCode::Char('h'));
    for _ in 0..10 {
        press(&mut s, KeyCode::Char('j'));
    }
    assert_eq!(s.selected_group_index, 4);
    assert!(s.delete_group(1));
    assert!(s.selected_group_index <= s.groups.len() + 2);
    assert!(s.delete_group(0));
    assert!(s.selected_group_index <= s.groups.len() + 2);
}

#[test]
fn the_form_field_stays_one_of_eight() {
    let mut s = state_of(&["a"]);
    press(&mut s, KeyCode::Char('a'));
    for code in [KeyCode::Up, KeyCode::Tab, KeyCode::Down, KeyCode::Up, KeyCode::Up, KeyCode::Enter] {
        press(&mut s, code);
        assert!(s.form_field_index < 8);
    }
    for _ in 0..20 {
        press(&mut s, KeyCode::Tab);
        assert!(s.form_field_index < 8);
    }
}

#[test]
fn sorting_twice_equals_sorting_once() {
    let mut hosts = Vec::new();
    for (i, n) in ["delta", "Bravo", "alpha", "bravo"].iter().enumerate() {
        let mut h = host(&i.to_string(), n);
        h.is_favorite = i % 2 == 0;
        hosts.push(h);
    }
    for mode in [SortMode::Alphabetical, SortMode::FavoritesFirst, SortMode::MostConnected, SortMode::Recent] {
        let once = sort_in_mode(&hosts, mode);
        let twice = sort_in_mode(&once, mode);
        let a: Vec<&str> = once.iter().map(|h| h.id.as_str()).collect();
        let b: Vec<&str> = twice.iter().map(|h| h.id.as_str()).collect();
        assert_eq!(a, b);
    }
}

#[test]
fn typing_then_erasing_in_the_form_comes_back() {
    let mut s = state_of(&["a"]);
    press(&mut s, KeyCode::Char('e'));
    press(&mut s, KeyCode::Tab);
    let before = s.form_data.hostname.clone();
    press(&mut s, KeyCode::Char('z'));
    assert_eq!(s.form_data.hostname, format!("{}z", before));
    press(&mut s, KeyCode::Backspace);
    assert_eq!(s.form_data.hostname, before);
    assert_eq!(s.form_data.name, "a");
    assert_eq!(s.form_field_index, 1);
}

#[test]
fn an_empty_search_lists_every_host() {
    let mut s = state_of(&["c", "a", "b"]);
    s.search_query = "zz".to_string();
    s.filter_hosts();
    assert!(s.filtered_hosts.is_empty());
    s.search_query = String::new();
    s.filter_hosts();
    assert_eq!(s.filtered_hosts.len(), 3);
}

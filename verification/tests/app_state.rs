use sshman::app::{
    connected, favorites, hosts_in_group, recent, sort_in_mode, tags_from_text, AppState,
    FilterMode, HostFormData, InputMode, SortMode, ViewMode,
};
use sshman::config::AppConfig;
use sshman::models::{Group, HostsDatabase, SshHost};
use sshman::search::{combined_score, lowercase_chars, rank_by_score, score_host, search_hosts};

fn host(id: &str, name: &str) -> SshHost {
    SshHost::with_id(id.to_string(), name.to_string(), format!("{}.example", name), "root".to_string())
}

fn names(hosts: &[SshHost]) -> Vec<String> {
    hosts.iter().map(|h| h.name.clone()).collect()
}

fn sample_db() -> HostsDatabase {
    let mut db = HostsDatabase::new();
    let mut a = host("1", "beta");
    a.is_favorite = true;
    a.connect_count = 3;
    a.last_connected = Some(100);
    let mut b = host("2", "Alpha");
    b.connect_count = 9;
    b.last_connected = Some(300);
    let c = host("3", "charlie");
    let mut d = host("4", "delta");
    d.is_favorite = true;
    d.last_connected = Some(200);
    db.hosts = vec![a, b, c, d];
    let mut g = Group::with_id("g1".to_string(), "prod".to_string());
    g.hosts = vec!["3".to_string(), "1".to_string()];
    db.groups.push(g);
    db
}

fn state() -> AppState {
    AppState::new(sample_db(), AppConfig::default())
}

#[test]
fn a_new_view_lists_all_hosts_by_name() {
    let s = state();
    assert_eq!(names(&s.filtered_hosts), vec!["Alpha", "beta", "charlie", "delta"]);
    assert_eq!(s.filtered_index, 0);
    assert_eq!(s.input_mode, InputMode::Normal);
    assert_eq!(s.view_mode, ViewMode::Normal);
    assert_eq!(s.filter_mode, FilterMode::All);
    assert_eq!(s.sort_mode, SortMode::Alphabetical);
    assert_eq!(names(&s.favorite_hosts), vec!["beta", "delta"]);
    assert_eq!(names(&s.recent_hosts), vec!["Alpha", "delta", "beta"]);
    assert_eq!(s.groups.len(), 1);
    assert_eq!(s.current_host().map(|h| h.name.as_str()), Some("Alpha"));
    assert_eq!(s.current_theme_name(), "dark");
}

#[test]
fn list_helpers() {
    let db = sample_db();
    assert_eq!(names(&favorites(&db.hosts)), vec!["beta", "delta"]);
    assert_eq!(names(&connected(&db.hosts)), vec!["beta", "Alpha", "delta"]);
    assert_eq!(names(&recent(&db.hosts)), vec!["Alpha", "delta", "beta"]);
    let ids = vec!["3".to_string(), "1".to_string()];
    assert_eq!(names(&hosts_in_group(&db.hosts, &ids)), vec!["beta", "charlie"]);
}

#[test]
fn sorting_in_each_mode() {
    let db = sample_db();
    assert_eq!(
        names(&sort_in_mode(&db.hosts, SortMode::Alphabetical)),
        vec!["Alpha", "beta", "charlie", "delta"]
    );
    assert_eq!(
        names(&sort_in_mode(&db.hosts, SortMode::Recent)),
        vec!["Alpha", "delta", "beta", "charlie"]
    );
    assert_eq!(
        names(&sort_in_mode(&db.hosts, SortMode::FavoritesFirst)),
        vec!["beta", "delta", "Alpha", "charlie"]
    );
    assert_eq!(
        names(&sort_in_mode(&db.hosts, SortMode::MostConnected)),
        vec!["Alpha", "beta", "charlie", "delta"]
    );
}

#[test]
fn sorting_keeps_ties_in_order() {
    let hosts = vec![host("1", "x"), host("2", "X"), host("3", "a")];
    assert_eq!(names(&sort_in_mode(&hosts, SortMode::Alphabetical)), vec!["a", "x", "X"]);
    let ids: Vec<String> = sort_in_mode(&hosts, SortMode::MostConnected).iter().map(|h| h.id.clone()).collect();
    assert_eq!(ids, vec!["1", "2", "3"]);
}

#[test]
fn lower_casing_names() {
    assert_eq!(lowercase_chars("HeLLo ÄB"), "hello äb".chars().collect::<Vec<char>>());
}

#[test]
fn fuzzy_search() {
    let db = sample_db();
    assert!(score_host(&db.hosts[0], "bet") > 0);
    assert_eq!(score_host(&db.hosts[0], "zzz"), 0);
    assert_eq!(names(&search_hosts(&db.hosts, "delta")), vec!["delta"]);
    assert!(search_hosts(&db.hosts, "qqqq").is_empty());
    assert!(search_hosts(&db.hosts, "").is_empty());
}

#[test]
fn searching_in_the_view() {
    let mut s = state();
    s.search_query = "char".to_string();
    s.filter_hosts();
    assert_eq!(names(&s.filtered_hosts), vec!["charlie"]);
    s.search_query = String::new();
    s.filter_hosts();
    assert_eq!(s.filtered_hosts.len(), 4);
}

#[test]
fn moving_the_selection() {
    let mut s = state();
    s.move_selection_up();
    assert_eq!(s.filtered_index, 0);
    s.move_selection_down();
    s.move_selection_down();
    assert_eq!(s.filtered_index, 2);
    s.move_to_bottom();
    assert_eq!(s.filtered_index, 3);
    s.move_selection_down();
    assert_eq!(s.filtered_index, 3);
    s.move_to_top();
    assert_eq!(s.filtered_index, 0);
}

#[test]
fn filtering_by_mode_and_group() {
    let mut s = state();
    s.set_filter_mode(FilterMode::Favorites);
    assert_eq!(names(&s.filtered_hosts), vec!["beta", "delta"]);
    s.set_filter_mode(FilterMode::Group(0));
    assert_eq!(names(&s.filtered_hosts), vec!["beta", "charlie"]);
    s.set_filter_mode(FilterMode::Group(7));
    assert_eq!(s.filtered_hosts.len(), 4);
    s.set_filter_mode(FilterMode::Recent);
    assert_eq!(names(&s.filtered_hosts), vec!["Alpha", "beta", "delta"]);
    s.set_sort_mode(SortMode::Recent);
    assert_eq!(names(&s.filtered_hosts), vec!["Alpha", "delta", "beta"]);
    s.selected_group_index = 3;
    s.update_filter_from_group();
    assert_eq!(s.filter_mode, FilterMode::Group(0));
    s.selected_group_index = 1;
    s.update_filter_from_group();
    assert_eq!(s.filter_mode, FilterMode::Favorites);
    s.selected_group_index = 9;
    s.update_filter_from_group();
    assert_eq!(s.filter_mode, FilterMode::All);
}

#[test]
fn adding_a_host_through_the_form() {
    let mut s = state();
    s.start_add_host();
    assert_eq!(s.view_mode, ViewMode::AddHost);
    assert_eq!(s.input_mode, InputMode::Insert);
    s.form_data.name = "echo".to_string();
    s.form_data.hostname = "echo.example".to_string();
    s.form_data.username = "ops".to_string();
    s.form_data.port = "2200".to_string();
    s.form_data.tags = " a, ,b ".to_string();
    assert!(s.save_host());
    assert_eq!(s.db.hosts.len(), 5);
    let added = &s.db.hosts[4];
    assert_eq!(added.name, "echo");
    assert_eq!(added.port, 2200);
    assert_eq!(added.tags, vec!["a".to_string(), "b".to_string()]);
    assert_eq!(added.id.chars().count(), 36);
    assert_eq!(s.message.as_deref(), Some("Host added"));
    assert_eq!(s.view_mode, ViewMode::Normal);
    assert_eq!(s.filtered_hosts.len(), 5);
}

#[test]
fn saving_an_incomplete_form_is_refused() {
    let mut s = state();
    s.start_add_host();
    s.form_data.name = "x".to_string();
    assert!(!s.save_host());
    assert_eq!(s.message.as_deref(), Some("Name, hostname and username are required"));
    assert_eq!(s.db.hosts.len(), 4);
    assert_eq!(s.view_mode, ViewMode::AddHost);
}

#[test]
fn editing_the_selected_host() {
    let mut s = state();
    s.move_selection_down();
    s.start_edit_host();
    assert_eq!(s.view_mode, ViewMode::EditHost);
    assert_eq!(s.form_data.name, "beta");
    assert_eq!(s.form_data.port, "22");
    s.form_data.port = "not a port".to_string();
    s.form_data.notes = "edited".to_string();
    assert!(s.save_host());
    assert_eq!(s.message.as_deref(), Some("Host updated"));
    let edited = &s.db.hosts[0];
    assert_eq!(edited.id, "1");
    assert_eq!(edited.port, 22);
    assert_eq!(edited.notes.as_deref(), Some("edited"));
    assert_eq!(edited.connect_count, 0);
}

#[test]
fn deleting_the_selected_host() {
    let mut s = state();
    s.move_to_bottom();
    assert!(s.delete_current_host());
    assert_eq!(s.message.as_deref(), Some("Host deleted"));
    assert_eq!(names(&s.filtered_hosts), vec!["Alpha", "beta", "charlie"]);
    assert_eq!(s.filtered_index, 2);
    assert_eq!(names(&s.favorite_hosts), vec!["beta"]);
}

#[test]
fn adding_and_deleting_groups() {
    let mut s = state();
    s.add_group("staging".to_string());
    assert_eq!(s.groups.len(), 2);
    assert_eq!(s.db.groups.len(), 2);
    assert_eq!(s.groups[1].name, "staging");
    assert_eq!(s.current_group().map(|g| g.name.as_str()), Some("prod"));
    s.selected_group_index = 1;
    assert_eq!(s.current_group().map(|g| g.name.as_str()), Some("staging"));
    s.selected_group_index = 4;
    assert!(s.current_group().is_none());
    assert!(s.delete_group(1));
    assert_eq!(s.groups.len(), 1);
    assert_eq!(s.db.groups.len(), 1);
    assert_eq!(s.selected_group_index, 2);
    assert!(!s.delete_group(5));
}

#[test]
fn cycling_themes() {
    let mut s = state();
    let mut seen = Vec::new();
    for _ in 0..5 {
        s.cycle_theme();
        seen.push(s.current_theme_name().to_string());
    }
    assert_eq!(seen, vec!["light", "nord", "gruvbox", "catppuccin", "dark"]);
    assert_eq!(s.theme_colors.bg_primary, "#1e1e1e");
}

#[test]
fn form_from_host_and_back() {
    let mut h = host("7", "web");
    h.port = 8022;
    h.tags = vec!["prod".to_string(), "eu".to_string()];
    h.identity_file = Some("~/.ssh/k".to_string());
    let f = HostFormData::from_host(&h);
    assert_eq!(f.port, "8022");
    assert_eq!(f.tags, "prod,eu");
    assert_eq!(f.identity_file, "~/.ssh/k");
    assert_eq!(f.proxy_jump, "");
    let back = f.to_host(Some("7".to_string()));
    assert_eq!(back.id, "7");
    assert_eq!(back.port, 8022);
    assert_eq!(back.tags, h.tags);
    assert_eq!(back.identity_file, h.identity_file);
    assert_eq!(back.proxy_jump, None);
    let fresh = f.to_host(None);
    assert_eq!(fresh.id.chars().count(), 36);
    assert_eq!(tags_from_text(" a, ,b ,"), vec!["a".to_string(), "b".to_string()]);
    assert!(tags_from_text("").is_empty());
}

#[test]
fn combining_field_scores() {
    assert_eq!(combined_score(Some(2), Some(3), Some(4), &vec![Some(5), None, Some(-1)]), 20 + 15 + 12 + 4);
    assert_eq!(combined_score(None, None, None, &Vec::new()), 0);
    assert_eq!(combined_score(Some(-7), None, Some(1), &vec![None]), -70 + 3);
}

#[test]
fn ranking_by_given_scores() {
    let hosts = vec![host("1", "a"), host("2", "b"), host("3", "c"), host("4", "d")];
    let ranked = rank_by_score(&hosts, &vec![5, 0, 9, 5]);
    assert_eq!(names(&ranked), vec!["c", "a", "d"]);
    assert!(rank_by_score(&hosts, &vec![0, -1, 0, 0]).is_empty());
}

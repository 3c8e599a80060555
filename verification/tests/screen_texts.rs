use sshman::app::{AppState, FilterMode, InputMode, Panel, ViewMode};
use sshman::config::AppConfig;
use sshman::models::{Group, HostsDatabase, SshHost};
use sshman::views::{
    details_panel, details_text, details_text_with, form_help, form_lines, form_title, group_lines, groups_title,
    host_lines, hosts_title, listing_line, screen_for, status_left, status_padding, status_right,
    LineStyle, Screen,
};

fn host(id: &str, name: &str) -> SshHost {
    SshHost::with_id(id.to_string(), name.to_string(), format!("{}.example", name), "root".to_string())
}

fn state() -> AppState {
    let mut db = HostsDatabase::new();
    let mut a = host("1", "alpha");
    a.is_favorite = true;
    a.port = 2222;
    db.hosts = vec![a, host("2", "bravo")];
    db.groups.push(Group::with_id("g".to_string(), "prod".to_string()));
    AppState::new(db, AppConfig::default())
}

#[test]
fn screens_of_view_modes() {
    assert_eq!(screen_for(ViewMode::AddHost), Screen::Form);
    assert_eq!(screen_for(ViewMode::EditHost), Screen::Form);
    assert_eq!(screen_for(ViewMode::Help), Screen::Help);
    assert_eq!(screen_for(ViewMode::Normal), Screen::Panels);
    assert_eq!(screen_for(ViewMode::CommandPalette), Screen::Panels);
    assert_eq!(form_title(ViewMode::AddHost), "Add New Host");
    assert_eq!(form_title(ViewMode::EditHost), "Edit Host");
    assert_eq!(form_title(ViewMode::Normal), "Form");
    assert_eq!(form_help(InputMode::Insert), "Tab: next field | ESC: cancel | Enter: save");
    assert_eq!(form_help(InputMode::Normal), "Use keys to navigate");
}

#[test]
fn form_lines_show_values_or_labels() {
    let mut s = state();
    s.start_add_host();
    s.form_data.name = "web".to_string();
    s.form_field_index = 1;
    let lines = form_lines(&s);
    assert_eq!(lines.len(), 8);
    assert_eq!(lines[0].text, "Name: web");
    assert_eq!(lines[0].style, LineStyle::Plain);
    assert_eq!(lines[1].text, "Hostname: [Hostname]");
    assert_eq!(lines[1].style, LineStyle::Selected);
    assert_eq!(lines[6].text, "Tags (comma separated): [Tags (comma separated)]");
}

#[test]
fn group_panel_lines() {
    let mut s = state();
    let lines = group_lines(&s);
    let texts: Vec<&str> = lines.iter().map(|l| l.text.as_str()).collect();
    assert_eq!(texts, vec!["★ All Hosts", "♥ Favorites", "⏰ Recent", "--- Groups ---", "prod"]);
    assert_eq!(lines[1].style, LineStyle::Favorites);
    assert_eq!(lines[2].style, LineStyle::Recent);
    assert_eq!(lines[3].style, LineStyle::Separator);
    assert_eq!(lines[4].style, LineStyle::Plain);
    s.active_panel = Panel::Groups;
    s.selected_group_index = 3;
    assert_eq!(group_lines(&s)[4].style, LineStyle::Selected);
    let empty = AppState::new(HostsDatabase::new(), AppConfig::default());
    assert_eq!(group_lines(&empty).len(), 3);
    assert_eq!(groups_title(FilterMode::All), "Filter: All Hosts");
    assert_eq!(groups_title(FilterMode::Group(0)), "Filter: Group");
}

#[test]
fn host_panel_lines_and_title() {
    let mut s = state();
    let lines = host_lines(&s);
    assert_eq!(lines[0].text, "★ root@alpha.example:2222");
    assert_eq!(lines[0].style, LineStyle::Selected);
    assert_eq!(lines[1].text, "○ root@bravo.example:22");
    assert_eq!(lines[1].style, LineStyle::Plain);
    assert_eq!(hosts_title(&s), "Hosts (2)");
    s.search_query = "br".to_string();
    s.filter_hosts();
    assert_eq!(hosts_title(&s), "Search: br (1)");
    s.active_panel = Panel::Details;
    assert_eq!(host_lines(&s)[0].style, LineStyle::Plain);
}

#[test]
fn details_of_a_host() {
    let mut h = host("1", "alpha");
    h.tags = vec!["prod".to_string(), "eu".to_string()];
    h.connect_count = 4;
    h.last_connected = Some(0);
    h.proxy_jump = Some("bastion".to_string());
    let expected = "alpha\n\nHost: alpha.example:22\nUser: root@alpha.example\nIdentity: none\n\
Proxy: bastion\nTags: prod, eu\n\nNotes:\nnone\n\nConnections: 4\nLast: 1970-01-01 00:00";
    assert_eq!(details_text(&h), expected);
    h.last_connected = None;
    assert!(details_text(&h).ends_with("\nLast: never"));
    h.last_connected = Some(1_700_000_000);
    assert!(details_text(&h).ends_with("\nLast: 2023-11-14 22:13"));
    h.last_connected = Some(i64::MAX);
    assert!(details_text(&h).ends_with("\nLast: unknown"));
}

#[test]
fn details_panel_follows_the_selection() {
    let mut s = state();
    let (text, selected) = details_panel(&s);
    assert!(selected);
    assert!(text.starts_with("alpha\n"));
    s.filtered_index = 9;
    let (text, selected) = details_panel(&s);
    assert!(!selected);
    assert_eq!(text, "No host selected");
}

#[test]
fn status_bar() {
    let mut s = state();
    assert_eq!(status_left(&s), "[Hosts] 2 hosts");
    assert_eq!(
        status_right(&s),
        "q:quit /:search s:sort t:theme a:add e:edit d:delete p:ping Enter:connect [dark]"
    );
    s.input_mode = InputMode::Search;
    s.search_query = "web".to_string();
    assert_eq!(status_left(&s), "Search: web");
    assert_eq!(status_right(&s), "ESC:cancel Enter:search");
    s.input_mode = InputMode::Command;
    s.command_buffer = "csv".to_string();
    assert_eq!(status_left(&s), ":csv");
    assert_eq!(status_right(&s), "ESC:cancel Enter:execute");
    s.input_mode = InputMode::Insert;
    assert_eq!(status_left(&s), "Edit mode");
    assert_eq!(status_right(&s), "Tab:next field ESC:cancel Enter:save");
    s.message = Some("Host added".to_string());
    assert_eq!(status_right(&s), "Host added");
}

#[test]
fn status_padding_fills_the_width() {
    assert_eq!(status_padding(80, "abc", "de"), 75);
    assert_eq!(status_padding(5, "abc", "de"), 0);
    assert_eq!(status_padding(4, "abc", "de"), 0);
    assert_eq!(status_padding(10, "★", ""), 7);
}

#[test]
fn listing_lines() {
    let mut h = host("1", "alpha");
    h.port = 2022;
    assert_eq!(listing_line(&h), "alpha root@alpha.example:2022");
}

#[test]
fn details_with_a_given_time_text() {
    let mut h = host("1", "alpha");
    assert!(details_text_with(&h, Some("x".to_string())).ends_with("\nLast: never"));
    h.last_connected = Some(5);
    assert!(details_text_with(&h, Some("yesterday".to_string())).ends_with("\nLast: yesterday"));
    assert!(details_text_with(&h, None).ends_with("\nLast: unknown"));
}

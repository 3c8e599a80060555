use sshman::app::{FilterMode, HostFormData, Panel, ViewMode};
use sshman::config::{
    config_file, config_file_in, hosts_file, hosts_file_in, AppConfig, KeyBindings, Theme,
    ThemeColors,
};

#[test]
fn themes_in_cycling_order() {
    assert_eq!(
        Theme::all(),
        vec![Theme::Dark, Theme::Light, Theme::Nord, Theme::Gruvbox, Theme::Catppuccin]
    );
    let names: Vec<&str> = Theme::all().iter().map(|t| t.name()).collect();
    assert_eq!(names, vec!["dark", "light", "nord", "gruvbox", "catppuccin"]);
    assert_eq!(Theme::default(), Theme::Dark);
}

#[test]
fn theme_palettes() {
    let dark = ThemeColors::from_theme(Theme::Dark);
    assert_eq!(dark.bg_primary, "#1e1e1e");
    assert_eq!(dark.accent, "#00aaff");
    assert_eq!(ThemeColors::dark().border, "#3c3c3c");
    assert_eq!(ThemeColors::from_theme(Theme::Light).bg_primary, "#ffffff");
    assert_eq!(ThemeColors::light().error, "#d32f2f");
    assert_eq!(ThemeColors::from_theme(Theme::Nord).accent, "#88c0d0");
    assert_eq!(ThemeColors::nord().success, "#a3be8c");
    assert_eq!(ThemeColors::from_theme(Theme::Gruvbox).accent, "#fabd2f");
    assert_eq!(ThemeColors::gruvbox().fg_primary, "#ebdbb2");
    assert_eq!(ThemeColors::from_theme(Theme::Catppuccin).accent, "#89b4fa");
    assert_eq!(ThemeColors::catppuccin().bg_secondary, "#313244");
    assert_eq!(ThemeColors::default().bg_primary, "");
}

#[test]
fn default_settings() {
    let c = AppConfig::default();
    assert_eq!(c.theme, Theme::Dark);
    assert!(!c.show_status_bar);
    assert!(!c.show_groups);
    assert!(!c.auto_refresh);
    assert_eq!(c.ping_timeout_ms, 0);
    assert_eq!(c.startup_view, "");
    assert!(!c.show_connections);
    let k = KeyBindings::default();
    assert_eq!(k.quit, "");
    assert_eq!(k.bottom, "");
    assert_eq!(FilterMode::default(), FilterMode::All);
    assert_eq!(ViewMode::default(), ViewMode::Normal);
    let f = HostFormData::default();
    assert_eq!(f.name, "");
    assert!(!f.is_favorite);
    assert_eq!(Panel::Groups.name(), "Groups");
    assert_eq!(Panel::Hosts.name(), "Hosts");
    assert_eq!(Panel::Details.name(), "Details");
}

#[test]
fn file_locations() {
    assert_eq!(hosts_file_in("/var/lib/sshman"), "/var/lib/sshman/hosts.json");
    assert_eq!(config_file_in("/etc/sshman/"), "/etc/sshman/config.toml");
    if let Some(p) = hosts_file() {
        assert!(p.ends_with("hosts.json"));
        assert!(p.contains("sshman"));
    }
    if let Some(p) = config_file() {
        assert!(p.ends_with("config.toml"));
        assert!(p.contains("sshman"));
    }
}

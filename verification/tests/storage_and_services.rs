use sshman::models::{Group, HostsDatabase, SshHost};
use sshman::services::{create_host, record_connection, update_connection_stats};
use sshman::storage::{
    add_group, add_host, delete_group, delete_host, extend_database, find_host, find_host_index,
    update_host,
};

fn host(id: &str, name: &str) -> SshHost {
    SshHost::with_id(id.to_string(), name.to_string(), format!("{}.example", name), "root".to_string())
}

fn db_of(hosts: Vec<SshHost>) -> HostsDatabase {
    let mut db = HostsDatabase::new();
    for h in hosts {
        add_host(h, &mut db);
    }
    db
}

#[test]
fn adding_appends() {
    let db = db_of(vec![host("1", "a"), host("2", "b")]);
    assert_eq!(db.hosts.len(), 2);
    assert_eq!(db.hosts[1].id, "2");
}

#[test]
fn updating_replaces_the_first_with_the_identifier() {
    let mut db = db_of(vec![host("1", "a"), host("2", "b"), host("2", "c")]);
    let mut changed = host("2", "renamed");
    changed.port = 2200;
    let r = update_host(changed, &mut db);
    assert_eq!(r.map(|h| h.name), Some("renamed".to_string()));
    assert_eq!(db.hosts[1].name, "renamed");
    assert_eq!(db.hosts[1].port, 2200);
    assert_eq!(db.hosts[2].name, "c");
}

#[test]
fn updating_an_unknown_identifier_changes_nothing() {
    let mut db = db_of(vec![host("1", "a")]);
    assert!(update_host(host("9", "x"), &mut db).is_none());
    assert_eq!(db.hosts.len(), 1);
    assert_eq!(db.hosts[0].name, "a");
}

#[test]
fn deleting_removes_every_host_with_the_identifier() {
    let mut db = db_of(vec![host("1", "a"), host("2", "b"), host("1", "c"), host("3", "d")]);
    assert!(delete_host("1", &mut db));
    let names: Vec<&str> = db.hosts.iter().map(|h| h.name.as_str()).collect();
    assert_eq!(names, vec!["b", "d"]);
    assert!(!delete_host("1", &mut db));
    assert_eq!(db.hosts.len(), 2);
}

#[test]
fn groups_are_added_and_deleted() {
    let mut db = HostsDatabase::new();
    add_group(Group::with_id("g1".to_string(), "prod".to_string()), &mut db);
    add_group(Group::with_id("g2".to_string(), "dev".to_string()), &mut db);
    assert_eq!(db.groups.len(), 2);
    assert!(delete_group("g1", &mut db));
    assert_eq!(db.groups.len(), 1);
    assert_eq!(db.groups[0].name, "dev");
    assert!(!delete_group("g1", &mut db));
}

#[test]
fn extending_appends_hosts_and_groups() {
    let mut db = db_of(vec![host("1", "a")]);
    let mut other = db_of(vec![host("2", "b"), host("3", "c")]);
    add_group(Group::with_id("g".to_string(), "x".to_string()), &mut other);
    assert_eq!(extend_database(&mut db, other), 2);
    assert_eq!(db.hosts.len(), 3);
    assert_eq!(db.groups.len(), 1);
}

#[test]
fn finding_by_identifier_or_name() {
    let db = db_of(vec![host("1", "a"), host("2", "b"), host("3", "b")]);
    assert_eq!(find_host(&db, None, Some("3")).map(|h| h.name.as_str()), Some("b"));
    assert_eq!(find_host(&db, Some("b"), None).map(|h| h.id.as_str()), Some("2"));
    assert_eq!(find_host(&db, Some("a"), Some("2")).map(|h| h.name.as_str()), Some("b"));
    assert!(find_host(&db, Some("a"), Some("9")).is_none());
    assert!(find_host(&db, Some("zz"), None).is_none());
    assert!(find_host(&db, None, None).is_none());
    assert_eq!(find_host_index(&db.hosts, "2"), Some(1));
}

#[test]
fn creating_hosts_with_settings() {
    let h = create_host(
        "web".to_string(),
        "web.example".to_string(),
        "deploy".to_string(),
        Some(2222),
        Some("~/.ssh/key".to_string()),
        Some(vec!["prod".to_string()]),
        Some("primary".to_string()),
        Some("bastion".to_string()),
    );
    assert_eq!(h.id.chars().count(), 36);
    assert_eq!(h.port, 2222);
    assert_eq!(h.identity_file.as_deref(), Some("~/.ssh/key"));
    assert_eq!(h.tags, vec!["prod".to_string()]);
    assert_eq!(h.notes.as_deref(), Some("primary"));
    assert_eq!(h.proxy_jump.as_deref(), Some("bastion"));
    let plain = create_host(
        "db".to_string(),
        "db.example".to_string(),
        "root".to_string(),
        None,
        None,
        None,
        None,
        None,
    );
    assert_eq!(plain.port, 22);
    assert!(plain.tags.is_empty());
}

#[test]
fn recording_a_connection() {
    let mut db = db_of(vec![host("1", "a"), host("2", "b")]);
    assert!(record_connection("2", &mut db, 1_700_000_000));
    assert_eq!(db.hosts[1].connect_count, 1);
    assert_eq!(db.hosts[1].last_connected, Some(1_700_000_000));
    assert_eq!(db.hosts[0].connect_count, 0);
    assert!(record_connection("2", &mut db, 1_700_000_100));
    assert_eq!(db.hosts[1].connect_count, 2);
    assert_eq!(db.hosts[1].last_connected, Some(1_700_000_100));
    assert!(!record_connection("9", &mut db, 5));
}

#[test]
fn updating_connection_stats_uses_the_clock() {
    let mut db = db_of(vec![host("1", "a")]);
    assert!(update_connection_stats("1", &mut db));
    assert_eq!(db.hosts[0].connect_count, 1);
    let when = db.hosts[0].last_connected.expect("a time");
    assert!(when > 1_600_000_000);
}

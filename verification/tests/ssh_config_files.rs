use sshman::models::{HostsDatabase, SshHost};
use sshman::ssh_config::{
    csv_text, escape_csv, export_ssh_config, export_to_csv, import_ssh_config_text,
    parse_ssh_config, ssh_config_path, ssh_config_text,
};

fn host(id: &str, name: &str, hostname: &str, user: &str) -> SshHost {
    SshHost::with_id(id.to_string(), name.to_string(), hostname.to_string(), user.to_string())
}

const SAMPLE: &str = "# comment\n\
Host web\n\
    HostName web.example.com\n\
    User deploy\n\
    Port 2222\n\
    IdentityFile ~/.ssh/web\n\
    ProxyJump bastion\n\
\n\
host db\n\
    user postgres\n\
    PORT notanumber\n\
    j jumpbox\n\
Host   \n\
    HostName ignored.example\n\
HOST cache\n";

#[test]
fn parsing_host_blocks() {
    let entries = parse_ssh_config(SAMPLE);
    assert_eq!(entries.len(), 3);
    let web = &entries[0];
    assert_eq!(web.name, "web");
    assert_eq!(web.hostname, "web.example.com");
    assert_eq!(web.username, "deploy");
    assert_eq!(web.port, 2222);
    assert_eq!(web.identity_file.as_deref(), Some("~/.ssh/web"));
    assert_eq!(web.proxy_jump.as_deref(), Some("bastion"));
    let db = &entries[1];
    assert_eq!(db.name, "db");
    // `Host` without a name opens no block, so its setting lands in `db`.
    assert_eq!(db.hostname, "ignored.example");
    assert_eq!(db.username, "postgres");
    assert_eq!(db.port, 22);
    assert_eq!(db.identity_file, None);
    assert_eq!(db.proxy_jump.as_deref(), Some("jumpbox"));
    let cache = &entries[2];
    assert_eq!(cache.name, "cache");
    assert_eq!(cache.hostname, "cache");
    assert_eq!(cache.username, "");
}

#[test]
fn parsing_nothing() {
    assert!(parse_ssh_config("").is_empty());
    assert!(parse_ssh_config("User nobody\nPort 22\n").is_empty());
}

#[test]
fn importing_gives_hosts_with_fresh_identifiers() {
    let db = import_ssh_config_text(SAMPLE);
    assert_eq!(db.hosts.len(), 3);
    assert!(db.groups.is_empty());
    assert_eq!(db.hosts[0].name, "web");
    assert_eq!(db.hosts[0].port, 2222);
    assert_eq!(db.hosts[0].id.chars().count(), 36);
    assert_ne!(db.hosts[0].id, db.hosts[1].id);
    assert!(db.hosts[0].tags.is_empty());
}

#[test]
fn exporting_an_ssh_config() {
    let mut db = HostsDatabase::new();
    let mut web = host("1", "web", "web.example.com", "deploy");
    web.port = 2222;
    web.identity_file = Some("~/.ssh/web".to_string());
    web.proxy_jump = Some(String::new());
    web.env_vars = vec![("LANG".to_string(), "C".to_string())];
    db.hosts.push(web);
    db.hosts.push(host("2", "db", "db", ""));
    let expected = "# SSHMan exported config\n\
# Do not edit manually unless you know what you're doing\n\n\
Host web\n    HostName web.example.com\n    User deploy\n    Port 2222\n    IdentityFile ~/.ssh/web\n    SetEnv LANG=C\n\n\
Host db\n\n";
    assert_eq!(ssh_config_text(&db), expected);
    let file = export_ssh_config(&db, Some("/tmp/out_config"));
    assert_eq!(file.path, "/tmp/out_config");
    assert_eq!(file.content, expected);
}

#[test]
fn exporting_then_importing_gives_the_hosts_back() {
    let mut db = HostsDatabase::new();
    let mut web = host("1", "web", "web.example.com", "deploy");
    web.port = 2222;
    web.identity_file = Some("~/.ssh/web".to_string());
    web.proxy_jump = Some("bastion".to_string());
    web.env_vars = vec![("LANG".to_string(), "C".to_string())];
    db.hosts.push(web);
    db.hosts.push(host("2", "db", "db", ""));
    db.hosts.push(host("3", "my box", "10.0.0.3", "root"));
    let entries = parse_ssh_config(&ssh_config_text(&db));
    assert_eq!(entries.len(), 3);
    for (e, h) in entries.iter().zip(db.hosts.iter()) {
        assert_eq!(e.name, h.name);
        assert_eq!(e.hostname, h.hostname);
        assert_eq!(e.username, h.username);
        assert_eq!(e.port, h.port);
        assert_eq!(e.identity_file, h.identity_file);
        assert_eq!(e.proxy_jump, h.proxy_jump);
    }
}

#[test]
fn csv_fields() {
    assert_eq!(escape_csv("plain"), "plain");
    assert_eq!(escape_csv(""), "");
    assert_eq!(escape_csv("a,b"), "\"a,b\"");
    assert_eq!(escape_csv("say \"hi\""), "\"say \"\"hi\"\"\"");
    assert_eq!(escape_csv("two\nlines"), "\"two\nlines\"");
}

#[test]
fn exporting_csv() {
    let mut db = HostsDatabase::new();
    let mut web = host("1", "web", "web.example.com", "deploy");
    web.port = 2222;
    web.tags = vec!["prod".to_string(), "eu".to_string()];
    web.notes = Some("main, front".to_string());
    web.is_favorite = true;
    web.connect_count = 7;
    db.hosts.push(web);
    let expected = "name,hostname,username,port,identity_file,proxy_jump,tags,notes,is_favorite,connect_count\n\
web,web.example.com,deploy,2222,,,\"prod,eu\",\"main, front\",true,7\n";
    assert_eq!(csv_text(&db), expected);
    let file = export_to_csv(&db, None);
    assert_eq!(file.path, "sshman_hosts.csv");
    assert_eq!(file.content, expected);
    assert_eq!(export_to_csv(&db, Some("x.csv")).path, "x.csv");
}

#[test]
fn default_config_path_is_in_the_home_directory() {
    assert_eq!(ssh_config_path(Some("/etc/ssh/ssh_config")), "/etc/ssh/ssh_config");
    let p = ssh_config_path(None);
    assert!(p.ends_with("/.ssh/config"));
    assert!(!p.starts_with('~'));
}

#[test]
fn imported_identifiers_are_version_4_uuids() {
    let db = import_ssh_config_text("Host a\nHost b\n");
    for h in &db.hosts {
        let cs: Vec<char> = h.id.chars().collect();
        assert_eq!(cs.len(), 36);
        assert_eq!(cs[14], '4');
        assert!(h.env_vars.is_empty());
    }
}

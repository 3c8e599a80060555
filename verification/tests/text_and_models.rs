use sshman::models::{Group, HostsDatabase, SshHost};
use sshman::text::{
    chars_of, decimal_string, eq_ignore_ascii_case_text, find_text, first_word_text, join_strings,
    lex_le_text, parse_u16, replace_char_text, split_chars, string_of, trim_text,
};

fn cs(s: &str) -> Vec<char> {
    s.chars().collect()
}

#[test]
fn decimal_of_numbers() {
    assert_eq!(decimal_string(0), "0");
    assert_eq!(decimal_string(7), "7");
    assert_eq!(decimal_string(65535), "65535");
    assert_eq!(decimal_string(18446744073709551615), "18446744073709551615");
}

#[test]
fn parse_port_texts() {
    assert_eq!(parse_u16(&cs("22")), Some(22));
    assert_eq!(parse_u16(&cs("+8080")), Some(8080));
    assert_eq!(parse_u16(&cs("65535")), Some(65535));
    assert_eq!(parse_u16(&cs("65536")), None);
    assert_eq!(parse_u16(&cs("")), None);
    assert_eq!(parse_u16(&cs("+")), None);
    assert_eq!(parse_u16(&cs("-1")), None);
    assert_eq!(parse_u16(&cs("8a")), None);
    assert_eq!(parse_u16(&cs(" 22")), None);
}

#[test]
fn decimal_then_parse_gives_the_number_back() {
    for n in [0u16, 1, 22, 443, 2222, 65535] {
        let text = decimal_string(n as u64);
        assert_eq!(parse_u16(&cs(&text)), Some(n));
    }
}

#[test]
fn trimming_and_splitting() {
    assert_eq!(trim_text(&cs("  a b \t\n")), cs("a b"));
    assert_eq!(trim_text(&cs("   ")), cs(""));
    assert_eq!(split_chars(&cs("a,b,,c"), ','), vec![cs("a"), cs("b"), cs(""), cs("c")]);
    assert_eq!(split_chars(&cs(""), ','), vec![cs("")]);
    assert_eq!(split_chars(&cs("x,"), ','), vec![cs("x"), cs("")]);
}

#[test]
fn joining_and_replacing() {
    let list = vec!["web".to_string(), "prod".to_string(), "eu".to_string()];
    assert_eq!(join_strings(&list, ", "), "web, prod, eu");
    assert_eq!(join_strings(&Vec::new(), ","), "");
    assert_eq!(replace_char_text(&cs("a\"b\""), '"', "\"\""), "a\"\"b\"\"");
}

#[test]
fn searching_text() {
    assert_eq!(find_text(&cs("64 bytes time=12.3 ms"), &cs("time=")), Some(9));
    assert_eq!(find_text(&cs("no match"), &cs("time=")), None);
    assert_eq!(first_word_text(&cs("  add host")), Some(cs("add")));
    assert_eq!(first_word_text(&cs("   ")), None);
    assert!(eq_ignore_ascii_case_text(&cs("HostName"), &cs("hostname")));
    assert!(!eq_ignore_ascii_case_text(&cs("Port"), &cs("user")));
    assert!(lex_le_text(&cs("abc"), &cs("abd")));
    assert!(lex_le_text(&cs("ab"), &cs("abc")));
    assert!(!lex_le_text(&cs("b"), &cs("abc")));
}

#[test]
fn characters_round_trip() {
    let text = "héllo ★";
    assert_eq!(string_of(&chars_of(text)), text);
}

#[test]
fn new_hosts_get_fresh_identifiers() {
    let a = SshHost::new("a".to_string(), "a.example".to_string(), "root".to_string());
    let b = SshHost::new("b".to_string(), "b.example".to_string(), "root".to_string());
    assert_eq!(a.id.chars().count(), 36);
    assert_eq!(a.id.matches('-').count(), 4);
    let cs: Vec<char> = a.id.chars().collect();
    for (i, c) in cs.iter().enumerate() {
        if i == 8 || i == 13 || i == 18 || i == 23 {
            assert_eq!(*c, '-');
        } else {
            assert!(c.is_ascii_digit() || ('a'..='f').contains(c));
        }
    }
    assert_eq!(cs[14], '4');
    assert!(['8', '9', 'a', 'b'].contains(&cs[19]));
    assert_ne!(a.id, b.id);
    assert_eq!(a.port, 22);
    assert!(a.tags.is_empty());
    assert!(!a.is_favorite);
    assert_eq!(a.connect_count, 0);
    assert_eq!(a.last_connected, None);
}

#[test]
fn new_groups_get_fresh_identifiers() {
    let g = Group::new("prod".to_string());
    assert_eq!(g.id.chars().count(), 36);
    assert_eq!(g.name, "prod");
    assert!(g.hosts.is_empty());
    assert!(g.is_expanded);
}

#[test]
fn ssh_command_of_hosts() {
    let mut h = SshHost::with_id(
        "1".to_string(),
        "web".to_string(),
        "web.example".to_string(),
        "deploy".to_string(),
    );
    assert_eq!(h.ssh_command(), "ssh deploy@web.example");
    h.port = 2222;
    h.identity_file = Some("~/.ssh/id_ed25519".to_string());
    h.proxy_jump = Some("bastion".to_string());
    assert_eq!(
        h.ssh_command(),
        "ssh deploy@web.example -p 2222 -i ~/.ssh/id_ed25519 -J bastion"
    );
}

#[test]
fn copies_keep_values() {
    let mut h = SshHost::with_id("1".to_string(), "n".to_string(), "h".to_string(), "u".to_string());
    h.tags = vec!["t".to_string()];
    h.env_vars = vec![("K".to_string(), "V".to_string())];
    let c = h.copy();
    assert_eq!(c.id, "1");
    assert_eq!(c.tags, vec!["t".to_string()]);
    assert_eq!(c.env_vars, vec![("K".to_string(), "V".to_string())]);
    let mut db = HostsDatabase::new();
    db.hosts.push(h);
    let d = db.copy();
    assert_eq!(d.hosts.len(), 1);
    assert!(d.groups.is_empty());
}

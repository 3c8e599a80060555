use sshman::ssh::{
    connection_args, copy_id_args, copy_id_error, destination_text, latency_text, ping_args,
    session_args, session_result, unreachable_error, SshError,
};

fn strs(v: &[&str]) -> Vec<String> {
    v.iter().map(|s| s.to_string()).collect()
}

#[test]
fn session_arguments_plain() {
    let args = session_args("web.example", 22, "root", None, None, None);
    assert_eq!(
        args,
        strs(&[
            "-o",
            "ServerAliveInterval=60",
            "-o",
            "ServerAliveCountMax=3",
            "-o",
            "StrictHostKeyChecking=accept-new",
            "root@web.example",
        ])
    );
}

#[test]
fn session_arguments_with_everything() {
    let args = session_args(
        "web.example",
        2222,
        "deploy",
        Some("~/.ssh/key"),
        Some("bastion"),
        Some("uptime"),
    );
    assert_eq!(
        args,
        strs(&[
            "-p",
            "2222",
            "-i",
            "~/.ssh/key",
            "-J",
            "bastion",
            "-o",
            "ServerAliveInterval=60",
            "-o",
            "ServerAliveCountMax=3",
            "-o",
            "StrictHostKeyChecking=accept-new",
            "deploy@web.example",
            "uptime",
        ])
    );
}

#[test]
fn session_arguments_skip_empty_options() {
    let args = session_args("h", 22, "u", Some(""), Some(""), Some(""));
    assert_eq!(args.len(), 7);
    assert_eq!(args[6], "u@h");
}

#[test]
fn connection_and_copy_id_arguments() {
    assert_eq!(connection_args("h", 22, "u", None, None), strs(&["u@h"]));
    assert_eq!(
        connection_args("h", 2022, "u", Some("k"), Some("j")),
        strs(&["-p", "2022", "-i", "k", "-J", "j", "u@h"])
    );
    assert_eq!(copy_id_args("h", 22, "u"), strs(&["u@h"]));
    assert_eq!(copy_id_args("h", 2200, "u"), strs(&["-p", "2200", "u@h"]));
    assert_eq!(destination_text("alice", "box"), "alice@box");
}

#[test]
fn ping_arguments() {
    assert_eq!(ping_args("10.0.0.1", 5), strs(&["-c", "1", "-W", "5", "10.0.0.1"]));
}

#[test]
fn latency_from_ping_output() {
    let out = "64 bytes from 10.0.0.1: icmp_seq=1 ttl=64 time=0.045 ms\n";
    assert_eq!(latency_text(out), Some("0.045".to_string()));
    assert_eq!(latency_text("time=12 "), Some("12".to_string()));
    assert_eq!(latency_text("no timing here"), None);
    assert_eq!(latency_text("time=12"), None);
}

#[test]
fn session_results() {
    assert!(session_result(true, Some(0)).is_ok());
    match session_result(false, Some(255)) {
        Err(SshError::ConnectionFailed(m)) => assert_eq!(m, "SSH exited with code: Some(255)"),
        other => panic!("unexpected {:?}", other),
    }
    match session_result(false, Some(-2)) {
        Err(SshError::ConnectionFailed(m)) => assert_eq!(m, "SSH exited with code: Some(-2)"),
        other => panic!("unexpected {:?}", other),
    }
    match session_result(false, None) {
        Err(SshError::ConnectionFailed(m)) => assert_eq!(m, "SSH exited with code: None"),
        other => panic!("unexpected {:?}", other),
    }
}

#[test]
fn error_texts() {
    assert_eq!(SshError::ConnectionFailed("x".to_string()).describe(), "Connection failed: x");
    assert_eq!(unreachable_error("db").describe(), "Host unreachable: db");
    assert_eq!(SshError::PingFailed("no ping".to_string()).describe(), "Ping failed: no ping");
    assert_eq!(copy_id_error().describe(), "Key copy failed: ssh-copy-id failed");
}

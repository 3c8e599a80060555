//! The command lines of `ssh`, `ping` and `ssh-copy-id`, their errors, and the
//! reading of `ping`'s output.
use vstd::prelude::*;
use vstd::string::*;
use crate::text::{
    chars_of, decimal, find_char, find_from, find_str, find_text, occurs_at, owned, push_decimal, push_str, signed_decimal,
    string_of, views,
};

verus! {

/// Why an SSH-related command failed.
#[derive(Debug)]
pub enum SshError {
    ConnectionFailed(String),
    HostUnreachable(String),
    PingFailed(String),
    KeyCopyFailed(String),
}

/// The text of an error, as shown to the user.
pub open spec fn error_text(e: SshError) -> Seq<char> {
    match e {
        SshError::ConnectionFailed(m) => "Connection failed: "@ + m@,
        SshError::HostUnreachable(h) => "Host unreachable: "@ + h@,
        SshError::PingFailed(m) => "Ping failed: "@ + m@,
        SshError::KeyCopyFailed(m) => "Key copy failed: "@ + m@,
    }
}

impl SshError {
    /// The text of the error, as shown to the user.
    pub fn describe(&self) -> (r: String)
        ensures
            r@ == error_text(*self),
    {
        let (prefix, detail) = match self {
            SshError::ConnectionFailed(m) => ("Connection failed: ", m),
            SshError::HostUnreachable(h) => ("Host unreachable: ", h),
            SshError::PingFailed(m) => ("Ping failed: ", m),
            SshError::KeyCopyFailed(m) => ("Key copy failed: ", m),
        };
        let mut r = owned(prefix);
        push_str(&mut r, detail.as_str());
        r
    }
}

/// `"user@host"`.
pub open spec fn destination(username: Seq<char>, hostname: Seq<char>) -> Seq<char> {
    username + "@"@ + hostname
}

/// An option given only when present and not empty.
pub open spec fn nonempty_option(o: Option<Seq<char>>) -> Option<Seq<char>> {
    match o {
        Some(v) => if v.len() > 0 {
            Some(v)
        } else {
            None
        },
        None => None,
    }
}

/// A flag and its value, or nothing.
pub open spec fn flag_args(flag: Seq<char>, value: Option<Seq<char>>) -> Seq<Seq<char>> {
    match value {
        Some(v) => seq![flag, v],
        None => Seq::empty(),
    }
}

/// `-p port`, unless the port is 22.
pub open spec fn port_args(port: u16) -> Seq<Seq<char>> {
    if port != 22 {
        seq!["-p"@, decimal(port as nat)]
    } else {
        Seq::empty()
    }
}

/// The arguments of `ssh` for an interactive session: the port, identity and
/// jump host (each only when set and not empty), three keep-alive and host-key
/// options, the destination, and the remote command when given and not empty.
pub open spec fn session_args_spec(
    hostname: Seq<char>,
    port: u16,
    username: Seq<char>,
    identity_file: Option<Seq<char>>,
    proxy_jump: Option<Seq<char>>,
    custom_command: Option<Seq<char>>,
) -> Seq<Seq<char>> {
    port_args(port) + flag_args("-i"@, nonempty_option(identity_file)) + flag_args(
        "-J"@,
        nonempty_option(proxy_jump),
    ) + seq![
        "-o"@,
        "ServerAliveInterval=60"@,
        "-o"@,
        "ServerAliveCountMax=3"@,
        "-o"@,
        "StrictHostKeyChecking=accept-new"@,
    ] + seq![destination(username, hostname)] + match nonempty_option(custom_command) {
        Some(c) => seq![c],
        None => Seq::empty(),
    }
}

/// The view of an optional borrowed text.
pub open spec fn opt_str_view(o: Option<&str>) -> Option<Seq<char>> {
    match o {
        Some(s) => Some(s@),
        None => None,
    }
}

/// Appends a text to a list of arguments.
fn push_arg(args: &mut Vec<String>, a: &str)
    ensures
        views(final(args)@) == views(old(args)@).push(a@),
{
    let ghost before = args@;
    args.push(owned(a));
    assert(views(args@) =~= views(before).push(a@));
}

/// Appends `-p port` unless the port is 22.
fn push_port(args: &mut Vec<String>, port: u16)
    ensures
        views(final(args)@) == views(old(args)@) + port_args(port),
{
    let ghost before = args@;
    if port != 22 {
        push_arg(args, "-p");
        let mut p = String::new();
        push_decimal(&mut p, port as u64);
        assert(p@ =~= decimal(port as nat));
        let ghost mid = args@;
        args.push(p);
        proof {
            reveal_strlit("-p");
        }
        assert(views(args@) =~= views(mid).push(decimal(port as nat)));
        assert(views(args@) =~= views(before) + port_args(port));
    } else {
        assert(views(args@) =~= views(before) + port_args(port));
    }
}

/// Appends a flag and its value when the value is present and not empty.
fn push_nonempty_flag(args: &mut Vec<String>, flag: &str, value: Option<&str>)
    ensures
        views(final(args)@) == views(old(args)@) + flag_args(
            flag@,
            nonempty_option(opt_str_view(value)),
        ),
{
    let ghost before = args@;
    match value {
        Some(v) => {
            if v.unicode_len() > 0 {
                push_arg(args, flag);
                push_arg(args, v);
                assert(views(args@) =~= views(before) + seq![flag@, v@]);
            } else {
                assert(views(args@) =~= views(before) + Seq::<Seq<char>>::empty());
            }
        },
        None => {
            assert(views(args@) =~= views(before) + Seq::<Seq<char>>::empty());
        },
    }
}

/// `"user@host"`.
pub fn destination_text(username: &str, hostname: &str) -> (r: String)
    ensures
        r@ == destination(username@, hostname@),
{
    let mut d = owned(username);
    push_str(&mut d, "@");
    push_str(&mut d, hostname);
    d
}

/// The arguments of `ssh` for an interactive session.
pub fn session_args(
    hostname: &str,
    port: u16,
    username: &str,
    identity_file: Option<&str>,
    proxy_jump: Option<&str>,
    custom_command: Option<&str>,
) -> (r: Vec<String>)
    ensures
        views(r@) == session_args_spec(
            hostname@,
            port,
            username@,
            opt_str_view(identity_file),
            opt_str_view(proxy_jump),
            opt_str_view(custom_command),
        ),
{
    let mut args: Vec<String> = Vec::new();
    assert(views(args@) =~= Seq::<Seq<char>>::empty());
    push_port(&mut args, port);
    push_nonempty_flag(&mut args, "-i", identity_file);
    push_nonempty_flag(&mut args, "-J", proxy_jump);
    let ghost before_options = views(args@);
    push_arg(&mut args, "-o");
    push_arg(&mut args, "ServerAliveInterval=60");
    push_arg(&mut args, "-o");
    push_arg(&mut args, "ServerAliveCountMax=3");
    push_arg(&mut args, "-o");
    push_arg(&mut args, "StrictHostKeyChecking=accept-new");
    let ghost before_dest = views(args@);
    let dest = destination_text(username, hostname);
    args.push(dest);
    let ghost before_cmd = views(args@);
    assert(before_cmd =~= before_dest.push(destination(username@, hostname@)));
    match custom_command {
        Some(c) => {
            if c.unicode_len() > 0 {
                push_arg(&mut args, c);
            }
        },
        None => {},
    }
    assert(views(args@) =~= session_args_spec(
        hostname@,
        port,
        username@,
        opt_str_view(identity_file),
        opt_str_view(proxy_jump),
        opt_str_view(custom_command),
    ));
    args
}

/// The arguments of `ssh-copy-id`: the port unless it is 22, then the destination.
pub open spec fn copy_id_args_spec(hostname: Seq<char>, port: u16, username: Seq<char>) -> Seq<
    Seq<char>,
> {
    port_args(port) + seq![destination(username, hostname)]
}

/// The arguments of `ssh-copy-id`.
pub fn copy_id_args(hostname: &str, port: u16, username: &str) -> (r: Vec<String>)
    ensures
        views(r@) == copy_id_args_spec(hostname@, port, username@),
{
    let mut args: Vec<String> = Vec::new();
    assert(views(args@) =~= Seq::<Seq<char>>::empty());
    push_port(&mut args, port);
    let ghost before = views(args@);
    args.push(destination_text(username, hostname));
    assert(views(args@) =~= before.push(destination(username@, hostname@)));
    args
}

/// The arguments of a plain `ssh` connection: the port unless it is 22, the
/// identity and jump host whenever given, then the destination.
pub open spec fn connection_args_spec(
    hostname: Seq<char>,
    port: u16,
    username: Seq<char>,
    identity_file: Option<Seq<char>>,
    proxy_jump: Option<Seq<char>>,
) -> Seq<Seq<char>> {
    port_args(port) + flag_args("-i"@, identity_file) + flag_args("-J"@, proxy_jump) + seq![
        destination(username, hostname),
    ]
}

/// Appends a flag and its value whenever the value is given.
fn push_flag(args: &mut Vec<String>, flag: &str, value: Option<&str>)
    ensures
        views(final(args)@) == views(old(args)@) + flag_args(flag@, opt_str_view(value)),
{
    let ghost before = args@;
    match value {
        Some(v) => {
            push_arg(args, flag);
            push_arg(args, v);
            assert(views(args@) =~= views(before) + seq![flag@, v@]);
        },
        None => {
            assert(views(args@) =~= views(before) + Seq::<Seq<char>>::empty());
        },
    }
}

/// The arguments of a plain `ssh` connection.
pub fn connection_args(
    hostname: &str,
    port: u16,
    username: &str,
    identity_file: Option<&str>,
    proxy_jump: Option<&str>,
) -> (r: Vec<String>)
    ensures
        views(r@) == connection_args_spec(
            hostname@,
            port,
            username@,
            opt_str_view(identity_file),
            opt_str_view(proxy_jump),
        ),
{
    let mut args: Vec<String> = Vec::new();
    assert(views(args@) =~= Seq::<Seq<char>>::empty());
    push_port(&mut args, port);
    push_flag(&mut args, "-i", identity_file);
    push_flag(&mut args, "-J", proxy_jump);
    let ghost before = views(args@);
    args.push(destination_text(username, hostname));
    assert(views(args@) =~= before.push(destination(username@, hostname@)));
    args
}

/// The arguments of `ping`: one probe, a timeout in seconds, the host.
pub open spec fn ping_args_spec(hostname: Seq<char>, timeout_secs: u64) -> Seq<Seq<char>> {
    seq!["-c"@, "1"@, "-W"@, decimal(timeout_secs as nat), hostname]
}

/// The arguments of `ping`.
pub fn ping_args(hostname: &str, timeout_secs: u64) -> (r: Vec<String>)
    ensures
        views(r@) == ping_args_spec(hostname@, timeout_secs),
{
    let mut args: Vec<String> = Vec::new();
    assert(views(args@) =~= Seq::<Seq<char>>::empty());
    push_arg(&mut args, "-c");
    push_arg(&mut args, "1");
    push_arg(&mut args, "-W");
    let ghost mid = views(args@);
    let mut t = String::new();
    push_decimal(&mut t, timeout_secs);
    args.push(t);
    let ghost mid2 = views(args@);
    assert(mid2 =~= mid.push(decimal(timeout_secs as nat)));
    push_arg(&mut args, hostname);
    assert(views(args@) =~= ping_args_spec(hostname@, timeout_secs));
    args
}

/// The text between the first `time=` of `ping`'s output and the next space,
/// when both are there.
pub open spec fn latency_text_spec(out: Seq<char>) -> Option<Seq<char>> {
    match find_str(out, "time="@) {
        Some(i) => {
            let rest = out.skip(i + 5);
            match find_char(rest, ' ') {
                Some(j) => Some(rest.take(j)),
                None => None,
            }
        },
        None => None,
    }
}

proof fn lemma_find_char(s: Seq<char>, c: char)
    ensures
        match find_char(s, c) {
            Some(i) => 0 <= i < s.len() && s[i] == c && forall|k: int| 0 <= k < i ==> s[k] != c,
            None => forall|k: int| 0 <= k < s.len() ==> s[k] != c,
        },
    decreases s.len(),
{
    if s.len() > 0 && s[0] != c {
        lemma_find_char(s.drop_first(), c);
        assert forall|k: int| 0 < k < s.len() implies s[k] == s.drop_first()[k - 1] by {}
    }
}

proof fn lemma_find_from_bounds(s: Seq<char>, needle: Seq<char>, from: int)
    ensures
        find_from(s, needle, from) matches Some(i) ==> from <= i && i + needle.len() <= s.len(),
    decreases s.len() - from,
{
    if !(from < 0 || from >= s.len() || from + needle.len() > s.len()) && !occurs_at(
        s,
        needle,
        from,
    ) {
        lemma_find_from_bounds(s, needle, from + 1);
    }
}

/// Reads the latency text from `ping`'s output.
pub fn latency_text(out: &str) -> (r: Option<String>)
    ensures
        match latency_text_spec(out@) {
            Some(t) => r is Some && r->0@ == t,
            None => r is None,
        },
{
    let cs = chars_of(out);
    let needle = chars_of("time=");
    proof {
        reveal_strlit("time=");
        lemma_find_from_bounds(out@, "time="@, 0);
    }
    match find_text(cs.as_slice(), needle.as_slice()) {
        Some(i) => {
            let n = cs.len();
            assert(find_str(out@, "time="@) == Some(i as int));
            assert(i + 5 <= n);
            let start = i + 5;
            let mut j: usize = start;
            while j < cs.len() && cs[j] != ' '
                invariant
                    start <= j <= cs@.len(),
                    start <= cs@.len(),
                    forall|k: int| start <= k < j ==> cs@[k] != ' ',
                decreases cs@.len() - j,
            {
                j += 1;
            }
            let ghost rest = cs@.skip(start as int);
            proof {
                lemma_find_char(rest, ' ');
                assert forall|k: int| 0 <= k < j - start implies rest[k] != ' ' by {
                    assert(rest[k] == cs@[k + start]);
                }
            }
            if j == cs.len() {
                assert(find_char(rest, ' ') is None) by {
                    if find_char(rest, ' ') is Some {
                        let x = find_char(rest, ' ')->0;
                        assert(rest[x] == ' ');
                    }
                }
                None
            } else {
                assert(rest[j - start] == ' ');
                assert(find_char(rest, ' ') == Some(j - start)) by {
                    let f = find_char(rest, ' ');
                    if f is Some {
                        let x = f->0;
                        if x < j - start {
                            assert(rest[x] != ' ');
                        } else if x > j - start {
                            assert(rest[j - start] != ' ');
                        }
                    }
                }
                let piece = string_of(&cs.as_slice()[start..j]);
                assert(piece@ =~= rest.take(j - start));
                Some(piece)
            }
        },
        None => None,
    }
}

/// The debug text of an optional exit code: `Some(n)` or `None`.
pub open spec fn exit_code_text(code: Option<i32>) -> Seq<char> {
    match code {
        Some(c) => "Some("@ + signed_decimal(c as int) + ")"@,
        None => "None"@,
    }
}

/// What a finished `ssh` session reports: success, or the exit code.
pub open spec fn session_outcome(success: bool, code: Option<i32>) -> Result<(), Seq<char>> {
    if success {
        Ok(())
    } else {
        Err("SSH exited with code: "@ + exit_code_text(code))
    }
}

/// The result of a finished `ssh` session, given its exit status.
pub fn session_result(success: bool, code: Option<i32>) -> (r: Result<(), SshError>)
    ensures
        match session_outcome(success, code) {
            Ok(_) => r is Ok,
            Err(m) => r matches Err(SshError::ConnectionFailed(t)) && t@ == m,
        },
{
    if success {
        Ok(())
    } else {
        let mut m = owned("SSH exited with code: ");
        match code {
            Some(c) => {
                push_str(&mut m, "Some(");
                if c < 0 {
                    push_str(&mut m, "-");
                    let mag: u64 = if c == i32::MIN {
                        2147483648
                    } else {
                        (-c) as u64
                    };
                    push_decimal(&mut m, mag);
                } else {
                    push_decimal(&mut m, c as u64);
                }
                push_str(&mut m, ")");
                proof {
                    reveal_strlit("Some(");
                    reveal_strlit(")");
                    reveal_strlit("-");
                }
                assert(m@ =~= "SSH exited with code: "@ + exit_code_text(code));
            },
            None => {
                push_str(&mut m, "None");
                assert(m@ =~= "SSH exited with code: "@ + exit_code_text(code));
            },
        }
        Err(SshError::ConnectionFailed(m))
    }
}

/// The error of a failed `ping`: the host is unreachable.
pub fn unreachable_error(hostname: &str) -> (r: SshError)
    ensures
        r matches SshError::HostUnreachable(h) && h@ == hostname@,
{
    SshError::HostUnreachable(owned(hostname))
}

/// The error of a failed `ssh-copy-id`.
pub fn copy_id_error() -> (r: SshError)
    ensures
        r matches SshError::KeyCopyFailed(m) && m@ == "ssh-copy-id failed"@,
{
    SshError::KeyCopyFailed(owned("ssh-copy-id failed"))
}

} // verus!

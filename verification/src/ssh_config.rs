//! Reading hosts from OpenSSH `config` text, and writing hosts as OpenSSH
//! `config` text and as CSV.
use vstd::prelude::*;
use vstd::string::*;
use crate::models::{
    host_views, opt_view, pair_views, HostsDatabase, SshHost, SshHostView, fresh_host, uuid_v4_text, distinct_keys,
};
use crate::ssh::nonempty_option;
use crate::text::{
    chars_of, contains_char, decimal, eq_ignore_ascii_case, eq_ignore_ascii_case_text, find_char,
    join, join_strings, owned, parse_u16, parse_u16_spec, push_decimal, push_str,
    replace_char, replace_char_text, split_chars, split_on, string_of, trim, trim_text,
    char_views, sub_chars, views,
};

verus! {

// ---------------------------------------------------------------------------
// Reading
// ---------------------------------------------------------------------------

/// One `Host` block of an OpenSSH configuration.
#[derive(Debug)]
pub struct HostEntry {
    pub name: String,
    pub hostname: String,
    pub username: String,
    pub port: u16,
    pub identity_file: Option<String>,
    pub proxy_jump: Option<String>,
}

/// The mathematical value of a [`HostEntry`].
pub struct HostEntryView {
    pub name: Seq<char>,
    pub hostname: Seq<char>,
    pub username: Seq<char>,
    pub port: u16,
    pub identity_file: Option<Seq<char>>,
    pub proxy_jump: Option<Seq<char>>,
}

impl View for HostEntry {
    type V = HostEntryView;

    open spec fn view(&self) -> HostEntryView {
        HostEntryView {
            name: self.name@,
            hostname: self.hostname@,
            username: self.username@,
            port: self.port,
            identity_file: opt_view(self.identity_file),
            proxy_jump: opt_view(self.proxy_jump),
        }
    }
}

/// The views of a list of entries.
pub open spec fn entry_views(list: Seq<HostEntry>) -> Seq<HostEntryView> {
    list.map_values(|e: HostEntry| e@)
}

/// The state of reading a configuration line by line.
pub struct ParseState {
    pub entries: Seq<HostEntryView>,
    pub in_block: bool,
    pub name: Seq<char>,
    pub hostname: Seq<char>,
    pub user: Seq<char>,
    pub port: u16,
    pub identity: Option<Seq<char>>,
    pub proxy: Option<Seq<char>>,
}

/// Nothing read yet.
pub open spec fn initial_state() -> ParseState {
    ParseState {
        entries: Seq::empty(),
        in_block: false,
        name: Seq::empty(),
        hostname: Seq::empty(),
        user: Seq::empty(),
        port: 22,
        identity: None,
        proxy: None,
    }
}

/// The entries once the current block is closed: a block becomes an entry when
/// its name is not empty; its host name defaults to its name.
pub open spec fn flush(st: ParseState) -> Seq<HostEntryView> {
    if st.in_block {
        let hostname = if st.hostname.len() == 0 {
            st.name
        } else {
            st.hostname
        };
        if st.name.len() > 0 && hostname.len() > 0 {
            st.entries.push(
                HostEntryView {
                    name: st.name,
                    hostname,
                    username: st.user,
                    port: st.port,
                    identity_file: st.identity,
                    proxy_jump: st.proxy,
                },
            )
        } else {
            st.entries
        }
    } else {
        st.entries
    }
}

/// Whether a (trimmed) line opens a block: it starts with `host ` in any case.
pub open spec fn is_host_line(line: Seq<char>) -> bool {
    line.len() >= 5 && eq_ignore_ascii_case(line.take(5), "host "@)
}

/// The state after one `key value` setting inside a block. Keys are matched
/// ignoring case; a port that does not parse counts as 22.
pub open spec fn apply_setting(st: ParseState, key: Seq<char>, value: Seq<char>) -> ParseState {
    if eq_ignore_ascii_case(key, "hostname"@) {
        ParseState { hostname: value, ..st }
    } else if eq_ignore_ascii_case(key, "user"@) {
        ParseState { user: value, ..st }
    } else if eq_ignore_ascii_case(key, "port"@) {
        ParseState {
            port: match parse_u16_spec(value) {
                Some(p) => p,
                None => 22,
            },
            ..st
        }
    } else if eq_ignore_ascii_case(key, "identityfile"@) {
        ParseState { identity: Some(value), ..st }
    } else if eq_ignore_ascii_case(key, "proxyjump"@) || eq_ignore_ascii_case(key, "j"@) {
        ParseState { proxy: Some(value), ..st }
    } else {
        st
    }
}

/// The state after one raw line.
pub open spec fn step(st: ParseState, raw: Seq<char>) -> ParseState {
    let line = trim(raw);
    if is_host_line(line) {
        ParseState {
            entries: flush(st),
            in_block: true,
            name: trim(line.skip(5)),
            hostname: Seq::empty(),
            user: Seq::empty(),
            port: 22,
            identity: None,
            proxy: None,
        }
    } else if st.in_block {
        match find_char(line, ' ') {
            Some(k) => apply_setting(st, line.take(k), trim(line.skip(k + 1))),
            None => st,
        }
    } else {
        st
    }
}

/// The state after a sequence of lines.
pub open spec fn parse_lines(lines: Seq<Seq<char>>) -> ParseState
    decreases lines.len(),
{
    if lines.len() == 0 {
        initial_state()
    } else {
        step(parse_lines(lines.drop_last()), lines.last())
    }
}

/// The host blocks of a configuration text, in order.
pub open spec fn parse_entries(text: Seq<char>) -> Seq<HostEntryView> {
    flush(parse_lines(split_on(text, '\n')))
}

/// The reading state, as executable values.
struct Scan {
    entries: Vec<HostEntry>,
    in_block: bool,
    name: Vec<char>,
    hostname: Vec<char>,
    user: Vec<char>,
    port: u16,
    identity: Option<Vec<char>>,
    proxy: Option<Vec<char>>,
}

/// The view of an optional character vector.
pub open spec fn opt_chars(o: Option<Vec<char>>) -> Option<Seq<char>> {
    match o {
        Some(v) => Some(v@),
        None => None,
    }
}

impl View for Scan {
    type V = ParseState;

    closed spec fn view(&self) -> ParseState {
        ParseState {
            entries: entry_views(self.entries@),
            in_block: self.in_block,
            name: self.name@,
            hostname: self.hostname@,
            user: self.user@,
            port: self.port,
            identity: opt_chars(self.identity),
            proxy: opt_chars(self.proxy),
        }
    }
}

fn opt_string_of(o: &Option<Vec<char>>) -> (r: Option<String>)
    ensures
        opt_view(r) == opt_chars(*o),
{
    match o {
        Some(v) => Some(string_of(v.as_slice())),
        None => None,
    }
}

/// Closes the current block, appending its entry when it makes one.
fn flush_scan(st: &mut Scan)
    ensures
        final(st)@.entries == flush(old(st)@),
        final(st)@.in_block == old(st)@.in_block,
{
    if st.in_block {
        let hostname_empty = st.hostname.len() == 0;
        if st.name.len() > 0 {
            let entry = HostEntry {
                name: string_of(st.name.as_slice()),
                hostname: if hostname_empty {
                    string_of(st.name.as_slice())
                } else {
                    string_of(st.hostname.as_slice())
                },
                username: string_of(st.user.as_slice()),
                port: st.port,
                identity_file: opt_string_of(&st.identity),
                proxy_jump: opt_string_of(&st.proxy),
            };
            let ghost before = st.entries@;
            st.entries.push(entry);
            assert(entry_views(st.entries@) =~= entry_views(before).push(entry@));
        }
    }
}

/// Reads one raw line.
fn scan_line(st: &mut Scan, raw: &[char])
    ensures
        final(st)@ == step(old(st)@, raw@),
{
    let line = trim_text(raw);
    let host_word = chars_of("host ");
    let is_host = line.len() >= 5 && eq_ignore_ascii_case_text(
        &line.as_slice()[0..5],
        host_word.as_slice(),
    );
    proof {
        if line.len() >= 5 {
            assert(line@.subrange(0, 5) =~= line@.take(5));
        }
    }
    if is_host {
        flush_scan(st);
        let rest: Vec<char> = sub_chars(line.as_slice(), 5, line.len());
        assert(rest@ =~= line@.skip(5));
        st.in_block = true;
        st.name = trim_text(rest.as_slice());
        st.hostname = Vec::new();
        st.user = Vec::new();
        st.port = 22;
        st.identity = None;
        st.proxy = None;
        assert(st@ == step(old(st)@, raw@));
    } else if st.in_block {
        let mut k: usize = 0;
        while k < line.len() && line[k] != ' '
            invariant
                k <= line@.len(),
                forall|m: int| 0 <= m < k ==> line@[m] != ' ',
            decreases line@.len() - k,
        {
            k += 1;
        }
        proof {
            lemma_find_char_at(line@, ' ', k as int);
        }
        if k < line.len() {
            let key: Vec<char> = sub_chars(line.as_slice(), 0, k);
            let after: Vec<char> = sub_chars(line.as_slice(), k + 1, line.len());
            assert(key@ =~= line@.take(k as int));
            assert(after@ =~= line@.skip(k + 1));
            let value = trim_text(after.as_slice());
            apply_setting_scan(st, key.as_slice(), value);
        }
    }
}

pub(crate) proof fn lemma_find_char_at(s: Seq<char>, c: char, k: int)
    requires
        0 <= k <= s.len(),
        forall|m: int| 0 <= m < k ==> s[m] != c,
        k < s.len() ==> s[k] == c,
    ensures
        find_char(s, c) == if k < s.len() {
            Some(k)
        } else {
            None::<int>
        },
    decreases k,
{
    if k > 0 {
        assert forall|m: int| 0 <= m < k - 1 implies s.drop_first()[m] != c by {
            assert(s.drop_first()[m] == s[m + 1]);
        }
        lemma_find_char_at(s.drop_first(), c, k - 1);
    }
}

/// Applies one setting inside a block.
fn apply_setting_scan(st: &mut Scan, key: &[char], value: Vec<char>)
    ensures
        final(st)@ == apply_setting(old(st)@, key@, value@),
{
    let hostname_key = chars_of("hostname");
    let user_key = chars_of("user");
    let port_key = chars_of("port");
    let identity_key = chars_of("identityfile");
    let proxy_key = chars_of("proxyjump");
    let j_key = chars_of("j");
    if eq_ignore_ascii_case_text(key, hostname_key.as_slice()) {
        st.hostname = value;
    } else if eq_ignore_ascii_case_text(key, user_key.as_slice()) {
        st.user = value;
    } else if eq_ignore_ascii_case_text(key, port_key.as_slice()) {
        st.port = match parse_u16(value.as_slice()) {
            Some(p) => p,
            None => 22,
        };
    } else if eq_ignore_ascii_case_text(key, identity_key.as_slice()) {
        st.identity = Some(value);
    } else if eq_ignore_ascii_case_text(key, proxy_key.as_slice()) || eq_ignore_ascii_case_text(
        key,
        j_key.as_slice(),
    ) {
        st.proxy = Some(value);
    }
}

/// The host blocks of an OpenSSH configuration text, in order.
pub fn parse_ssh_config(text: &str) -> (r: Vec<HostEntry>)
    ensures
        entry_views(r@) == parse_entries(text@),
{
    let cs = chars_of(text);
    let lines = split_chars(cs.as_slice(), '\n');
    let mut st = Scan {
        entries: Vec::new(),
        in_block: false,
        name: Vec::new(),
        hostname: Vec::new(),
        user: Vec::new(),
        port: 22,
        identity: None,
        proxy: None,
    };
    assert(st@ =~= initial_state()) by {
        assert(entry_views(st.entries@) =~= Seq::<HostEntryView>::empty());
    }
    let ghost all = char_views(lines@);
    let mut i: usize = 0;
    while i < lines.len()
        invariant
            i <= lines@.len(),
            all == char_views(lines@),
            all == split_on(text@, '\n'),
            st@ == parse_lines(all.take(i as int)),
        decreases lines@.len() - i,
    {
        scan_line(&mut st, lines[i].as_slice());
        assert(all.take(i + 1).drop_last() =~= all.take(i as int));
        assert(all.take(i + 1).last() == lines@[i as int]@);
        i += 1;
    }
    assert(all.take(lines@.len() as int) =~= all);
    flush_scan(&mut st);
    st.entries
}

/// A host made from an entry, with the given identifier.
pub open spec fn entry_host(e: HostEntryView, id: Seq<char>) -> SshHostView {
    SshHostView {
        port: e.port,
        identity_file: e.identity_file,
        proxy_jump: e.proxy_jump,
        ..fresh_host(id, e.name, e.hostname, e.username)
    }
}

/// A host made from an entry, with a fresh random identifier.
pub fn host_from_entry(e: HostEntry) -> (r: SshHost)
    ensures
        r@ == entry_host(e@, r@.id),
        uuid_v4_text(r@.id),
        distinct_keys(r@.env_vars),
{
    let mut host = SshHost::new(e.name, e.hostname, e.username);
    host.port = e.port;
    host.identity_file = e.identity_file;
    host.proxy_jump = e.proxy_jump;
    host
}

/// The hosts of an OpenSSH configuration text, each with a fresh random
/// version 4 UUID as identifier, and no groups.
pub fn import_ssh_config_text(text: &str) -> (r: HostsDatabase)
    ensures
        r@.groups.len() == 0,
        r@.hosts.len() == parse_entries(text@).len(),
        forall|i: int|
            0 <= i < r@.hosts.len() ==> #[trigger] r@.hosts[i] == entry_host(
                parse_entries(text@)[i],
                r@.hosts[i].id,
            ) && uuid_v4_text(r@.hosts[i].id),
{
    let entries = parse_ssh_config(text);
    let ghost ev = entry_views(entries@);
    let mut db = HostsDatabase::new();
    let mut taken: Vec<SshHost> = Vec::new();
    let n = entries.len();
    let mut k: usize = 0;
    while k < n
        invariant
            k <= n,
            n == entries@.len(),
            ev == entry_views(entries@),
            taken@.len() == k,
            forall|m: int|
                0 <= m < k ==> #[trigger] taken@[m]@ == entry_host(ev[m], taken@[m]@.id)
                    && uuid_v4_text(taken@[m]@.id),
        decreases n - k,
    {
        let e = &entries[k];
        let copy = HostEntry {
            name: e.name.clone(),
            hostname: e.hostname.clone(),
            username: e.username.clone(),
            port: e.port,
            identity_file: crate::models::copy_opt(&e.identity_file),
            proxy_jump: crate::models::copy_opt(&e.proxy_jump),
        };
        assert(copy@ == ev[k as int]);
        let h = host_from_entry(copy);
        taken.push(h);
        k += 1;
    }
    db.hosts = taken;
    db
}

// ---------------------------------------------------------------------------
// Writing
// ---------------------------------------------------------------------------

/// The first lines of an exported configuration.
pub open spec fn config_header() -> Seq<char> {
    "# SSHMan exported config\n"@ + "# Do not edit manually unless you know what you're doing\n\n"@
}

/// `    Key value` and a line break.
pub open spec fn setting_line(key: Seq<char>, value: Seq<char>) -> Seq<char> {
    "    "@ + key + " "@ + value + "\n"@
}

/// The `SetEnv` lines of a host, in order.
pub open spec fn env_lines(vars: Seq<(Seq<char>, Seq<char>)>) -> Seq<char>
    decreases vars.len(),
{
    if vars.len() == 0 {
        Seq::empty()
    } else {
        env_lines(vars.drop_last()) + "    SetEnv "@ + vars.last().0 + "="@ + vars.last().1 + "\n"@
    }
}

/// A setting line when the condition holds, nothing otherwise.
pub open spec fn setting_if(cond: bool, key: Seq<char>, value: Seq<char>) -> Seq<char> {
    if cond {
        setting_line(key, value)
    } else {
        Seq::empty()
    }
}

/// A setting line when the value is set and not empty, nothing otherwise.
pub open spec fn optional_setting(key: Seq<char>, value: Option<Seq<char>>) -> Seq<char> {
    match nonempty_option(value) {
        Some(v) => setting_line(key, v),
        None => Seq::empty(),
    }
}

/// The `Host` block of one host: its name, then `HostName` when it differs from
/// the name, `User` when not empty, `Port` unless 22, `IdentityFile` and
/// `ProxyJump` when set and not empty, the `SetEnv` lines, and a blank line.
pub open spec fn host_block(h: SshHostView) -> Seq<char> {
    "Host "@ + h.name + "\n"@ + setting_if(h.hostname != h.name, "HostName"@, h.hostname)
        + setting_if(h.username.len() > 0, "User"@, h.username) + setting_if(
        h.port != 22,
        "Port"@,
        decimal(h.port as nat),
    ) + optional_setting("IdentityFile"@, h.identity_file) + optional_setting(
        "ProxyJump"@,
        h.proxy_jump,
    ) + env_lines(h.env_vars) + "\n"@
}

/// The blocks of all hosts, in order.
pub open spec fn host_blocks(hosts: Seq<SshHostView>) -> Seq<char>
    decreases hosts.len(),
{
    if hosts.len() == 0 {
        Seq::empty()
    } else {
        host_blocks(hosts.drop_last()) + host_block(hosts.last())
    }
}

/// The exported OpenSSH configuration of a list of hosts.
pub open spec fn ssh_config_text_spec(hosts: Seq<SshHostView>) -> Seq<char> {
    config_header() + host_blocks(hosts)
}

/// Appends `    Key value` and a line break.
fn push_setting(out: &mut String, key: &str, value: &str)
    ensures
        final(out)@ == old(out)@ + setting_line(key@, value@),
{
    push_str(out, "    ");
    push_str(out, key);
    push_str(out, " ");
    push_str(out, value);
    push_str(out, "\n");
    assert(final(out)@ =~= old(out)@ + setting_line(key@, value@));
}

/// Appends a setting when its value is set and not empty.
fn push_optional_setting(out: &mut String, key: &str, value: &Option<String>)
    ensures
        final(out)@ == old(out)@ + optional_setting(key@, opt_view(*value)),
{
    match value {
        Some(v) => {
            if v.as_str().unicode_len() > 0 {
                push_setting(out, key, v.as_str());
            } else {
                assert(final(out)@ =~= old(out)@ + Seq::<char>::empty());
            }
        },
        None => {
            assert(final(out)@ =~= old(out)@ + Seq::<char>::empty());
        },
    }
}

/// Appends a setting when the condition holds.
fn push_setting_if(out: &mut String, cond: bool, key: &str, value: &str)
    ensures
        final(out)@ == old(out)@ + setting_if(cond, key@, value@),
{
    if cond {
        push_setting(out, key, value);
    } else {
        assert(final(out)@ =~= old(out)@ + Seq::<char>::empty());
    }
}

/// Appends the `SetEnv` lines of a host.
fn push_env_lines(out: &mut String, vars: &Vec<(String, String)>)
    ensures
        final(out)@ == old(out)@ + env_lines(pair_views(vars@)),
{
    let ghost d = out@;
    let mut i: usize = 0;
    assert(d =~= d + env_lines(pair_views(vars@).take(0)));
    while i < vars.len()
        invariant
            i <= vars@.len(),
            out@ == d + env_lines(pair_views(vars@).take(i as int)),
        decreases vars@.len() - i,
    {
        let ghost pre = out@;
        push_str(out, "    SetEnv ");
        push_str(out, vars[i].0.as_str());
        push_str(out, "=");
        push_str(out, vars[i].1.as_str());
        push_str(out, "\n");
        let ghost t = pair_views(vars@).take(i + 1);
        assert(t.drop_last() =~= pair_views(vars@).take(i as int));
        assert(t.last() == (vars@[i as int].0@, vars@[i as int].1@));
        assert(out@ =~= d + env_lines(t));
        i += 1;
    }
    assert(pair_views(vars@).take(vars@.len() as int) =~= pair_views(vars@));
}

/// Appends the block of one host.
#[verifier::rlimit(40)]
fn push_host_block(out: &mut String, h: &SshHost)
    ensures
        final(out)@ == old(out)@ + host_block(h@),
{
    let ghost start = out@;
    push_str(out, "Host ");
    push_str(out, h.name.as_str());
    push_str(out, "\n");
    let ghost a = "Host "@ + h@.name + "\n"@;
    assert(out@ =~= start + a);
    let differs = !crate::text::str_eq(h.hostname.as_str(), h.name.as_str());
    push_setting_if(out, differs, "HostName", h.hostname.as_str());
    let ghost b = a + setting_if(h@.hostname != h@.name, "HostName"@, h@.hostname);
    assert(out@ =~= start + b);
    let has_user = h.username.as_str().unicode_len() > 0;
    push_setting_if(out, has_user, "User", h.username.as_str());
    let ghost c = b + setting_if(h@.username.len() > 0, "User"@, h@.username);
    assert(out@ =~= start + c);
    let p = crate::text::decimal_string(h.port as u64);
    push_setting_if(out, h.port != 22, "Port", p.as_str());
    let ghost d = c + setting_if(h.port != 22, "Port"@, decimal(h.port as nat));
    assert(out@ =~= start + d);
    push_optional_setting(out, "IdentityFile", &h.identity_file);
    let ghost e = d + optional_setting("IdentityFile"@, h@.identity_file);
    assert(out@ =~= start + e);
    push_optional_setting(out, "ProxyJump", &h.proxy_jump);
    let ghost f = e + optional_setting("ProxyJump"@, h@.proxy_jump);
    assert(out@ =~= start + f);
    push_env_lines(out, &h.env_vars);
    let ghost g = f + env_lines(h@.env_vars);
    assert(out@ =~= start + g);
    push_str(out, "\n");
    assert(out@ =~= start + (g + "\n"@));
}

/// The exported OpenSSH configuration of the database's hosts.
pub fn ssh_config_text(db: &HostsDatabase) -> (r: String)
    ensures
        r@ == ssh_config_text_spec(db@.hosts),
{
    let mut out = owned("# SSHMan exported config\n");
    push_str(&mut out, "# Do not edit manually unless you know what you're doing\n\n");
    let ghost head = out@;
    let mut i: usize = 0;
    while i < db.hosts.len()
        invariant
            i <= db.hosts@.len(),
            head == config_header(),
            out@ == head + host_blocks(host_views(db.hosts@).take(i as int)),
        decreases db.hosts@.len() - i,
    {
        push_host_block(&mut out, &db.hosts[i]);
        let ghost t = host_views(db.hosts@).take(i + 1);
        assert(t.drop_last() =~= host_views(db.hosts@).take(i as int));
        assert(t.last() == db.hosts@[i as int]@);
        assert(out@ =~= head + host_blocks(t));
        i += 1;
    }
    assert(host_views(db.hosts@).take(db.hosts@.len() as int) =~= db@.hosts);
    out
}

/// A CSV field: quoted, with quotes doubled, when it holds a comma, a quote or
/// a line break; otherwise as it is.
pub open spec fn csv_field(s: Seq<char>) -> Seq<char> {
    if s.contains(',') || s.contains('"') || s.contains('\n') {
        "\""@ + replace_char(s, '"', "\"\""@) + "\""@
    } else {
        s
    }
}

/// A CSV field, quoted when needed.
pub fn escape_csv(s: &str) -> (r: String)
    ensures
        r@ == csv_field(s@),
{
    let cs = chars_of(s);
    if contains_char(cs.as_slice(), ',') || contains_char(cs.as_slice(), '"') || contains_char(
        cs.as_slice(),
        '\n',
    ) {
        let mut r = owned("\"");
        let inner = replace_char_text(cs.as_slice(), '"', "\"\"");
        push_str(&mut r, inner.as_str());
        push_str(&mut r, "\"");
        r
    } else {
        owned(s)
    }
}

/// The text of an optional value, empty when absent.
pub open spec fn or_empty(o: Option<Seq<char>>) -> Seq<char> {
    match o {
        Some(v) => v,
        None => Seq::empty(),
    }
}

/// `true` or `false`.
pub open spec fn bool_text(b: bool) -> Seq<char> {
    if b {
        "true"@
    } else {
        "false"@
    }
}

/// The first line of an exported CSV file.
pub open spec fn csv_header() -> Seq<char> {
    "name,hostname,username,port,identity_file,proxy_jump,tags,notes,is_favorite,connect_count\n"@
}

/// The CSV cells of one host, in column order.
pub open spec fn csv_cells(h: SshHostView) -> Seq<Seq<char>> {
    seq![
        csv_field(h.name),
        csv_field(h.hostname),
        csv_field(h.username),
        decimal(h.port as nat),
        csv_field(or_empty(h.identity_file)),
        csv_field(or_empty(h.proxy_jump)),
        csv_field(join(h.tags, ","@)),
        csv_field(or_empty(h.notes)),
        bool_text(h.is_favorite),
        decimal(h.connect_count as nat),
    ]
}

/// The CSV row of one host: its cells separated by commas, and a line break.
pub open spec fn csv_row(h: SshHostView) -> Seq<char> {
    join(csv_cells(h), ","@) + "\n"@
}

/// The rows of all hosts, in order.
pub open spec fn csv_rows(hosts: Seq<SshHostView>) -> Seq<char>
    decreases hosts.len(),
{
    if hosts.len() == 0 {
        Seq::empty()
    } else {
        csv_rows(hosts.drop_last()) + csv_row(hosts.last())
    }
}

/// The exported CSV text of a list of hosts.
pub open spec fn csv_text_spec(hosts: Seq<SshHostView>) -> Seq<char> {
    csv_header() + csv_rows(hosts)
}

fn opt_field(o: &Option<String>) -> (r: String)
    ensures
        r@ == csv_field(or_empty(opt_view(*o))),
{
    match o {
        Some(v) => escape_csv(v.as_str()),
        None => {
            let r = escape_csv("");
            proof {
                reveal_strlit("");
            }
            assert(""@ =~= Seq::<char>::empty());
            r
        },
    }
}

/// The CSV cells of one host.
fn csv_cells_of(h: &SshHost) -> (r: Vec<String>)
    ensures
        views(r@) == csv_cells(h@),
{
    let mut cells: Vec<String> = Vec::new();
    cells.push(escape_csv(h.name.as_str()));
    cells.push(escape_csv(h.hostname.as_str()));
    cells.push(escape_csv(h.username.as_str()));
    cells.push(crate::text::decimal_string(h.port as u64));
    cells.push(opt_field(&h.identity_file));
    cells.push(opt_field(&h.proxy_jump));
    let tags = join_strings(&h.tags, ",");
    cells.push(escape_csv(tags.as_str()));
    cells.push(opt_field(&h.notes));
    cells.push(if h.is_favorite {
        owned("true")
    } else {
        owned("false")
    });
    cells.push(crate::text::decimal_string(h.connect_count as u64));
    assert(views(cells@) =~= csv_cells(h@));
    cells
}

/// Appends the CSV row of one host.
fn push_csv_row(out: &mut String, h: &SshHost)
    ensures
        final(out)@ == old(out)@ + csv_row(h@),
{
    let cells = csv_cells_of(h);
    let row = join_strings(&cells, ",");
    push_str(out, row.as_str());
    push_str(out, "\n");
    assert(final(out)@ =~= old(out)@ + csv_row(h@));
}

/// The exported CSV text of the database's hosts.
pub fn csv_text(db: &HostsDatabase) -> (r: String)
    ensures
        r@ == csv_text_spec(db@.hosts),
{
    let mut out = owned(
        "name,hostname,username,port,identity_file,proxy_jump,tags,notes,is_favorite,connect_count\n",
    );
    let ghost head = out@;
    let mut i: usize = 0;
    while i < db.hosts.len()
        invariant
            i <= db.hosts@.len(),
            head == csv_header(),
            out@ == head + csv_rows(host_views(db.hosts@).take(i as int)),
        decreases db.hosts@.len() - i,
    {
        push_csv_row(&mut out, &db.hosts[i]);
        let ghost t = host_views(db.hosts@).take(i + 1);
        assert(t.drop_last() =~= host_views(db.hosts@).take(i as int));
        assert(t.last() == db.hosts@[i as int]@);
        assert(out@ =~= head + csv_rows(t));
        i += 1;
    }
    assert(host_views(db.hosts@).take(db.hosts@.len() as int) =~= db@.hosts);
    out
}

// ---------------------------------------------------------------------------
// Paths
// ---------------------------------------------------------------------------

/// `shellexpand::tilde`: a text that does not start with `~` comes back
/// unchanged; one that starts with `~/` comes back either unchanged (no home
/// directory) or with the `~` replaced by some home directory. Which home
/// directory depends on the environment and is not claimed.
#[verifier::external_body]
fn expand_tilde(input: &str) -> (r: String)
    ensures
        !(input@.len() > 0 && input@[0] == '~') ==> r@ == input@,
        (input@.len() > 1 && input@[0] == '~' && input@[1] == '/') ==> (r@ == input@ || exists|
            home: Seq<char>,
        | r@ == home + input@.skip(1)),
{
    shellexpand::tilde(input).into_owned()
}

/// The configuration file to read or write: the given path, or `~/.ssh/config`
/// with the home directory filled in.
pub fn ssh_config_path(path: Option<&str>) -> (r: String)
    ensures
        match path {
            Some(p) => r@ == p@,
            None => r@ == "~/.ssh/config"@ || exists|home: Seq<char>|
                r@ == home + "/.ssh/config"@,
        },
{
    match path {
        Some(p) => owned(p),
        None => {
            proof {
                reveal_strlit("~/.ssh/config");
                reveal_strlit("/.ssh/config");
                assert("~/.ssh/config"@.skip(1) =~= "/.ssh/config"@);
            }
            expand_tilde("~/.ssh/config")
        },
    }
}

/// A file to write: its path and its content.
pub struct ExportFile {
    pub path: String,
    pub content: String,
}

/// The file that exporting the database as an OpenSSH configuration writes: the
/// given path or `~/.ssh/config`, holding [`ssh_config_text_spec`].
pub fn export_ssh_config(db: &HostsDatabase, path: Option<&str>) -> (r: ExportFile)
    ensures
        r.content@ == ssh_config_text_spec(db@.hosts),
        path matches Some(p) ==> r.path@ == p@,
        path is None ==> (r.path@ == "~/.ssh/config"@ || exists|home: Seq<char>|
            r.path@ == home + "/.ssh/config"@),
{
    let target = ssh_config_path(path);
    ExportFile { path: target, content: ssh_config_text(db) }
}

/// The file that exporting the database as CSV writes: the given path or
/// `sshman_hosts.csv`, holding [`csv_text_spec`].
pub fn export_to_csv(db: &HostsDatabase, path: Option<&str>) -> (r: ExportFile)
    ensures
        r.content@ == csv_text_spec(db@.hosts),
        r.path@ == match path {
            Some(p) => p@,
            None => "sshman_hosts.csv"@,
        },
{
    let target = match path {
        Some(p) => owned(p),
        None => owned("sshman_hosts.csv"),
    };
    ExportFile { path: target, content: csv_text(db) }
}

} // verus!

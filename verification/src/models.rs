//! The host database: hosts, groups, and their mathematical views.
use vstd::prelude::*;
use vstd::string::*;
use crate::text::{decimal, owned, push_decimal, push_str, views};

verus! {

/// The view of an optional text.
pub open spec fn opt_view(o: Option<String>) -> Option<Seq<char>> {
    match o {
        Some(s) => Some(s@),
        None => None,
    }
}

/// The views of a list of key/value pairs of texts.
pub open spec fn pair_views(list: Seq<(String, String)>) -> Seq<(Seq<char>, Seq<char>)> {
    list.map_values(|p: (String, String)| (p.0@, p.1@))
}

/// A saved SSH destination.
#[derive(Debug)]
pub struct SshHost {
    pub id: String,
    pub name: String,
    pub hostname: String,
    pub username: String,
    pub port: u16,
    pub identity_file: Option<String>,
    pub password: Option<String>,
    pub tags: Vec<String>,
    pub notes: Option<String>,
    pub proxy_jump: Option<String>,
    /// Environment variables sent with `SetEnv`, in the order they are kept;
    /// the functions that build hosts keep their names distinct
    /// ([`distinct_keys`]).
    pub env_vars: Vec<(String, String)>,
    pub is_favorite: bool,
    pub connect_count: u32,
    pub last_connected: Option<i64>,
}

/// The mathematical value of an [`SshHost`].
pub struct SshHostView {
    pub id: Seq<char>,
    pub name: Seq<char>,
    pub hostname: Seq<char>,
    pub username: Seq<char>,
    pub port: u16,
    pub identity_file: Option<Seq<char>>,
    pub password: Option<Seq<char>>,
    pub tags: Seq<Seq<char>>,
    pub notes: Option<Seq<char>>,
    pub proxy_jump: Option<Seq<char>>,
    pub env_vars: Seq<(Seq<char>, Seq<char>)>,
    pub is_favorite: bool,
    pub connect_count: u32,
    pub last_connected: Option<i64>,
}

impl View for SshHost {
    type V = SshHostView;

    open spec fn view(&self) -> SshHostView {
        SshHostView {
            id: self.id@,
            name: self.name@,
            hostname: self.hostname@,
            username: self.username@,
            port: self.port,
            identity_file: opt_view(self.identity_file),
            password: opt_view(self.password),
            tags: views(self.tags@),
            notes: opt_view(self.notes),
            proxy_jump: opt_view(self.proxy_jump),
            env_vars: pair_views(self.env_vars@),
            is_favorite: self.is_favorite,
            connect_count: self.connect_count,
            last_connected: self.last_connected,
        }
    }
}

/// Whether no two environment entries share a name.
pub open spec fn distinct_keys(vars: Seq<(Seq<char>, Seq<char>)>) -> bool {
    forall|i: int, j: int|
        #![trigger vars[i], vars[j]]
        0 <= i < j < vars.len() ==> vars[i].0 != vars[j].0
}

/// The views of a list of hosts.
pub open spec fn host_views(list: Seq<SshHost>) -> Seq<SshHostView> {
    list.map_values(|h: SshHost| h@)
}

/// A host as [`SshHost::with_id`] builds it: port 22, no options, no statistics.
pub open spec fn fresh_host(
    id: Seq<char>,
    name: Seq<char>,
    hostname: Seq<char>,
    username: Seq<char>,
) -> SshHostView {
    SshHostView {
        id,
        name,
        hostname,
        username,
        port: 22,
        identity_file: None,
        password: None,
        tags: Seq::empty(),
        notes: None,
        proxy_jump: None,
        env_vars: Seq::empty(),
        is_favorite: false,
        connect_count: 0,
        last_connected: None,
    }
}

/// The shell command that reaches a host:
/// `ssh user@host`, then ` -p port` unless the port is 22, ` -i identity` and ` -J proxy`.
pub open spec fn ssh_command_spec(h: SshHostView) -> Seq<char> {
    let base = "ssh "@ + h.username + "@"@ + h.hostname;
    let with_port = if h.port != 22 {
        base + " -p "@ + decimal(h.port as nat)
    } else {
        base
    };
    let with_identity = match h.identity_file {
        Some(i) => with_port + " -i "@ + i,
        None => with_port,
    };
    match h.proxy_jump {
        Some(p) => with_identity + " -J "@ + p,
        None => with_identity,
    }
}

/// A copy of an optional text.
pub fn copy_opt(o: &Option<String>) -> (r: Option<String>)
    ensures
        opt_view(r) == opt_view(*o),
{
    match o {
        Some(s) => Some(s.clone()),
        None => None,
    }
}

/// A copy of a list of texts.
pub fn copy_strings(v: &Vec<String>) -> (r: Vec<String>)
    ensures
        views(r@) == views(v@),
{
    let mut r: Vec<String> = Vec::new();
    let mut i: usize = 0;
    while i < v.len()
        invariant
            i <= v.len(),
            r@.len() == i,
            forall|j: int| #![auto] 0 <= j < i ==> r@[j]@ == v@[j]@,
        decreases v.len() - i,
    {
        r.push(v[i].clone());
        i += 1;
    }
    assert(views(r@) =~= views(v@));
    r
}

/// A copy of a list of key/value pairs.
pub fn copy_pairs(v: &Vec<(String, String)>) -> (r: Vec<(String, String)>)
    ensures
        pair_views(r@) == pair_views(v@),
{
    let mut r: Vec<(String, String)> = Vec::new();
    let mut i: usize = 0;
    while i < v.len()
        invariant
            i <= v.len(),
            r@.len() == i,
            forall|j: int| #![auto] 0 <= j < i ==> r@[j].0@ == v@[j].0@ && r@[j].1@ == v@[j].1@,
        decreases v.len() - i,
    {
        let k = v[i].0.clone();
        let x = v[i].1.clone();
        r.push((k, x));
        i += 1;
    }
    assert(pair_views(r@) =~= pair_views(v@));
    r
}

/// A lower-case hexadecimal digit.
pub open spec fn is_hex_lower(c: char) -> bool {
    ('0' <= c <= '9') || ('a' <= c <= 'f')
}

/// Whether a text is the hyphenated lower-case form of a version 4 UUID:
/// 36 characters, hyphens at positions 8, 13, 18 and 23, hexadecimal digits
/// elsewhere, the version digit `4`, and a variant digit of `8` to `b`.
pub open spec fn uuid_v4_text(s: Seq<char>) -> bool {
    &&& s.len() == 36
    &&& forall|i: int|
        0 <= i < 36 ==> if i == 8 || i == 13 || i == 18 || i == 23 {
            s[i] == '-'
        } else {
            is_hex_lower(#[trigger] s[i])
        }
    &&& s[14] == '4'
    &&& (s[19] == '8' || s[19] == '9' || s[19] == 'a' || s[19] == 'b')
}

/// A fresh random identifier: `uuid::Uuid::new_v4().to_string()`. The crate
/// masks random bits with the version and variant and prints the value
/// hyphenated in lower-case hexadecimal; which random value comes out is not
/// claimed.
#[verifier::external_body]
fn new_uuid_text() -> (r: String)
    ensures
        uuid_v4_text(r@),
{
    uuid::Uuid::new_v4().to_string()
}

impl SshHost {
    /// A host with a fresh random identifier, port 22 and nothing else set.
    pub fn new(name: String, hostname: String, username: String) -> (r: SshHost)
        ensures
            r@ == fresh_host(r@.id, name@, hostname@, username@),
            distinct_keys(r@.env_vars),
            uuid_v4_text(r@.id),
    {
        let id = new_uuid_text();
        SshHost::with_id(id, name, hostname, username)
    }

    /// A host with the given identifier, port 22 and nothing else set.
    pub fn with_id(id: String, name: String, hostname: String, username: String) -> (r: SshHost)
        ensures
            r@ == fresh_host(id@, name@, hostname@, username@),
            distinct_keys(r@.env_vars),
    {
        let r = SshHost {
            id,
            name,
            hostname,
            username,
            port: 22,
            identity_file: None,
            password: None,
            tags: Vec::new(),
            notes: None,
            proxy_jump: None,
            env_vars: Vec::new(),
            is_favorite: false,
            connect_count: 0,
            last_connected: None,
        };
        assert(r@.tags =~= Seq::<Seq<char>>::empty());
        assert(r@.env_vars =~= Seq::<(Seq<char>, Seq<char>)>::empty());
        r
    }

    /// A copy of this host with the same value.
    pub fn copy(&self) -> (r: SshHost)
        ensures
            r@ == self@,
    {
        SshHost {
            id: self.id.clone(),
            name: self.name.clone(),
            hostname: self.hostname.clone(),
            username: self.username.clone(),
            port: self.port,
            identity_file: copy_opt(&self.identity_file),
            password: copy_opt(&self.password),
            tags: copy_strings(&self.tags),
            notes: copy_opt(&self.notes),
            proxy_jump: copy_opt(&self.proxy_jump),
            env_vars: copy_pairs(&self.env_vars),
            is_favorite: self.is_favorite,
            connect_count: self.connect_count,
            last_connected: self.last_connected,
        }
    }

    /// The shell command that reaches this host.
    pub fn ssh_command(&self) -> (r: String)
        ensures
            r@ == ssh_command_spec(self@),
    {
        let mut cmd = owned("ssh ");
        push_str(&mut cmd, self.username.as_str());
        push_str(&mut cmd, "@");
        push_str(&mut cmd, self.hostname.as_str());
        if self.port != 22 {
            push_str(&mut cmd, " -p ");
            push_decimal(&mut cmd, self.port as u64);
        }
        match &self.identity_file {
            Some(identity) => {
                push_str(&mut cmd, " -i ");
                push_str(&mut cmd, identity.as_str());
            },
            None => {},
        }
        match &self.proxy_jump {
            Some(proxy) => {
                push_str(&mut cmd, " -J ");
                push_str(&mut cmd, proxy.as_str());
            },
            None => {},
        }
        proof {
            reveal_strlit("ssh ");
            reveal_strlit("@");
            reveal_strlit(" -p ");
            reveal_strlit(" -i ");
            reveal_strlit(" -J ");
        }
        assert(cmd@ =~= ssh_command_spec(self@));
        cmd
    }
}

/// A named set of host identifiers.
#[derive(Debug)]
pub struct Group {
    pub id: String,
    pub name: String,
    pub hosts: Vec<String>,
    pub is_expanded: bool,
}

/// The mathematical value of a [`Group`].
pub struct GroupView {
    pub id: Seq<char>,
    pub name: Seq<char>,
    pub hosts: Seq<Seq<char>>,
    pub is_expanded: bool,
}

impl View for Group {
    type V = GroupView;

    open spec fn view(&self) -> GroupView {
        GroupView {
            id: self.id@,
            name: self.name@,
            hosts: views(self.hosts@),
            is_expanded: self.is_expanded,
        }
    }
}

/// The views of a list of groups.
pub open spec fn group_views(list: Seq<Group>) -> Seq<GroupView> {
    list.map_values(|g: Group| g@)
}

impl Group {
    /// A group with a fresh random identifier, no hosts, expanded.
    pub fn new(name: String) -> (r: Group)
        ensures
            r@.name == name@,
            r@.hosts == Seq::<Seq<char>>::empty(),
            r@.is_expanded,
            uuid_v4_text(r@.id),
    {
        let id = new_uuid_text();
        Group::with_id(id, name)
    }

    /// A group with the given identifier, no hosts, expanded.
    pub fn with_id(id: String, name: String) -> (r: Group)
        ensures
            r@ == (GroupView { id: id@, name: name@, hosts: Seq::empty(), is_expanded: true }),
    {
        let r = Group { id, name, hosts: Vec::new(), is_expanded: true };
        assert(r@.hosts =~= Seq::<Seq<char>>::empty());
        r
    }

    /// A copy of this group with the same value.
    pub fn copy(&self) -> (r: Group)
        ensures
            r@ == self@,
    {
        Group {
            id: self.id.clone(),
            name: self.name.clone(),
            hosts: copy_strings(&self.hosts),
            is_expanded: self.is_expanded,
        }
    }
}

/// All saved hosts and groups.
#[derive(Debug)]
pub struct HostsDatabase {
    pub hosts: Vec<SshHost>,
    pub groups: Vec<Group>,
}

/// The mathematical value of a [`HostsDatabase`].
pub struct HostsDatabaseView {
    pub hosts: Seq<SshHostView>,
    pub groups: Seq<GroupView>,
}

impl View for HostsDatabase {
    type V = HostsDatabaseView;

    open spec fn view(&self) -> HostsDatabaseView {
        HostsDatabaseView { hosts: host_views(self.hosts@), groups: group_views(self.groups@) }
    }
}

/// A copy of a list of hosts.
pub fn copy_hosts(v: &Vec<SshHost>) -> (r: Vec<SshHost>)
    ensures
        host_views(r@) == host_views(v@),
{
    let mut r: Vec<SshHost> = Vec::new();
    let mut i: usize = 0;
    while i < v.len()
        invariant
            i <= v.len(),
            r@.len() == i,
            forall|j: int| #![auto] 0 <= j < i ==> r@[j]@ == v@[j]@,
        decreases v.len() - i,
    {
        r.push(v[i].copy());
        i += 1;
    }
    assert(host_views(r@) =~= host_views(v@));
    r
}

/// A copy of a list of groups.
pub fn copy_groups(v: &Vec<Group>) -> (r: Vec<Group>)
    ensures
        group_views(r@) == group_views(v@),
{
    let mut r: Vec<Group> = Vec::new();
    let mut i: usize = 0;
    while i < v.len()
        invariant
            i <= v.len(),
            r@.len() == i,
            forall|j: int| #![auto] 0 <= j < i ==> r@[j]@ == v@[j]@,
        decreases v.len() - i,
    {
        r.push(v[i].copy());
        i += 1;
    }
    assert(group_views(r@) =~= group_views(v@));
    r
}

impl HostsDatabase {
    /// An empty database.
    pub fn new() -> (r: HostsDatabase)
        ensures
            r@.hosts == Seq::<SshHostView>::empty(),
            r@.groups == Seq::<GroupView>::empty(),
    {
        let r = HostsDatabase { hosts: Vec::new(), groups: Vec::new() };
        assert(r@.hosts =~= Seq::<SshHostView>::empty());
        assert(r@.groups =~= Seq::<GroupView>::empty());
        r
    }

    /// A copy of this database with the same value.
    pub fn copy(&self) -> (r: HostsDatabase)
        ensures
            r@ == self@,
    {
        HostsDatabase { hosts: copy_hosts(&self.hosts), groups: copy_groups(&self.groups) }
    }
}

} // verus!

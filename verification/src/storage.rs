//! Edits of the host database by identifier.
use vstd::prelude::*;
use crate::models::{
    group_views, host_views, Group, GroupView, HostsDatabase, HostsDatabaseView, SshHost,
    SshHostView,
};
use crate::text::str_eq;

verus! {

/// The index of the first host with identifier `id`, if any.
pub open spec fn host_index(hosts: Seq<SshHostView>, id: Seq<char>) -> Option<int>
    decreases hosts.len(),
{
    if hosts.len() == 0 {
        None
    } else if hosts[0].id == id {
        Some(0)
    } else {
        match host_index(hosts.drop_first(), id) {
            Some(i) => Some(i + 1),
            None => None,
        }
    }
}

/// The hosts whose identifier is not `id`, in their order.
pub open spec fn hosts_without(hosts: Seq<SshHostView>, id: Seq<char>) -> Seq<SshHostView>
    decreases hosts.len(),
{
    if hosts.len() == 0 {
        hosts
    } else if hosts.last().id == id {
        hosts_without(hosts.drop_last(), id)
    } else {
        hosts_without(hosts.drop_last(), id).push(hosts.last())
    }
}

/// The groups whose identifier is not `id`, in their order.
pub open spec fn groups_without(groups: Seq<GroupView>, id: Seq<char>) -> Seq<GroupView>
    decreases groups.len(),
{
    if groups.len() == 0 {
        groups
    } else if groups.last().id == id {
        groups_without(groups.drop_last(), id)
    } else {
        groups_without(groups.drop_last(), id).push(groups.last())
    }
}

/// The index found by `host_index` holds the first host with that identifier.
pub proof fn lemma_host_index(hosts: Seq<SshHostView>, id: Seq<char>)
    ensures
        match host_index(hosts, id) {
            Some(i) => 0 <= i < hosts.len() && hosts[i].id == id && forall|k: int|
                0 <= k < i ==> #[trigger] hosts[k].id != id,
            None => forall|k: int| 0 <= k < hosts.len() ==> #[trigger] hosts[k].id != id,
        },
    decreases hosts.len(),
{
    if hosts.len() > 0 && hosts[0].id != id {
        lemma_host_index(hosts.drop_first(), id);
        match host_index(hosts.drop_first(), id) {
            Some(i) => {
                assert forall|k: int| 0 <= k < i + 1 implies #[trigger] hosts[k].id != id by {
                    if k > 0 {
                        assert(hosts[k] == hosts.drop_first()[k - 1]);
                    }
                }
            },
            None => {
                assert forall|k: int| 0 <= k < hosts.len() implies #[trigger] hosts[k].id != id by {
                    if k > 0 {
                        assert(hosts[k] == hosts.drop_first()[k - 1]);
                    }
                }
            },
        }
    }
}

/// Removing by identifier never lengthens the list, and shortens it exactly when
/// some host has that identifier.
pub proof fn lemma_hosts_without_len(hosts: Seq<SshHostView>, id: Seq<char>)
    ensures
        hosts_without(hosts, id).len() <= hosts.len(),
        (hosts_without(hosts, id).len() < hosts.len()) <==> exists|k: int|
            0 <= k < hosts.len() && #[trigger] hosts[k].id == id,
        forall|k: int|
            0 <= k < hosts_without(hosts, id).len() ==> #[trigger] hosts_without(hosts, id)[k].id
                != id,
    decreases hosts.len(),
{
    if hosts.len() > 0 {
        let p = hosts.drop_last();
        lemma_hosts_without_len(p, id);
        if exists|k: int| 0 <= k < p.len() && #[trigger] p[k].id == id {
            let k = choose|k: int| 0 <= k < p.len() && #[trigger] p[k].id == id;
            assert(hosts[k] == p[k]);
        }
        if exists|k: int| 0 <= k < hosts.len() && #[trigger] hosts[k].id == id {
            let k = choose|k: int| 0 <= k < hosts.len() && #[trigger] hosts[k].id == id;
            if k < p.len() {
                assert(p[k] == hosts[k]);
            }
        }
    }
}

/// Removing groups by identifier: same facts as for hosts.
pub proof fn lemma_groups_without_len(groups: Seq<GroupView>, id: Seq<char>)
    ensures
        groups_without(groups, id).len() <= groups.len(),
        (groups_without(groups, id).len() < groups.len()) <==> exists|k: int|
            0 <= k < groups.len() && #[trigger] groups[k].id == id,
    decreases groups.len(),
{
    if groups.len() > 0 {
        let p = groups.drop_last();
        lemma_groups_without_len(p, id);
        if exists|k: int| 0 <= k < p.len() && #[trigger] p[k].id == id {
            let k = choose|k: int| 0 <= k < p.len() && #[trigger] p[k].id == id;
            assert(groups[k] == p[k]);
        }
        if exists|k: int| 0 <= k < groups.len() && #[trigger] groups[k].id == id {
            let k = choose|k: int| 0 <= k < groups.len() && #[trigger] groups[k].id == id;
            if k < p.len() {
                assert(p[k] == groups[k]);
            }
        }
    }
}

/// The index of the first host with identifier `id`.
pub fn find_host_index(hosts: &Vec<SshHost>, id: &str) -> (r: Option<usize>)
    ensures
        match r {
            Some(i) => host_index(host_views(hosts@), id@) == Some(i as int) && i < hosts@.len(),
            None => host_index(host_views(hosts@), id@) is None,
        },
{
    let mut i: usize = 0;
    assert(host_views(hosts@).skip(0) =~= host_views(hosts@));
    while i < hosts.len()
        invariant
            i <= hosts.len(),
            host_index(host_views(hosts@), id@) == match host_index(
                host_views(hosts@).skip(i as int),
                id@,
            ) {
                Some(k) => Some(k + i),
                None => None,
            },
        decreases hosts.len() - i,
    {
        let ghost rest = host_views(hosts@).skip(i as int);
        assert(rest.drop_first() =~= host_views(hosts@).skip(i + 1));
        assert(rest[0] == hosts@[i as int]@);
        if str_eq(hosts[i].id.as_str(), id) {
            return Some(i);
        }
        i += 1;
    }
    None
}

/// The hosts of a list whose identifier is not `id`.
pub fn retain_hosts_without(hosts: &Vec<SshHost>, id: &str) -> (r: Vec<SshHost>)
    ensures
        host_views(r@) == hosts_without(host_views(hosts@), id@),
{
    let mut r: Vec<SshHost> = Vec::new();
    let mut i: usize = 0;
    while i < hosts.len()
        invariant
            i <= hosts.len(),
            host_views(r@) == hosts_without(host_views(hosts@).take(i as int), id@),
        decreases hosts.len() - i,
    {
        let ghost pre = host_views(hosts@).take(i as int);
        assert(host_views(hosts@).take(i + 1).drop_last() =~= pre);
        assert(host_views(hosts@).take(i + 1).last() == hosts@[i as int]@);
        if !str_eq(hosts[i].id.as_str(), id) {
            let ghost old_r = r@;
            r.push(hosts[i].copy());
            assert(host_views(r@) =~= host_views(old_r).push(hosts@[i as int]@));
        }
        i += 1;
    }
    assert(host_views(hosts@).take(hosts.len() as int) =~= host_views(hosts@));
    r
}

/// The groups of a list whose identifier is not `id`.
pub fn retain_groups_without(groups: &Vec<Group>, id: &str) -> (r: Vec<Group>)
    ensures
        group_views(r@) == groups_without(group_views(groups@), id@),
{
    let mut r: Vec<Group> = Vec::new();
    let mut i: usize = 0;
    while i < groups.len()
        invariant
            i <= groups.len(),
            group_views(r@) == groups_without(group_views(groups@).take(i as int), id@),
        decreases groups.len() - i,
    {
        let ghost pre = group_views(groups@).take(i as int);
        assert(group_views(groups@).take(i + 1).drop_last() =~= pre);
        assert(group_views(groups@).take(i + 1).last() == groups@[i as int]@);
        if !str_eq(groups[i].id.as_str(), id) {
            let ghost old_r = r@;
            r.push(groups[i].copy());
            assert(group_views(r@) =~= group_views(old_r).push(groups@[i as int]@));
        }
        i += 1;
    }
    assert(group_views(groups@).take(groups.len() as int) =~= group_views(groups@));
    r
}

/// Appends a host to the database.
pub fn add_host(host: SshHost, db: &mut HostsDatabase)
    ensures
        final(db)@.hosts == old(db)@.hosts.push(host@),
        final(db)@.groups == old(db)@.groups,
{
    let ghost old_hosts = db.hosts@;
    db.hosts.push(host);
    assert(host_views(db.hosts@) =~= host_views(old_hosts).push(host@));
}

/// Replaces the first host with the same identifier as `host`; returns the
/// new host when one was replaced, and leaves the database unchanged otherwise.
pub fn update_host(host: SshHost, db: &mut HostsDatabase) -> (r: Option<SshHost>)
    ensures
        match host_index(old(db)@.hosts, host@.id) {
            Some(i) => r is Some && r->0@ == host@ && final(db)@.hosts == old(db)@.hosts.update(
                i,
                host@,
            ),
            None => r is None && final(db)@.hosts == old(db)@.hosts,
        },
        final(db)@.groups == old(db)@.groups,
{
    proof {
        lemma_host_index(host_views(db.hosts@), host@.id);
    }
    match find_host_index(&db.hosts, host.id.as_str()) {
        Some(i) => {
            assert(host_index(old(db)@.hosts, host@.id) == Some(i as int));
            let ghost old_hosts = db.hosts@;
            let replacement = host.copy();
            db.hosts.set(i, replacement);
            assert(host_views(db.hosts@) =~= host_views(old_hosts).update(i as int, host@));
            assert(old_hosts == old(db).hosts@);
            assert(db@.hosts == old(db)@.hosts.update(i as int, host@));
            Some(host)
        },
        None => None,
    }
}

/// Removes every host with identifier `id`; returns whether any was removed.
pub fn delete_host(id: &str, db: &mut HostsDatabase) -> (r: bool)
    ensures
        final(db)@.hosts == hosts_without(old(db)@.hosts, id@),
        final(db)@.groups == old(db)@.groups,
        r == exists|k: int| 0 <= k < old(db)@.hosts.len() && #[trigger] old(db)@.hosts[k].id == id@,
{
    let len_before = db.hosts.len();
    let kept = retain_hosts_without(&db.hosts, id);
    proof {
        lemma_hosts_without_len(host_views(db.hosts@), id@);
    }
    assert(host_views(kept@).len() == kept@.len());
    assert(host_views(db.hosts@).len() == db.hosts@.len());
    let removed = kept.len() < len_before;
    assert(removed == exists|k: int|
        0 <= k < old(db)@.hosts.len() && #[trigger] old(db)@.hosts[k].id == id@);
    db.hosts = kept;
    removed
}

/// Appends a group to the database.
pub fn add_group(group: Group, db: &mut HostsDatabase)
    ensures
        final(db)@.groups == old(db)@.groups.push(group@),
        final(db)@.hosts == old(db)@.hosts,
{
    let ghost old_groups = db.groups@;
    db.groups.push(group);
    assert(group_views(db.groups@) =~= group_views(old_groups).push(group@));
}

/// Removes every group with identifier `id`; returns whether any was removed.
pub fn delete_group(id: &str, db: &mut HostsDatabase) -> (r: bool)
    ensures
        final(db)@.groups == groups_without(old(db)@.groups, id@),
        final(db)@.hosts == old(db)@.hosts,
        r == exists|k: int|
            0 <= k < old(db)@.groups.len() && #[trigger] old(db)@.groups[k].id == id@,
{
    let len_before = db.groups.len();
    let kept = retain_groups_without(&db.groups, id);
    proof {
        lemma_groups_without_len(group_views(db.groups@), id@);
    }
    assert(group_views(kept@).len() == kept@.len());
    assert(group_views(db.groups@).len() == db.groups@.len());
    let removed = kept.len() < len_before;
    proof {
        if removed {
            let gs = group_views(db.groups@);
            let k = choose|k: int| 0 <= k < gs.len() && #[trigger] gs[k].id == id@;
            assert(old(db)@.groups[k].id == id@);
        }
    }
    assert(removed == exists|k: int|
        0 <= k < old(db)@.groups.len() && #[trigger] old(db)@.groups[k].id == id@);
    db.groups = kept;
    removed
}

/// Appends the hosts and groups of another database; answers how many hosts
/// were added.
pub fn extend_database(db: &mut HostsDatabase, other: HostsDatabase) -> (r: usize)
    ensures
        final(db)@.hosts == old(db)@.hosts + other@.hosts,
        final(db)@.groups == old(db)@.groups + other@.groups,
        r == other@.hosts.len(),
{
    let mut other = other;
    let count = other.hosts.len();
    let ghost oh = other.hosts@;
    let ghost og = other.groups@;
    let ghost h0 = db.hosts@;
    let ghost g0 = db.groups@;
    db.hosts.append(&mut other.hosts);
    db.groups.append(&mut other.groups);
    assert(host_views(db.hosts@) =~= host_views(h0) + host_views(oh));
    assert(group_views(db.groups@) =~= group_views(g0) + group_views(og));
    count
}

/// The first host with the given identifier when one is given, else the first
/// host with the given name when one is given, else none.
pub open spec fn found_host(
    hosts: Seq<SshHostView>,
    name: Option<Seq<char>>,
    id: Option<Seq<char>>,
) -> Option<SshHostView> {
    match id {
        Some(i) => match host_index(hosts, i) {
            Some(k) => Some(hosts[k]),
            None => None,
        },
        None => match name {
            Some(n) => match name_index(hosts, n) {
                Some(k) => Some(hosts[k]),
                None => None,
            },
            None => None,
        },
    }
}

/// The index of the first host with the given name, if any.
pub open spec fn name_index(hosts: Seq<SshHostView>, name: Seq<char>) -> Option<int>
    decreases hosts.len(),
{
    if hosts.len() == 0 {
        None
    } else if hosts[0].name == name {
        Some(0)
    } else {
        match name_index(hosts.drop_first(), name) {
            Some(i) => Some(i + 1),
            None => None,
        }
    }
}

/// The index of the first host with the given name.
fn find_name_index(hosts: &Vec<SshHost>, name: &str) -> (r: Option<usize>)
    ensures
        match r {
            Some(i) => name_index(host_views(hosts@), name@) == Some(i as int) && i < hosts@.len(),
            None => name_index(host_views(hosts@), name@) is None,
        },
{
    let mut i: usize = 0;
    assert(host_views(hosts@).skip(0) =~= host_views(hosts@));
    while i < hosts.len()
        invariant
            i <= hosts.len(),
            name_index(host_views(hosts@), name@) == match name_index(
                host_views(hosts@).skip(i as int),
                name@,
            ) {
                Some(k) => Some(k + i),
                None => None,
            },
        decreases hosts.len() - i,
    {
        let ghost rest = host_views(hosts@).skip(i as int);
        assert(rest.drop_first() =~= host_views(hosts@).skip(i + 1));
        assert(rest[0] == hosts@[i as int]@);
        if str_eq(hosts[i].name.as_str(), name) {
            return Some(i);
        }
        i += 1;
    }
    None
}

/// The host that a command line names: by identifier when one is given, else
/// by name when one is given.
pub fn find_host<'a>(db: &'a HostsDatabase, name: Option<&str>, id: Option<&str>) -> (r: Option<
    &'a SshHost,
>)
    ensures
        match found_host(db@.hosts, crate::ssh::opt_str_view(name), crate::ssh::opt_str_view(id)) {
            Some(h) => r is Some && r->0@ == h,
            None => r is None,
        },
{
    match id {
        Some(i) => match find_host_index(&db.hosts, i) {
            Some(k) => Some(&db.hosts[k]),
            None => None,
        },
        None => match name {
            Some(n) => match find_name_index(&db.hosts, n) {
                Some(k) => Some(&db.hosts[k]),
                None => None,
            },
            None => None,
        },
    }
}

} // verus!

//! Creating hosts and recording connections.
use vstd::prelude::*;
use crate::models::{
    fresh_host, host_views, opt_view, HostsDatabase, HostsDatabaseView, SshHost, SshHostView, uuid_v4_text, distinct_keys,
};
use crate::storage::{find_host_index, host_index, lemma_host_index};
use crate::text::views;

verus! {

/// A host with a fresh identifier and the given settings: the port when given
/// (22 otherwise), no tags when none are given.
pub fn create_host(
    name: String,
    hostname: String,
    username: String,
    port: Option<u16>,
    identity_file: Option<String>,
    tags: Option<Vec<String>>,
    notes: Option<String>,
    proxy_jump: Option<String>,
) -> (r: SshHost)
    ensures
        r@ == (SshHostView {
            port: match port {
                Some(p) => p,
                None => 22,
            },
            identity_file: opt_view(identity_file),
            tags: match tags {
                Some(t) => views(t@),
                None => Seq::empty(),
            },
            notes: opt_view(notes),
            proxy_jump: opt_view(proxy_jump),
            ..fresh_host(r@.id, name@, hostname@, username@)
        }),
        uuid_v4_text(r@.id),
        distinct_keys(r@.env_vars),
{
    let mut host = SshHost::new(name, hostname, username);
    match port {
        Some(p) => {
            host.port = p;
        },
        None => {},
    }
    host.identity_file = identity_file;
    host.tags = match tags {
        Some(t) => t,
        None => {
            let empty: Vec<String> = Vec::new();
            assert(views(empty@) =~= Seq::<Seq<char>>::empty());
            empty
        },
    };
    host.notes = notes;
    host.proxy_jump = proxy_jump;
    host
}

/// A host with one more connection, made at `now`.
pub open spec fn connected_at(h: SshHostView, now: i64) -> SshHostView {
    SshHostView { connect_count: (h.connect_count + 1) as u32, last_connected: Some(now), ..h }
}

/// Whether recording a connection to a host identifier stays within the counter's range.
pub open spec fn can_record(db: HostsDatabaseView, host_id: Seq<char>) -> bool {
    match host_index(db.hosts, host_id) {
        Some(i) => db.hosts[i].connect_count < u32::MAX,
        None => true,
    }
}

/// Counts a connection, made at `now`, on the first host with the identifier;
/// answers whether there was one.
pub fn record_connection(host_id: &str, db: &mut HostsDatabase, now: i64) -> (r: bool)
    requires
        can_record(old(db)@, host_id@),
    ensures
        match host_index(old(db)@.hosts, host_id@) {
            Some(i) => r && final(db)@.hosts == old(db)@.hosts.update(
                i,
                connected_at(old(db)@.hosts[i], now),
            ),
            None => !r && final(db)@.hosts == old(db)@.hosts,
        },
        final(db)@.groups == old(db)@.groups,
{
    proof {
        lemma_host_index(host_views(db.hosts@), host_id@);
    }
    match find_host_index(&db.hosts, host_id) {
        Some(i) => {
            let mut h = db.hosts[i].copy();
            h.connect_count = h.connect_count + 1;
            h.last_connected = Some(now);
            let ghost hv = h@;
            let ghost before = db.hosts@;
            db.hosts.set(i, h);
            assert(host_views(db.hosts@) =~= host_views(before).update(i as int, hv));
            true
        },
        None => false,
    }
}

/// The current time as a Unix timestamp in seconds (`chrono::Utc::now().timestamp()`).
/// It depends on the clock, so which time is not claimed. chrono reads the
/// system clock as a duration since the epoch (and panics on a clock set
/// before it), so a time that comes back is not negative.
#[verifier::external_body]
pub(crate) fn unix_now() -> (r: i64)
    ensures
        r >= 0,
{
    chrono::Utc::now().timestamp()
}

/// Counts a connection, made now (a time not before the epoch), on the first
/// host with the identifier;
/// answers whether there was one (the database then needs writing).
pub fn update_connection_stats(host_id: &str, db: &mut HostsDatabase) -> (r: bool)
    requires
        can_record(old(db)@, host_id@),
    ensures
        match host_index(old(db)@.hosts, host_id@) {
            Some(i) => r && exists|now: i64|
                now >= 0 && final(db)@.hosts == old(db)@.hosts.update(
                    i,
                    connected_at(old(db)@.hosts[i], now),
                ),
            None => !r && final(db)@.hosts == old(db)@.hosts,
        },
        final(db)@.groups == old(db)@.groups,
{
    let now = unix_now();
    record_connection(host_id, db, now)
}

} // verus!

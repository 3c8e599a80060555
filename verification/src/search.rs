//! Fuzzy search over hosts and the sort keys of the host list.
use vstd::prelude::*;
use fuzzy_matcher::FuzzyMatcher;
use crate::models::{host_views, SshHost, SshHostView};
use crate::sorting::{key_views, sorted_by_keys, SortKey};
use crate::text::chars_of;

verus! {

/// What `str::to_lowercase` returns for a text (Unicode lower-casing).
pub uninterp spec fn lowercase(s: Seq<char>) -> Seq<char>;

/// What `fuzzy_matcher`'s default `SkimMatcherV2` scores `choice` against `pattern`.
pub uninterp spec fn skim_score(choice: Seq<char>, pattern: Seq<char>) -> Option<i64>;

/// `str::to_lowercase`: Unicode lower-casing; the result is the named value
/// [`lowercase`] of the argument. As documented, each character lower-cases to
/// one or more characters, so the result is empty exactly when the argument is.
#[verifier::external_body]
pub(crate) fn to_lowercase(s: &str) -> (r: String)
    ensures
        r@ == lowercase(s@),
        r@.len() == 0 <==> s@.len() == 0,
{
    s.to_lowercase()
}

/// `FuzzyMatcher::fuzzy_match` of `SkimMatcherV2::default()`: the score is the
/// named value [`skim_score`]. The matcher's source computes the score as an
/// `i32` matrix cell widened to `i64`, and answers `Some(0)` for an empty pattern.
#[verifier::external_body]
pub(crate) fn skim_fuzzy_match(choice: &str, pattern: &str) -> (r: Option<i64>)
    ensures
        r == skim_score(choice@, pattern@),
        r matches Some(v) ==> i32::MIN <= v <= i32::MAX,
        pattern@.len() == 0 ==> r == Some(0i64),
{
    fuzzy_matcher::skim::SkimMatcherV2::default().fuzzy_match(choice, pattern)
}

/// A score, or zero where there is no match.
pub open spec fn score_or_zero(o: Option<i64>) -> int {
    match o {
        Some(v) => v as int,
        None => 0,
    }
}

/// Whether a score is one that the matcher can give.
pub open spec fn matcher_score(o: Option<i64>) -> bool {
    o matches Some(v) ==> i32::MIN <= v <= i32::MAX
}

/// The sum of the scores that match.
pub open spec fn scores_sum(scores: Seq<Option<i64>>) -> int
    decreases scores.len(),
{
    if scores.len() == 0 {
        0
    } else {
        scores_sum(scores.drop_last()) + score_or_zero(scores.last())
    }
}

/// The relevance of a host from the scores of its fields: the name counts ten
/// times, the host name five, the user three, plus every matching tag.
pub open spec fn score_total(
    name: Option<i64>,
    hostname: Option<i64>,
    username: Option<i64>,
    tags: Seq<Option<i64>>,
) -> int {
    score_or_zero(name) * 10 + score_or_zero(hostname) * 5 + score_or_zero(username) * 3
        + scores_sum(tags)
}

/// The matcher's scores of the tags against a query.
pub open spec fn tag_scores(tags: Seq<Seq<char>>, query: Seq<char>) -> Seq<Option<i64>> {
    tags.map_values(|t: Seq<char>| skim_score(t, query))
}

/// The relevance of a host to a query.
pub open spec fn host_score(h: SshHostView, query: Seq<char>) -> int {
    score_total(
        skim_score(h.name, query),
        skim_score(h.hostname, query),
        skim_score(h.username, query),
        tag_scores(h.tags, query),
    )
}

/// The hosts paired with their scores.
pub open spec fn scored_hosts(hosts: Seq<SshHostView>, query: Seq<char>) -> Seq<(SshHostView, int)> {
    Seq::new(hosts.len(), |i: int| (hosts[i], host_score(hosts[i], query)))
}

/// The pairs with a positive score, in order.
pub open spec fn positive_scored(scored: Seq<(SshHostView, int)>) -> Seq<(SshHostView, int)>
    decreases scored.len(),
{
    if scored.len() == 0 {
        scored
    } else if scored.last().1 > 0 {
        positive_scored(scored.drop_last()).push(scored.last())
    } else {
        positive_scored(scored.drop_last())
    }
}

/// The hosts with a positive score, highest score first; hosts with equal
/// scores keep their order.
pub open spec fn ranked(scored: Seq<(SshHostView, int)>) -> Seq<SshHostView> {
    let kept = positive_scored(scored);
    sorted_by_keys(
        kept.map_values(|e: (SshHostView, int)| e.0),
        kept.map_values(|e: (SshHostView, int)| (-e.1, Seq::<char>::empty())),
    )
}

/// Hosts paired with given scores.
pub open spec fn with_scores(hosts: Seq<SshHostView>, scores: Seq<i128>) -> Seq<(SshHostView, int)> {
    Seq::new(hosts.len(), |i: int| (hosts[i], scores[i] as int))
}

/// Combines the matcher's scores of a host's fields into its relevance.
pub fn combined_score(
    name: Option<i64>,
    hostname: Option<i64>,
    username: Option<i64>,
    tags: &Vec<Option<i64>>,
) -> (r: i128)
    requires
        matcher_score(name),
        matcher_score(hostname),
        matcher_score(username),
        forall|k: int| 0 <= k < tags@.len() ==> matcher_score(#[trigger] tags@[k]),
    ensures
        r as int == score_total(name, hostname, username, tags@),
{
    let n = score_opt(name);
    let m = score_opt(hostname);
    let u = score_opt(username);
    let mut sum: i128 = 0;
    let mut i: usize = 0;
    while i < tags.len()
        invariant
            i <= tags@.len(),
            forall|k: int| 0 <= k < tags@.len() ==> matcher_score(#[trigger] tags@[k]),
            sum as int == scores_sum(tags@.take(i as int)),
            -(i as int) * 2147483648 <= sum <= (i as int) * 2147483648,
        decreases tags@.len() - i,
    {
        let s = score_opt(tags[i]);
        assert(tags@.take(i + 1).drop_last() =~= tags@.take(i as int));
        assert(tags@.take(i + 1).last() == tags@[i as int]);
        sum = sum + s;
        i += 1;
    }
    assert(tags@.take(tags@.len() as int) =~= tags@);
    n * 10 + m * 5 + u * 3 + sum
}

/// The score of one host against a query.
pub fn score_host(h: &SshHost, query: &str) -> (r: i128)
    ensures
        r as int == host_score(h@, query@),
{
    let n = skim_fuzzy_match(h.name.as_str(), query);
    let m = skim_fuzzy_match(h.hostname.as_str(), query);
    let u = skim_fuzzy_match(h.username.as_str(), query);
    let mut tags: Vec<Option<i64>> = Vec::new();
    let mut i: usize = 0;
    while i < h.tags.len()
        invariant
            i <= h.tags@.len(),
            tags@ == tag_scores(h@.tags.take(i as int), query@),
            forall|k: int| 0 <= k < tags@.len() ==> matcher_score(#[trigger] tags@[k]),
        decreases h.tags@.len() - i,
    {
        let t = skim_fuzzy_match(h.tags[i].as_str(), query);
        let ghost before = tags@;
        tags.push(t);
        assert(tags@ =~= tag_scores(h@.tags.take(i + 1), query@)) by {
            assert(h@.tags.take(i + 1)[i as int] == h.tags@[i as int]@);
        }
        i += 1;
    }
    assert(h@.tags.take(h.tags@.len() as int) =~= h@.tags);
    combined_score(n, m, u, &tags)
}

/// A score widened, or zero where there is no match.
fn score_opt(o: Option<i64>) -> (r: i128)
    requires
        matcher_score(o),
    ensures
        r as int == score_or_zero(o),
        -2147483648 <= r <= 2147483647,
{
    match o {
        Some(v) => v as i128,
        None => 0,
    }
}

/// The hosts with a positive score, highest score first; hosts with equal
/// scores keep their order.
pub fn rank_by_score(hosts: &Vec<SshHost>, scores: &Vec<i128>) -> (r: Vec<SshHost>)
    requires
        hosts@.len() == scores@.len(),
    ensures
        host_views(r@) == ranked(with_scores(host_views(hosts@), scores@)),
{
    let ghost all = with_scores(host_views(hosts@), scores@);
    let mut kept: Vec<SshHost> = Vec::new();
    let mut keys: Vec<SortKey> = Vec::new();
    let mut i: usize = 0;
    while i < hosts.len()
        invariant
            i <= hosts@.len(),
            hosts@.len() == scores@.len(),
            all == with_scores(host_views(hosts@), scores@),
            host_views(kept@) == positive_scored(all.take(i as int)).map_values(
                |e: (SshHostView, int)| e.0,
            ),
            key_views(keys@) == positive_scored(all.take(i as int)).map_values(
                |e: (SshHostView, int)| (-e.1, Seq::<char>::empty()),
            ),
        decreases hosts@.len() - i,
    {
        let ghost pre = all.take(i as int);
        assert(all.take(i + 1).drop_last() =~= pre);
        assert(all.take(i + 1).last() == (hosts@[i as int]@, scores@[i as int] as int));
        let score = scores[i];
        if score > 0 {
            let ghost old_kept = kept@;
            let ghost old_keys = keys@;
            kept.push(hosts[i].copy());
            keys.push(SortKey { rank: -score, text: Vec::new() });
            let ghost p = positive_scored(all.take(i + 1));
            assert(p == positive_scored(pre).push(all.take(i + 1).last()));
            assert(host_views(kept@) =~= host_views(old_kept).push(hosts@[i as int]@));
            assert(host_views(kept@) =~= p.map_values(|e: (SshHostView, int)| e.0));
            assert(keys@.last().text@ =~= Seq::<char>::empty());
            assert(key_views(keys@) =~= key_views(old_keys).push(keys@.last()@));
            assert(key_views(keys@) =~= p.map_values(
                |e: (SshHostView, int)| (-e.1, Seq::<char>::empty()),
            ));
        }
        i += 1;
    }
    assert(all.take(hosts@.len() as int) =~= all);
    crate::sorting::sort_hosts_by_keys(&kept, &keys)
}

/// The hosts that match a query (`score > 0`), highest score first; hosts with
/// equal scores keep their order.
pub fn search_hosts(hosts: &Vec<SshHost>, query: &str) -> (r: Vec<SshHost>)
    ensures
        host_views(r@) == ranked(scored_hosts(host_views(hosts@), query@)),
{
    let mut scores: Vec<i128> = Vec::new();
    let mut i: usize = 0;
    while i < hosts.len()
        invariant
            i <= hosts@.len(),
            scores@.len() == i,
            forall|k: int| 0 <= k < i ==> #[trigger] scores@[k] as int == host_score(
                hosts@[k]@,
                query@,
            ),
        decreases hosts@.len() - i,
    {
        let s = score_host(&hosts[i], query);
        scores.push(s);
        i += 1;
    }
    assert(with_scores(host_views(hosts@), scores@) =~= scored_hosts(host_views(hosts@), query@));
    rank_by_score(hosts, &scores)
}

/// The characters of the lower-cased text.
pub fn lowercase_chars(s: &str) -> (r: Vec<char>)
    ensures
        r@ == lowercase(s@),
{
    let l = to_lowercase(s);
    chars_of(l.as_str())
}

} // verus!

//! Stable sorting of hosts by a key of a number and a text, and its laws.
use vstd::prelude::*;
use crate::models::{host_views, SshHost, SshHostView};
use crate::text::{lemma_lex_le_refl, lemma_lex_le_total, lemma_lex_le_trans, lex_le, lex_le_text};

verus! {

/// A sort key: ordered by `rank` first, then by `text` lexicographically.
pub struct SortKey {
    pub rank: i128,
    pub text: Vec<char>,
}

/// The mathematical value of a sort key.
pub type Key = (int, Seq<char>);

impl View for SortKey {
    type V = Key;

    open spec fn view(&self) -> Key {
        (self.rank as int, self.text@)
    }
}

/// The views of a list of keys.
pub open spec fn key_views(keys: Seq<SortKey>) -> Seq<Key> {
    keys.map_values(|k: SortKey| k@)
}

/// The order of keys: by rank, then by text.
pub open spec fn key_le(a: Key, b: Key) -> bool {
    a.0 < b.0 || (a.0 == b.0 && lex_le(a.1, b.1))
}

/// Inserts `x` into `sorted` after every entry whose key is at most its key,
/// scanning from the end: the insertion step of a stable insertion sort.
pub open spec fn insert_stable(sorted: Seq<(Key, int)>, x: (Key, int)) -> Seq<(Key, int)>
    decreases sorted.len(),
{
    if sorted.len() == 0 {
        seq![x]
    } else if key_le(sorted.last().0, x.0) {
        sorted.push(x)
    } else {
        insert_stable(sorted.drop_last(), x).push(sorted.last())
    }
}

/// Stable insertion sort of keyed entries.
pub open spec fn stable_sort(s: Seq<(Key, int)>) -> Seq<(Key, int)>
    decreases s.len(),
{
    if s.len() == 0 {
        s
    } else {
        insert_stable(stable_sort(s.drop_last()), s.last())
    }
}

/// Each key paired with its position.
pub open spec fn tag_keys(keys: Seq<Key>) -> Seq<(Key, int)> {
    Seq::new(keys.len(), |i: int| (keys[i], i))
}

/// The items, reordered by a stable sort of their keys.
pub open spec fn sorted_by_keys(items: Seq<SshHostView>, keys: Seq<Key>) -> Seq<SshHostView> {
    stable_sort(tag_keys(keys)).map_values(|p: (Key, int)| items[p.1])
}

/// Whether a list of entries is ordered by key.
pub open spec fn sorted_entries(s: Seq<(Key, int)>) -> bool {
    forall|i: int, j: int| 0 <= i < j < s.len() ==> key_le(#[trigger] s[i].0, #[trigger] s[j].0)
}

// ---------------------------------------------------------------------------
// Laws
// ---------------------------------------------------------------------------

/// The key order is total.
pub proof fn lemma_key_le_total(a: Key, b: Key)
    ensures
        key_le(a, b) || key_le(b, a),
{
    lemma_lex_le_total(a.1, b.1);
}

/// The key order is transitive.
pub proof fn lemma_key_le_trans(a: Key, b: Key, c: Key)
    requires
        key_le(a, b),
        key_le(b, c),
    ensures
        key_le(a, c),
{
    if a.0 == b.0 && b.0 == c.0 {
        lemma_lex_le_trans(a.1, b.1, c.1);
    }
}

/// The key order is reflexive.
pub proof fn lemma_key_le_refl(a: Key)
    ensures
        key_le(a, a),
{
    lemma_lex_le_refl(a.1);
}

/// Inserting into an ordered list keeps it ordered.
pub proof fn lemma_insert_stable_sorted(s: Seq<(Key, int)>, x: (Key, int))
    requires
        sorted_entries(s),
    ensures
        sorted_entries(insert_stable(s, x)),
        insert_stable(s, x).to_multiset() == s.to_multiset().insert(x),
        insert_stable(s, x).len() == s.len() + 1,
        s.len() > 0 ==> (insert_stable(s, x).last() == s.last() || insert_stable(s, x).last()
            == x),
    decreases s.len(),
{
    broadcast use vstd::seq_lib::group_to_multiset_ensures;
    if s.len() == 0 {
        assert(insert_stable(s, x) =~= seq![x]);
    } else if key_le(s.last().0, x.0) {
        let r = s.push(x);
        assert forall|i: int, j: int| 0 <= i < j < r.len() implies key_le(
            #[trigger] r[i].0,
            #[trigger] r[j].0,
        ) by {
            if j == s.len() {
                if i < s.len() - 1 {
                    assert(key_le(s[i].0, s[s.len() - 1].0));
                    lemma_key_le_trans(s[i].0, s.last().0, x.0);
                }
            } else {
                assert(r[i] == s[i] && r[j] == s[j]);
            }
        }
    } else {
        let p = s.drop_last();
        assert(sorted_entries(p)) by {
            assert forall|i: int, j: int| 0 <= i < j < p.len() implies key_le(
                #[trigger] p[i].0,
                #[trigger] p[j].0,
            ) by {
                assert(p[i] == s[i] && p[j] == s[j]);
            }
        }
        lemma_insert_stable_sorted(p, x);
        let q = insert_stable(p, x);
        let r = q.push(s.last());
        assert(insert_stable(s, x) == r);
        lemma_key_le_total(s.last().0, x.0);
        assert forall|i: int, j: int| 0 <= i < j < r.len() implies key_le(
            #[trigger] r[i].0,
            #[trigger] r[j].0,
        ) by {
            if j == q.len() {
                // every entry of q is either x or an entry of p, all at most s.last()
                let e = q[i];
                assert(q.to_multiset().count(e) > 0);
                assert(q.to_multiset() == p.to_multiset().insert(x));
                if e != x {
                    assert(p.to_multiset().count(e) > 0);
                    assert(p.contains(e));
                    let k = choose|k: int| 0 <= k < p.len() && p[k] == e;
                    assert(s[k] == e);
                    assert(key_le(s[k].0, s[s.len() - 1].0));
                }
            } else {
                assert(r[i] == q[i] && r[j] == q[j]);
            }
        }
        assert(s =~= p.push(s.last()));
    }
}

/// Stable sorting yields an ordered permutation of the entries.
pub proof fn lemma_stable_sort_sorted(s: Seq<(Key, int)>)
    ensures
        sorted_entries(stable_sort(s)),
        stable_sort(s).to_multiset() == s.to_multiset(),
        stable_sort(s).len() == s.len(),
    decreases s.len(),
{
    broadcast use vstd::seq_lib::group_to_multiset_ensures;
    if s.len() > 0 {
        lemma_stable_sort_sorted(s.drop_last());
        lemma_insert_stable_sorted(stable_sort(s.drop_last()), s.last());
        assert(s =~= s.drop_last().push(s.last()));
    }
}

/// Stable sorting leaves an ordered list as it is.
pub proof fn lemma_stable_sort_ordered(s: Seq<(Key, int)>)
    requires
        sorted_entries(s),
    ensures
        stable_sort(s) == s,
    decreases s.len(),
{
    if s.len() > 0 {
        let p = s.drop_last();
        assert(sorted_entries(p)) by {
            assert forall|i: int, j: int| 0 <= i < j < p.len() implies key_le(
                #[trigger] p[i].0,
                #[trigger] p[j].0,
            ) by {
                assert(p[i] == s[i] && p[j] == s[j]);
            }
        }
        lemma_stable_sort_ordered(p);
        if p.len() == 0 {
            assert(insert_stable(p, s.last()) =~= s);
        } else {
            assert(p.last() == s[s.len() - 2]);
            assert(s.last() == s[s.len() - 1]);
            assert(key_le(s[s.len() - 2].0, s[s.len() - 1].0));
            assert(p.push(s.last()) =~= s);
        }
    }
}

/// Whether entries with equal keys come in the order of their tags.
pub open spec fn ties_in_tag_order(s: Seq<(Key, int)>) -> bool {
    forall|i: int, j: int|
        #![trigger s[i], s[j]]
        0 <= i < j < s.len() && s[i].0 == s[j].0 ==> s[i].1 < s[j].1
}

/// Inserting an entry whose tag exceeds every other keeps ties in tag order.
proof fn lemma_insert_stable_ties(s: Seq<(Key, int)>, x: (Key, int))
    requires
        sorted_entries(s),
        ties_in_tag_order(s),
        forall|k: int| 0 <= k < s.len() ==> (#[trigger] s[k]).1 < x.1,
    ensures
        ties_in_tag_order(insert_stable(s, x)),
    decreases s.len(),
{
    broadcast use vstd::seq_lib::group_to_multiset_ensures;
    if s.len() == 0 {
        assert(insert_stable(s, x) =~= seq![x]);
    } else if key_le(s.last().0, x.0) {
        let r = s.push(x);
        assert forall|i: int, j: int|
            #![trigger r[i], r[j]]
            0 <= i < j < r.len() && r[i].0 == r[j].0 implies r[i].1 < r[j].1 by {
            assert(r[i] == s[i]);
            if j < s.len() {
                assert(r[j] == s[j]);
            }
        }
    } else {
        let p = s.drop_last();
        assert(sorted_entries(p)) by {
            assert forall|i: int, j: int| 0 <= i < j < p.len() implies key_le(
                #[trigger] p[i].0,
                #[trigger] p[j].0,
            ) by {
                assert(p[i] == s[i] && p[j] == s[j]);
            }
        }
        assert(ties_in_tag_order(p)) by {
            assert forall|i: int, j: int|
                #![trigger p[i], p[j]]
                0 <= i < j < p.len() && p[i].0 == p[j].0 implies p[i].1 < p[j].1 by {
                assert(p[i] == s[i] && p[j] == s[j]);
            }
        }
        assert forall|k: int| 0 <= k < p.len() implies (#[trigger] p[k]).1 < x.1 by {
            assert(p[k] == s[k]);
        }
        lemma_insert_stable_sorted(p, x);
        lemma_insert_stable_ties(p, x);
        lemma_key_le_refl(x.0);
        let q = insert_stable(p, x);
        let r = q.push(s.last());
        assert(insert_stable(s, x) == r);
        assert(s[s.len() - 1] == s.last());
        assert forall|i: int, j: int|
            #![trigger r[i], r[j]]
            0 <= i < j < r.len() && r[i].0 == r[j].0 implies r[i].1 < r[j].1 by {
            if j == q.len() {
                let e = q[i];
                assert(r[i] == e);
                assert(q.to_multiset().count(e) > 0);
                if e != x {
                    assert(p.to_multiset().count(e) > 0);
                    assert(p.contains(e));
                    let k = choose|k: int| 0 <= k < p.len() && p[k] == e;
                    assert(s[k] == e);
                }
            } else {
                assert(r[i] == q[i] && r[j] == q[j]);
            }
        }
    }
}

/// Stable sorting keeps entries with equal keys in the order of their tags,
/// when the tags are the positions.
proof fn lemma_stable_sort_ties(s: Seq<(Key, int)>)
    requires
        forall|k: int| 0 <= k < s.len() ==> (#[trigger] s[k]).1 == k,
    ensures
        ties_in_tag_order(stable_sort(s)),
    decreases s.len(),
{
    broadcast use vstd::seq_lib::group_to_multiset_ensures;
    if s.len() > 0 {
        let p = s.drop_last();
        assert forall|k: int| 0 <= k < p.len() implies (#[trigger] p[k]).1 == k by {
            assert(p[k] == s[k]);
        }
        lemma_stable_sort_ties(p);
        lemma_stable_sort_sorted(p);
        let sp = stable_sort(p);
        assert(s[s.len() - 1] == s.last());
        assert forall|k: int| 0 <= k < sp.len() implies (#[trigger] sp[k]).1 < s.last().1 by {
            let e = sp[k];
            assert(sp.to_multiset().count(e) > 0);
            assert(p.to_multiset().count(e) > 0);
            assert(p.contains(e));
            let m = choose|m: int| 0 <= m < p.len() && p[m] == e;
            assert(p[m].1 == m);
        }
        lemma_insert_stable_ties(sp, s.last());
    }
}

/// The sort is stable: among the tagged keys, entries with equal keys keep the
/// order of their positions.
pub proof fn lemma_tagged_sort_stable(keys: Seq<Key>)
    ensures
        ties_in_tag_order(stable_sort(tag_keys(keys))),
{
    lemma_stable_sort_ties(tag_keys(keys));
}

/// Where every entry from `j` on has a key greater than `x`'s, inserting `x`
/// only touches the part before `j`.
proof fn lemma_insert_stable_split(s: Seq<(Key, int)>, x: (Key, int), j: int)
    requires
        0 <= j <= s.len(),
        forall|m: int| j <= m < s.len() ==> !key_le(#[trigger] s[m].0, x.0),
    ensures
        insert_stable(s, x) == insert_stable(s.take(j), x) + s.skip(j),
    decreases s.len() - j,
{
    if j == s.len() {
        assert(s.take(j) =~= s);
        assert(s.skip(j) =~= Seq::<(Key, int)>::empty());
        assert(insert_stable(s, x) + Seq::<(Key, int)>::empty() =~= insert_stable(s, x));
    } else {
        let p = s.drop_last();
        assert forall|m: int| j <= m < p.len() implies !key_le(#[trigger] p[m].0, x.0) by {
            assert(p[m] == s[m]);
        }
        lemma_insert_stable_split(p, x, j);
        assert(p.take(j) =~= s.take(j));
        assert(!key_le(s.last().0, x.0));
        assert(s.skip(j) =~= p.skip(j).push(s.last()));
        assert(insert_stable(s, x) == insert_stable(p, x).push(s.last()));
        assert((insert_stable(s.take(j), x) + p.skip(j)).push(s.last()) =~= insert_stable(
            s.take(j),
            x,
        ) + s.skip(j));
    }
}

// ---------------------------------------------------------------------------
// Executable sort
// ---------------------------------------------------------------------------

/// Whether one key is at most another.
pub fn key_le_exec(a: &SortKey, b: &SortKey) -> (r: bool)
    ensures
        r == key_le(a@, b@),
{
    a.rank < b.rank || (a.rank == b.rank && lex_le_text(a.text.as_slice(), b.text.as_slice()))
}

/// The positions of the items in a stable sort by their keys.
pub fn stable_order(keys: &Vec<SortKey>) -> (r: Vec<usize>)
    ensures
        r@.len() == keys@.len(),
        forall|k: int| 0 <= k < r@.len() ==> #[trigger] r@[k] < keys@.len(),
        r@.map_values(|i: usize| (key_views(keys@)[i as int], i as int)) == stable_sort(
            tag_keys(key_views(keys@)),
        ),
{
    let ghost tagged = tag_keys(key_views(keys@));
    let mut order: Vec<usize> = Vec::new();
    let mut i: usize = 0;
    assert(tagged.take(0) =~= Seq::<(Key, int)>::empty());
    while i < keys.len()
        invariant
            i <= keys.len(),
            tagged == tag_keys(key_views(keys@)),
            order@.len() == i,
            forall|k: int| 0 <= k < order@.len() ==> #[trigger] order@[k] < keys@.len(),
            order@.map_values(|m: usize| (key_views(keys@)[m as int], m as int)) == stable_sort(
                tagged.take(i as int),
            ),
        decreases keys.len() - i,
    {
        let ghost s = order@.map_values(|m: usize| (key_views(keys@)[m as int], m as int));
        let ghost x = (key_views(keys@)[i as int], i as int);
        let mut j: usize = order.len();
        while j > 0 && !key_le_exec(&keys[order[j - 1]], &keys[i])
            invariant
                j <= order@.len(),
                order@.len() == i,
                i < keys.len(),
                forall|k: int| 0 <= k < order@.len() ==> #[trigger] order@[k] < keys@.len(),
                s == order@.map_values(|m: usize| (key_views(keys@)[m as int], m as int)),
                x == (key_views(keys@)[i as int], i as int),
                forall|m: int| j <= m < s.len() ==> !key_le(#[trigger] s[m].0, x.0),
            decreases j,
        {
            j -= 1;
        }
        proof {
            lemma_insert_stable_split(s, x, j as int);
            if j > 0 {
                assert(key_le(s[j - 1].0, x.0));
                assert(s.take(j as int) =~= s.take(j - 1).push(s[j - 1]));
                assert(s.take(j as int).last() == s[j - 1]);
                assert(insert_stable(s.take(j as int), x) == s.take(j as int).push(x));
            } else {
                assert(insert_stable(s.take(0), x) =~= seq![x]);
            }
        }
        order.insert(j, i);
        proof {
            let t = order@.map_values(|m: usize| (key_views(keys@)[m as int], m as int));
            assert(t =~= s.take(j as int).push(x) + s.skip(j as int));
            assert(tagged.take(i + 1).drop_last() =~= tagged.take(i as int));
            assert(tagged.take(i + 1).last() == x);
        }
        i += 1;
    }
    assert(tagged.take(keys.len() as int) =~= tagged);
    order
}

/// The hosts reordered by a stable sort of their keys.
pub fn sort_hosts_by_keys(items: &Vec<SshHost>, keys: &Vec<SortKey>) -> (r: Vec<SshHost>)
    requires
        items@.len() == keys@.len(),
    ensures
        host_views(r@) == sorted_by_keys(host_views(items@), key_views(keys@)),
{
    let order = stable_order(keys);
    let ghost sorted = stable_sort(tag_keys(key_views(keys@)));
    let mut r: Vec<SshHost> = Vec::new();
    let mut k: usize = 0;
    while k < order.len()
        invariant
            k <= order@.len(),
            order@.len() == keys@.len(),
            items@.len() == keys@.len(),
            forall|m: int| 0 <= m < order@.len() ==> #[trigger] order@[m] < keys@.len(),
            order@.map_values(|i: usize| (key_views(keys@)[i as int], i as int)) == sorted,
            r@.len() == k,
            forall|m: int| 0 <= m < k ==> #[trigger] r@[m]@ == items@[order@[m] as int]@,
        decreases order@.len() - k,
    {
        r.push(items[order[k]].copy());
        k += 1;
    }
    proof {
        let want = sorted_by_keys(host_views(items@), key_views(keys@));
        assert forall|m: int| 0 <= m < r@.len() implies #[trigger] host_views(r@)[m] == want[m] by {
            assert(sorted[m] == (key_views(keys@)[order@[m] as int], order@[m] as int));
        }
        assert(host_views(r@) =~= want);
    }
    r
}

} // verus!

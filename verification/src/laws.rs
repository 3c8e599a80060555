//! Properties that hold across the library's operations.
use vstd::prelude::*;
use crate::app::{
    clean_tags, form_host, form_of, group_deleted, group_filter, Panel, nonempty_text, tags_of_text, base_hosts, filtered_of, last_position, listed_hosts, mode_key, mode_keys, moved_down,
    moved_up, next_theme, refiltered, sorted_in_mode, AppStateView, HostFormDataView, SortMode,
};
use crate::ssh::{destination, flag_args, nonempty_option, port_args, session_args_spec};
use crate::ssh_config::{
    apply_setting, config_header, csv_cells, csv_field, csv_row, csv_rows, csv_text_spec,
    env_lines, flush, host_block, host_blocks, initial_state,
    is_host_line, lemma_find_char_at, optional_setting, or_empty, parse_entries, parse_lines,
    setting_if, setting_line, ssh_config_text_spec, step, HostEntryView, ParseState,
};
use crate::text::{
    ascii_lower, decimal, eq_ignore_ascii_case, is_digit, is_ws, join, lemma_decimal_digits, lex_le,
    lemma_parse_decimal_roundtrip, parse_u16_spec, split_on, trim, trim_end, trim_start,
};
use crate::search::{host_score, lowercase, positive_scored, scored_hosts};
use crate::commands::{
    form_field, handles_keys, insert_step, nav_step, next_sort, popped, saves_form, search_step,
    with_form_field, AppEvent, KeyCode, KeyInput,
};
use crate::config::Theme;
use crate::models::{fresh_host, SshHostView};
use crate::sorting::{
    insert_stable, key_le, lemma_stable_sort_ordered, lemma_stable_sort_sorted,
    lemma_tagged_sort_stable, sorted_by_keys, sorted_entries,
    stable_sort, tag_keys, Key,
};
use crate::storage::{host_index, hosts_without, lemma_host_index, lemma_hosts_without_len};

verus! {

// ---------------------------------------------------------------------------
// The shown list
// ---------------------------------------------------------------------------

/// Mapping entries to items commutes with insertion, as multisets.
proof fn lemma_insert_stable_map(s: Seq<(Key, int)>, x: (Key, int), items: Seq<SshHostView>)
    ensures
        insert_stable(s, x).map_values(|p: (Key, int)| items[p.1]).to_multiset() == s.map_values(
            |p: (Key, int)| items[p.1],
        ).to_multiset().insert(items[x.1]),
    decreases s.len(),
{
    broadcast use vstd::seq_lib::group_to_multiset_ensures;
    let f = |p: (Key, int)| items[p.1];
    if s.len() == 0 {
        assert(insert_stable(s, x).map_values(f) =~= seq![items[x.1]]);
        assert(s.map_values(f) =~= Seq::<SshHostView>::empty());
        assert(seq![items[x.1]] =~= Seq::<SshHostView>::empty().push(items[x.1]));
    } else if key_le(s.last().0, x.0) {
        assert(insert_stable(s, x).map_values(f) =~= s.map_values(f).push(items[x.1]));
    } else {
        let p = s.drop_last();
        lemma_insert_stable_map(p, x, items);
        assert(insert_stable(s, x).map_values(f) =~= insert_stable(p, x).map_values(f).push(
            items[s.last().1],
        ));
        assert(s.map_values(f) =~= p.map_values(f).push(items[s.last().1]));
    }
}

/// Mapping entries to items commutes with sorting, as multisets.
proof fn lemma_stable_sort_map(s: Seq<(Key, int)>, items: Seq<SshHostView>)
    ensures
        stable_sort(s).map_values(|p: (Key, int)| items[p.1]).to_multiset() == s.map_values(
            |p: (Key, int)| items[p.1],
        ).to_multiset(),
    decreases s.len(),
{
    broadcast use vstd::seq_lib::group_to_multiset_ensures;
    let f = |p: (Key, int)| items[p.1];
    if s.len() > 0 {
        let p = s.drop_last();
        lemma_stable_sort_map(p, items);
        lemma_insert_stable_map(stable_sort(p), s.last(), items);
        assert(s.map_values(f) =~= p.map_values(f).push(items[s.last().1]));
    }
}

/// Sorting by keys reorders the items without adding or losing any.
pub proof fn law_sorted_by_keys(items: Seq<SshHostView>, keys: Seq<Key>)
    requires
        items.len() == keys.len(),
    ensures
        sorted_by_keys(items, keys).to_multiset() == items.to_multiset(),
        sorted_by_keys(items, keys).len() == items.len(),
{
    let t = tag_keys(keys);
    lemma_stable_sort_sorted(t);
    lemma_stable_sort_map(t, items);
    assert(t.map_values(|p: (Key, int)| items[p.1]) =~= items);
}

/// Every entry of the sorted tagged keys points at a position of the keys and
/// carries the key found there.
proof fn lemma_sorted_entry(keys: Seq<Key>, i: int)
    requires
        0 <= i < keys.len(),
    ensures
        0 <= stable_sort(tag_keys(keys))[i].1 < keys.len(),
        stable_sort(tag_keys(keys))[i].0 == keys[stable_sort(tag_keys(keys))[i].1],
{
    broadcast use vstd::seq_lib::group_to_multiset_ensures;
    let t = tag_keys(keys);
    lemma_stable_sort_sorted(t);
    let st = stable_sort(t);
    let e = st[i];
    assert(st.to_multiset().count(e) > 0);
    assert(t.to_multiset().count(e) > 0);
    assert(t.contains(e));
    let k = choose|k: int| 0 <= k < t.len() && t[k] == e;
    assert(t[k] == (keys[k], k));
}

/// Sorting in a mode reorders the hosts without adding or losing any, and puts
/// every host at or before every later one in the mode's order: by lower-cased
/// name, by most recent connection, favourites first, or by most connections.
pub proof fn law_sorted_in_mode(hosts: Seq<SshHostView>, mode: SortMode)
    ensures
        sorted_in_mode(hosts, mode).to_multiset() == hosts.to_multiset(),
        sorted_in_mode(hosts, mode).len() == hosts.len(),
        forall|i: int, j: int|
            0 <= i < j < hosts.len() ==> key_le(
                mode_key(#[trigger] sorted_in_mode(hosts, mode)[i], mode),
                mode_key(#[trigger] sorted_in_mode(hosts, mode)[j], mode),
            ),
{
    let keys = mode_keys(hosts, mode);
    law_sorted_by_keys(hosts, keys);
    let t = tag_keys(keys);
    lemma_stable_sort_sorted(t);
    let st = stable_sort(t);
    let r = sorted_in_mode(hosts, mode);
    assert forall|i: int, j: int| 0 <= i < j < hosts.len() implies key_le(
        mode_key(#[trigger] r[i], mode),
        mode_key(#[trigger] r[j], mode),
    ) by {
        assert(key_le(st[i].0, st[j].0));
        lemma_sorted_entry(keys, i);
        lemma_sorted_entry(keys, j);
        assert(r[i] == hosts[st[i].1]);
        assert(r[j] == hosts[st[j].1]);
    }
}

/// The input position of the host at position `i` of a list sorted in a mode.
pub open spec fn sort_origin(hosts: Seq<SshHostView>, mode: SortMode, i: int) -> int {
    stable_sort(tag_keys(mode_keys(hosts, mode)))[i].1
}

/// Sorting in a mode is stable: the host at each position of the result comes
/// from some position of the input, and hosts that the mode ranks equal keep
/// the order they had in the input.
pub proof fn law_sort_is_stable(hosts: Seq<SshHostView>, mode: SortMode)
    ensures
        forall|i: int|
            0 <= i < hosts.len() ==> 0 <= #[trigger] sort_origin(hosts, mode, i) < hosts.len()
                && sorted_in_mode(hosts, mode)[i] == hosts[sort_origin(hosts, mode, i)],
        forall|i: int, j: int|
            0 <= i < j < hosts.len() && mode_key(#[trigger] sorted_in_mode(hosts, mode)[i], mode)
                == mode_key(#[trigger] sorted_in_mode(hosts, mode)[j], mode) ==> sort_origin(
                hosts,
                mode,
                i,
            ) < sort_origin(hosts, mode, j),
{
    let keys = mode_keys(hosts, mode);
    let st = stable_sort(tag_keys(keys));
    lemma_stable_sort_sorted(tag_keys(keys));
    lemma_tagged_sort_stable(keys);
    let r = sorted_in_mode(hosts, mode);
    assert forall|i: int| 0 <= i < hosts.len() implies 0 <= #[trigger] sort_origin(hosts, mode, i)
        < hosts.len() && r[i] == hosts[sort_origin(hosts, mode, i)] by {
        lemma_sorted_entry(keys, i);
    }
    assert forall|i: int, j: int|
        0 <= i < j < hosts.len() && mode_key(#[trigger] r[i], mode) == mode_key(
            #[trigger] r[j],
            mode,
        ) implies sort_origin(hosts, mode, i) < sort_origin(hosts, mode, j) by {
        lemma_sorted_entry(keys, i);
        lemma_sorted_entry(keys, j);
        assert(r[i] == hosts[st[i].1]);
        assert(r[j] == hosts[st[j].1]);
        assert(st[i].0 == st[j].0);
    }
}

/// Sorting a sorted list again in the same mode changes nothing.
pub proof fn law_sort_idempotent(hosts: Seq<SshHostView>, mode: SortMode)
    ensures
        sorted_in_mode(sorted_in_mode(hosts, mode), mode) == sorted_in_mode(hosts, mode),
{
    let r = sorted_in_mode(hosts, mode);
    law_sorted_in_mode(hosts, mode);
    let keys = mode_keys(r, mode);
    let t = tag_keys(keys);
    assert(sorted_entries(t)) by {
        assert forall|i: int, j: int| 0 <= i < j < t.len() implies key_le(
            #[trigger] t[i].0,
            #[trigger] t[j].0,
        ) by {
            assert(t[i].0 == mode_key(r[i], mode));
            assert(t[j].0 == mode_key(r[j], mode));
        }
    }
    lemma_stable_sort_ordered(t);
    assert(t.map_values(|p: (Key, int)| r[p.1]) =~= r);
}

// ---------------------------------------------------------------------------
// The view's list and selection
// ---------------------------------------------------------------------------

/// Every pair that the search keeps has a positive score and comes from the
/// scored list.
proof fn lemma_positive_scored(scored: Seq<(SshHostView, int)>)
    ensures
        forall|i: int|
            0 <= i < positive_scored(scored).len() ==> (#[trigger] positive_scored(scored)[i]).1
                > 0 && scored.contains(positive_scored(scored)[i]),
    decreases scored.len(),
{
    if scored.len() > 0 {
        let p = scored.drop_last();
        lemma_positive_scored(p);
        let m = positive_scored(scored);
        assert forall|i: int| 0 <= i < m.len() implies (#[trigger] m[i]).1 > 0 && scored.contains(
            m[i],
        ) by {
            if i < positive_scored(p).len() {
                assert(m[i] == positive_scored(p)[i]);
                let k = choose|k: int| 0 <= k < p.len() && p[k] == m[i];
                assert(scored[k] == p[k]);
            } else {
                assert(m[i] == scored.last());
                assert(scored[scored.len() - 1] == scored.last());
            }
        }
    }
}

/// The shown list is the listed hosts reordered, nothing added or lost, in the
/// sort mode's order. With an empty query it holds the hosts of the filter;
/// with a query, only hosts that score above zero against the lower-cased query.
pub proof fn law_shown_list(s: AppStateView)
    ensures
        filtered_of(s).to_multiset() == listed_hosts(s).to_multiset(),
        lowercase(s.search_query).len() == 0 ==> filtered_of(s).to_multiset()
            == base_hosts(s).to_multiset(),
        lowercase(s.search_query).len() > 0 ==> forall|i: int|
            0 <= i < filtered_of(s).len() ==> host_score(
                #[trigger] filtered_of(s)[i],
                lowercase(s.search_query),
            ) > 0,
        forall|i: int, j: int|
            0 <= i < j < filtered_of(s).len() ==> key_le(
                mode_key(#[trigger] filtered_of(s)[i], s.sort_mode),
                mode_key(#[trigger] filtered_of(s)[j], s.sort_mode),
            ),
{
    broadcast use vstd::seq_lib::group_to_multiset_ensures;
    let l = listed_hosts(s);
    law_sorted_in_mode(l, s.sort_mode);
    let q = lowercase(s.search_query);
    if q.len() > 0 {
        let sc = scored_hosts(base_hosts(s), q);
        let kept = positive_scored(sc);
        let m = kept.map_values(|e: (SshHostView, int)| e.0);
        law_sorted_by_keys(m, kept.map_values(|e: (SshHostView, int)| (-e.1, Seq::<char>::empty())));
        lemma_positive_scored(sc);
        let f = filtered_of(s);
        assert forall|i: int| 0 <= i < f.len() implies host_score(#[trigger] f[i], q) > 0 by {
            assert(f.to_multiset().count(f[i]) > 0);
            assert(m.to_multiset().count(f[i]) > 0);
            assert(m.contains(f[i]));
            let k = choose|k: int| 0 <= k < m.len() && m[k] == f[i];
            assert(m[k] == kept[k].0);
            assert(kept[k].1 > 0 && sc.contains(kept[k]));
            let j = choose|j: int| 0 <= j < sc.len() && sc[j] == kept[k];
            assert(sc[j] == (base_hosts(s)[j], host_score(base_hosts(s)[j], q)));
        }
    }
}

/// Recomputing the list keeps the selection inside it: on a host when there is
/// one, else at the top.
pub proof fn law_selection_in_list(s: AppStateView)
    ensures
        refiltered(s).filtered_index < refiltered(s).filtered_hosts.len() || (
        refiltered(s).filtered_hosts.len() == 0 && refiltered(s).filtered_index == 0),
        refiltered(s).filtered_index <= s.filtered_index,
        s.filtered_index < refiltered(s).filtered_hosts.len() ==> refiltered(s).filtered_index
            == s.filtered_index,
{
}

/// Recomputing the list a second time changes nothing.
pub proof fn law_refilter_idempotent(s: AppStateView)
    ensures
        refiltered(refiltered(s)) == refiltered(s),
{
    let r = refiltered(s);
    assert(base_hosts(r) == base_hosts(s));
    assert(listed_hosts(r) == listed_hosts(s));
    assert(filtered_of(r) == filtered_of(s));
}

/// Moving the selection keeps it inside the list.
pub proof fn law_moves_stay_in_list(s: AppStateView)
    requires
        s.filtered_index <= last_position(s.filtered_hosts.len()),
    ensures
        moved_up(s).filtered_index <= last_position(s.filtered_hosts.len()),
        moved_down(s).filtered_index <= last_position(s.filtered_hosts.len()),
        moved_up(s).filtered_hosts == s.filtered_hosts,
        moved_down(s).filtered_hosts == s.filtered_hosts,
{
}

/// Moving down and back up returns to the same state, unless the selection was
/// already at the bottom; moving up and back down likewise unless at the top.
pub proof fn law_move_down_then_up(s: AppStateView)
    ensures
        s.filtered_index < last_position(s.filtered_hosts.len()) ==> moved_up(moved_down(s)) == s,
        0 < s.filtered_index <= last_position(s.filtered_hosts.len()) ==> moved_down(moved_up(s))
            == s,
{
}

/// Typing a character into the search and erasing it again gives back the
/// query and the list; the selection comes back too when the narrower list
/// still held it.
pub proof fn law_search_type_then_erase(s: AppStateView, c: char, m1: u8, m2: u8)
    ensures
        ({
            let t = search_step(
                search_step(s, KeyInput { code: KeyCode::Char(c), modifiers: m1 }),
                KeyInput { code: KeyCode::Backspace, modifiers: m2 },
            );
            &&& t.search_query == s.search_query
            &&& t.filtered_hosts == filtered_of(s)
            &&& s.filtered_index < filtered_of(
                AppStateView { search_query: s.search_query.push(c), ..s },
            ).len() ==> t == refiltered(s)
        }),
{
    let typed = AppStateView { search_query: s.search_query.push(c), ..s };
    let t1 = search_step(s, KeyInput { code: KeyCode::Char(c), modifiers: m1 });
    assert(t1 == refiltered(typed));
    assert(popped(t1.search_query) =~= s.search_query);
    let back = AppStateView { search_query: popped(t1.search_query), ..t1 };
    assert(base_hosts(back) == base_hosts(s));
    assert(listed_hosts(back) == listed_hosts(s));
    assert(filtered_of(back) == filtered_of(s));
}

/// The group panel's selection stays on one of its lines (the three fixed
/// entries and the groups) through navigation keys and group deletion.
pub proof fn law_group_selection_in_panel(s: AppStateView, c: char, plain: bool, index: usize)
    requires
        s.selected_group_index <= s.groups.len() + 2,
    ensures
        nav_step(s, c, plain).0.selected_group_index <= nav_step(s, c, plain).0.groups.len() + 2,
        group_deleted(s, index).0.selected_group_index <= group_deleted(s, index).0.groups.len()
            + 2,
{
}

/// In the form, the field being typed in stays one of the eight fields under
/// every key that does not save the form.
pub proof fn law_form_field_in_range(s: AppStateView, k: KeyInput)
    requires
        s.form_field_index < 8,
        !saves_form(s, k),
    ensures
        insert_step(s, k).form_field_index < 8,
{
}

/// In the form, Tab and Down move to the next field and Up to the previous one,
/// round the eight fields; Enter moves to the next field before the last (on
/// the last it saves); every other key stays on the field.
pub proof fn law_form_field_moves(s: AppStateView, k: KeyInput)
    requires
        s.form_field_index < 8,
    ensures
        (k.code == KeyCode::Tab || k.code == KeyCode::Down) ==> insert_step(s, k).form_field_index
            == (s.form_field_index + 1) % 8,
        k.code == KeyCode::Up ==> insert_step(s, k).form_field_index == (s.form_field_index + 7)
            % 8,
        k.code == KeyCode::Enter && s.form_field_index < 7 ==> !saves_form(s, k) && insert_step(
            s,
            k,
        ).form_field_index == s.form_field_index + 1,
        k.code == KeyCode::Enter && s.form_field_index == 7 ==> saves_form(s, k),
        !(k.code == KeyCode::Tab || k.code == KeyCode::Down || k.code == KeyCode::Up || k.code
            == KeyCode::Enter) ==> insert_step(s, k).form_field_index == s.form_field_index,
{
}

/// In the form, typing a character and erasing it again gives back the state.
pub proof fn law_insert_type_then_erase(s: AppStateView, c: char, m1: u8, m2: u8)
    ensures
        insert_step(
            insert_step(s, KeyInput { code: KeyCode::Char(c), modifiers: m1 }),
            KeyInput { code: KeyCode::Backspace, modifiers: m2 },
        ) == s,
{
    let i = s.form_field_index;
    let f = s.form_data;
    let t = form_field(f, i).push(c);
    let f1 = with_form_field(f, i, t);
    assert(popped(t) =~= form_field(f, i));
    if i < 8 {
        assert(form_field(f1, i) == t);
    }
    assert(with_form_field(f1, i, popped(form_field(f1, i))) == f);
}

/// In the group panel, `j` moves the selection one row down and `k` one row up
/// within the three fixed rows and the groups, applying the filter of the row
/// reached; at either end the selection stays.
pub proof fn law_group_navigation(s: AppStateView)
    requires
        s.active_panel == Panel::Groups,
        s.selected_group_index <= s.groups.len() + 2,
        handles_keys(s),
    ensures
        nav_step(s, 'j', true).0.selected_group_index == if s.selected_group_index < 2
            + s.groups.len() {
            s.selected_group_index + 1
        } else {
            s.selected_group_index as int
        },
        nav_step(s, 'k', true).0.selected_group_index == if s.selected_group_index > 0 {
            s.selected_group_index - 1
        } else {
            s.selected_group_index as int
        },
        s.selected_group_index < 2 + s.groups.len() ==> nav_step(s, 'j', true).0.filter_mode
            == group_filter(nav_step(s, 'j', true).0),
        s.selected_group_index > 0 ==> nav_step(s, 'k', true).0.filter_mode == group_filter(
            nav_step(s, 'k', true).0,
        ),
        nav_step(s, 'j', true).1 == AppEvent::Nothing,
        nav_step(s, 'k', true).1 == AppEvent::Nothing,
        nav_step(s, 'j', true).0.groups == s.groups,
        nav_step(s, 'k', true).0.groups == s.groups,
{
}

// ---------------------------------------------------------------------------
// Cycling settings
// ---------------------------------------------------------------------------

/// Cycling the theme five times comes back to the start, through all five
/// themes.
pub proof fn law_theme_cycle(t: Theme)
    ensures
        next_theme(next_theme(next_theme(next_theme(next_theme(t))))) == t,
        t != next_theme(t),
        t != next_theme(next_theme(t)),
        t != next_theme(next_theme(next_theme(t))),
        t != next_theme(next_theme(next_theme(next_theme(t)))),
{
}

/// Cycling the sort mode four times comes back to the start, through all four
/// modes.
pub proof fn law_sort_cycle(m: SortMode)
    ensures
        next_sort(next_sort(next_sort(next_sort(m)))) == m,
        m != next_sort(m),
        m != next_sort(next_sort(m)),
        m != next_sort(next_sort(next_sort(m))),
{
}

// ---------------------------------------------------------------------------
// The database
// ---------------------------------------------------------------------------

/// `host_index` is the first position that holds the identifier.
proof fn lemma_first_position(hosts: Seq<SshHostView>, id: Seq<char>, i: int)
    requires
        0 <= i < hosts.len(),
        hosts[i].id == id,
        forall|k: int| 0 <= k < i ==> #[trigger] hosts[k].id != id,
    ensures
        host_index(hosts, id) == Some(i),
{
    lemma_host_index(hosts, id);
}

/// After replacing the host found by an identifier, looking the identifier up
/// finds the new host at the same place.
pub proof fn law_update_then_find(hosts: Seq<SshHostView>, h: SshHostView)
    ensures
        match host_index(hosts, h.id) {
            Some(i) => host_index(hosts.update(i, h), h.id) == Some(i) && hosts.update(i, h)[i]
                == h,
            None => true,
        },
{
    lemma_host_index(hosts, h.id);
    match host_index(hosts, h.id) {
        Some(i) => {
            let u = hosts.update(i, h);
            assert forall|k: int| 0 <= k < i implies #[trigger] u[k].id != h.id by {
                assert(u[k] == hosts[k]);
            }
            lemma_first_position(u, h.id, i);
        },
        None => {},
    }
}

/// A host added under a new identifier is found by it, at the end.
pub proof fn law_add_then_find(hosts: Seq<SshHostView>, h: SshHostView)
    requires
        host_index(hosts, h.id) is None,
    ensures
        host_index(hosts.push(h), h.id) == Some(hosts.len() as int),
{
    lemma_host_index(hosts, h.id);
    let p = hosts.push(h);
    assert forall|k: int| 0 <= k < hosts.len() implies #[trigger] p[k].id != h.id by {
        assert(p[k] == hosts[k]);
    }
    lemma_first_position(p, h.id, hosts.len() as int);
}

/// Removing by identifier keeps exactly the hosts with other identifiers, in
/// their order: afterwards the identifier is not found.
pub proof fn law_delete_then_find(hosts: Seq<SshHostView>, id: Seq<char>)
    ensures
        hosts_without(hosts, id) == hosts.filter(|h: SshHostView| h.id != id),
        host_index(hosts_without(hosts, id), id) is None,
    decreases hosts.len(),
{
    lemma_hosts_without_len(hosts, id);
    lemma_host_index(hosts_without(hosts, id), id);
    if hosts.len() > 0 {
        law_delete_then_find(hosts.drop_last(), id);
    }
    reveal_with_fuel(Seq::filter, 1);
}

// ---------------------------------------------------------------------------
// The host form
// ---------------------------------------------------------------------------

/// Splitting never yields an empty list of pieces.
proof fn lemma_split_nonempty(s: Seq<char>, sep: char)
    ensures
        split_on(s, sep).len() >= 1,
    decreases s.len(),
{
    if s.len() > 0 {
        lemma_split_nonempty(s.drop_last(), sep);
    }
}

/// A text without the separator splits into itself alone.
proof fn lemma_split_without_sep(s: Seq<char>, sep: char)
    requires
        !s.contains(sep),
    ensures
        split_on(s, sep) == seq![s],
    decreases s.len(),
{
    if s.len() > 0 {
        let p = s.drop_last();
        assert(!p.contains(sep)) by {
            if p.contains(sep) {
                let k = choose|k: int| 0 <= k < p.len() && p[k] == sep;
                assert(s[k] == sep);
            }
        }
        lemma_split_without_sep(p, sep);
        assert(s.last() != sep) by {
            assert(s[s.len() - 1] == s.last());
        }
        assert(p.push(s.last()) =~= s);
        assert(split_on(p, sep).update(0, p.push(s.last())) =~= seq![s]);
    } else {
        assert(s =~= Seq::<char>::empty());
    }
}

/// Splitting at a separator placed between two texts splits each text.
proof fn lemma_split_concat(a: Seq<char>, b: Seq<char>, sep: char)
    ensures
        split_on(a.push(sep) + b, sep) == split_on(a, sep) + split_on(b, sep),
    decreases b.len(),
{
    lemma_split_nonempty(b, sep);
    if b.len() == 0 {
        assert(a.push(sep) + b =~= a.push(sep));
        assert(a.push(sep).drop_last() =~= a);
        assert(split_on(a, sep).push(Seq::<char>::empty()) =~= split_on(a, sep) + seq![
            Seq::<char>::empty(),
        ]);
    } else {
        let b1 = b.drop_last();
        let x = b.last();
        lemma_split_concat(a, b1, sep);
        lemma_split_nonempty(b1, sep);
        let whole = a.push(sep) + b;
        assert(whole.drop_last() =~= a.push(sep) + b1);
        assert(whole.last() == x);
        let sa = split_on(a, sep);
        let sb1 = split_on(b1, sep);
        if x == sep {
            assert((sa + sb1).push(Seq::<char>::empty()) =~= sa + sb1.push(Seq::<char>::empty()));
        } else {
            let rest = sa + sb1;
            assert(rest.last() == sb1.last());
            assert(rest.update(rest.len() - 1, rest.last().push(x)) =~= sa + sb1.update(
                sb1.len() - 1,
                sb1.last().push(x),
            ));
        }
    }
}

/// Joining pieces that hold no separator and splitting again gives the pieces.
proof fn lemma_split_join(list: Seq<Seq<char>>, sep: char)
    requires
        list.len() >= 1,
        forall|i: int| 0 <= i < list.len() ==> !(#[trigger] list[i]).contains(sep),
    ensures
        split_on(join(list, seq![sep]), sep) == list,
    decreases list.len(),
{
    if list.len() == 1 {
        lemma_split_without_sep(list[0], sep);
        assert(seq![list[0]] =~= list);
    } else {
        let init = list.drop_last();
        assert forall|i: int| 0 <= i < init.len() implies !(#[trigger] init[i]).contains(sep) by {
            assert(init[i] == list[i]);
        }
        lemma_split_join(init, sep);
        assert(!list[list.len() - 1].contains(sep));
        lemma_split_without_sep(list.last(), sep);
        let j = join(init, seq![sep]);
        assert(j + seq![sep] + list.last() =~= j.push(sep) + list.last());
        lemma_split_concat(j, list.last(), sep);
        assert(init + seq![list.last()] =~= list);
    }
}

/// Cleaning pieces that are already trimmed and not empty keeps them all.
proof fn lemma_clean_tags_kept(list: Seq<Seq<char>>)
    requires
        forall|i: int|
            0 <= i < list.len() ==> (#[trigger] list[i]).len() > 0 && trim(list[i]) == list[i],
    ensures
        clean_tags(list) == list,
    decreases list.len(),
{
    if list.len() > 0 {
        let init = list.drop_last();
        assert forall|i: int| 0 <= i < init.len() implies (#[trigger] init[i]).len() > 0 && trim(
            init[i],
        ) == init[i] by {
            assert(init[i] == list[i]);
        }
        lemma_clean_tags_kept(init);
        assert(list[list.len() - 1] == list.last());
        assert(init.push(list.last()) =~= list);
    }
}

/// Tags written into the form and read back are the same tags, when each is
/// trimmed, not empty and free of commas.
proof fn lemma_tags_round_trip(tags: Seq<Seq<char>>)
    requires
        forall|i: int|
            0 <= i < tags.len() ==> (#[trigger] tags[i]).len() > 0 && trim(tags[i]) == tags[i]
                && !tags[i].contains(','),
    ensures
        tags_of_text(join(tags, ","@)) == tags,
{
    reveal_strlit(",");
    assert(","@ =~= seq![',']);
    if tags.len() == 0 {
        assert(split_on(Seq::<char>::empty(), ',') == seq![Seq::<char>::empty()]);
        let e = Seq::<char>::empty();
        assert(trim_start(e) == e);
        assert(trim_end(e) == e);
        let l = seq![e];
        assert(l.last() == e);
        assert(l.drop_last().len() == 0);
        assert(clean_tags(l.drop_last()) =~= Seq::<Seq<char>>::empty());
        assert(trim(l.last()).len() == 0);
        assert(clean_tags(l) =~= Seq::<Seq<char>>::empty());
    } else {
        lemma_split_join(tags, ',');
        lemma_clean_tags_kept(tags);
    }
}

/// An optional text written into the form and read back is the same, unless it
/// was present but empty.
proof fn lemma_optional_round_trip(o: Option<Seq<char>>)
    requires
        o matches Some(v) ==> v.len() > 0,
    ensures
        nonempty_text(or_empty(o)) == o,
{
}

/// Opening a host in the edit form and saving the form unchanged gives the host
/// back, for every host whose fields the form carries: no password, no
/// environment, no connection history, no optional text that is present but
/// empty, and tags that are trimmed, not empty and free of commas.
pub proof fn law_edit_form_round_trip(h: SshHostView)
    requires
        h.password is None,
        h.env_vars.len() == 0,
        h.connect_count == 0,
        h.last_connected is None,
        h.identity_file matches Some(v) ==> v.len() > 0,
        h.proxy_jump matches Some(v) ==> v.len() > 0,
        h.notes matches Some(v) ==> v.len() > 0,
        forall|i: int|
            0 <= i < h.tags.len() ==> (#[trigger] h.tags[i]).len() > 0 && trim(h.tags[i])
                == h.tags[i] && !h.tags[i].contains(','),
    ensures
        form_host(form_of(h), h.id) == h,
{
    lemma_parse_decimal_roundtrip(h.port);
    lemma_tags_round_trip(h.tags);
    lemma_optional_round_trip(h.identity_file);
    lemma_optional_round_trip(h.proxy_jump);
    lemma_optional_round_trip(h.notes);
    assert(h.env_vars =~= Seq::<(Seq<char>, Seq<char>)>::empty());
}

// ---------------------------------------------------------------------------
// Export, then import
// ---------------------------------------------------------------------------

/// Whether a text holds no line break.
pub open spec fn single_line(s: Seq<char>) -> bool {
    forall|k: int| 0 <= k < s.len() ==> s[k] != '\n'
}

/// Whether a text survives being written as a configuration value and read
/// back: not empty, on one line, with no white space at either end.
pub open spec fn line_value(s: Seq<char>) -> bool {
    s.len() > 0 && single_line(s) && !is_ws(s[0]) && !is_ws(s[s.len() - 1])
}

/// Whether a host's exported block reads back as the host: its name and host
/// name are configuration values, and so are its user name, identity file and
/// jump host where they are given; its environment has no line breaks.
pub open spec fn exportable(h: SshHostView) -> bool {
    &&& line_value(h.name)
    &&& line_value(h.hostname)
    &&& (h.username.len() == 0 || line_value(h.username))
    &&& (h.identity_file matches Some(v) ==> line_value(v))
    &&& (h.proxy_jump matches Some(v) ==> line_value(v))
    &&& env_single_line(h.env_vars)
}

/// Whether no name or value of an environment holds a line break.
pub open spec fn env_single_line(vars: Seq<(Seq<char>, Seq<char>)>) -> bool {
    forall|k: int|
        0 <= k < vars.len() ==> single_line(#[trigger] vars[k].0) && single_line(vars[k].1)
}

/// The block that reading a host's exported block gives.
pub open spec fn entry_of(h: SshHostView) -> HostEntryView {
    HostEntryView {
        name: h.name,
        hostname: h.hostname,
        username: h.username,
        port: h.port,
        identity_file: h.identity_file,
        proxy_jump: h.proxy_jump,
    }
}

/// Whether a text ends at the end of a line (or is empty).
spec fn ends_line(t: Seq<char>) -> bool {
    split_on(t, '\n').last() == Seq::<char>::empty()
}

/// The reading state after the complete lines of a text.
spec fn state_of(t: Seq<char>) -> ParseState {
    parse_lines(split_on(t, '\n').drop_last())
}

/// Appending a line without a break to a text that ends a line extends its
/// pieces by that line.
proof fn lemma_split_line(t: Seq<char>, l: Seq<char>)
    requires
        ends_line(t),
        single_line(l),
    ensures
        split_on(t + l, '\n') == split_on(t, '\n').drop_last().push(l),
    decreases l.len(),
{
    lemma_split_nonempty(t, '\n');
    if l.len() == 0 {
        assert(t + l =~= t);
        assert(l =~= Seq::<char>::empty());
        assert(split_on(t, '\n').drop_last().push(l) =~= split_on(t, '\n'));
    } else {
        let l1 = l.drop_last();
        assert(single_line(l1)) by {
            assert forall|k: int| 0 <= k < l1.len() implies l1[k] != '\n' by {
                assert(l1[k] == l[k]);
            }
        }
        lemma_split_line(t, l1);
        assert((t + l).drop_last() =~= t + l1);
        assert((t + l).last() == l.last());
        assert(l.last() != '\n') by {
            assert(l[l.len() - 1] == l.last());
        }
        let rest = split_on(t + l1, '\n');
        assert(l1.push(l.last()) =~= l);
        assert(rest.update(rest.len() - 1, rest.last().push(l.last())) =~= split_on(
            t,
            '\n',
        ).drop_last().push(l));
    }
}

/// Reading one more complete line is one step.
proof fn lemma_state_line(t: Seq<char>, l: Seq<char>)
    requires
        ends_line(t),
        single_line(l),
    ensures
        ends_line((t + l).push('\n')),
        state_of((t + l).push('\n')) == step(state_of(t), l),
{
    lemma_split_line(t, l);
    let u = (t + l).push('\n');
    assert(u.drop_last() =~= t + l);
    assert(u.last() == '\n');
    assert(split_on(u, '\n') == split_on(t + l, '\n').push(Seq::<char>::empty()));
    let x = split_on(t, '\n').drop_last().push(l);
    assert(split_on(u, '\n').drop_last() =~= x);
    assert(x.drop_last() =~= split_on(t, '\n').drop_last());
}

/// Leading white space is dropped up to the first other character.
proof fn lemma_trim_start_pad(p: Seq<char>, w: Seq<char>)
    requires
        forall|k: int| 0 <= k < p.len() ==> is_ws(#[trigger] p[k]),
        w.len() > 0,
        !is_ws(w[0]),
    ensures
        trim_start(p + w) == w,
    decreases p.len(),
{
    if p.len() == 0 {
        assert(p + w =~= w);
    } else {
        assert((p + w)[0] == p[0]);
        assert((p + w).drop_first() =~= p.drop_first() + w);
        lemma_trim_start_pad(p.drop_first(), w);
    }
}

/// A text that begins and ends with other characters than white space is
/// its own trim, also behind white space.
proof fn lemma_trim_pad(p: Seq<char>, w: Seq<char>)
    requires
        forall|k: int| 0 <= k < p.len() ==> is_ws(#[trigger] p[k]),
        w.len() > 0,
        !is_ws(w[0]),
        !is_ws(w[w.len() - 1]),
    ensures
        trim(p + w) == w,
{
    lemma_trim_start_pad(p, w);
    assert(w.last() == w[w.len() - 1]);
}

/// Trailing white space is dropped back to the last other character.
proof fn lemma_trim_end_prefix(x: Seq<char>, j: int)
    requires
        0 <= j < x.len(),
        !is_ws(x[j]),
    ensures
        j < trim_end(x).len() <= x.len(),
        trim_end(x) == x.take(trim_end(x).len() as int),
    decreases x.len(),
{
    if is_ws(x.last()) {
        assert(j != x.len() - 1);
        assert(x.drop_last()[j] == x[j]);
        lemma_trim_end_prefix(x.drop_last(), j);
        let r = trim_end(x);
        assert(r == trim_end(x.drop_last()));
        assert(x.drop_last().take(r.len() as int) =~= x.take(r.len() as int));
    } else {
        assert(x.take(x.len() as int) =~= x);
    }
}

/// A line whose first characters differ from `host ` does not open a block.
proof fn lemma_not_host_line(w: Seq<char>, i: int)
    requires
        0 <= i < 5,
        i < w.len(),
        ascii_lower(w[i]) != ascii_lower("host "@[i]),
    ensures
        !is_host_line(w),
{
    if w.len() >= 5 {
        assert(w.take(5)[i] == w[i]);
    }
}

/// An empty line changes nothing.
proof fn lemma_empty_line(st: ParseState)
    ensures
        step(st, Seq::<char>::empty()) == st,
{
    let e = Seq::<char>::empty();
    assert(trim_start(e) == e);
    assert(trim_end(e) == e);
}

/// A setting line inside a block applies its setting; an absent one changes
/// nothing.
proof fn lemma_setting(t: Seq<char>, cond: bool, key: Seq<char>, value: Seq<char>, i: int)
    requires
        ends_line(t),
        state_of(t).in_block,
        cond ==> line_value(value),
        forall|k: int| 0 <= k < key.len() ==> !is_ws(#[trigger] key[k]),
        0 <= i < 5,
        i < key.len(),
        ascii_lower(key[i]) != ascii_lower("host "@[i]),
    ensures
        ends_line(t + setting_if(cond, key, value)),
        state_of(t + setting_if(cond, key, value)) == if cond {
            apply_setting(state_of(t), key, value)
        } else {
            state_of(t)
        },
{
    reveal_strlit("    ");
    reveal_strlit(" ");
    reveal_strlit("\n");
    if cond {
        let w = key + " "@ + value;
        let l = "    "@ + w;
        assert(t + setting_line(key, value) =~= (t + l).push('\n'));
        assert(single_line(l)) by {
            assert forall|k: int| 0 <= k < l.len() implies l[k] != '\n' by {
                if 4 <= k < 4 + key.len() {
                    assert(l[k] == key[k - 4]);
                    assert(!is_ws(key[k - 4]));
                } else if k >= 5 + key.len() {
                    assert(l[k] == value[k - 5 - key.len()]);
                }
            }
        }
        lemma_state_line(t, l);
        assert(w[0] == key[0]);
        assert(w[w.len() - 1] == value[value.len() - 1]);
        lemma_trim_pad("    "@, w);
        assert(w[i] == key[i]);
        lemma_not_host_line(w, i);
        assert forall|m: int| 0 <= m < key.len() implies w[m] != ' ' by {
            assert(w[m] == key[m]);
            assert(!is_ws(key[m]));
        }
        assert(w[key.len() as int] == ' ');
        lemma_find_char_at(w, ' ', key.len() as int);
        assert(w.take(key.len() as int) =~= key);
        assert(w.skip(key.len() as int + 1) =~= value);
        lemma_trim_pad(Seq::<char>::empty(), value);
        assert(Seq::<char>::empty() + value =~= value);
    } else {
        assert(t + setting_if(cond, key, value) =~= t);
    }
}

/// A `SetEnv` line inside a block changes nothing.
proof fn lemma_setenv_step(st: ParseState, k: Seq<char>, v: Seq<char>)
    requires
        st.in_block,
    ensures
        step(st, "    SetEnv "@ + k + "="@ + v) == st,
{
    reveal_strlit("    SetEnv ");
    reveal_strlit("    ");
    reveal_strlit("=");
    reveal_strlit("SetEnv ");
    reveal_strlit("SetEnv");
    reveal_strlit("hostname");
    reveal_strlit("user");
    reveal_strlit("port");
    reveal_strlit("identityfile");
    reveal_strlit("proxyjump");
    reveal_strlit("j");
    let x = "SetEnv "@ + k + "="@ + v;
    let l = "    SetEnv "@ + k + "="@ + v;
    assert(l =~= "    "@ + x);
    lemma_trim_start_pad("    "@, x);
    assert(x[7 + k.len() as int] == '=');
    lemma_trim_end_prefix(x, 7 + k.len() as int);
    let r = trim_end(x);
    assert(trim(l) == r);
    assert forall|m: int| 0 <= m < 7 implies r[m] == x[m] by {
        assert(r[m] == x.take(r.len() as int)[m]);
    }
    reveal_strlit("host ");
    assert(r[0] == 'S');
    lemma_not_host_line(r, 0);
    lemma_find_char_at(r, ' ', 6);
    assert(r.take(6) =~= "SetEnv"@);
}

/// `SetEnv` lines inside a block change nothing.
proof fn lemma_env_lines(t: Seq<char>, vars: Seq<(Seq<char>, Seq<char>)>)
    requires
        ends_line(t),
        state_of(t).in_block,
        env_single_line(vars),
    ensures
        ends_line(t + env_lines(vars)),
        state_of(t + env_lines(vars)) == state_of(t),
    decreases vars.len(),
{
    reveal_strlit("    SetEnv ");
    reveal_strlit("=");
    reveal_strlit("\n");
    if vars.len() == 0 {
        assert(t + env_lines(vars) =~= t);
    } else {
        let init = vars.drop_last();
        assert forall|k: int| 0 <= k < init.len() implies single_line(#[trigger] init[k].0)
            && single_line(init[k].1) by {
            assert(init[k] == vars[k]);
        }
        lemma_env_lines(t, init);
        let t0 = t + env_lines(init);
        let kv = vars.last();
        assert(kv == vars[vars.len() - 1]);
        let l = "    SetEnv "@ + kv.0 + "="@ + kv.1;
        assert(t + env_lines(vars) =~= (t0 + l).push('\n'));
        assert(single_line(l)) by {
            assert forall|m: int| 0 <= m < l.len() implies l[m] != '\n' by {
                if 11 <= m < 11 + kv.0.len() {
                    assert(l[m] == kv.0[m - 11]);
                } else if m >= 12 + kv.0.len() {
                    assert(l[m] == kv.1[m - 12 - kv.0.len()]);
                }
            }
        }
        lemma_state_line(t0, l);
        lemma_setenv_step(state_of(t0), kv.0, kv.1);
    }
}

/// The state after a host's block: the previous block closed, and a block open
/// with the host's settings.
spec fn block_state(entries: Seq<HostEntryView>, h: SshHostView) -> ParseState {
    ParseState {
        entries,
        in_block: true,
        name: h.name,
        hostname: if h.hostname != h.name {
            h.hostname
        } else {
            Seq::empty()
        },
        user: h.username,
        port: h.port,
        identity: nonempty_option(h.identity_file),
        proxy: nonempty_option(h.proxy_jump),
    }
}

/// The settings that an export writes, applied to a reading state.
proof fn lemma_known_keys(st: ParseState, v: Seq<char>)
    ensures
        apply_setting(st, "HostName"@, v) == (ParseState { hostname: v, ..st }),
        apply_setting(st, "User"@, v) == (ParseState { user: v, ..st }),
        apply_setting(st, "Port"@, v) == (ParseState {
            port: match parse_u16_spec(v) {
                Some(p) => p,
                None => 22,
            },
            ..st
        }),
        apply_setting(st, "IdentityFile"@, v) == (ParseState { identity: Some(v), ..st }),
        apply_setting(st, "ProxyJump"@, v) == (ParseState { proxy: Some(v), ..st }),
{
    reveal_strlit("HostName");
    reveal_strlit("User");
    reveal_strlit("Port");
    reveal_strlit("IdentityFile");
    reveal_strlit("ProxyJump");
    reveal_strlit("hostname");
    reveal_strlit("user");
    reveal_strlit("port");
    reveal_strlit("identityfile");
    reveal_strlit("proxyjump");
    reveal_strlit("j");
    assert(eq_ignore_ascii_case("HostName"@, "hostname"@));
    assert(eq_ignore_ascii_case("User"@, "user"@));
    assert(!eq_ignore_ascii_case("Port"@, "user"@)) by {
        assert(ascii_lower("Port"@[0]) != ascii_lower("user"@[0]));
    }
    assert(eq_ignore_ascii_case("Port"@, "port"@));
    assert(eq_ignore_ascii_case("IdentityFile"@, "identityfile"@));
    assert(eq_ignore_ascii_case("ProxyJump"@, "proxyjump"@));
}

/// Reading a `Host` line: the previous block closed and a new one opened.
proof fn lemma_host_line(t: Seq<char>, h: SshHostView)
    requires
        ends_line(t),
        line_value(h.name),
    ensures
        ends_line((t + ("Host "@ + h.name)).push('\n')),
        state_of((t + ("Host "@ + h.name)).push('\n')) == (ParseState {
            entries: flush(state_of(t)),
            in_block: true,
            name: h.name,
            hostname: Seq::empty(),
            user: Seq::empty(),
            port: 22,
            identity: None,
            proxy: None,
        }),
{
    reveal_strlit("Host ");
    reveal_strlit("host ");
    let hl = "Host "@ + h.name;
    assert(single_line(hl)) by {
        assert forall|m: int| 0 <= m < hl.len() implies hl[m] != '\n' by {
            if m >= 5 {
                assert(hl[m] == h.name[m - 5]);
            }
        }
    }
    lemma_state_line(t, hl);
    assert(hl[hl.len() - 1] == h.name[h.name.len() - 1]);
    lemma_trim_pad(Seq::<char>::empty(), hl);
    assert(Seq::<char>::empty() + hl =~= hl);
    assert(hl.take(5) =~= "Host "@);
    assert(is_host_line(hl));
    assert(hl.skip(5) =~= h.name);
    lemma_trim_pad(Seq::<char>::empty(), h.name);
    assert(Seq::<char>::empty() + h.name =~= h.name);
}

/// The port's decimal text is a configuration value that parses back.
proof fn lemma_port_value(p: u16)
    ensures
        line_value(decimal(p as nat)),
        parse_u16_spec(decimal(p as nat)) == Some(p),
{
    lemma_decimal_digits(p as nat);
    lemma_parse_decimal_roundtrip(p);
    let d = decimal(p as nat);
    assert(is_digit(d[0]));
    assert(is_digit(d[d.len() - 1]));
    assert forall|k: int| 0 <= k < d.len() implies d[k] != '\n' by {
        assert(is_digit(d[k]));
    }
}

/// The text of a block up to its `Port` line, after `t`.
spec fn head_text(t: Seq<char>, h: SshHostView) -> Seq<char> {
    (t + ("Host "@ + h.name)).push('\n') + setting_if(h.hostname != h.name, "HostName"@, h.hostname)
        + setting_if(h.username.len() > 0, "User"@, h.username) + setting_if(
        h.port != 22,
        "Port"@,
        decimal(h.port as nat),
    )
}

/// Reading a block up to its `Port` line.
proof fn lemma_block_head(t: Seq<char>, h: SshHostView)
    requires
        ends_line(t),
        exportable(h),
    ensures
        ends_line(head_text(t, h)),
        state_of(head_text(t, h)) == (ParseState {
            entries: flush(state_of(t)),
            in_block: true,
            name: h.name,
            hostname: if h.hostname != h.name {
                h.hostname
            } else {
                Seq::empty()
            },
            user: h.username,
            port: h.port,
            identity: None,
            proxy: None,
        }),
{
    reveal_strlit("HostName");
    reveal_strlit("User");
    reveal_strlit("Port");
    reveal_strlit("host ");
    let t1 = (t + ("Host "@ + h.name)).push('\n');
    lemma_host_line(t, h);
    let s1 = state_of(t1);
    let t2 = t1 + setting_if(h.hostname != h.name, "HostName"@, h.hostname);
    lemma_setting(t1, h.hostname != h.name, "HostName"@, h.hostname, 4);
    lemma_known_keys(s1, h.hostname);
    let s2 = state_of(t2);
    let t3 = t2 + setting_if(h.username.len() > 0, "User"@, h.username);
    lemma_setting(t2, h.username.len() > 0, "User"@, h.username, 0);
    lemma_known_keys(s2, h.username);
    let s3 = state_of(t3);
    assert(s3 == ParseState { user: h.username, ..s2 }) by {
        if h.username.len() == 0 {
            assert(h.username =~= s2.user);
        }
    }
    let d = decimal(h.port as nat);
    lemma_port_value(h.port);
    lemma_setting(t3, h.port != 22, "Port"@, d, 0);
    lemma_known_keys(s3, d);
}

/// Reading the rest of a block: the optional settings, the environment and the
/// closing blank line.
proof fn lemma_block_tail(t: Seq<char>, h: SshHostView)
    requires
        ends_line(t),
        state_of(t).in_block,
        state_of(t).identity is None,
        state_of(t).proxy is None,
        exportable(h),
    ensures
        ({
            let u = (t + optional_setting("IdentityFile"@, h.identity_file) + optional_setting(
                "ProxyJump"@,
                h.proxy_jump,
            ) + env_lines(h.env_vars)).push('\n');
            &&& ends_line(u)
            &&& state_of(u) == (ParseState {
                identity: nonempty_option(h.identity_file),
                proxy: nonempty_option(h.proxy_jump),
                ..state_of(t)
            })
        }),
{
    reveal_strlit("IdentityFile");
    reveal_strlit("ProxyJump");
    reveal_strlit("host ");
    let s4 = state_of(t);
    let ident = or_empty(nonempty_option(h.identity_file));
    let t5 = t + setting_if(nonempty_option(h.identity_file) is Some, "IdentityFile"@, ident);
    assert(t + optional_setting("IdentityFile"@, h.identity_file) == t5);
    lemma_setting(t, nonempty_option(h.identity_file) is Some, "IdentityFile"@, ident, 0);
    lemma_known_keys(s4, ident);
    let s5 = state_of(t5);
    let jump = or_empty(nonempty_option(h.proxy_jump));
    let t6 = t5 + setting_if(nonempty_option(h.proxy_jump) is Some, "ProxyJump"@, jump);
    assert(t5 + optional_setting("ProxyJump"@, h.proxy_jump) == t6);
    lemma_setting(t5, nonempty_option(h.proxy_jump) is Some, "ProxyJump"@, jump, 0);
    lemma_known_keys(s5, jump);
    let t7 = t6 + env_lines(h.env_vars);
    lemma_env_lines(t6, h.env_vars);
    assert(single_line(Seq::<char>::empty()));
    lemma_state_line(t7, Seq::<char>::empty());
    lemma_empty_line(state_of(t7));
    assert((t7 + Seq::<char>::empty()).push('\n') =~= t7.push('\n'));
    assert(t + optional_setting("IdentityFile"@, h.identity_file) + optional_setting(
        "ProxyJump"@,
        h.proxy_jump,
    ) + env_lines(h.env_vars) == t7);
}

/// Reading a host's block.
proof fn lemma_block(t: Seq<char>, h: SshHostView)
    requires
        ends_line(t),
        exportable(h),
    ensures
        ends_line(t + host_block(h)),
        state_of(t + host_block(h)) == block_state(flush(state_of(t)), h),
{
    lemma_block_head(t, h);
    let t4 = head_text(t, h);
    lemma_block_tail(t4, h);
    lemma_block_text(t, h);
}

/// A block after a text, split where the reading lemmas meet.
proof fn lemma_block_text(t: Seq<char>, h: SshHostView)
    ensures
        t + host_block(h) == (head_text(t, h) + optional_setting("IdentityFile"@, h.identity_file)
            + optional_setting("ProxyJump"@, h.proxy_jump) + env_lines(h.env_vars)).push('\n'),
{
    let a0 = "Host "@ + h.name;
    let a1 = a0 + "\n"@;
    let a2 = a1 + setting_if(h.hostname != h.name, "HostName"@, h.hostname);
    let a3 = a2 + setting_if(h.username.len() > 0, "User"@, h.username);
    let a4 = a3 + setting_if(h.port != 22, "Port"@, decimal(h.port as nat));
    let a5 = a4 + optional_setting("IdentityFile"@, h.identity_file);
    let a6 = a5 + optional_setting("ProxyJump"@, h.proxy_jump);
    let a7 = a6 + env_lines(h.env_vars);
    let a8 = a7 + "\n"@;
    assert(host_block(h) == a8);
    lemma_newline_after(t, a0);
    lemma_concat_assoc(t, a1, setting_if(h.hostname != h.name, "HostName"@, h.hostname));
    lemma_concat_assoc(t, a2, setting_if(h.username.len() > 0, "User"@, h.username));
    lemma_concat_assoc(t, a3, setting_if(h.port != 22, "Port"@, decimal(h.port as nat)));
    lemma_concat_assoc(t, a4, optional_setting("IdentityFile"@, h.identity_file));
    lemma_concat_assoc(t, a5, optional_setting("ProxyJump"@, h.proxy_jump));
    lemma_concat_assoc(t, a6, env_lines(h.env_vars));
    lemma_newline_after(t, a7);
}

/// Concatenation is associative.
proof fn lemma_concat_assoc(a: Seq<char>, b: Seq<char>, c: Seq<char>)
    ensures
        a + (b + c) == (a + b) + c,
{
    assert(a + (b + c) =~= (a + b) + c);
}

/// A line break after a text, after another text.
proof fn lemma_newline_after(a: Seq<char>, b: Seq<char>)
    ensures
        a + (b + "\n"@) == (a + b).push('\n'),
{
    reveal_strlit("\n");
    assert(a + (b + "\n"@) =~= (a + b).push('\n'));
}

/// Closing the block of a host adds the host's entry.
proof fn lemma_block_flush(entries: Seq<HostEntryView>, h: SshHostView)
    requires
        exportable(h),
    ensures
        flush(block_state(entries, h)) == entries.push(entry_of(h)),
{
}

/// Reading the header of an export.
proof fn lemma_header()
    ensures
        ends_line(config_header()),
        state_of(config_header()) == initial_state(),
{
    reveal_strlit("# SSHMan exported config\n");
    reveal_strlit("# Do not edit manually unless you know what you're doing\n\n");
    reveal_strlit("# SSHMan exported config");
    reveal_strlit("# Do not edit manually unless you know what you're doing");
    reveal_strlit("host ");
    let e = Seq::<char>::empty();
    let l1 = "# SSHMan exported config"@;
    let l2 = "# Do not edit manually unless you know what you're doing"@;
    assert(ends_line(e)) by {
        assert(split_on(e, '\n') == seq![e]);
    }
    assert(state_of(e) == initial_state()) by {
        assert(split_on(e, '\n') == seq![e]);
        assert(seq![e].drop_last() =~= Seq::<Seq<char>>::empty());
    }
    assert(single_line(l1));
    assert(single_line(l2));
    assert(single_line(e));
    let t1 = (e + l1).push('\n');
    lemma_state_line(e, l1);
    lemma_trim_pad(e, l1);
    assert(e + l1 =~= l1);
    lemma_not_host_line(l1, 0);
    let t2 = (t1 + l2).push('\n');
    lemma_state_line(t1, l2);
    lemma_trim_pad(e, l2);
    assert(e + l2 =~= l2);
    lemma_not_host_line(l2, 0);
    let t3 = (t2 + e).push('\n');
    lemma_state_line(t2, e);
    lemma_empty_line(state_of(t2));
    assert(config_header() =~= t3);
}

/// Reading the export of a list of hosts: the state after all blocks.
proof fn lemma_blocks(hosts: Seq<SshHostView>)
    requires
        forall|k: int| 0 <= k < hosts.len() ==> exportable(#[trigger] hosts[k]),
    ensures
        ends_line(config_header() + host_blocks(hosts)),
        flush(state_of(config_header() + host_blocks(hosts))) == hosts.map_values(
            |h: SshHostView| entry_of(h),
        ),
    decreases hosts.len(),
{
    lemma_header();
    if hosts.len() == 0 {
        assert(config_header() + host_blocks(hosts) =~= config_header());
        assert(hosts.map_values(|h: SshHostView| entry_of(h)) =~= Seq::<HostEntryView>::empty());
    } else {
        let init = hosts.drop_last();
        assert forall|k: int| 0 <= k < init.len() implies exportable(#[trigger] init[k]) by {
            assert(init[k] == hosts[k]);
        }
        lemma_blocks(init);
        let t = config_header() + host_blocks(init);
        assert(hosts.last() == hosts[hosts.len() - 1]);
        lemma_block(t, hosts.last());
        assert(config_header() + host_blocks(hosts) =~= t + host_block(hosts.last()));
        lemma_block_flush(flush(state_of(t)), hosts.last());
        assert(hosts.map_values(|h: SshHostView| entry_of(h)) =~= init.map_values(
            |h: SshHostView| entry_of(h),
        ).push(entry_of(hosts.last())));
    }
}

/// Reading back an exported configuration gives one block per host, in order,
/// with the host's name, host name, user, port, identity file and jump host,
/// for every list of hosts whose values fit on configuration lines.
pub proof fn law_export_then_import(hosts: Seq<SshHostView>)
    requires
        forall|k: int| 0 <= k < hosts.len() ==> exportable(#[trigger] hosts[k]),
    ensures
        parse_entries(ssh_config_text_spec(hosts)) == hosts.map_values(
            |h: SshHostView| entry_of(h),
        ),
{
    lemma_blocks(hosts);
    let text = ssh_config_text_spec(hosts);
    lemma_split_nonempty(text, '\n');
    let sp = split_on(text, '\n');
    assert(sp =~= sp.drop_last().push(Seq::<char>::empty()));
    assert(sp.drop_last().push(Seq::<char>::empty()).drop_last() =~= sp.drop_last());
    lemma_empty_line(state_of(text));
}

// ---------------------------------------------------------------------------
// Orders, fields and arguments, in plain terms
// ---------------------------------------------------------------------------

/// What each sort mode puts first, stated on the hosts' own fields: by name,
/// lower-cased names in text order; favourites first, favourites before the
/// others and, within each part, lower-cased names in text order; most recent,
/// later connections first and never-connected hosts last; most connected,
/// higher connection counts first.
pub proof fn law_sort_orders(hosts: Seq<SshHostView>)
    ensures
        forall|i: int, j: int|
            0 <= i < j < hosts.len() ==> lex_le(
                lowercase((#[trigger] sorted_in_mode(hosts, SortMode::Alphabetical)[i]).name),
                lowercase((#[trigger] sorted_in_mode(hosts, SortMode::Alphabetical)[j]).name),
            ),
        forall|i: int, j: int|
            0 <= i < j < hosts.len() ==> ((#[trigger] sorted_in_mode(
                hosts,
                SortMode::FavoritesFirst,
            )[j]).is_favorite ==> (#[trigger] sorted_in_mode(
                hosts,
                SortMode::FavoritesFirst,
            )[i]).is_favorite),
        forall|i: int, j: int|
            0 <= i < j < hosts.len() && (#[trigger] sorted_in_mode(
                hosts,
                SortMode::FavoritesFirst,
            )[i]).is_favorite == (#[trigger] sorted_in_mode(
                hosts,
                SortMode::FavoritesFirst,
            )[j]).is_favorite ==> lex_le(
                lowercase(sorted_in_mode(hosts, SortMode::FavoritesFirst)[i].name),
                lowercase(sorted_in_mode(hosts, SortMode::FavoritesFirst)[j].name),
            ),
        forall|i: int, j: int|
            0 <= i < j < hosts.len() ==> ((#[trigger] sorted_in_mode(
                hosts,
                SortMode::Recent,
            )[i]).last_connected is None ==> (#[trigger] sorted_in_mode(
                hosts,
                SortMode::Recent,
            )[j]).last_connected is None),
        forall|i: int, j: int|
            0 <= i < j < hosts.len() && (#[trigger] sorted_in_mode(
                hosts,
                SortMode::Recent,
            )[i]).last_connected is Some && (#[trigger] sorted_in_mode(
                hosts,
                SortMode::Recent,
            )[j]).last_connected is Some ==> sorted_in_mode(hosts, SortMode::Recent)[i].last_connected->0
                >= sorted_in_mode(hosts, SortMode::Recent)[j].last_connected->0,
        forall|i: int, j: int|
            0 <= i < j < hosts.len() ==> (#[trigger] sorted_in_mode(
                hosts,
                SortMode::MostConnected,
            )[i]).connect_count >= (#[trigger] sorted_in_mode(
                hosts,
                SortMode::MostConnected,
            )[j]).connect_count,
{
    law_sorted_in_mode(hosts, SortMode::Alphabetical);
    law_sorted_in_mode(hosts, SortMode::FavoritesFirst);
    law_sorted_in_mode(hosts, SortMode::Recent);
    law_sorted_in_mode(hosts, SortMode::MostConnected);
    let a = sorted_in_mode(hosts, SortMode::Alphabetical);
    assert forall|i: int, j: int| 0 <= i < j < hosts.len() implies lex_le(
        lowercase((#[trigger] a[i]).name),
        lowercase((#[trigger] a[j]).name),
    ) by {
        assert(key_le(mode_key(a[i], SortMode::Alphabetical), mode_key(a[j], SortMode::Alphabetical)));
    }
    let f = sorted_in_mode(hosts, SortMode::FavoritesFirst);
    assert forall|i: int, j: int| 0 <= i < j < hosts.len() implies ((#[trigger] f[j]).is_favorite
        ==> (#[trigger] f[i]).is_favorite) by {
        assert(key_le(mode_key(f[i], SortMode::FavoritesFirst), mode_key(f[j], SortMode::FavoritesFirst)));
    }
    assert forall|i: int, j: int|
        0 <= i < j < hosts.len() && (#[trigger] f[i]).is_favorite == (#[trigger] f[j]).is_favorite
        implies lex_le(lowercase(f[i].name), lowercase(f[j].name)) by {
        assert(key_le(mode_key(f[i], SortMode::FavoritesFirst), mode_key(f[j], SortMode::FavoritesFirst)));
    }
    let r = sorted_in_mode(hosts, SortMode::Recent);
    assert forall|i: int, j: int| 0 <= i < j < hosts.len() implies ((#[trigger] r[i]).last_connected
        is None ==> (#[trigger] r[j]).last_connected is None) by {
        assert(key_le(mode_key(r[i], SortMode::Recent), mode_key(r[j], SortMode::Recent)));
    }
    assert forall|i: int, j: int|
        0 <= i < j < hosts.len() && (#[trigger] r[i]).last_connected is Some
            && (#[trigger] r[j]).last_connected is Some implies r[i].last_connected->0
        >= r[j].last_connected->0 by {
        assert(key_le(mode_key(r[i], SortMode::Recent), mode_key(r[j], SortMode::Recent)));
    }
    let m = sorted_in_mode(hosts, SortMode::MostConnected);
    assert forall|i: int, j: int| 0 <= i < j < hosts.len() implies (#[trigger] m[i]).connect_count
        >= (#[trigger] m[j]).connect_count by {
        assert(key_le(mode_key(m[i], SortMode::MostConnected), mode_key(m[j], SortMode::MostConnected)));
    }
}

/// In the form, a typed character goes to the end of the field being typed in:
/// the name, host name, user name, port, identity file, jump host, tags and
/// notes fields in that order; Backspace drops that field's last character.
/// No other field and nothing else of the state changes; past the last field
/// the keys change nothing.
pub proof fn law_form_typing(s: AppStateView, c: char, m1: u8, m2: u8)
    ensures
        ({
            let t = insert_step(s, KeyInput { code: KeyCode::Char(c), modifiers: m1 });
            let f = s.form_data;
            &&& t == (AppStateView { form_data: t.form_data, ..s })
            &&& s.form_field_index == 0 ==> t.form_data == (HostFormDataView {
                name: f.name.push(c),
                ..f
            })
            &&& s.form_field_index == 1 ==> t.form_data == (HostFormDataView {
                hostname: f.hostname.push(c),
                ..f
            })
            &&& s.form_field_index == 2 ==> t.form_data == (HostFormDataView {
                username: f.username.push(c),
                ..f
            })
            &&& s.form_field_index == 3 ==> t.form_data == (HostFormDataView {
                port: f.port.push(c),
                ..f
            })
            &&& s.form_field_index == 4 ==> t.form_data == (HostFormDataView {
                identity_file: f.identity_file.push(c),
                ..f
            })
            &&& s.form_field_index == 5 ==> t.form_data == (HostFormDataView {
                proxy_jump: f.proxy_jump.push(c),
                ..f
            })
            &&& s.form_field_index == 6 ==> t.form_data == (HostFormDataView {
                tags: f.tags.push(c),
                ..f
            })
            &&& s.form_field_index == 7 ==> t.form_data == (HostFormDataView {
                notes: f.notes.push(c),
                ..f
            })
            &&& s.form_field_index >= 8 ==> t == s
        }),
        ({
            let t = insert_step(s, KeyInput { code: KeyCode::Backspace, modifiers: m2 });
            let f = s.form_data;
            &&& t == (AppStateView { form_data: t.form_data, ..s })
            &&& s.form_field_index == 0 ==> t.form_data == (HostFormDataView {
                name: popped(f.name),
                ..f
            })
            &&& s.form_field_index == 1 ==> t.form_data == (HostFormDataView {
                hostname: popped(f.hostname),
                ..f
            })
            &&& s.form_field_index == 2 ==> t.form_data == (HostFormDataView {
                username: popped(f.username),
                ..f
            })
            &&& s.form_field_index == 3 ==> t.form_data == (HostFormDataView {
                port: popped(f.port),
                ..f
            })
            &&& s.form_field_index == 4 ==> t.form_data == (HostFormDataView {
                identity_file: popped(f.identity_file),
                ..f
            })
            &&& s.form_field_index == 5 ==> t.form_data == (HostFormDataView {
                proxy_jump: popped(f.proxy_jump),
                ..f
            })
            &&& s.form_field_index == 6 ==> t.form_data == (HostFormDataView {
                tags: popped(f.tags),
                ..f
            })
            &&& s.form_field_index == 7 ==> t.form_data == (HostFormDataView {
                notes: popped(f.notes),
                ..f
            })
            &&& s.form_field_index >= 8 ==> t == s
        }),
{
}

/// The `ssh` command line of a session, stated on its items: a non-default
/// port comes as `-p` followed by the port; a given identity file and jump
/// host, when not empty, as `-i` and `-J` followed by them, whatever the port;
/// the destination `user@host` follows, and a given remote command, when not
/// empty, comes last.
pub proof fn law_session_flags(
    hostname: Seq<char>,
    port: u16,
    username: Seq<char>,
    identity_file: Option<Seq<char>>,
    proxy_jump: Option<Seq<char>>,
    custom_command: Option<Seq<char>>,
)
    ensures
        ({
            let a = session_args_spec(
                hostname,
                port,
                username,
                identity_file,
                proxy_jump,
                custom_command,
            );
            &&& port != 22 ==> exists|i: int|
                0 <= i < a.len() - 1 && #[trigger] a[i] == "-p"@ && a[i + 1] == decimal(
                    port as nat,
                )
            &&& identity_file is Some && identity_file->0.len() > 0 ==> exists|i: int|
                0 <= i < a.len() - 1 && #[trigger] a[i] == "-i"@ && a[i + 1]
                    == identity_file->0
            &&& proxy_jump is Some && proxy_jump->0.len() > 0 ==> exists|i: int|
                0 <= i < a.len() - 1 && #[trigger] a[i] == "-J"@ && a[i + 1] == proxy_jump->0
            &&& custom_command is Some && custom_command->0.len() > 0 ==> a.len() >= 2 && a.last()
                == custom_command->0 && a[a.len() - 2] == username + "@"@ + hostname
            &&& !(custom_command is Some && custom_command->0.len() > 0) ==> a.len() >= 1
                && a.last() == username + "@"@ + hostname
        }),
{
    let a = session_args_spec(hostname, port, username, identity_file, proxy_jump, custom_command);
    let p = port_args(port);
    let id = flag_args("-i"@, nonempty_option(identity_file));
    let j = flag_args("-J"@, nonempty_option(proxy_jump));
    let o = seq![
        "-o"@,
        "ServerAliveInterval=60"@,
        "-o"@,
        "ServerAliveCountMax=3"@,
        "-o"@,
        "StrictHostKeyChecking=accept-new"@,
    ];
    let d = seq![destination(username, hostname)];
    let c = match nonempty_option(custom_command) {
        Some(x) => seq![x],
        None => Seq::<Seq<char>>::empty(),
    };
    assert(a == p + id + j + o + d + c);
    if port != 22 {
        assert(a[0] == p[0] && a[1] == p[1]);
    }
    if identity_file matches Some(v) && v.len() > 0 {
        let k = p.len() as int;
        assert(a[k] == id[0] && a[k + 1] == id[1]);
    }
    if proxy_jump matches Some(v) && v.len() > 0 {
        let k = (p.len() + id.len()) as int;
        assert(a[k] == j[0] && a[k + 1] == j[1]);
    }
    let before = p + id + j + o;
    assert(a[before.len() as int] == destination(username, hostname));
    if custom_command matches Some(x) && x.len() > 0 {
        assert(a.len() == before.len() + 2);
    } else {
        assert(a.len() == before.len() + 1);
    }
}

/// The CSV export: the header names the columns name, hostname, username,
/// port, identity_file, proxy_jump, tags, notes, is_favorite and
/// connect_count, and each host's row gives, in that order and separated by
/// commas, its name, host name and user name (quoted when needed), its port,
/// its identity file and jump host (empty when absent), its tags joined by
/// commas, its notes, `true` or `false`, and its connection count.
pub proof fn law_csv_columns(hosts: Seq<SshHostView>, h: SshHostView)
    ensures
        csv_text_spec(hosts)
            == "name,hostname,username,port,identity_file,proxy_jump,tags,notes,is_favorite,connect_count\n"@
            + csv_rows(hosts),
        csv_rows(hosts.push(h)) == csv_rows(hosts) + csv_row(h),
        csv_row(h) == csv_field(h.name) + ","@ + csv_field(h.hostname) + ","@ + csv_field(
            h.username,
        ) + ","@ + decimal(h.port as nat) + ","@ + csv_field(or_empty(h.identity_file)) + ","@
            + csv_field(or_empty(h.proxy_jump)) + ","@ + csv_field(join(h.tags, ","@)) + ","@
            + csv_field(or_empty(h.notes)) + ","@ + (if h.is_favorite {
            "true"@
        } else {
            "false"@
        }) + ","@ + decimal(h.connect_count as nat) + "\n"@,
{
    let c = csv_cells(h);
    let sep = ","@;
    assert(hosts.push(h).drop_last() =~= hosts);
    assert(c.len() == 10);
    assert(join(c.take(1), sep) == c[0]) by {
        assert(c.take(1).len() == 1);
    }
    assert forall|n: int| 1 <= n < 10 implies join(c.take(n + 1), sep) == join(c.take(n), sep)
        + sep + c[n] by {
        assert(c.take(n + 1).drop_last() =~= c.take(n));
        assert(c.take(n + 1).last() == c[n]);
    }
    assert(c.take(10) =~= c);
}

/// A key that is a lower-case keyword up to ASCII case has no white space.
proof fn lemma_keyword_chars(k: Seq<char>, word: Seq<char>)
    requires
        eq_ignore_ascii_case(k, word),
        forall|i: int| 0 <= i < word.len() ==> 'a' <= #[trigger] word[i] <= 'z',
    ensures
        forall|i: int| 0 <= i < k.len() ==> !is_ws(#[trigger] k[i]),
{
    assert forall|i: int| 0 <= i < k.len() implies !is_ws(#[trigger] k[i]) by {
        assert(ascii_lower(k[i]) == ascii_lower(word[i]));
        assert('a' <= word[i] <= 'z');
    }
}

/// Reading a block with one setting line.
proof fn lemma_one_setting(n: Seq<char>, k: Seq<char>, v: Seq<char>, i: int)
    requires
        line_value(n),
        line_value(v),
        forall|m: int| 0 <= m < k.len() ==> !is_ws(#[trigger] k[m]),
        0 <= i < 5,
        i < k.len(),
        ascii_lower(k[i]) != ascii_lower("host "@[i]),
    ensures
        parse_entries("Host "@ + n + "\n    "@ + k + " "@ + v + "\n"@) == flush(
            apply_setting(
                ParseState {
                    entries: Seq::empty(),
                    in_block: true,
                    name: n,
                    hostname: Seq::empty(),
                    user: Seq::empty(),
                    port: 22,
                    identity: None,
                    proxy: None,
                },
                k,
                v,
            ),
        ),
{
    reveal_strlit("Host ");
    reveal_strlit("\n    ");
    reveal_strlit("    ");
    reveal_strlit(" ");
    reveal_strlit("\n");
    let e = Seq::<char>::empty();
    assert(ends_line(e)) by {
        assert(split_on(e, '\n') == seq![e]);
    }
    assert(state_of(e) == initial_state()) by {
        assert(split_on(e, '\n') == seq![e]);
        assert(seq![e].drop_last() =~= Seq::<Seq<char>>::empty());
    }
    let h = fresh_host(n, n, n, n);
    lemma_host_line(e, h);
    let t1 = (e + ("Host "@ + n)).push('\n');
    lemma_setting(t1, true, k, v, i);
    let t2 = t1 + setting_if(true, k, v);
    assert(t2 =~= "Host "@ + n + "\n    "@ + k + " "@ + v + "\n"@);
    lemma_split_nonempty(t2, '\n');
    let sp = split_on(t2, '\n');
    assert(sp =~= sp.drop_last().push(Seq::<char>::empty()));
    assert(sp.drop_last().push(Seq::<char>::empty()).drop_last() =~= sp.drop_last());
    lemma_empty_line(state_of(t2));
}

/// Reading a configuration matches its keys ignoring ASCII case, in every
/// spelling: in a block `Host n` with one line `k v`, a key `HostName` gives
/// the host name `v`, `User` the user name, `IdentityFile` the identity file,
/// and `ProxyJump` or `J` the jump host; everything else of the block keeps
/// its default (the host name defaults to the block's name).
pub proof fn law_import_setting_keys(n: Seq<char>, k: Seq<char>, v: Seq<char>)
    requires
        line_value(n),
        line_value(v),
    ensures
        ({
            let text = "Host "@ + n + "\n    "@ + k + " "@ + v + "\n"@;
            let plain = HostEntryView {
                name: n,
                hostname: n,
                username: Seq::empty(),
                port: 22,
                identity_file: None,
                proxy_jump: None,
            };
            &&& eq_ignore_ascii_case(k, "hostname"@) ==> parse_entries(text) == seq![
                HostEntryView { hostname: v, ..plain },
            ]
            &&& eq_ignore_ascii_case(k, "user"@) ==> parse_entries(text) == seq![
                HostEntryView { username: v, ..plain },
            ]
            &&& eq_ignore_ascii_case(k, "identityfile"@) ==> parse_entries(text) == seq![
                HostEntryView { identity_file: Some(v), ..plain },
            ]
            &&& (eq_ignore_ascii_case(k, "proxyjump"@) || eq_ignore_ascii_case(k, "j"@))
                ==> parse_entries(text) == seq![HostEntryView { proxy_jump: Some(v), ..plain }]
        }),
{
    reveal_strlit("hostname");
    reveal_strlit("user");
    reveal_strlit("port");
    reveal_strlit("identityfile");
    reveal_strlit("proxyjump");
    reveal_strlit("j");
    reveal_strlit("host ");
    let st = ParseState {
        entries: Seq::empty(),
        in_block: true,
        name: n,
        hostname: Seq::<char>::empty(),
        user: Seq::<char>::empty(),
        port: 22,
        identity: None,
        proxy: None,
    };
    if eq_ignore_ascii_case(k, "hostname"@) {
        lemma_keyword_chars(k, "hostname"@);
        assert(ascii_lower(k[4]) == ascii_lower("hostname"@[4]));
        lemma_one_setting(n, k, v, 4);
    }
    if eq_ignore_ascii_case(k, "user"@) {
        lemma_keyword_chars(k, "user"@);
        assert(ascii_lower(k[0]) == ascii_lower("user"@[0]));
        lemma_one_setting(n, k, v, 0);
        assert(!eq_ignore_ascii_case(k, "hostname"@));
    }
    if eq_ignore_ascii_case(k, "identityfile"@) {
        lemma_keyword_chars(k, "identityfile"@);
        assert(ascii_lower(k[0]) == ascii_lower("identityfile"@[0]));
        lemma_one_setting(n, k, v, 0);
        assert(!eq_ignore_ascii_case(k, "port"@));
    }
    if eq_ignore_ascii_case(k, "proxyjump"@) {
        lemma_keyword_chars(k, "proxyjump"@);
        assert(ascii_lower(k[0]) == ascii_lower("proxyjump"@[0]));
        lemma_one_setting(n, k, v, 0);
    }
    if eq_ignore_ascii_case(k, "j"@) {
        lemma_keyword_chars(k, "j"@);
        assert(ascii_lower(k[0]) == ascii_lower("j"@[0]));
        lemma_one_setting(n, k, v, 0);
    }
}

/// A `Port` key, in any ASCII case, gives the port its value names.
pub proof fn law_import_port(n: Seq<char>, k: Seq<char>, p: u16)
    requires
        line_value(n),
        eq_ignore_ascii_case(k, "port"@),
    ensures
        parse_entries("Host "@ + n + "\n    "@ + k + " "@ + decimal(p as nat) + "\n"@) == seq![
            HostEntryView {
                name: n,
                hostname: n,
                username: Seq::empty(),
                port: p,
                identity_file: None,
                proxy_jump: None,
            },
        ],
{
    reveal_strlit("hostname");
    reveal_strlit("user");
    reveal_strlit("port");
    reveal_strlit("host ");
    lemma_port_value(p);
    lemma_keyword_chars(k, "port"@);
    assert(ascii_lower(k[0]) == ascii_lower("port"@[0]));
    lemma_one_setting(n, k, decimal(p as nat), 0);
    assert(!eq_ignore_ascii_case(k, "user"@));
}

} // verus!

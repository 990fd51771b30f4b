//! What every operation on the tab state keeps.
use crate::path::{PathView, same_path};
use crate::tabs::{
    RestoredTabEntry, SplitGroup, SplitGroupId, SplitPlacement, SplitSide, TabEntry, TabId,
    TabView, TabsView, entries_disjoint, display_order, entry_of, entry_ok, group_at, group_of,
    groups_distinct, has_group, ratio_in_range, registered_in, restored_before, shown,
    splits_before,
};
use vstd::prelude::*;

verus! {

/// An entry that shows `tab` is the one that `entry_of` names.
pub proof fn entry_of_is(entries: Seq<TabEntry>, tab: TabId, index: int)
    requires
        entries_disjoint(entries),
        0 <= index < entries.len(),
        entries[index].has(tab),
    ensures
        shown(entries, tab),
        entry_of(entries, tab) == index,
{
    let chosen = entry_of(entries, tab);
    assert(entries[chosen].has(tab) && entries[index].has(tab));
}

/// The split `id` is the one that `group_of` names.
pub proof fn group_of_is(entries: Seq<TabEntry>, id: SplitGroupId, index: int)
    requires
        groups_distinct(entries),
        0 <= index < entries.len(),
        entries[index].is_group(id),
    ensures
        has_group(entries, id),
        group_of(entries, id) == index,
{
    let chosen = group_of(entries, id);
    assert(entries[chosen].is_group(id) && entries[index].is_group(id));
}

/// Every registered tab is shown by some entry.
pub proof fn registered_is_shown(s: TabsView, tab: TabId)
    requires
        s.layout_ok(),
        s.registered(tab),
    ensures
        shown(s.entries, tab),
{
    let i = choose|i: int| 0 <= i < s.tabs.len() && (#[trigger] s.tabs[i]).id == tab;
    assert(shown(s.entries, s.tabs[i].id));
}

/// The tab for `path` is the one that `path_of` names.
pub proof fn path_of_is(s: TabsView, path: PathView, index: int)
    requires
        s.registry_ok(),
        0 <= index < s.tabs.len(),
        same_path(s.tabs[index].path, path),
    ensures
        s.has_path(path),
        s.path_of(path) == index,
{
    let chosen = s.path_of(path);
    assert(same_path(s.tabs[chosen].path, s.tabs[index].path));
}

/// Selecting a tab keeps the invariant.
pub proof fn select_tab_keeps_wf(s: TabsView, tab: TabId)
    requires
        s.wf(),
    ensures
        s.select_tab(tab).wf(),
{
    if shown(s.entries, tab) {
        let e = entry_of(s.entries, tab);
        let after = s.select_tab(tab);
        assert(forall|i: int, t: TabId|
            0 <= i < after.entries.len() ==> (#[trigger] after.entries[i].has(t)
                == s.entries[i].has(t)));
        assert(forall|i: int, id: SplitGroupId|
            0 <= i < after.entries.len() ==> (#[trigger] after.entries[i].is_group(id)
                == s.entries[i].is_group(id)));
        same_members_keep_layout(s, after);
        assert(s.entries[e].has(tab));
        assert(s.registered(tab));
        assert forall|i: int| 0 <= i < after.entries.len() && (#[trigger] after.entries[i]).has(
            tab,
        ) implies after.entries[i].focus() == tab by {
            assert(s.entries[i].has(tab));
        }
    }
}

/// A layout stays in order when every entry keeps its members and its identity.
pub proof fn same_members_keep_layout(s: TabsView, after: TabsView)
    requires
        s.layout_ok(),
        after.tabs == s.tabs,
        after.next_split_group_id == s.next_split_group_id,
        after.entries.len() == s.entries.len(),
        forall|i: int, t: TabId|
            0 <= i < s.entries.len() ==> (#[trigger] after.entries[i].has(t) == s.entries[i].has(t)),
        forall|i: int, id: SplitGroupId|
            0 <= i < s.entries.len() ==> (#[trigger] after.entries[i].is_group(id)
                == s.entries[i].is_group(id)),
        forall|i: int|
            0 <= i < s.entries.len() ==> entry_ok(
                #[trigger] after.entries[i],
                s.next_split_group_id,
            ),
    ensures
        after.layout_ok(),
{
    assert forall|i: int| 0 <= i < after.tabs.len() implies shown(
        after.entries,
        (#[trigger] after.tabs[i]).id,
    ) by {
        let tab = s.tabs[i].id;
        assert(shown(s.entries, tab));
        let e = entry_of(s.entries, tab);
        assert(after.entries[e].has(tab));
    }
    assert forall|i: int, t: TabId|
        0 <= i < after.entries.len() && (#[trigger] after.entries[i].has(
            t,
        )) implies after.registered(t) by {
        assert(s.entries[i].has(t));
        assert(s.registered(t));
        let k = choose|k: int| 0 <= k < s.tabs.len() && (#[trigger] s.tabs[k]).id == t;
        assert(after.tabs[k].id == t);
    }
    assert forall|i: int, j: int, t: TabId|
        #![trigger after.entries[i].has(t), after.entries[j].has(t)]
        0 <= i < after.entries.len() && 0 <= j < after.entries.len() && after.entries[i].has(t)
            && after.entries[j].has(t) implies i == j by {
        assert(s.entries[i].has(t) && s.entries[j].has(t));
    }
    assert forall|i: int, j: int, id: SplitGroupId|
        #![trigger after.entries[i].is_group(id), after.entries[j].is_group(id)]
        0 <= i < after.entries.len() && 0 <= j < after.entries.len() && after.entries[i].is_group(
            id,
        ) && after.entries[j].is_group(id) implies i == j by {
        assert(s.entries[i].is_group(id) && s.entries[j].is_group(id));
    }
}

/// Registering a new document keeps the invariant.
pub proof fn append_keeps_wf(s: TabsView, path: PathView)
    requires
        s.wf(),
        !s.has_path(path),
        s.next_tab_id < u64::MAX,
    ensures
        s.append(path).wf(),
{
    let id = TabId(s.next_tab_id as u64);
    let after = s.append(path);
    let gap = match s.active {
        None => s.entries.len() as int,
        Some(tab) => entry_of(s.entries, tab) + 1,
    };
    if let Some(tab) = s.active {
        registered_is_shown(s, tab);
    }
    assert(0 <= gap <= s.entries.len());
    assert(after.tabs[s.tabs.len() as int].id == id);
    assert(forall|i: int| 0 <= i < s.tabs.len() ==> after.tabs[i] == #[trigger] s.tabs[i]);
    assert forall|i: int| 0 <= i < s.entries.len() implies !(#[trigger] s.entries[i]).has(id) by {
        if s.entries[i].has(id) {
            assert(s.registered(id));
        }
    }
    insert_keeps_layout(s.entries, gap, TabEntry::Single(id));
    assert forall|i: int, t: TabId|
        0 <= i < after.entries.len() && (#[trigger] after.entries[i].has(
            t,
        )) implies after.registered(t) by {
        if i == gap {
            assert(after.tabs[s.tabs.len() as int].id == t);
        } else {
            let k = if i < gap { i } else { i - 1 };
            assert(s.entries[k].has(t));
            let r = choose|r: int| 0 <= r < s.tabs.len() && (#[trigger] s.tabs[r]).id == t;
            assert(after.tabs[r].id == t);
        }
    }
    assert forall|i: int| 0 <= i < after.tabs.len() implies shown(
        after.entries,
        (#[trigger] after.tabs[i]).id,
    ) by {
        let t = after.tabs[i].id;
        if i < s.tabs.len() {
            assert(shown(s.entries, s.tabs[i].id));
            let e = entry_of(s.entries, t);
            assert(s.entries[e].has(t));
            let k = if e < gap { e } else { e + 1 };
            assert(after.entries[k].has(t));
        } else {
            assert(after.entries[gap].has(t));
        }
    }
    assert forall|i: int| 0 <= i < after.entries.len() && (#[trigger] after.entries[i]).has(
        id,
    ) implies after.entries[i].focus() == id by {
        assert(after.entries[gap].has(id));
    }
}

/// Inserting an entry with members that no other entry has keeps the entries apart.
pub proof fn insert_keeps_layout(entries: Seq<TabEntry>, gap: int, entry: TabEntry)
    requires
        entries_disjoint(entries),
        groups_distinct(entries),
        0 <= gap <= entries.len(),
        forall|i: int, t: TabId|
            0 <= i < entries.len() && (#[trigger] entries[i].has(t)) ==> !entry.has(t),
        entry is Single,
    ensures
        entries_disjoint(entries.insert(gap, entry)),
        groups_distinct(entries.insert(gap, entry)),
{
    let after = entries.insert(gap, entry);
    assert forall|i: int, j: int, t: TabId|
        #![trigger after[i].has(t), after[j].has(t)]
        0 <= i < after.len() && 0 <= j < after.len() && after[i].has(t) && after[j].has(
            t,
        ) implies i == j by {
        let a = if i < gap { i } else { i - 1 };
        let b = if j < gap { j } else { j - 1 };
        if i != gap {
            assert(entries[a].has(t));
        }
        if j != gap {
            assert(entries[b].has(t));
        }
    }
    assert forall|i: int, j: int, id: SplitGroupId|
        #![trigger after[i].is_group(id), after[j].is_group(id)]
        0 <= i < after.len() && 0 <= j < after.len() && after[i].is_group(id) && after[j].is_group(
            id,
        ) implies i == j by {
        let a = if i < gap { i } else { i - 1 };
        let b = if j < gap { j } else { j - 1 };
        if i != gap {
            assert(entries[a].is_group(id));
        }
        if j != gap {
            assert(entries[b].is_group(id));
        }
    }
}

/// Opening a document keeps the invariant.
pub proof fn open_keeps_wf(s: TabsView, path: PathView)
    requires
        s.wf(),
        !s.has_path(path) ==> s.next_tab_id < u64::MAX,
    ensures
        s.open(path).wf(),
        s.open(path).has_path(path),
{
    if s.has_path(path) {
        select_tab_keeps_wf(s, s.tabs[s.path_of(path)].id);
        assert(same_path(s.tabs[s.path_of(path)].path, path));
        assert(same_path(s.open(path).tabs[s.path_of(path)].path, path));
    } else {
        append_keeps_wf(s, path);
        assert(same_path(s.append(path).tabs[s.tabs.len() as int].path, path));
    }
}

/// Following a document to a free path keeps the invariant.
pub proof fn rebind_keeps_wf(s: TabsView, index: int, path: PathView)
    requires
        s.wf(),
        0 <= index < s.tabs.len(),
        !s.path_taken(index, path),
    ensures
        s.rebind(index, path).wf(),
{
    let after = s.rebind(index, path);
    assert(forall|i: int| 0 <= i < s.tabs.len() ==> (#[trigger] after.tabs[i]).id == s.tabs[i].id);
    assert(forall|i: int|
        0 <= i < s.tabs.len() && i != index ==> (#[trigger] after.tabs[i]) == s.tabs[i]);
    assert forall|t: TabId| s.registered(t) implies #[trigger] after.registered(t) by {
        let k = choose|k: int| 0 <= k < s.tabs.len() && (#[trigger] s.tabs[k]).id == t;
        assert(after.tabs[k].id == t);
    }
    assert forall|i: int, j: int| 0 <= i < j < after.tabs.len() implies !same_path(
        (#[trigger] after.tabs[i]).path,
        (#[trigger] after.tabs[j]).path,
    ) by {
        assert(s.tabs[i] == s.tabs[i] && s.tabs[j] == s.tabs[j]);
        if i == index {
            assert(!same_path(s.tabs[j].path, path));
        } else if j == index {
            assert(!same_path(s.tabs[i].path, path));
        }
    }
    assert forall|i: int, t: TabId|
        0 <= i < after.entries.len() && (#[trigger] after.entries[i].has(
            t,
        )) implies after.registered(t) by {
        assert(s.registered(t));
    }
}

/// Taking an entry away keeps the others apart.
pub proof fn remove_keeps_apart(entries: Seq<TabEntry>, e: int)
    requires
        entries_disjoint(entries),
        groups_distinct(entries),
        0 <= e < entries.len(),
    ensures
        entries_disjoint(entries.remove(e)),
        groups_distinct(entries.remove(e)),
{
    let after = entries.remove(e);
    assert forall|i: int, j: int, t: TabId|
        #![trigger after[i].has(t), after[j].has(t)]
        0 <= i < after.len() && 0 <= j < after.len() && after[i].has(t) && after[j].has(
            t,
        ) implies i == j by {
        let a = if i < e { i } else { i + 1 };
        let b = if j < e { j } else { j + 1 };
        assert(entries[a].has(t) && entries[b].has(t));
    }
    assert forall|i: int, j: int, id: SplitGroupId|
        #![trigger after[i].is_group(id), after[j].is_group(id)]
        0 <= i < after.len() && 0 <= j < after.len() && after[i].is_group(id) && after[j].is_group(
            id,
        ) implies i == j by {
        let a = if i < e { i } else { i + 1 };
        let b = if j < e { j } else { j + 1 };
        assert(entries[a].is_group(id) && entries[b].is_group(id));
    }
}

/// Replacing an entry by one whose members and identity no other entry has keeps the
/// entries apart.
pub proof fn update_keeps_apart(entries: Seq<TabEntry>, e: int, entry: TabEntry)
    requires
        entries_disjoint(entries),
        groups_distinct(entries),
        0 <= e < entries.len(),
        forall|i: int, t: TabId|
            0 <= i < entries.len() && i != e && (#[trigger] entries[i].has(t)) ==> !entry.has(t),
        forall|i: int, id: SplitGroupId|
            0 <= i < entries.len() && i != e && (#[trigger] entries[i].is_group(id))
                ==> !entry.is_group(id),
    ensures
        entries_disjoint(entries.update(e, entry)),
        groups_distinct(entries.update(e, entry)),
{
    let after = entries.update(e, entry);
    assert forall|i: int, j: int, t: TabId|
        #![trigger after[i].has(t), after[j].has(t)]
        0 <= i < after.len() && 0 <= j < after.len() && after[i].has(t) && after[j].has(
            t,
        ) implies i == j by {
        if i != e {
            assert(entries[i].has(t));
        }
        if j != e {
            assert(entries[j].has(t));
        }
    }
    assert forall|i: int, j: int, id: SplitGroupId|
        #![trigger after[i].is_group(id), after[j].is_group(id)]
        0 <= i < after.len() && 0 <= j < after.len() && after[i].is_group(id) && after[j].is_group(
            id,
        ) implies i == j by {
        if i != e {
            assert(entries[i].is_group(id));
        }
        if j != e {
            assert(entries[j].is_group(id));
        }
    }
}

/// Closing a tab leaves exactly the others registered.
pub proof fn close_unregisters(s: TabsView, index: int, tab: TabId)
    requires
        s.registry_ok(),
        0 <= index < s.tabs.len(),
    ensures
        s.close(index).registered(tab) == (s.registered(tab) && tab != s.tabs[index].id),
{
    let after = s.tabs.remove(index);
    if registered_in(after, tab) {
        let k = choose|k: int| 0 <= k < after.len() && (#[trigger] after[k]).id == tab;
        let r = if k < index { k } else { k + 1 };
        assert(s.tabs[r].id == tab);
        assert(s.tabs[index].id == s.tabs[index].id);
    }
    if s.registered(tab) && tab != s.tabs[index].id {
        let r = choose|r: int| 0 <= r < s.tabs.len() && (#[trigger] s.tabs[r]).id == tab;
        let k = if r < index { r } else { r - 1 };
        assert(after[k].id == tab);
    }
}

/// Without the entry of a tab that is alone in it, the others are still apart and show
/// exactly the other tabs.
pub proof fn removal_shows_the_rest(entries: Seq<TabEntry>, e: int, tab: TabId, next: int)
    requires
        entries_disjoint(entries),
        groups_distinct(entries),
        0 <= e < entries.len(),
        entries[e] == TabEntry::Single(tab),
        forall|i: int| 0 <= i < entries.len() ==> entry_ok(#[trigger] entries[i], next),
    ensures
        entries_disjoint(entries.remove(e)),
        groups_distinct(entries.remove(e)),
        forall|i: int|
            0 <= i < entries.remove(e).len() ==> entry_ok(#[trigger] entries.remove(e)[i], next)
                && !entries.remove(e)[i].has(tab),
        forall|t: TabId| #[trigger]
            shown(entries.remove(e), t) == (shown(entries, t) && t != tab),
{
    let after = entries.remove(e);
    remove_keeps_apart(entries, e);
    assert(entries[e].has(tab));
    assert forall|i: int| 0 <= i < after.len() implies entry_ok(#[trigger] after[i], next)
        && !after[i].has(tab) by {
        let k = if i < e { i } else { i + 1 };
        assert(after[i] == entries[k]);
        if entries[k].has(tab) {
            assert(k == e);
        }
    }
    assert forall|t: TabId| #[trigger]
        shown(after, t) == (shown(entries, t) && t != tab) by {
        if shown(entries, t) && t != tab {
            let o = choose|o: int| 0 <= o < entries.len() && (#[trigger] entries[o]).has(t);
            let k = if o < e { o } else { o - 1 };
            assert(after[k] == entries[o]);
            assert(after[k].has(t));
        }
        if shown(after, t) {
            let k = choose|k: int| 0 <= k < after.len() && (#[trigger] after[k]).has(t);
            let o = if k < e { k } else { k + 1 };
            assert(after[k] == entries[o]);
            assert(entries[o].has(t));
        }
    }
}

/// A split narrowed to the other member of a tab leaves the entries apart; they show
/// exactly the other tabs.
pub proof fn narrowing_shows_the_rest(
    entries: Seq<TabEntry>,
    e: int,
    tab: TabId,
    sibling: TabId,
    next: int,
)
    requires
        entries_disjoint(entries),
        groups_distinct(entries),
        0 <= e < entries.len(),
        tab != sibling,
        forall|t: TabId| #[trigger] entries[e].has(t) == (t == tab || t == sibling),
        forall|i: int| 0 <= i < entries.len() ==> entry_ok(#[trigger] entries[i], next),
    ensures
        entries_disjoint(entries.update(e, TabEntry::Single(sibling))),
        groups_distinct(entries.update(e, TabEntry::Single(sibling))),
        forall|i: int|
            0 <= i < entries.len() ==> entry_ok(
                #[trigger] entries.update(e, TabEntry::Single(sibling))[i],
                next,
            ) && !entries.update(e, TabEntry::Single(sibling))[i].has(tab),
        forall|t: TabId| #[trigger]
            shown(entries.update(e, TabEntry::Single(sibling)), t) == (shown(entries, t) && t
                != tab),
{
    let single = TabEntry::Single(sibling);
    let after = entries.update(e, single);
    assert(entries[e].has(tab) && entries[e].has(sibling));
    assert forall|i: int, t: TabId|
        0 <= i < entries.len() && i != e && (#[trigger] entries[i].has(t)) implies !single.has(
        t,
    ) by {}
    update_keeps_apart(entries, e, single);
    assert forall|i: int| 0 <= i < after.len() implies entry_ok(#[trigger] after[i], next)
        && !after[i].has(tab) by {
        if i != e {
            assert(after[i] == entries[i]);
        }
    }
    assert forall|t: TabId| #[trigger]
        shown(after, t) == (shown(entries, t) && t != tab) by {
        if shown(entries, t) && t != tab {
            let o = choose|o: int| 0 <= o < entries.len() && (#[trigger] entries[o]).has(t);
            assert(after[o].has(t));
        }
        if shown(after, t) {
            let k = choose|k: int| 0 <= k < after.len() && (#[trigger] after[k]).has(t);
            assert(entries[k].has(t));
        }
    }
}

/// Taking a tab out of the tab bar keeps the entries apart; they show exactly the
/// other tabs.
pub proof fn taken_out_shows_the_rest(s: TabsView, tab: TabId)
    requires
        s.layout_ok(),
        shown(s.entries, tab),
    ensures
        entries_disjoint(s.taken_out(tab)),
        groups_distinct(s.taken_out(tab)),
        forall|i: int|
            0 <= i < s.taken_out(tab).len() ==> entry_ok(
                #[trigger] s.taken_out(tab)[i],
                s.next_split_group_id,
            ) && !s.taken_out(tab)[i].has(tab),
        forall|t: TabId| #[trigger]
            shown(s.taken_out(tab), t) == (shown(s.entries, t) && t != tab),
{
    let e = entry_of(s.entries, tab);
    assert(s.entries[e].has(tab));
    assert(entry_ok(s.entries[e], s.next_split_group_id));
    match s.entries[e].sibling(tab) {
        None => {
            removal_shows_the_rest(s.entries, e, tab, s.next_split_group_id);
        },
        Some(sibling) => {
            narrowing_shows_the_rest(s.entries, e, tab, sibling, s.next_split_group_id);
        },
    }
}

/// Closing a tab keeps the invariant.
pub proof fn close_keeps_wf(s: TabsView, index: int)
    requires
        s.wf(),
        0 <= index < s.tabs.len(),
    ensures
        s.close(index).wf(),
{
    let tab = s.tabs[index].id;
    let after = s.close(index);
    let e = entry_of(s.entries, tab);
    assert(shown(s.entries, s.tabs[index].id));
    assert(s.entries[e].has(tab));
    taken_out_shows_the_rest(s, tab);
    assert(after.entries == s.taken_out(tab));
    assert forall|t: TabId| #[trigger] after.registered(t) == (s.registered(t) && t != tab) by {
        close_unregisters(s, index, t);
    }
    assert forall|i: int| 0 <= i < after.tabs.len() implies shown(
        after.entries,
        (#[trigger] after.tabs[i]).id,
    ) by {
        let r = if i < index { i } else { i + 1 };
        assert(after.tabs[i] == s.tabs[r]);
        assert(shown(s.entries, s.tabs[r].id));
        assert(after.registered(after.tabs[i].id));
        assert(shown(s.taken_out(tab), after.tabs[i].id));
    }
    assert forall|i: int, t: TabId|
        0 <= i < after.entries.len() && (#[trigger] after.entries[i].has(
            t,
        )) implies after.registered(t) by {
        assert(shown(s.taken_out(tab), t));
        let o = entry_of(s.entries, t);
        assert(s.entries[o].has(t));
        assert(s.registered(t));
    }
    assert forall|i: int, j: int| 0 <= i < j < after.tabs.len() implies (#[trigger] after.tabs[i]).id
        != (#[trigger] after.tabs[j]).id && !same_path(after.tabs[i].path, after.tabs[j].path) by {
        let a = if i < index { i } else { i + 1 };
        let b = if j < index { j } else { j + 1 };
        assert(after.tabs[i] == s.tabs[a] && after.tabs[j] == s.tabs[b]);
    }
    assert forall|i: int| 0 <= i < after.tabs.len() implies (#[trigger] after.tabs[i]).id.0
        < after.next_tab_id by {
        let a = if i < index { i } else { i + 1 };
        assert(after.tabs[i] == s.tabs[a]);
    }
    // The new active tab is the focus of an entry that is still shown.
    if s.active == Some(tab) {
        match s.entries[e].sibling(tab) {
            Some(sibling) => {
                assert(after.entries[e].has(sibling));
                assert(after.registered(sibling));
            },
            None => {
                if after.entries.len() > 0 {
                    let k = if e < after.entries.len() { e } else { e - 1 };
                    let focus = after.entries[k].focus();
                    assert(after.entries[k].has(focus));
                    assert(after.registered(focus));
                } else if after.tabs.len() > 0 {
                    assert(shown(after.entries, after.tabs[0].id));
                }
            },
        }
    } else if let Some(active) = s.active {
        assert(after.registered(active));
        assert forall|i: int| 0 <= i < after.entries.len() && (#[trigger] after.entries[i]).has(
            active,
        ) implies after.entries[i].focus() == active by {
            match s.entries[e].sibling(tab) {
                Some(sibling) => {
                    if i != e {
                        assert(s.entries[i].has(active));
                    }
                },
                None => {
                    let k = if i < e { i } else { i + 1 };
                    assert(s.entries[k].has(active));
                },
            }
        }
    }
}

/// Forming a split keeps the invariant.
pub proof fn create_split_keeps_wf(
    s: TabsView,
    dragged: TabId,
    target: TabId,
    placement: SplitPlacement,
)
    requires
        s.wf(),
        s.registered(target),
        s.can_split(dragged, target),
        s.next_split_group_id < u64::MAX,
    ensures
        s.create_split(dragged, target, placement).wf(),
        shown(s.taken_out(dragged), target),
        s.taken_out(dragged)[entry_of(s.taken_out(dragged), target)] == TabEntry::Single(target),
{
    registered_is_shown(s, dragged);
    registered_is_shown(s, target);
    taken_out_shows_the_rest(s, dragged);
    let remaining = s.taken_out(dragged);
    let d = entry_of(s.entries, dragged);
    let o = entry_of(s.entries, target);
    assert(s.entries[o].has(target));
    assert(s.entries[d].has(dragged));
    let e = entry_of(remaining, target);
    assert(shown(remaining, target));
    assert(remaining[e].has(target));
    assert(remaining[e] == TabEntry::Single(target)) by {
        match s.entries[d].sibling(dragged) {
            None => {
                let k = if e < d { e } else { e + 1 };
                assert(s.entries[k].has(target));
            },
            Some(_) => {
                if e != d {
                    assert(s.entries[e].has(target));
                }
            },
        }
    }
    let after = s.create_split(dragged, target, placement);
    let entry = after.entries[e];
    assert(entry.has(dragged) && entry.has(target));
    assert forall|i: int, t: TabId|
        0 <= i < remaining.len() && i != e && (#[trigger] remaining[i].has(t)) implies !entry.has(
        t,
    ) by {}
    assert forall|i: int, id: SplitGroupId|
        0 <= i < remaining.len() && i != e && (#[trigger] remaining[i].is_group(
            id,
        )) implies !entry.is_group(id) by {
        assert(entry_ok(remaining[i], s.next_split_group_id));
    }
    update_keeps_apart(remaining, e, entry);
    assert forall|i: int| 0 <= i < after.entries.len() implies entry_ok(
        #[trigger] after.entries[i],
        after.next_split_group_id,
    ) by {
        assert(entry_ok(remaining[i], s.next_split_group_id));
    }
    assert forall|i: int, t: TabId|
        0 <= i < after.entries.len() && (#[trigger] after.entries[i].has(
            t,
        )) implies after.registered(t) by {
        if i != e {
            assert(remaining[i].has(t));
            assert(shown(remaining, t));
            assert(s.entries[entry_of(s.entries, t)].has(t));
            assert(s.registered(t));
        }
    }
    assert forall|i: int| 0 <= i < after.tabs.len() implies shown(
        after.entries,
        (#[trigger] after.tabs[i]).id,
    ) by {
        let t = after.tabs[i].id;
        assert(shown(s.entries, s.tabs[i].id));
        if t == dragged || t == target {
            assert(after.entries[e].has(t));
        } else {
            assert(shown(remaining, t));
            let k = entry_of(remaining, t);
            assert(remaining[k].has(t));
            assert(after.entries[k].has(t));
        }
    }
    assert forall|i: int| 0 <= i < after.entries.len() && (#[trigger] after.entries[i]).has(
        dragged,
    ) implies after.entries[i].focus() == dragged by {
        if i != e {
            assert(remaining[i].has(dragged));
        }
    }
}

/// Exchanging the members of a split keeps the invariant.
pub proof fn swap_split_members_keeps_wf(s: TabsView, id: SplitGroupId)
    requires
        s.wf(),
        has_group(s.entries, id),
    ensures
        s.swap_split_members(id).wf(),
{
    let g = group_of(s.entries, id);
    assert(s.entries[g].is_group(id));
    assert(entry_ok(s.entries[g], s.next_split_group_id));
    let group = group_at(s.entries, g);
    regroup_keeps_wf(
        s,
        id,
        SplitGroup {
            first: group.second,
            second: group.first,
            focused: group.focused.other(),
            ..group
        },
    );
}

/// Changing a split without changing its members or the tab in focus keeps the
/// invariant.
pub proof fn regroup_keeps_wf(s: TabsView, id: SplitGroupId, group: SplitGroup)
    requires
        s.wf(),
        has_group(s.entries, id),
        group.id == id,
        group.first != group.second,
        ratio_in_range(group.ratio_bits),
        forall|t: TabId| #[trigger]
            TabEntry::Split(group).has(t) == s.entries[group_of(s.entries, id)].has(t),
        TabEntry::Split(group).focus() == s.entries[group_of(s.entries, id)].focus(),
    ensures
        s.with_group(id, group).wf(),
{
    let g = group_of(s.entries, id);
    assert(s.entries[g].is_group(id));
    assert(entry_ok(s.entries[g], s.next_split_group_id));
    let after = s.with_group(id, group);
    assert forall|i: int, t: TabId|
        0 <= i < s.entries.len() implies #[trigger] after.entries[i].has(t) == s.entries[i].has(
        t,
    ) by {
        if i == g {
            assert(TabEntry::Split(group).has(t) == s.entries[g].has(t));
        }
    }
    assert forall|i: int| 0 <= i < s.entries.len() implies entry_ok(
        #[trigger] after.entries[i],
        s.next_split_group_id,
    ) by {
        assert(entry_ok(s.entries[i], s.next_split_group_id));
    }
    same_members_keep_layout(s, after);
    if let Some(active) = s.active {
        assert forall|i: int| 0 <= i < after.entries.len() && (#[trigger] after.entries[i]).has(
            active,
        ) implies after.entries[i].focus() == active by {
            assert(s.entries[i].has(active));
        }
    }
}

/// Exchanging a member of a split with another tab keeps the invariant.
pub proof fn replace_split_member_keeps_wf(
    s: TabsView,
    id: SplitGroupId,
    side: SplitSide,
    dragged: TabId,
)
    requires
        s.wf(),
        s.can_replace_member(id, side, dragged),
    ensures
        s.replace_split_member(id, side, dragged).wf(),
{
    let t = group_of(s.entries, id);
    let source = entry_of(s.entries, dragged);
    let group = group_at(s.entries, t);
    let displaced = group.member(side);
    assert(s.entries[t].is_group(id));
    assert(s.entries[source].has(dragged));
    assert(entry_ok(s.entries[t], s.next_split_group_id));
    assert(entry_ok(s.entries[source], s.next_split_group_id));
    if source == t {
        swap_split_members_keeps_wf(s, id);
        select_tab_keeps_wf(s.swap_split_members(id), dragged);
    } else {
        let after = s.replace_split_member(id, side, dragged);
        assert(s.entries[t].has(displaced));
        assert(!s.entries[t].has(dragged));
        assert(!s.entries[source].has(displaced));
        // The two tabs exchange their places and nothing else moves.
        let swap = |tab: TabId|
            if tab == dragged {
                displaced
            } else if tab == displaced {
                dragged
            } else {
                tab
            };
        assert forall|i: int, tab: TabId|
            0 <= i < s.entries.len() implies #[trigger] after.entries[i].has(tab)
            == s.entries[i].has(swap(tab)) by {
            if i != t && i != source {
                if s.entries[i].has(dragged) {
                    assert(s.entries[source].has(dragged));
                }
                if s.entries[i].has(displaced) {
                    assert(s.entries[t].has(displaced));
                }
            }
        }
        assert forall|i: int, other: SplitGroupId|
            0 <= i < s.entries.len() implies #[trigger] after.entries[i].is_group(other)
            == s.entries[i].is_group(other) by {}
        assert forall|i: int, j: int, tab: TabId|
            #![trigger after.entries[i].has(tab), after.entries[j].has(tab)]
            0 <= i < after.entries.len() && 0 <= j < after.entries.len() && after.entries[i].has(
                tab,
            ) && after.entries[j].has(tab) implies i == j by {
            assert(s.entries[i].has(swap(tab)) && s.entries[j].has(swap(tab)));
        }
        assert forall|i: int, j: int, other: SplitGroupId|
            #![trigger after.entries[i].is_group(other), after.entries[j].is_group(other)]
            0 <= i < after.entries.len() && 0 <= j < after.entries.len()
                && after.entries[i].is_group(other) && after.entries[j].is_group(
                other,
            ) implies i == j by {
            assert(s.entries[i].is_group(other) && s.entries[j].is_group(other));
        }
        assert forall|i: int| 0 <= i < after.entries.len() implies entry_ok(
            #[trigger] after.entries[i],
            after.next_split_group_id,
        ) by {
            assert(entry_ok(s.entries[i], s.next_split_group_id));
        }
        assert(s.registered(dragged) && s.registered(displaced));
        assert forall|i: int, tab: TabId|
            0 <= i < after.entries.len() && (#[trigger] after.entries[i].has(
                tab,
            )) implies after.registered(tab) by {
            assert(s.entries[i].has(swap(tab)));
            assert(s.registered(swap(tab)));
        }
        assert forall|i: int| 0 <= i < after.tabs.len() implies shown(
            after.entries,
            (#[trigger] after.tabs[i]).id,
        ) by {
            let tab = after.tabs[i].id;
            assert(s.registered(swap(tab))) by {
                assert(s.tabs[i].id == tab);
            }
            registered_is_shown(s, swap(tab));
            let k = entry_of(s.entries, swap(tab));
            assert(s.entries[k].has(swap(tab)));
            assert(swap(swap(tab)) == tab);
            assert(after.entries[k].has(tab));
        }
        assert forall|i: int| 0 <= i < after.entries.len() && (#[trigger] after.entries[i]).has(
            dragged,
        ) implies after.entries[i].focus() == dragged by {
            assert(s.entries[i].has(swap(dragged)));
            assert(s.entries[t].has(displaced));
            assert(i == t);
        }
    }
}

/// Dissolving a split keeps the invariant.
pub proof fn unsplit_keeps_wf(s: TabsView, id: SplitGroupId)
    requires
        s.wf(),
        has_group(s.entries, id),
    ensures
        s.unsplit(id).wf(),
{
    let e = group_of(s.entries, id);
    assert(s.entries[e].is_group(id));
    assert(entry_ok(s.entries[e], s.next_split_group_id));
    let group = group_at(s.entries, e);
    parting_keeps_wf(s, e, group.first, group.second, e + 1);
}

/// Splitting an entry into its two members, one of them in another gap, keeps the
/// invariant.
pub proof fn parting_keeps_wf(s: TabsView, e: int, stays: TabId, leaves: TabId, gap: int)
    requires
        s.wf(),
        0 <= e < s.entries.len(),
        0 <= gap <= s.entries.len(),
        s.entries[e] is Split,
        stays != leaves,
        s.entries[e].has(stays),
        s.entries[e].has(leaves),
    ensures
        (TabsView {
            entries: s.entries.update(e, TabEntry::Single(stays)).insert(
                gap,
                TabEntry::Single(leaves),
            ),
            ..s
        }).wf(),
{
    let single = TabEntry::Single(stays);
    let narrowed = s.entries.update(e, single);
    let after = TabsView { entries: narrowed.insert(gap, TabEntry::Single(leaves)), ..s };
    assert forall|i: int, t: TabId|
        0 <= i < s.entries.len() && i != e && (#[trigger] s.entries[i].has(t)) implies !single.has(
        t,
    ) by {
        assert(s.entries[e].has(stays));
    }
    update_keeps_apart(s.entries, e, single);
    assert forall|i: int, t: TabId|
        0 <= i < narrowed.len() && (#[trigger] narrowed[i].has(t)) implies !TabEntry::Single(
        leaves,
    ).has(t) by {
        if i != e {
            assert(s.entries[i].has(t));
            assert(s.entries[e].has(leaves));
        }
    }
    insert_keeps_layout(narrowed, gap, TabEntry::Single(leaves));
    assert forall|i: int| 0 <= i < after.entries.len() implies entry_ok(
        #[trigger] after.entries[i],
        after.next_split_group_id,
    ) by {
        if i != gap {
            let k = if i < gap { i } else { i - 1 };
            assert(after.entries[i] == narrowed[k]);
            assert(entry_ok(s.entries[k], s.next_split_group_id));
        }
    }
    assert forall|i: int, t: TabId|
        0 <= i < after.entries.len() && (#[trigger] after.entries[i].has(
            t,
        )) implies after.registered(t) by {
        if i == gap {
            assert(s.entries[e].has(t));
        } else {
            let k = if i < gap { i } else { i - 1 };
            assert(narrowed[k].has(t));
            assert(s.entries[k].has(t));
        }
    }
    assert forall|i: int| 0 <= i < after.tabs.len() implies shown(
        after.entries,
        (#[trigger] after.tabs[i]).id,
    ) by {
        let t = after.tabs[i].id;
        assert(shown(s.entries, s.tabs[i].id));
        let o = entry_of(s.entries, t);
        assert(s.entries[o].has(t));
        if t == leaves {
            assert(after.entries[gap].has(t));
        } else {
            assert(narrowed[o].has(t));
            let k = if o < gap { o } else { o + 1 };
            assert(after.entries[k].has(t));
        }
    }
    if let Some(active) = s.active {
        assert forall|i: int| 0 <= i < after.entries.len() && (#[trigger] after.entries[i]).has(
            active,
        ) implies after.entries[i].focus() == active by {
            if i != gap {
                let k = if i < gap { i } else { i - 1 };
                assert(after.entries[i] == narrowed[k]);
                if k != e {
                    assert(s.entries[k].has(active));
                }
            }
        }
    }
}

/// Taking a member out of its split keeps the invariant.
pub proof fn extract_split_member_keeps_wf(s: TabsView, tab: TabId, insertion: int)
    requires
        s.wf(),
        s.can_extract(tab, insertion),
        0 <= insertion,
    ensures
        s.extract_split_member(tab, insertion).wf(),
{
    let e = entry_of(s.entries, tab);
    assert(s.entries[e].has(tab));
    assert(entry_ok(s.entries[e], s.next_split_group_id));
    parting_keeps_wf(s, e, s.entries[e].sibling(tab).unwrap(), tab, insertion);
}

/// Moving an entry keeps the invariant: the same entries stand in another order.
pub proof fn move_entry_keeps_wf(s: TabsView, current: int, insertion: int)
    requires
        s.wf(),
        0 <= current < s.entries.len(),
        0 <= insertion <= s.entries.len(),
    ensures
        s.move_entry(current, insertion).wf(),
{
    let after = s.move_entry(current, insertion);
    let len = s.entries.len() as int;
    if after.entries != s.entries {
        let adjusted = if insertion > current { insertion - 1 } else { insertion };
        let origin = |i: int|
            if i == adjusted {
                current
            } else {
                let k = if i < adjusted { i } else { i - 1 };
                if k < current { k } else { k + 1 }
            };
        let place = |o: int|
            if o == current {
                adjusted
            } else {
                let k = if o < current { o } else { o - 1 };
                if k < adjusted { k } else { k + 1 }
            };
        assert(after.entries.len() == len);
        assert forall|i: int| 0 <= i < len implies (#[trigger] after.entries[i])
            == s.entries[origin(i)] && 0 <= origin(i) < len && place(origin(i)) == i by {}
        assert forall|o: int| 0 <= o < len implies (#[trigger] s.entries[o])
            == after.entries[place(o)] && 0 <= place(o) < len by {}
        assert forall|i: int, j: int, tab: TabId|
            #![trigger after.entries[i].has(tab), after.entries[j].has(tab)]
            0 <= i < len && 0 <= j < len && after.entries[i].has(tab) && after.entries[j].has(
                tab,
            ) implies i == j by {
            assert(after.entries[i] == s.entries[origin(i)]);
            assert(after.entries[j] == s.entries[origin(j)]);
            assert(s.entries[origin(i)].has(tab) && s.entries[origin(j)].has(tab));
            assert(place(origin(i)) == i && place(origin(j)) == j);
        }
        assert forall|i: int, j: int, id: SplitGroupId|
            #![trigger after.entries[i].is_group(id), after.entries[j].is_group(id)]
            0 <= i < len && 0 <= j < len && after.entries[i].is_group(id)
                && after.entries[j].is_group(id) implies i == j by {
            assert(after.entries[i] == s.entries[origin(i)]);
            assert(after.entries[j] == s.entries[origin(j)]);
            assert(s.entries[origin(i)].is_group(id) && s.entries[origin(j)].is_group(id));
            assert(place(origin(i)) == i && place(origin(j)) == j);
        }
        assert forall|i: int, tab: TabId|
            0 <= i < len && (#[trigger] after.entries[i].has(tab)) implies after.registered(
            tab,
        ) by {
            assert(s.entries[origin(i)].has(tab));
        }
        assert forall|i: int| 0 <= i < after.tabs.len() implies shown(
            after.entries,
            (#[trigger] after.tabs[i]).id,
        ) by {
            let tab = after.tabs[i].id;
            assert(shown(s.entries, s.tabs[i].id));
            let o = entry_of(s.entries, tab);
            assert(s.entries[o].has(tab));
            assert(after.entries[place(o)].has(tab));
        }
        if let Some(active) = s.active {
            assert forall|i: int| 0 <= i < len && (#[trigger] after.entries[i]).has(
                active,
            ) implies after.entries[i].focus() == active by {
                assert(s.entries[origin(i)].has(active));
            }
        }
    }
}

/// The count of splits never falls along a layout, and no step adds more than one.
pub proof fn splits_before_grows(restored: Seq<RestoredTabEntry>, from: int, to: int)
    requires
        0 <= from <= to,
    ensures
        0 <= splits_before(restored, from) <= splits_before(restored, to),
    decreases to,
{
    if from < to {
        splits_before_grows(restored, from, to - 1);
    } else if from > 0 {
        splits_before_grows(restored, from - 1, to - 1);
    }
}

/// Restoring an accepted layout keeps the invariant.
pub proof fn restore_keeps_wf(s: TabsView, restored: Seq<RestoredTabEntry>, active: Option<TabId>)
    requires
        s.wf(),
        s.restorable(restored, active),
        s.next_split_group_id + splits_before(restored, restored.len() as int) <= u64::MAX,
    ensures
        s.restore_layout(restored, active).wf(),
{
    let after = s.restore_layout(restored, active);
    splits_before_grows(restored, 0, restored.len() as int);
    assert forall|i: int, t: TabId|
        0 <= i < restored.len() implies #[trigger] after.entries[i].has(t) == restored[i].has(
        t,
    ) by {}
    assert forall|i: int| 0 <= i < restored.len() implies entry_ok(
        #[trigger] after.entries[i],
        after.next_split_group_id,
    ) by {
        assert(restored[i].acceptable(active->0));
        splits_before_grows(restored, 0, i);
        splits_before_grows(restored, i + 1, restored.len() as int);
    }
    assert forall|i: int, j: int, t: TabId|
        #![trigger after.entries[i].has(t), after.entries[j].has(t)]
        0 <= i < after.entries.len() && 0 <= j < after.entries.len() && after.entries[i].has(t)
            && after.entries[j].has(t) implies i == j by {
        assert(restored[i].has(t) && restored[j].has(t));
    }
    assert forall|i: int, j: int, id: SplitGroupId|
        #![trigger after.entries[i].is_group(id), after.entries[j].is_group(id)]
        0 <= i < after.entries.len() && 0 <= j < after.entries.len() && after.entries[i].is_group(
            id,
        ) && after.entries[j].is_group(id) implies i == j by {
        splits_before_grows(restored, 0, i);
        splits_before_grows(restored, 0, j);
        splits_before_grows(restored, i + 1, restored.len() as int);
        splits_before_grows(restored, j + 1, restored.len() as int);
        if i < j {
            splits_before_grows(restored, i + 1, j);
        } else if j < i {
            splits_before_grows(restored, j + 1, i);
        }
    }
    assert forall|i: int, t: TabId|
        0 <= i < after.entries.len() && (#[trigger] after.entries[i].has(
            t,
        )) implies after.registered(t) by {
        assert(restored[i].has(t));
    }
    assert forall|i: int| 0 <= i < after.tabs.len() implies shown(
        after.entries,
        (#[trigger] after.tabs[i]).id,
    ) by {
        let t = s.tabs[i].id;
        assert(restored_before(restored, restored.len() as int, s.tabs[i].id));
        let k = choose|k: int| 0 <= k < restored.len() && (#[trigger] restored[k]).has(t);
        assert(after.entries[k].has(t));
    }
    if let Some(focus) = active {
        assert forall|i: int| 0 <= i < after.entries.len() && (#[trigger] after.entries[i]).has(
            focus,
        ) implies after.entries[i].focus() == focus by {
            assert(restored[i].has(focus));
            assert(restored[i].acceptable(focus));
        }
    }
}

/// The display order lists a tab exactly when some entry shows it.
pub proof fn display_order_lists_the_shown(entries: Seq<TabEntry>, tab: TabId)
    ensures
        display_order(entries).contains(tab) == shown(entries, tab),
    decreases entries.len(),
{
    if entries.len() > 0 {
        let front = entries.drop_last();
        let last = entries.last();
        display_order_lists_the_shown(front, tab);
        let order = display_order(entries);
        assert(last.members().contains(tab) == last.has(tab)) by {
            if last.has(tab) {
                assert(last.members()[0] == tab || last.members()[1] == tab);
            }
        }
        if order.contains(tab) {
            let k = choose|k: int| 0 <= k < order.len() && order[k] == tab;
            if k < display_order(front).len() {
                assert(display_order(front)[k] == tab);
                let i = choose|i: int| 0 <= i < front.len() && (#[trigger] front[i]).has(tab);
                assert(entries[i].has(tab));
            } else {
                assert(last.members()[k - display_order(front).len()] == tab);
                assert(entries[entries.len() - 1].has(tab));
            }
        }
        if shown(entries, tab) {
            let i = choose|i: int| 0 <= i < entries.len() && (#[trigger] entries[i]).has(tab);
            if i < front.len() {
                assert(front[i].has(tab));
                let k = choose|k: int|
                    0 <= k < display_order(front).len() && display_order(front)[k] == tab;
                assert(order[k] == tab);
            } else {
                let k = choose|k: int|
                    0 <= k < last.members().len() && last.members()[k] == tab;
                assert(order[display_order(front).len() + k] == tab);
            }
        }
    }
}

/// The display order of well-formed entries repeats no tab.
pub proof fn display_order_repeats_nothing(entries: Seq<TabEntry>, next: int)
    requires
        entries_disjoint(entries),
        forall|i: int| 0 <= i < entries.len() ==> entry_ok(#[trigger] entries[i], next),
    ensures
        display_order(entries).no_duplicates(),
    decreases entries.len(),
{
    if entries.len() > 0 {
        let front = entries.drop_last();
        let last = entries.last();
        assert(entry_ok(entries[entries.len() - 1], next));
        assert forall|i: int, j: int, t: TabId|
            #![trigger front[i].has(t), front[j].has(t)]
            0 <= i < front.len() && 0 <= j < front.len() && front[i].has(t) && front[j].has(
                t,
            ) implies i == j by {
            assert(entries[i].has(t) && entries[j].has(t));
        }
        assert forall|i: int| 0 <= i < front.len() implies entry_ok(#[trigger] front[i], next) by {
            assert(entry_ok(entries[i], next));
        }
        display_order_repeats_nothing(front, next);
        let order = display_order(entries);
        assert forall|i: int, j: int| 0 <= i < j < order.len() implies order[i] != order[j] by {
            let count = display_order(front).len();
            if order[i] == order[j] && i < count && j >= count {
                let t = order[i];
                assert(display_order(front)[i] == t);
                assert(display_order(front).contains(t));
                display_order_lists_the_shown(front, t);
                let k = choose|k: int| 0 <= k < front.len() && (#[trigger] front[k]).has(t);
                assert(entries[k].has(t));
                assert(last.members()[j - count] == t);
                assert(entries[entries.len() - 1].has(t));
            }
        }
    }
}

/// The tab bar lists every registered tab exactly once and nothing else.
pub proof fn display_lists_every_tab_once(s: TabsView)
    requires
        s.wf(),
    ensures
        display_order(s.entries).no_duplicates(),
        forall|t: TabId| #[trigger] display_order(s.entries).contains(t) == s.registered(t),
{
    display_order_repeats_nothing(s.entries, s.next_split_group_id);
    assert forall|t: TabId| #[trigger]
        display_order(s.entries).contains(t) == s.registered(t) by {
        display_order_lists_the_shown(s.entries, t);
        if s.registered(t) {
            registered_is_shown(s, t);
        }
        if shown(s.entries, t) {
            assert(s.entries[entry_of(s.entries, t)].has(t));
        }
    }
}

/// Exchanging the members of a split twice changes nothing.
pub proof fn swapping_twice_restores(s: TabsView, id: SplitGroupId)
    requires
        s.wf(),
        has_group(s.entries, id),
    ensures
        s.swap_split_members(id).swap_split_members(id) == s,
{
    let g = group_of(s.entries, id);
    assert(s.entries[g].is_group(id));
    let once = s.swap_split_members(id);
    swap_split_members_keeps_wf(s, id);
    assert(once.entries[g].is_group(id));
    group_of_is(once.entries, id, g);
    assert(once.swap_split_members(id).entries =~= s.entries);
}

/// Opening a document a second time in a row changes nothing more.
pub proof fn opening_again_changes_nothing(s: TabsView, path: PathView)
    requires
        s.wf(),
        !s.has_path(path) ==> s.next_tab_id < u64::MAX,
    ensures
        s.open(path).open(path) == s.open(path),
{
    open_keeps_wf(s, path);
    let once = s.open(path);
    let index = if s.has_path(path) { s.path_of(path) } else { s.tabs.len() as int };
    if s.has_path(path) {
        assert(same_path(s.tabs[index].path, path));
    }
    assert(same_path(once.tabs[index].path, path));
    path_of_is(once, path, index);
    let tab = once.tabs[index].id;
    assert(shown(once.entries, once.tabs[index].id));
    let e = entry_of(once.entries, tab);
    assert(once.entries[e].has(tab));
    assert(entry_ok(once.entries[e], once.next_split_group_id));
    if s.has_path(path) {
        assert(s.tabs[index].id == tab);
        assert(shown(s.entries, s.tabs[index].id));
    }
    assert(once.active == Some(tab));
    assert(once.entries[e].focus() == tab);
    assert(once.entries[e].focused_on(tab) == once.entries[e]);
    assert(once.select_tab(tab).entries =~= once.entries);
}

/// Opening a document that no tab shows adds one tab, whose identity no tab had before, in a
/// single entry directly behind the active one; the other entries stay as they are, and the new
/// tab is active. Opening the document again finds that tab.
pub proof fn opening_adds_one_tab(s: TabsView, path: PathView)
    requires
        s.wf(),
        !s.has_path(path),
        s.next_tab_id < u64::MAX,
    ensures
        ({
            let after = s.open(path);
            let id = TabId(s.next_tab_id as u64);
            let gap = match s.active {
                None => 0,
                Some(active) => entry_of(s.entries, active) + 1,
            };
            &&& !s.registered(id)
            &&& after.tabs == s.tabs.push(TabView { id, path })
            &&& after.entries == s.entries.insert(gap, TabEntry::Single(id))
            &&& entry_of(after.entries, id) == gap
            &&& after.active == Some(id)
            &&& after.has_path(path)
            &&& after.path_of(path) == s.tabs.len()
            &&& after.open(path) == after
        }),
{
    open_keeps_wf(s, path);
    opening_again_changes_nothing(s, path);
    let after = s.open(path);
    let id = TabId(s.next_tab_id as u64);
    assert(same_path(after.tabs[s.tabs.len() as int].path, path));
    path_of_is(after, path, s.tabs.len() as int);
    match s.active {
        None => {
            if s.entries.len() > 0 {
                assert(s.entries[0].has(s.entries[0].focus())) by {
                    assert(entry_ok(s.entries[0], s.next_split_group_id));
                }
                assert(s.registered(s.entries[0].focus()));
            }
            assert(after.entries[0].has(id));
            entry_of_is(after.entries, id, 0);
        },
        Some(active) => {
            registered_is_shown(s, active);
            let gap = entry_of(s.entries, active) + 1;
            assert(after.entries[gap].has(id));
            entry_of_is(after.entries, id, gap);
        },
    }
}

/// An identity is not given out again: closing a tab does not free its identity, and the tab
/// that is opened next has another one.
pub proof fn identities_are_not_reused(s: TabsView, index: int, path: PathView)
    requires
        s.wf(),
        0 <= index < s.tabs.len(),
        s.next_tab_id < u64::MAX,
        !s.close(index).has_path(path),
    ensures
        s.close(index).next_tab_id == s.next_tab_id,
        s.close(index).open(path).next_tab_id == s.next_tab_id + 1,
        s.close(index).open(path).active == Some(TabId(s.next_tab_id as u64)),
        s.close(index).open(path).active != Some(s.tabs[index].id),
        !s.registered(TabId(s.next_tab_id as u64)),
{
}

/// No rearrangement of the tab bar changes the registry or gives out an identity.
pub proof fn rearranging_keeps_the_registry(
    s: TabsView,
    id: SplitGroupId,
    side: SplitSide,
    tab: TabId,
    other: TabId,
    placement: SplitPlacement,
    position: int,
    insertion: int,
)
    ensures
        s.select_tab(tab).tabs == s.tabs,
        s.create_split(tab, other, placement).tabs == s.tabs,
        s.replace_split_member(id, side, tab).tabs == s.tabs,
        s.swap_split_members(id).tabs == s.tabs,
        s.unsplit(id).tabs == s.tabs,
        s.extract_split_member(tab, insertion).tabs == s.tabs,
        s.move_entry(position, insertion).tabs == s.tabs,
        s.select_tab(tab).next_tab_id == s.next_tab_id,
        s.create_split(tab, other, placement).next_tab_id == s.next_tab_id,
        s.replace_split_member(id, side, tab).next_tab_id == s.next_tab_id,
        s.swap_split_members(id).next_tab_id == s.next_tab_id,
        s.unsplit(id).next_tab_id == s.next_tab_id,
        s.extract_split_member(tab, insertion).next_tab_id == s.next_tab_id,
        s.move_entry(position, insertion).next_tab_id == s.next_tab_id,
{
}

/// Moving an entry leaves every tab shown by the very same entry, wherever it stands.
pub proof fn moving_keeps_each_entry(s: TabsView, current: int, insertion: int, tab: TabId)
    requires
        s.wf(),
        0 <= current < s.entries.len(),
        0 <= insertion <= s.entries.len(),
        s.registered(tab),
    ensures
        shown(s.move_entry(current, insertion).entries, tab),
        s.move_entry(current, insertion).entries[entry_of(
            s.move_entry(current, insertion).entries,
            tab,
        )] == s.entries[entry_of(s.entries, tab)],
{
    let after = s.move_entry(current, insertion);
    move_entry_keeps_wf(s, current, insertion);
    registered_is_shown(s, tab);
    registered_is_shown(after, tab);
    let o = entry_of(s.entries, tab);
    assert(s.entries[o].has(tab));
    if after.entries != s.entries {
        let adjusted = if insertion > current { insertion - 1 } else { insertion };
        let place = if o == current {
            adjusted
        } else {
            let k = if o < current { o } else { o - 1 };
            if k < adjusted { k } else { k + 1 }
        };
        assert(after.entries[place] == s.entries[o]);
        entry_of_is(after.entries, tab, place);
    }
}

/// Cycling forward makes the next entry active and brings back its focus; from the
/// last entry it returns to the first.
pub proof fn cycling_advances_one_entry(s: TabsView)
    requires
        s.wf(),
        s.active is Some,
    ensures
        ({
            let count = s.entries.len() as int;
            let next = (entry_of(s.entries, s.active->0) + 1) % count;
            let after = s.select_tab(s.entries[next].focus());
            &&& 0 <= next < count
            &&& after.active is Some
            &&& entry_of(after.entries, after.active->0) == next
            &&& after.entries == s.entries
        }),
{
    registered_is_shown(s, s.active->0);
    let count = s.entries.len() as int;
    let current = entry_of(s.entries, s.active->0);
    assert(s.entries[current].has(s.active->0));
    let next = (current + 1) % count;
    let focus = s.entries[next].focus();
    assert(s.entries[next].has(focus));
    assert(entry_ok(s.entries[next], s.next_split_group_id));
    entry_of_is(s.entries, focus, next);
    assert(s.entries[next].focused_on(focus) == s.entries[next]);
    assert(s.select_tab(focus).entries =~= s.entries);
}

} // verus!

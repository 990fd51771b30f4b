//! What saving and restoring a layout guarantee together.
use crate::restore::{
    first_at_or_after, first_showing, opened_tab, placed_after, resolved, restored_active,
    restored_entry, restored_focus, saved_entry, saved_layout, Resolved,
};
use crate::session::{
    LayoutModel, SessionEntry, entries_error_covers_each, entry_error, layout_error, membership,
};
use crate::tabs::{
    RestoredTabEntry, SplitSide, TabEntry, TabId, TabsView, entry_of, entry_ok, restored_before,
    shown,
};
use vstd::prelude::*;

verus! {

/// An entry that shows a tab is counted.
pub proof fn shown_is_counted(saved: Seq<SessionEntry>, count: int, at: int, tab: int)
    requires
        0 <= at < count,
        saved[at].has(tab),
    ensures
        membership(saved, count, tab) >= 1,
    decreases count,
{
    if at < count - 1 {
        shown_is_counted(saved, count - 1, at, tab);
    } else {
        count_is_natural(saved, count - 1, tab);
    }
}

/// No tab is shown a negative number of times.
pub proof fn count_is_natural(saved: Seq<SessionEntry>, count: int, tab: int)
    ensures
        membership(saved, count, tab) >= 0,
    decreases count,
{
    if count > 0 {
        count_is_natural(saved, count - 1, tab);
    }
}

/// Two entries that show a tab are both counted.
pub proof fn shown_twice_is_counted_twice(
    saved: Seq<SessionEntry>,
    count: int,
    a: int,
    b: int,
    tab: int,
)
    requires
        0 <= a < b < count,
        saved[a].has(tab),
        saved[b].has(tab),
    ensures
        membership(saved, count, tab) >= 2,
    decreases count,
{
    if b < count - 1 {
        shown_twice_is_counted_twice(saved, count - 1, a, b, tab);
    } else {
        shown_is_counted(saved, count - 1, a, tab);
    }
}

/// A counted tab is shown somewhere.
pub proof fn counted_is_shown(saved: Seq<SessionEntry>, count: int, tab: int) -> (at: int)
    requires
        membership(saved, count, tab) >= 1,
    ensures
        0 <= at < count,
        saved[at].has(tab),
    decreases count,
{
    if saved[count - 1].has(tab) {
        count - 1
    } else {
        counted_is_shown(saved, count - 1, tab)
    }
}

/// The tabs that could be opened are all different, and they are the registered ones.
pub open spec fn opens_registry(s: TabsView, ids: Seq<Option<TabId>>) -> bool {
    &&& forall|i: int, j: int|
        #![trigger ids[i], ids[j]]
        0 <= i < j < ids.len() && ids[i] is Some ==> ids[i] != ids[j]
    &&& forall|i: int|
        0 <= i < ids.len() && (#[trigger] ids[i]) is Some ==> s.registered(ids[i]->0)
    &&& forall|t: TabId| #[trigger]
        s.registered(t) ==> exists|i: int| 0 <= i < ids.len() && #[trigger] ids[i] == Some(t)
}

/// Whether one of the first `count` saved entries shows the saved tab that opened as `tab`.
pub open spec fn opened_before(
    saved: Seq<SessionEntry>,
    ids: Seq<Option<TabId>>,
    count: int,
    tab: TabId,
) -> bool {
    exists|k: int, index: int|
        #![trigger saved[k].has(index), ids[index]]
        0 <= k < count && 0 <= index < ids.len() && saved[k].has(index) && ids[index] == Some(tab)
}

/// What holds of the entries for a prefix of a valid layout.
spec fn resolved_ok(
    saved: LayoutModel,
    ids: Seq<Option<TabId>>,
    count: int,
) -> bool {
    let r = resolved(saved.entries, ids, count);
    &&& r.positions.len() == r.entries.len()
    &&& forall|e: int|
        0 <= e < r.entries.len() ==> 0 <= (#[trigger] r.positions[e]) < count
    &&& forall|t: TabId| #[trigger]
        r.seen.contains(t) == opened_before(saved.entries, ids, count, t)
    &&& forall|t: TabId| #[trigger]
        r.seen.contains(t) == restored_before(r.entries, r.entries.len() as int, t)
    &&& forall|i: int, j: int, t: TabId|
        #![trigger r.entries[i].has(t), r.entries[j].has(t)]
        0 <= i < r.entries.len() && 0 <= j < r.entries.len() && r.entries[i].has(t)
            && r.entries[j].has(t) ==> i == j
    &&& forall|e: int|
        0 <= e < r.entries.len() ==> came_from(
            #[trigger] r.entries[e],
            saved.entries[r.positions[e]],
            ids,
        )
}

/// A restored split shows what the saved one showed.
spec fn came_from(
    entry: RestoredTabEntry,
    saved: SessionEntry,
    ids: Seq<Option<TabId>>,
) -> bool {
    match entry {
        RestoredTabEntry::Single(_) => true,
        RestoredTabEntry::Split { first, second, direction, ratio_bits, focused } => {
            match saved {
                SessionEntry::Single { .. } => false,
                SessionEntry::Split {
                    first_tab,
                    second_tab,
                    direction: saved_direction,
                    ratio_bits: saved_ratio,
                    focused_tab,
                } => {
                    &&& opened_tab(ids, first_tab) == Some(first)
                    &&& opened_tab(ids, second_tab) == Some(second)
                    &&& direction == saved_direction
                    &&& ratio_bits == saved_ratio
                    &&& focused == (if focused_tab == first_tab {
                        SplitSide::First
                    } else {
                        SplitSide::Second
                    })
                },
            }
        },
    }
}

/// The saved tabs that opened and that a valid entry shows are new to the prefix.
proof fn entry_tabs_are_unplaced(
    saved: LayoutModel,
    ids: Seq<Option<TabId>>,
    count: int,
    index: usize,
)
    requires
        layout_error(saved, ids.len() as int) is None,
        ids.len() > 0,
        forall|i: int, j: int|
            #![trigger ids[i], ids[j]]
            0 <= i < j < ids.len() && ids[i] is Some ==> ids[i] != ids[j],
        0 <= count < saved.entries.len(),
        saved.entries[count].has(index as int),
        resolved_ok(saved, ids, count),
        index < ids.len(),
        ids[index as int] is Some,
    ensures
        !resolved(saved.entries, ids, count).seen.contains(ids[index as int]->0),
{
    let tab = ids[index as int]->0;
    let r = resolved(saved.entries, ids, count);
    if r.seen.contains(tab) {
        assert(opened_before(saved.entries, ids, count, tab));
        let (k, other) = choose|k: int, other: int|
            #![trigger saved.entries[k].has(other), ids[other]]
            0 <= k < count && 0 <= other < ids.len() && saved.entries[k].has(other) && ids[other]
                == Some(tab);
        assert(other == index) by {
            if other < index {
                assert(ids[other] != ids[index as int]);
            } else if index < other {
                assert(ids[index as int] != ids[other]);
            }
        }
        shown_twice_is_counted_twice(
            saved.entries,
            saved.entries.len() as int,
            k,
            count,
            index as int,
        );
        assert(membership(saved.entries, saved.entries.len() as int, index as int) == 1);
    }
}

/// The tabs that get a place with an entry, when all of them are new.
proof fn placed_with_entry(
    saved: LayoutModel,
    ids: Seq<Option<TabId>>,
    count: int,
    tab: TabId,
)
    requires
        layout_error(saved, ids.len() as int) is None,
        ids.len() > 0,
        forall|i: int, j: int|
            #![trigger ids[i], ids[j]]
            0 <= i < j < ids.len() && ids[i] is Some ==> ids[i] != ids[j],
        0 <= count < saved.entries.len(),
        resolved_ok(saved, ids, count),
    ensures
        ({
            let seen = resolved(saved.entries, ids, count).seen;
            let entry = saved.entries[count];
            let new = exists|index: int|
                0 <= index < ids.len() && entry.has(index) && #[trigger] ids[index] == Some(tab);
            &&& placed_after(entry, ids, seen).contains(tab) == (seen.contains(tab) || new)
            &&& match restored_entry(entry, ids, seen) {
                None => !new,
                Some(restored) => restored.has(tab) == new,
            }
            &&& new ==> !seen.contains(tab)
        }),
{
    let seen = resolved(saved.entries, ids, count).seen;
    let entry = saved.entries[count];
    entries_error_covers_each(
        saved.entries,
        saved.active_tab->0,
        ids.len() as int,
        saved.entries.len() as int,
        count,
    );
    match entry {
        SessionEntry::Single { tab_index } => {
            assert(entry.has(tab_index as int));
            if ids[tab_index as int] is Some {
                entry_tabs_are_unplaced(saved, ids, count, tab_index);
            }
        },
        SessionEntry::Split { first_tab, second_tab, .. } => {
            assert(entry.has(first_tab as int) && entry.has(second_tab as int));
            if ids[first_tab as int] is Some {
                entry_tabs_are_unplaced(saved, ids, count, first_tab);
            }
            if ids[second_tab as int] is Some {
                entry_tabs_are_unplaced(saved, ids, count, second_tab);
            }
            if first_tab < second_tab {
                assert(ids[first_tab as int] is Some ==> ids[first_tab as int]
                    != ids[second_tab as int]);
            } else {
                assert(ids[second_tab as int] is Some ==> ids[second_tab as int]
                    != ids[first_tab as int]);
            }
        },
    }
}

/// Every prefix of a valid layout resolves in good order.
proof fn prefixes_resolve(saved: LayoutModel, ids: Seq<Option<TabId>>, count: int)
    requires
        layout_error(saved, ids.len() as int) is None,
        ids.len() > 0,
        forall|i: int, j: int|
            #![trigger ids[i], ids[j]]
            0 <= i < j < ids.len() && ids[i] is Some ==> ids[i] != ids[j],
        0 <= count <= saved.entries.len(),
    ensures
        resolved_ok(saved, ids, count),
    decreases count,
{
    let r = resolved(saved.entries, ids, count);
    if count == 0 {
        assert forall|t: TabId| #[trigger]
            r.seen.contains(t) == opened_before(saved.entries, ids, count, t) by {}
    } else {
        prefixes_resolve(saved, ids, count - 1);
        let before = resolved(saved.entries, ids, count - 1);
        let entry = saved.entries[count - 1];
        let restored = restored_entry(entry, ids, before.seen);
        assert forall|t: TabId| #[trigger]
            r.seen.contains(t) == opened_before(saved.entries, ids, count, t) by {
            placed_with_entry(saved, ids, count - 1, t);
            assert(before.seen.contains(t) == opened_before(saved.entries, ids, count - 1, t));
            if opened_before(saved.entries, ids, count, t) {
                let (k, index) = choose|k: int, index: int|
                    #![trigger saved.entries[k].has(index), ids[index]]
                    0 <= k < count && 0 <= index < ids.len() && saved.entries[k].has(index)
                        && ids[index] == Some(t);
                if k < count - 1 {
                    assert(saved.entries[k].has(index) && ids[index] == Some(t));
                    assert(opened_before(saved.entries, ids, count - 1, t));
                }
            }
            if opened_before(saved.entries, ids, count - 1, t) {
                let (k, index) = choose|k: int, index: int|
                    #![trigger saved.entries[k].has(index), ids[index]]
                    0 <= k < count - 1 && 0 <= index < ids.len() && saved.entries[k].has(index)
                        && ids[index] == Some(t);
                assert(saved.entries[k].has(index) && ids[index] == Some(t));
            }
            if r.seen.contains(t) && !before.seen.contains(t) {
                let index = choose|index: int|
                    0 <= index < ids.len() && entry.has(index) && #[trigger] ids[index] == Some(
                        t,
                    );
                assert(saved.entries[count - 1].has(index) && ids[index] == Some(t));
            }
        }
        assert forall|t: TabId| #[trigger]
            r.seen.contains(t) == restored_before(r.entries, r.entries.len() as int, t) by {
            placed_with_entry(saved, ids, count - 1, t);
            let old_len = before.entries.len() as int;
            if restored_before(before.entries, old_len, t) {
                let k = choose|k: int| 0 <= k < old_len && (#[trigger] before.entries[k]).has(t);
                assert(r.entries[k].has(t));
            }
            if restored_before(r.entries, r.entries.len() as int, t) {
                let k = choose|k: int|
                    0 <= k < r.entries.len() && (#[trigger] r.entries[k]).has(t);
                if k < old_len {
                    assert(before.entries[k].has(t));
                }
            }
            if restored is Some && restored->0.has(t) {
                assert(r.entries[old_len].has(t));
            }
        }
        assert forall|i: int, j: int, t: TabId|
            #![trigger r.entries[i].has(t), r.entries[j].has(t)]
            0 <= i < r.entries.len() && 0 <= j < r.entries.len() && r.entries[i].has(t)
                && r.entries[j].has(t) implies i == j by {
            placed_with_entry(saved, ids, count - 1, t);
            let old_len = before.entries.len() as int;
            if i < old_len {
                assert(before.entries[i].has(t));
                assert(before.seen.contains(t));
            }
            if j < old_len {
                assert(before.entries[j].has(t));
                assert(before.seen.contains(t));
            }
        }
        assert forall|e: int| 0 <= e < r.entries.len() implies came_from(
            #[trigger] r.entries[e],
            saved.entries[r.positions[e]],
            ids,
        ) && 0 <= r.positions[e] < count by {
            if e < before.entries.len() {
                assert(before.entries[e] == r.entries[e]);
                assert(before.positions[e] == r.positions[e]);
            }
        }
    }
}

/// Whatever tabs could be opened, a valid saved layout becomes one that the tab state
/// accepts.
pub proof fn restored_layout_is_accepted(s: TabsView, saved: LayoutModel, ids: Seq<Option<TabId>>)
    requires
        s.wf(),
        layout_error(saved, ids.len() as int) is None,
        opens_registry(s, ids),
    ensures
        s.restorable(
            resolved(saved.entries, ids, saved.entries.len() as int).entries,
            restored_active(saved, ids),
        ),
{
    let r = resolved(saved.entries, ids, saved.entries.len() as int);
    let active = restored_active(saved, ids);
    if ids.len() == 0 {
        if s.tabs.len() > 0 {
            assert(s.registered(s.tabs[0].id));
        }
        assert(r.entries.len() == 0);
    } else {
        let count = saved.entries.len() as int;
        prefixes_resolve(saved, ids, count);
        // Every registered tab has a place.
        assert forall|t: TabId| #[trigger] s.registered(t) implies r.seen.contains(t) by {
            let i = choose|i: int| 0 <= i < ids.len() && #[trigger] ids[i] == Some(t);
            assert(membership(saved.entries, count, i) == 1);
            let k = counted_is_shown(saved.entries, count, i);
            assert(saved.entries[k].has(i) && ids[i] == Some(t));
            assert(opened_before(saved.entries, ids, count, t));
        }
        assert forall|i: int, t: TabId|
            0 <= i < r.entries.len() && (#[trigger] r.entries[i].has(t)) implies s.registered(
            t,
        ) by {
            assert(restored_before(r.entries, r.entries.len() as int, t));
            assert(r.seen.contains(t));
            let (k, index) = choose|k: int, index: int|
                #![trigger saved.entries[k].has(index), ids[index]]
                0 <= k < count && 0 <= index < ids.len() && saved.entries[k].has(index)
                    && ids[index] == Some(t);
            assert(ids[index] is Some);
        }
        if s.tabs.len() == 0 {
            if r.entries.len() > 0 {
                assert(r.entries[0].has(restored_focus(r.entries[0])));
                assert(s.registered(restored_focus(r.entries[0])));
            }
            if let Some(t) = active {
                assert(r.seen.contains(t));
                assert(restored_before(r.entries, r.entries.len() as int, t));
            }
        } else {
            assert(s.registered(s.tabs[0].id)) by {
                assert(s.tabs[0].id == s.tabs[0].id);
            }
            assert(r.seen.contains(s.tabs[0].id));
            assert(restored_before(r.entries, r.entries.len() as int, s.tabs[0].id));
            assert(r.entries.len() > 0);
            active_is_acceptable(saved, ids);
            let focus = active->0;
            assert(r.seen.contains(focus));
            assert(restored_before(r.entries, r.entries.len() as int, focus));
            let e = choose|e: int| 0 <= e < r.entries.len() && (#[trigger] r.entries[e]).has(focus);
            assert(s.registered(focus));
            assert forall|i: int| 0 <= i < s.tabs.len() implies restored_before(
                r.entries,
                r.entries.len() as int,
                (#[trigger] s.tabs[i]).id,
            ) by {
                assert(s.registered(s.tabs[i].id));
                assert(r.seen.contains(s.tabs[i].id));
            }
        }
    }
}

/// The active tab of a restored layout has a place, and a split that shows it focuses it.
proof fn active_is_acceptable(saved: LayoutModel, ids: Seq<Option<TabId>>)
    requires
        layout_error(saved, ids.len() as int) is None,
        ids.len() > 0,
        forall|i: int, j: int|
            #![trigger ids[i], ids[j]]
            0 <= i < j < ids.len() && ids[i] is Some ==> ids[i] != ids[j],
        resolved_ok(saved, ids, saved.entries.len() as int),
        resolved(saved.entries, ids, saved.entries.len() as int).entries.len() > 0,
    ensures
        ({
            let r = resolved(saved.entries, ids, saved.entries.len() as int);
            let active = restored_active(saved, ids);
            &&& active is Some
            &&& r.seen.contains(active->0)
            &&& forall|e: int|
                0 <= e < r.entries.len() ==> (#[trigger] r.entries[e]).acceptable(active->0)
        }),
{
    let count = saved.entries.len() as int;
    let r = resolved(saved.entries, ids, count);
    let active = restored_active(saved, ids);
    let index = saved.active_tab->0;
    let kept = ids[index as int] is Some && r.seen.contains(ids[index as int]->0);
    if !kept {
        let target = match crate::restore::first_showing(saved.entries, index as int, 0) {
            None => 0,
            Some(position) => position,
        };
        let next = first_at_or_after(r.positions, target, 0);
        first_at_or_after_is_in_range(r.positions, target, 0);
        let chosen = if next < r.entries.len() { next } else { r.entries.len() - 1 };
        assert(active == Some(restored_focus(r.entries[chosen])));
        assert(r.entries[chosen].has(active->0));
        assert(restored_before(r.entries, r.entries.len() as int, active->0));
    }
    assert(active is Some && r.seen.contains(active->0));
    let focus = active->0;
    assert forall|e: int| 0 <= e < r.entries.len() implies (#[trigger] r.entries[e]).acceptable(
        focus,
    ) by {
        let position = r.positions[e];
        assert(came_from(r.entries[e], saved.entries[position], ids));
        if let RestoredTabEntry::Split { first, second, focused, .. } = r.entries[e] {
            entries_error_covers_each(
                saved.entries,
                index,
                ids.len() as int,
                count,
                position,
            );
            assert(entry_error(saved.entries[position], index, ids.len() as int) is None);
            if let SessionEntry::Split { first_tab, second_tab, focused_tab, .. } =
                saved.entries[position] {
                if first_tab < second_tab {
                    assert(ids[first_tab as int] != ids[second_tab as int]);
                } else {
                    assert(ids[second_tab as int] != ids[first_tab as int]);
                }
                if r.entries[e].has(focus) {
                    if kept {
                        assert(focus == ids[index as int]->0);
                        if focus == first && first_tab != index {
                            if first_tab < index {
                                assert(ids[first_tab as int] != ids[index as int]);
                            } else {
                                assert(ids[index as int] != ids[first_tab as int]);
                            }
                        }
                        if focus == second && second_tab != index {
                            if second_tab < index {
                                assert(ids[second_tab as int] != ids[index as int]);
                            } else {
                                assert(ids[index as int] != ids[second_tab as int]);
                            }
                        }
                    } else {
                        let target = match crate::restore::first_showing(
                            saved.entries,
                            index as int,
                            0,
                        ) {
                            None => 0,
                            Some(p) => p,
                        };
                        let next = first_at_or_after(r.positions, target, 0);
                        let chosen = if next < r.entries.len() {
                            next
                        } else {
                            r.entries.len() - 1
                        };
                        assert(r.entries[chosen].has(focus));
                        assert(e == chosen);
                    }
                }
            }
        }
    }
}

proof fn first_at_or_after_is_in_range(positions: Seq<int>, target: int, from: int)
    requires
        0 <= from <= positions.len(),
    ensures
        from <= first_at_or_after(positions, target, from) <= positions.len(),
    decreases positions.len() - from,
{
    if from < positions.len() && positions[from] < target {
        first_at_or_after_is_in_range(positions, target, from + 1);
    }
}

/// The registry position of a registered tab.
pub proof fn registry_of_is(s: TabsView, index: int)
    requires
        s.registry_ok(),
        0 <= index < s.tabs.len(),
    ensures
        s.registered(s.tabs[index].id),
        s.registry_of(s.tabs[index].id) == index,
{
    let tab = s.tabs[index].id;
    assert(s.tabs[index].id == tab);
    let chosen = s.registry_of(tab);
    assert(s.tabs[chosen].id == tab);
}

/// A saved entry shows the tab at `index` when the entry on screen does.
proof fn saved_entry_shows_the_same(s: TabsView, entry: TabEntry, index: int)
    requires
        s.wf(),
        s.tabs.len() <= usize::MAX,
        0 <= index < s.tabs.len(),
        forall|t: TabId| #[trigger] entry.has(t) ==> s.registered(t),
    ensures
        saved_entry(s, entry).has(index) == entry.has(s.tabs[index].id),
        entry matches TabEntry::Split(group) ==> (s.registry_of(group.first) == index) == (
        group.first == s.tabs[index].id),
        entry matches TabEntry::Split(group) ==> (s.registry_of(group.second) == index) == (
        group.second == s.tabs[index].id),
{
    registry_of_is(s, index);
    match entry {
        TabEntry::Single(tab) => {
            assert(entry.has(tab));
            assert(s.tabs[s.registry_of(tab)].id == tab);
        },
        TabEntry::Split(group) => {
            assert(entry.has(group.first) && entry.has(group.second));
            assert(s.tabs[s.registry_of(group.first)].id == group.first);
            assert(s.tabs[s.registry_of(group.second)].id == group.second);
        },
    }
}

/// In a saved layout the tab at `index` is counted once, with the entry that shows it.
proof fn saved_layout_counts_once(s: TabsView, index: int, count: int)
    requires
        s.wf(),
        s.tabs.len() <= usize::MAX,
        0 <= index < s.tabs.len(),
        0 <= count <= s.entries.len(),
    ensures
        membership(saved_layout(s).entries, count, index) == (if entry_of(
            s.entries,
            s.tabs[index].id,
        ) < count {
            1int
        } else {
            0int
        }),
    decreases count,
{
    let tab = s.tabs[index].id;
    assert(shown(s.entries, s.tabs[index].id));
    let e = entry_of(s.entries, tab);
    assert(s.entries[e].has(tab));
    if count > 0 {
        saved_layout_counts_once(s, index, count - 1);
        let entry = s.entries[count - 1];
        assert(entry_ok(entry, s.next_split_group_id));
        assert forall|t: TabId| #[trigger] entry.has(t) implies s.registered(t) by {
            assert(s.entries[count - 1].has(t));
        }
        saved_entry_shows_the_same(s, entry, index);
        assert(saved_layout(s).entries[count - 1] == saved_entry(s, entry));
        if entry.has(tab) {
            assert(s.entries[count - 1].has(tab));
        }
        if let TabEntry::Split(group) = entry {
            assert(entry.has(group.first) && entry.has(group.second));
            assert(s.tabs[s.registry_of(group.first)].id == group.first);
            assert(s.tabs[s.registry_of(group.second)].id == group.second);
        }
    }
}

/// The layout that is captured from the screen is always a valid one.
pub proof fn captured_layout_is_valid(s: TabsView)
    requires
        s.wf(),
        s.tabs.len() <= usize::MAX,
    ensures
        layout_error(saved_layout(s), s.tabs.len() as int) is None,
{
    let saved = saved_layout(s);
    let count = s.tabs.len() as int;
    if count == 0 {
        if s.entries.len() > 0 {
            assert(s.entries[0].has(s.entries[0].focus()));
            assert(s.registered(s.entries[0].focus()));
        }
        if let Some(tab) = s.active {
            assert(s.registered(tab));
        }
    } else {
        let active = s.active->0;
        assert(s.tabs[s.registry_of(active)].id == active);
        let index = s.registry_of(active) as usize;
        assert forall|i: int| 0 <= i < saved.entries.len() implies entry_error(
            #[trigger] saved.entries[i],
            index,
            count,
        ) is None by {
            let entry = s.entries[i];
            assert(entry_ok(s.entries[i], s.next_split_group_id));
            match entry {
                TabEntry::Single(tab) => {
                    assert(s.entries[i].has(tab));
                    assert(s.tabs[s.registry_of(tab)].id == tab);
                },
                TabEntry::Split(group) => {
                    assert(s.entries[i].has(group.first) && s.entries[i].has(group.second));
                    assert(s.tabs[s.registry_of(group.first)].id == group.first);
                    assert(s.tabs[s.registry_of(group.second)].id == group.second);
                    if s.entries[i].has(active) {
                        assert(s.entries[i].focus() == active);
                    }
                },
            }
        }
        crate::session::entries_without_errors(
            saved.entries,
            index,
            count,
            saved.entries.len() as int,
        );
        assert forall|tab: int| 0 <= tab < count implies #[trigger] membership(
            saved.entries,
            saved.entries.len() as int,
            tab,
        ) == 1 by {
            saved_layout_counts_once(s, tab, s.entries.len() as int);
            assert(shown(s.entries, s.tabs[tab].id));
        }
    }
}

/// Every saved tab opened, in registry order.
pub open spec fn registry_ids(s: TabsView) -> Seq<Option<TabId>> {
    Seq::new(s.tabs.len(), |i: int| Some(s.tabs[i].id))
}

/// When every saved tab opened, each saved entry becomes an entry of its own with the
/// same tabs.
proof fn complete_layout_resolves_in_place(s: TabsView, saved: LayoutModel, count: int)
    requires
        s.wf(),
        s.tabs.len() > 0,
        layout_error(saved, s.tabs.len() as int) is None,
        0 <= count <= saved.entries.len(),
    ensures
        ({
            let r = resolved(saved.entries, registry_ids(s), count);
            &&& r.entries.len() == count
            &&& forall|k: int|
                0 <= k < count ==> same_entry(s, #[trigger] r.entries[k], saved.entries[k])
        }),
    decreases count,
{
    let ids = registry_ids(s);
    if count > 0 {
        complete_layout_resolves_in_place(s, saved, count - 1);
        assert forall|i: int, j: int|
            #![trigger ids[i], ids[j]]
            0 <= i < j < ids.len() && ids[i] is Some implies ids[i] != ids[j] by {
            assert(s.tabs[i].id != s.tabs[j].id);
        }
        prefixes_resolve(saved, ids, count - 1);
        entries_error_covers_each(
            saved.entries,
            saved.active_tab->0,
            s.tabs.len() as int,
            saved.entries.len() as int,
            count - 1,
        );
        let entry = saved.entries[count - 1];
        let before = resolved(saved.entries, ids, count - 1);
        let r = resolved(saved.entries, ids, count);
        match entry {
            SessionEntry::Single { tab_index } => {
                assert(entry.has(tab_index as int));
                entry_tabs_are_unplaced(saved, ids, count - 1, tab_index);
            },
            SessionEntry::Split { first_tab, second_tab, .. } => {
                assert(entry.has(first_tab as int) && entry.has(second_tab as int));
                entry_tabs_are_unplaced(saved, ids, count - 1, first_tab);
                entry_tabs_are_unplaced(saved, ids, count - 1, second_tab);
                if first_tab < second_tab {
                    assert(ids[first_tab as int] != ids[second_tab as int]);
                } else {
                    assert(ids[second_tab as int] != ids[first_tab as int]);
                }
            },
        }
        assert(restored_entry(entry, ids, before.seen) is Some);
        assert forall|k: int| 0 <= k < count implies same_entry(
            s,
            #[trigger] r.entries[k],
            saved.entries[k],
        ) by {
            if k < count - 1 {
                assert(before.entries[k] == r.entries[k]);
            }
        }
    }
}

/// A restored entry with the tabs that a saved one names.
spec fn same_entry(s: TabsView, entry: RestoredTabEntry, saved: SessionEntry) -> bool {
    match saved {
        SessionEntry::Single { tab_index } => entry == RestoredTabEntry::Single(
            s.tabs[tab_index as int].id,
        ),
        SessionEntry::Split { first_tab, second_tab, direction, ratio_bits, focused_tab } => entry
            == (RestoredTabEntry::Split {
            first: s.tabs[first_tab as int].id,
            second: s.tabs[second_tab as int].id,
            direction,
            ratio_bits,
            focused: if focused_tab == first_tab {
                SplitSide::First
            } else {
                SplitSide::Second
            },
        }),
    }
}

/// When every saved tab could be opened, capturing the layout right after restoring it
/// gives back the saved layout: order, splits, directions, ratios, focus and active tab.
pub proof fn capturing_a_restored_layout_gives_it_back(s: TabsView, saved: LayoutModel)
    requires
        s.wf(),
        s.tabs.len() <= usize::MAX,
        layout_error(saved, s.tabs.len() as int) is None,
    ensures
        s.restorable(
            resolved(saved.entries, registry_ids(s), saved.entries.len() as int).entries,
            restored_active(saved, registry_ids(s)),
        ),
        saved_layout(
            s.restore_layout(
                resolved(saved.entries, registry_ids(s), saved.entries.len() as int).entries,
                restored_active(saved, registry_ids(s)),
            ),
        ) == saved,
{
    let ids = registry_ids(s);
    let count = saved.entries.len() as int;
    let r = resolved(saved.entries, ids, count);
    let active = restored_active(saved, ids);
    let after = s.restore_layout(r.entries, active);
    assert forall|i: int, j: int|
        #![trigger ids[i], ids[j]]
        0 <= i < j < ids.len() && ids[i] is Some implies ids[i] != ids[j] by {
        assert(s.tabs[i].id != s.tabs[j].id);
    }
    assert forall|i: int| 0 <= i < ids.len() && (#[trigger] ids[i]) is Some implies s.registered(
        ids[i]->0,
    ) by {
        assert(s.tabs[i].id == ids[i]->0);
    }
    assert forall|t: TabId| #[trigger] s.registered(t) implies exists|i: int|
        0 <= i < ids.len() && #[trigger] ids[i] == Some(t) by {
        let i = choose|i: int| 0 <= i < s.tabs.len() && (#[trigger] s.tabs[i]).id == t;
        assert(ids[i] == Some(t));
    }
    restored_layout_is_accepted(s, saved, ids);
    if s.tabs.len() == 0 {
        assert(saved_layout(after).entries =~= saved.entries);
    } else {
        complete_layout_resolves_in_place(s, saved, count);
        prefixes_resolve(saved, ids, count);
        let index = saved.active_tab->0;
        // The saved active tab has a place, so it stays active.
        assert(membership(saved.entries, count, index as int) == 1);
        let at = counted_is_shown(saved.entries, count, index as int);
        let focus = s.tabs[index as int].id;
        assert(saved.entries[at].has(index as int) && ids[index as int] == Some(focus));
        assert(opened_before(saved.entries, ids, count, focus));
        assert(r.seen.contains(focus));
        assert(active == Some(focus));
        registry_of_is(after, index as int);
        assert forall|k: int| 0 <= k < count implies (#[trigger] saved_layout(after).entries[k])
            == saved.entries[k] by {
            assert(same_entry(s, r.entries[k], saved.entries[k]));
            entries_error_covers_each(
                saved.entries,
                index,
                s.tabs.len() as int,
                count,
                k,
            );
            match saved.entries[k] {
                SessionEntry::Single { tab_index } => {
                    registry_of_is(after, tab_index as int);
                },
                SessionEntry::Split { first_tab, second_tab, focused_tab, .. } => {
                    registry_of_is(after, first_tab as int);
                    registry_of_is(after, second_tab as int);
                },
            }
        }
        assert(saved_layout(after).entries =~= saved.entries);
    }
}

/// Whether the saved entry at `position` came back as `entry`.
pub open spec fn came_back(r: Resolved, position: int, entry: RestoredTabEntry) -> bool {
    exists|k: int|
        0 <= k < r.entries.len() && (#[trigger] r.positions[k]) == position && r.entries[k] == entry
}

/// Whether nothing of the saved entry at `position` came back.
pub open spec fn is_gone(r: Resolved, position: int) -> bool {
    forall|k: int| 0 <= k < r.entries.len() ==> (#[trigger] r.positions[k]) != position
}

/// What came back of a prefix is still there with one more entry.
proof fn prefix_came_back(
    saved: Seq<SessionEntry>,
    ids: Seq<Option<TabId>>,
    count: int,
    position: int,
)
    requires
        0 <= position < count,
        resolved(saved, ids, count).positions.len() == resolved(saved, ids, count).entries.len(),
        resolved(saved, ids, count + 1).positions.len() == resolved(
            saved,
            ids,
            count + 1,
        ).entries.len(),
    ensures
        forall|entry: RestoredTabEntry| #[trigger]
            came_back(resolved(saved, ids, count), position, entry) ==> came_back(
                resolved(saved, ids, count + 1),
                position,
                entry,
            ),
        is_gone(resolved(saved, ids, count), position) ==> is_gone(
            resolved(saved, ids, count + 1),
            position,
        ),
{
    let before = resolved(saved, ids, count);
    let after = resolved(saved, ids, count + 1);
    assert forall|k: int| 0 <= k < before.entries.len() implies after.positions[k]
        == before.positions[k] && #[trigger] after.entries[k] == before.entries[k] by {}
    assert forall|entry: RestoredTabEntry| #[trigger]
        came_back(before, position, entry) implies came_back(after, position, entry) by {
        let k = choose|k: int|
            0 <= k < before.entries.len() && (#[trigger] before.positions[k]) == position
                && before.entries[k] == entry;
        assert(after.positions[k] == position && after.entries[k] == entry);
    }
    if is_gone(before, position) {
        assert forall|k: int| 0 <= k < after.entries.len() implies (#[trigger] after.positions[k])
            != position by {
            if k < before.entries.len() {
                assert(after.entries[k] == before.entries[k]);
            }
        }
    }
}

/// Whatever tabs of a valid layout could be opened, each saved entry comes back in the order of
/// the layout. A single entry comes back if its tab opened. A split comes back with its direction,
/// its divider and its focus if both tabs opened, and as a single entry if one did.
pub proof fn each_entry_comes_back_as_it_can(
    saved: LayoutModel,
    ids: Seq<Option<TabId>>,
    count: int,
    position: int,
)
    requires
        layout_error(saved, ids.len() as int) is None,
        ids.len() > 0,
        forall|i: int, j: int|
            #![trigger ids[i], ids[j]]
            0 <= i < j < ids.len() && ids[i] is Some ==> ids[i] != ids[j],
        0 <= position < count <= saved.entries.len(),
    ensures
        ({
            let r = resolved(saved.entries, ids, count);
            &&& r.positions.len() == r.entries.len()
            &&& forall|a: int, b: int|
                0 <= a < b < r.positions.len() ==> (#[trigger] r.positions[a]) < (
                #[trigger] r.positions[b])
            &&& match saved.entries[position] {
                SessionEntry::Single { tab_index } => match ids[tab_index as int] {
                    Some(tab) => came_back(r, position, RestoredTabEntry::Single(tab)),
                    None => is_gone(r, position),
                },
                SessionEntry::Split {
                    first_tab,
                    second_tab,
                    direction,
                    ratio_bits,
                    focused_tab,
                } => match (ids[first_tab as int], ids[second_tab as int]) {
                    (Some(first), Some(second)) => {
                        &&& focused_tab == first_tab ==> came_back(
                            r,
                            position,
                            RestoredTabEntry::Split {
                                first,
                                second,
                                direction,
                                ratio_bits,
                                focused: SplitSide::First,
                            },
                        )
                        &&& focused_tab == second_tab ==> came_back(
                            r,
                            position,
                            RestoredTabEntry::Split {
                                first,
                                second,
                                direction,
                                ratio_bits,
                                focused: SplitSide::Second,
                            },
                        )
                    },
                    (Some(first), None) => came_back(r, position, RestoredTabEntry::Single(first)),
                    (None, Some(second)) => came_back(
                        r,
                        position,
                        RestoredTabEntry::Single(second),
                    ),
                    (None, None) => is_gone(r, position),
                },
            }
        }),
    decreases count,
{
    let before = resolved(saved.entries, ids, count - 1);
    let r = resolved(saved.entries, ids, count);
    prefixes_resolve(saved, ids, count - 1);
    prefixes_resolve(saved, ids, count);
    entries_error_covers_each(
        saved.entries,
        saved.active_tab->0,
        ids.len() as int,
        saved.entries.len() as int,
        position,
    );
    if count > 1 {
        each_entry_comes_back_as_it_can(saved, ids, count - 1, if position < count - 1 {
            position
        } else {
            0
        });
    }
    assert forall|a: int, b: int| 0 <= a < b < r.positions.len() implies (#[trigger] r.positions[a])
        < (#[trigger] r.positions[b]) by {
        if b < before.positions.len() {
            assert(before.positions[a] < before.positions[b]);
        } else {
            assert(r.positions[a] == before.positions[a]);
            assert(came_from(before.entries[a], saved.entries[before.positions[a]], ids));
        }
    }
    if position < count - 1 {
        prefix_came_back(saved.entries, ids, count - 1, position);
    } else {
        let entry = saved.entries[position];
        match entry {
            SessionEntry::Single { tab_index } => {
                assert(entry.has(tab_index as int));
                if ids[tab_index as int] is Some {
                    entry_tabs_are_unplaced(saved, ids, position, tab_index);
                }
            },
            SessionEntry::Split { first_tab, second_tab, .. } => {
                assert(entry.has(first_tab as int) && entry.has(second_tab as int));
                if ids[first_tab as int] is Some {
                    entry_tabs_are_unplaced(saved, ids, position, first_tab);
                }
                if ids[second_tab as int] is Some {
                    entry_tabs_are_unplaced(saved, ids, position, second_tab);
                }
                if first_tab < second_tab {
                    assert(ids[first_tab as int] is Some ==> ids[first_tab as int]
                        != ids[second_tab as int]);
                } else {
                    assert(ids[second_tab as int] is Some ==> ids[second_tab as int]
                        != ids[first_tab as int]);
                }
            },
        }
        let restored = restored_entry(entry, ids, before.seen);
        if restored is Some {
            let last = r.entries.len() - 1;
            assert(r.positions[last] == position && r.entries[last] == restored->0);
            assert(came_back(r, position, restored->0));
        } else {
            assert forall|k: int| 0 <= k < r.entries.len() implies (#[trigger] r.positions[k])
                != position by {
                assert(came_from(before.entries[k], saved.entries[before.positions[k]], ids));
            }
        }
    }
}

/// Where the search for a position ends.
proof fn first_at_or_after_is(positions: Seq<int>, target: int, from: int)
    requires
        0 <= from <= positions.len(),
    ensures
        from <= first_at_or_after(positions, target, from) <= positions.len(),
        first_at_or_after(positions, target, from) < positions.len() ==> positions[first_at_or_after(
            positions,
            target,
            from,
        )] >= target,
        forall|k: int|
            from <= k < first_at_or_after(positions, target, from) ==> (#[trigger] positions[k])
                < target,
    decreases positions.len() - from,
{
    if from < positions.len() && positions[from] < target {
        first_at_or_after_is(positions, target, from + 1);
    }
}

proof fn first_showing_is(saved: Seq<SessionEntry>, tab: int, from: int, at: int)
    requires
        0 <= from <= at < saved.len(),
        saved[at].has(tab),
        forall|i: int| from <= i < at ==> !(#[trigger] saved[i]).has(tab),
    ensures
        first_showing(saved, tab, from) == Some(at),
    decreases at - from,
{
    if from < at {
        first_showing_is(saved, tab, from + 1, at);
    }
}

/// The saved active tab is active again if it opened. If it did not, the focus of the nearest
/// entry that came back takes its place: the first one from its own entry on, and the last one of
/// all where none is left there.
pub proof fn the_nearest_entry_takes_over(
    saved: LayoutModel,
    ids: Seq<Option<TabId>>,
    at: int,
    k: int,
)
    requires
        layout_error(saved, ids.len() as int) is None,
        ids.len() > 0,
        forall|i: int, j: int|
            #![trigger ids[i], ids[j]]
            0 <= i < j < ids.len() && ids[i] is Some ==> ids[i] != ids[j],
        0 <= at < saved.entries.len(),
        saved.entries[at].has(saved.active_tab->0 as int),
    ensures
        ({
            let r = resolved(saved.entries, ids, saved.entries.len() as int);
            let opened = ids[saved.active_tab->0 as int];
            let active = restored_active(saved, ids);
            &&& opened is Some ==> active == opened
            &&& opened is None && r.entries.len() == 0 ==> active is None
            &&& opened is None && 0 <= k < r.entries.len() && r.positions[k] >= at && (forall|j: int|
                0 <= j < k ==> (#[trigger] r.positions[j]) < at) ==> active == Some(
                restored_focus(r.entries[k]),
            )
            &&& opened is None && r.entries.len() > 0 && (forall|j: int|
                0 <= j < r.entries.len() ==> (#[trigger] r.positions[j]) < at) ==> active == Some(
                restored_focus(r.entries.last()),
            )
        }),
{
    let count = saved.entries.len() as int;
    let tab = saved.active_tab->0;
    let r = resolved(saved.entries, ids, count);
    prefixes_resolve(saved, ids, count);
    if ids[tab as int] is Some {
        assert(saved.entries[at].has(tab as int) && ids[tab as int] == Some(ids[tab as int]->0));
        assert(opened_before(saved.entries, ids, count, ids[tab as int]->0));
    } else {
        assert forall|i: int| 0 <= i < at implies !(#[trigger] saved.entries[i]).has(
            tab as int,
        ) by {
            if saved.entries[i].has(tab as int) {
                assert(membership(saved.entries, count, tab as int) == 1);
                shown_twice_is_counted_twice(saved.entries, count, i, at, tab as int);
            }
        }
        first_showing_is(saved.entries, tab as int, 0, at);
        first_at_or_after_is(r.positions, at, 0);
        let next = first_at_or_after(r.positions, at, 0);
        if 0 <= k < r.entries.len() && r.positions[k] >= at && forall|j: int|
            0 <= j < k ==> (#[trigger] r.positions[j]) < at {
            if next < k {
                assert(r.positions[next] < at);
            } else if k < next {
                assert(r.positions[k] < at);
            }
        }
        if forall|j: int| 0 <= j < r.entries.len() ==> (#[trigger] r.positions[j]) < at {
            if next < r.positions.len() {
                assert(r.positions[next] < at);
            }
        }
    }
}

/// The layout that is kept names each tab by its place in the registry: the entries stand in their
/// order, with their members, directions, dividers and focus.
pub proof fn a_kept_layout_names_the_tabs(s: TabsView, i: int)
    requires
        s.wf(),
        s.tabs.len() <= usize::MAX,
        0 <= i < s.entries.len(),
    ensures
        ({
            let layout = saved_layout(s);
            &&& layout.entries.len() == s.entries.len()
            &&& s.active is Some ==> layout.active_tab is Some && s.tabs[layout.active_tab->0
                as int].id == s.active->0
            &&& s.active is None ==> layout.active_tab is None
            &&& match s.entries[i] {
                TabEntry::Single(tab) => {
                    &&& layout.entries[i] is Single
                    &&& s.tabs[layout.entries[i]->tab_index as int].id == tab
                },
                TabEntry::Split(group) => {
                    &&& layout.entries[i] is Split
                    &&& s.tabs[layout.entries[i]->first_tab as int].id == group.first
                    &&& s.tabs[layout.entries[i]->second_tab as int].id == group.second
                    &&& layout.entries[i]->Split_direction == group.direction
                    &&& layout.entries[i]->Split_ratio_bits == group.ratio_bits
                    &&& group.focused is First ==> layout.entries[i]->focused_tab
                        == layout.entries[i]->first_tab
                    &&& group.focused is Second ==> layout.entries[i]->focused_tab
                        == layout.entries[i]->second_tab
                },
            }
        }),
{
    let entry = s.entries[i];
    if s.active is Some {
        let tab = s.active->0;
        let at = choose|at: int| 0 <= at < s.tabs.len() && (#[trigger] s.tabs[at]).id == tab;
        registry_of_is(s, at);
    }
    match entry {
        TabEntry::Single(tab) => {
            assert(entry.has(tab));
            assert(s.registered(tab));
            let at = choose|at: int| 0 <= at < s.tabs.len() && (#[trigger] s.tabs[at]).id == tab;
            registry_of_is(s, at);
        },
        TabEntry::Split(group) => {
            assert(entry.has(group.first) && entry.has(group.second));
            assert(s.registered(group.first) && s.registered(group.second));
            let a = choose|a: int| 0 <= a < s.tabs.len() && (#[trigger] s.tabs[a]).id == group.first;
            let b = choose|b: int|
                0 <= b < s.tabs.len() && (#[trigger] s.tabs[b]).id == group.second;
            registry_of_is(s, a);
            registry_of_is(s, b);
        },
    }
}

} // verus!

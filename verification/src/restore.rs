//! Bringing a saved layout back to the tabs that could be opened, and capturing the
//! layout that is on screen.
use crate::session::{LayoutModel, SessionEntry, SessionLayout};
use crate::tabs::{contains_tab, RestoredTabEntry, SplitSide, TabEntry, TabId, TabState, TabsView};
use vstd::prelude::*;

verus! {

/// The tab that was opened for a saved tab, if any.
pub open spec fn opened_tab(ids: Seq<Option<TabId>>, index: usize) -> Option<TabId> {
    if index < ids.len() {
        ids[index as int]
    } else {
        None
    }
}

/// The tab that was opened for a saved tab, unless it already has a place.
pub open spec fn unplaced_tab(
    ids: Seq<Option<TabId>>,
    index: usize,
    seen: Set<TabId>,
) -> Option<TabId> {
    match opened_tab(ids, index) {
        Some(tab) if !seen.contains(tab) => Some(tab),
        _ => None,
    }
}

/// The set with one more tab.
pub open spec fn with_tab(seen: Set<TabId>, tab: Option<TabId>) -> Set<TabId> {
    match tab {
        None => seen,
        Some(tab) => seen.insert(tab),
    }
}

/// What an entry becomes: a split that lost a member shrinks to the other, and an entry
/// without a tab disappears.
pub open spec fn restored_entry(
    entry: SessionEntry,
    ids: Seq<Option<TabId>>,
    seen: Set<TabId>,
) -> Option<RestoredTabEntry> {
    match entry {
        SessionEntry::Single { tab_index } => match unplaced_tab(ids, tab_index, seen) {
            None => None,
            Some(tab) => Some(RestoredTabEntry::Single(tab)),
        },
        SessionEntry::Split { first_tab, second_tab, direction, ratio_bits, focused_tab } => {
            let a = unplaced_tab(ids, first_tab, seen);
            let b = unplaced_tab(ids, second_tab, with_tab(seen, a));
            match (a, b) {
                (Some(first), Some(second)) => Some(
                    RestoredTabEntry::Split {
                        first,
                        second,
                        direction,
                        ratio_bits,
                        focused: if focused_tab == first_tab {
                            SplitSide::First
                        } else {
                            SplitSide::Second
                        },
                    },
                ),
                (Some(first), None) => Some(RestoredTabEntry::Single(first)),
                (None, Some(second)) => Some(RestoredTabEntry::Single(second)),
                (None, None) => None,
            }
        },
    }
}

/// The tabs that have a place after an entry.
pub open spec fn placed_after(
    entry: SessionEntry,
    ids: Seq<Option<TabId>>,
    seen: Set<TabId>,
) -> Set<TabId> {
    match entry {
        SessionEntry::Single { tab_index } => with_tab(seen, unplaced_tab(ids, tab_index, seen)),
        SessionEntry::Split { first_tab, second_tab, .. } => {
            let once = with_tab(seen, unplaced_tab(ids, first_tab, seen));
            with_tab(once, unplaced_tab(ids, second_tab, once))
        },
    }
}

/// The entries that a saved layout becomes.
#[verifier::ext_equal]
pub struct Resolved {
    pub entries: Seq<RestoredTabEntry>,
    /// For each entry, the saved entry it came from.
    pub positions: Seq<int>,
    pub seen: Set<TabId>,
}

/// What the first `count` saved entries become.
pub open spec fn resolved(
    saved: Seq<SessionEntry>,
    ids: Seq<Option<TabId>>,
    count: int,
) -> Resolved
    decreases count,
{
    if count <= 0 {
        Resolved { entries: seq![], positions: seq![], seen: Set::empty() }
    } else {
        let before = resolved(saved, ids, count - 1);
        let seen = placed_after(saved[count - 1], ids, before.seen);
        match restored_entry(saved[count - 1], ids, before.seen) {
            None => Resolved { seen, ..before },
            Some(entry) => Resolved {
                entries: before.entries.push(entry),
                positions: before.positions.push(count - 1),
                seen,
            },
        }
    }
}

/// The first entry from `from` on that shows `tab`.
pub open spec fn first_showing(saved: Seq<SessionEntry>, tab: int, from: int) -> Option<int>
    decreases saved.len() - from,
{
    if from >= saved.len() {
        None
    } else if saved[from].has(tab) {
        Some(from)
    } else {
        first_showing(saved, tab, from + 1)
    }
}

/// The first index from `from` on whose position is at least `target`; the length if
/// there is none.
pub open spec fn first_at_or_after(positions: Seq<int>, target: int, from: int) -> int
    decreases positions.len() - from,
{
    if from >= positions.len() {
        positions.len() as int
    } else if positions[from] >= target {
        from
    } else {
        first_at_or_after(positions, target, from + 1)
    }
}

/// The member that a restored entry focuses.
pub open spec fn restored_focus(entry: RestoredTabEntry) -> TabId {
    match entry {
        RestoredTabEntry::Single(tab) => tab,
        RestoredTabEntry::Split { first, second, focused, .. } => match focused {
            SplitSide::First => first,
            SplitSide::Second => second,
        },
    }
}

/// The active tab of a restored layout: the saved one if it could be opened, else the
/// focus of the entry that took its place, or of the last entry.
pub open spec fn restored_active(saved: LayoutModel, ids: Seq<Option<TabId>>) -> Option<TabId> {
    let all = resolved(saved.entries, ids, saved.entries.len() as int);
    let saved_active = match saved.active_tab {
        None => None,
        Some(index) => opened_tab(ids, index),
    };
    if saved_active is Some && all.seen.contains(saved_active->0) {
        saved_active
    } else if all.entries.len() == 0 {
        None
    } else {
        let target = match saved.active_tab {
            None => 0,
            Some(index) => match first_showing(saved.entries, index as int, 0) {
                None => 0,
                Some(position) => position,
            },
        };
        let next = first_at_or_after(all.positions, target, 0);
        Some(
            restored_focus(
                all.entries[if next < all.entries.len() {
                    next
                } else {
                    all.entries.len() - 1
                }],
            ),
        )
    }
}

/// The member that a restored entry focuses.
pub fn restored_entry_focus(entry: &RestoredTabEntry) -> (res: TabId)
    ensures
        res == restored_focus(*entry),
{
    match entry {
        RestoredTabEntry::Single(tab) => *tab,
        RestoredTabEntry::Split { first, second, focused, .. } => match focused {
            SplitSide::First => *first,
            SplitSide::Second => *second,
        },
    }
}

/// The tabs that have a place, as a list without repetition.
spec fn lists(seen: Seq<TabId>, set: Set<TabId>) -> bool {
    forall|tab: TabId| #[trigger] seen.contains(tab) == set.contains(tab)
}

/// Finds the tab for a saved tab and gives it its place.
fn place(
    ids: &Vec<Option<TabId>>,
    index: usize,
    seen: &mut Vec<TabId>,
    Ghost(set): Ghost<Set<TabId>>,
) -> (res: Option<TabId>)
    requires
        lists(old(seen)@, set),
    ensures
        res == unplaced_tab(ids@, index, set),
        lists(final(seen)@, with_tab(set, res)),
{
    if index >= ids.len() {
        return None;
    }
    match ids[index] {
        None => None,
        Some(tab) => {
            if contains_tab(seen, tab) {
                return None;
            }
            let ghost before = seen@;
            seen.push(tab);
            proof {
                assert forall|t: TabId| #[trigger] seen@.contains(t) == set.insert(tab).contains(
                    t,
                ) by {
                    if seen@.contains(t) && t != tab {
                        let k = choose|k: int| 0 <= k < seen@.len() && seen@[k] == t;
                        assert(before[k] == t);
                        assert(before.contains(t));
                    }
                    if before.contains(t) {
                        let k = choose|k: int| 0 <= k < before.len() && before[k] == t;
                        assert(seen@[k] == t);
                    }
                    assert(seen@[before.len() as int] == tab);
                    assert(before.contains(t) == set.contains(t));
                }
            }
            Some(tab)
        },
    }
}

/// The first saved entry that shows a tab.
fn saved_position(saved: &Vec<SessionEntry>, tab: usize) -> (res: Option<usize>)
    ensures
        match first_showing(saved@, tab as int, 0) {
            None => res is None,
            Some(position) => res is Some && res->0 == position,
        },
{
    let mut i: usize = 0;
    while i < saved.len()
        invariant
            i <= saved.len(),
            first_showing(saved@, tab as int, 0) == first_showing(saved@, tab as int, i as int),
        decreases saved.len() - i,
    {
        let shows = match saved[i] {
            SessionEntry::Single { tab_index } => tab_index == tab,
            SessionEntry::Split { first_tab, second_tab, .. } => first_tab == tab || second_tab
                == tab,
        };
        if shows {
            return Some(i);
        }
        i += 1;
    }
    None
}

/// Places the tabs that could be opened as a saved layout had them. Returns the entries
/// and the active tab.
pub fn restored_runtime_layout(saved: &SessionLayout, runtime_tab_ids: &Vec<Option<TabId>>) -> (res:
    (Vec<RestoredTabEntry>, Option<TabId>))
    ensures
        res.0@ == resolved(
            saved@.entries,
            runtime_tab_ids@,
            saved@.entries.len() as int,
        ).entries,
        res.1 == restored_active(saved@, runtime_tab_ids@),
{
    let ghost entries = saved.entries@;
    let ghost ids = runtime_tab_ids@;
    let target: usize = match saved.active_tab {
        None => 0,
        Some(active) => match saved_position(&saved.entries, active) {
            None => 0,
            Some(position) => position,
        },
    };
    let mut restored: Vec<RestoredTabEntry> = Vec::new();
    let mut source_positions: Vec<usize> = Vec::new();
    let mut seen: Vec<TabId> = Vec::new();
    let mut n: usize = 0;
    assert(restored@ =~= resolved(entries, ids, 0).entries);
    while n < saved.entries.len()
        invariant
            n <= saved.entries.len(),
            entries == saved.entries@,
            ids == runtime_tab_ids@,
            restored@ == resolved(entries, ids, n as int).entries,
            source_positions.len() == restored.len(),
            resolved(entries, ids, n as int).positions.len() == restored.len(),
            forall|k: int|
                0 <= k < restored.len() ==> (#[trigger] source_positions@[k]) == resolved(
                    entries,
                    ids,
                    n as int,
                ).positions[k],
            lists(seen@, resolved(entries, ids, n as int).seen),
        decreases saved.entries.len() - n,
    {
        let ghost before = resolved(entries, ids, n as int);
        let restored_now: Option<RestoredTabEntry> = match saved.entries[n] {
            SessionEntry::Single { tab_index } => match place(
                runtime_tab_ids,
                tab_index,
                &mut seen,
                Ghost(before.seen),
            ) {
                None => None,
                Some(tab) => Some(RestoredTabEntry::Single(tab)),
            },
            SessionEntry::Split { first_tab, second_tab, direction, ratio_bits, focused_tab } => {
                let a = place(runtime_tab_ids, first_tab, &mut seen, Ghost(before.seen));
                let ghost once = with_tab(before.seen, a);
                let b = place(runtime_tab_ids, second_tab, &mut seen, Ghost(once));
                match (a, b) {
                    (Some(first), Some(second)) => Some(
                        RestoredTabEntry::Split {
                            first,
                            second,
                            direction,
                            ratio_bits,
                            focused: if focused_tab == first_tab {
                                SplitSide::First
                            } else {
                                SplitSide::Second
                            },
                        },
                    ),
                    (Some(first), None) => Some(RestoredTabEntry::Single(first)),
                    (None, Some(second)) => Some(RestoredTabEntry::Single(second)),
                    (None, None) => None,
                }
            },
        };
        assert(restored_now == restored_entry(entries[n as int], ids, before.seen));
        if let Some(entry) = restored_now {
            restored.push(entry);
            source_positions.push(n);
        }
        n += 1;
    }
    let ghost all = resolved(entries, ids, entries.len() as int);
    if let Some(index) = saved.active_tab {
        if index < runtime_tab_ids.len() {
            if let Some(tab) = runtime_tab_ids[index] {
                if contains_tab(&seen, tab) {
                    return (restored, Some(tab));
                }
                assert(seen@.contains(tab) == all.seen.contains(tab));
            }
        }
    }
    let count: usize = restored.len();
    if count == 0 {
        return (restored, None);
    }
    let mut next: usize = 0;
    while next < count && source_positions[next] < target
        invariant
            next <= count,
            count == source_positions.len(),
            count == all.positions.len(),
            forall|k: int|
                0 <= k < count ==> (#[trigger] source_positions@[k]) == all.positions[k],
            first_at_or_after(all.positions, target as int, 0) == first_at_or_after(
                all.positions,
                target as int,
                next as int,
            ),
        decreases count - next,
    {
        next += 1;
    }
    let chosen: usize = if next < count {
        next
    } else {
        count - 1
    };
    let active = restored_entry_focus(&restored[chosen]);
    (restored, Some(active))
}

/// A saved entry, by the registry positions of its tabs.
pub open spec fn saved_entry(s: TabsView, entry: TabEntry) -> SessionEntry {
    match entry {
        TabEntry::Single(tab) => SessionEntry::Single { tab_index: s.registry_of(tab) as usize },
        TabEntry::Split(group) => SessionEntry::Split {
            first_tab: s.registry_of(group.first) as usize,
            second_tab: s.registry_of(group.second) as usize,
            direction: group.direction,
            ratio_bits: group.ratio_bits,
            focused_tab: s.registry_of(group.member(group.focused)) as usize,
        },
    }
}

/// The layout on screen.
pub open spec fn saved_layout(s: TabsView) -> LayoutModel {
    LayoutModel {
        entries: Seq::new(s.entries.len(), |i: int| saved_entry(s, s.entries[i])),
        active_tab: match s.active {
            None => None,
            Some(tab) => Some(s.registry_of(tab) as usize),
        },
    }
}

/// Captures the layout on screen.
pub fn capture_layout(tabs: &TabState) -> (res: SessionLayout)
    requires
        tabs.wf(),
    ensures
        res@ == saved_layout(tabs@),
{
    let mut entries: Vec<SessionEntry> = Vec::new();
    let mut i: usize = 0;
    while i < tabs.entries().len()
        invariant
            tabs.wf(),
            i <= tabs@.entries.len(),
            entries.len() == i,
            forall|k: int|
                0 <= k < i ==> (#[trigger] entries@[k]) == saved_entry(tabs@, tabs@.entries[k]),
        decreases tabs@.entries.len() - i,
    {
        let entry = tabs.entries()[i];
        assert(entry == tabs@.entries[i as int]);
        match entry {
            TabEntry::Single(tab) => {
                assert(entry.has(tab));
                if let Some(tab_index) = tabs.tab_registry_index(tab) {
                    entries.push(SessionEntry::Single { tab_index });
                }
            },
            TabEntry::Split(group) => {
                assert(entry.has(group.first) && entry.has(group.second));
                let first = tabs.tab_registry_index(group.first);
                let second = tabs.tab_registry_index(group.second);
                if let (Some(first_tab), Some(second_tab)) = (first, second) {
                    let focused_tab: usize = match group.focused {
                        SplitSide::First => first_tab,
                        SplitSide::Second => second_tab,
                    };
                    entries.push(
                        SessionEntry::Split {
                            first_tab,
                            second_tab,
                            direction: group.direction,
                            ratio_bits: group.ratio_bits,
                            focused_tab,
                        },
                    );
                }
            },
        }
        i += 1;
    }
    let active_tab = tabs.selected_index();
    let res = SessionLayout { entries, active_tab };
    assert(res@.entries =~= saved_layout(tabs@).entries);
    res
}

} // verus!

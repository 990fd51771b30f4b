//! What each rearrangement of the tab bar does to the tabs that it is about, and that it leaves
//! the others where they are.
use crate::path::PathView;
use crate::tab_laws::{
    close_keeps_wf, create_split_keeps_wf, entry_of_is, group_of_is, registered_is_shown,
    splits_before_grows, swap_split_members_keeps_wf, taken_out_shows_the_rest,
};
use crate::tabs::{
    entries_disjoint, entry_of, entry_ok, group_at, group_of, has_group, shown, splits_before,
    RestoredTabEntry, SplitGroup, SplitGroupId, SplitPlacement, SplitSide, TabEntry, TabId,
    TabsView,
};
use vstd::prelude::*;

verus! {

/// The entry that shows a registered tab, and where it stands.
proof fn shown_at(s: TabsView, tab: TabId)
    requires
        s.layout_ok(),
        s.registered(tab),
    ensures
        0 <= entry_of(s.entries, tab) < s.entries.len(),
        s.entries[entry_of(s.entries, tab)].has(tab),
        entry_ok(s.entries[entry_of(s.entries, tab)], s.next_split_group_id),
{
    registered_is_shown(s, tab);
}

/// A drop on the left or right edge puts the tabs side by side, one on the top or bottom edge
/// puts one above the other; the dragged tab takes the side that it was dropped on.
pub proof fn a_drop_edge_names_the_side(placement: SplitPlacement)
    ensures
        (placement.spec_direction() is Horizontal) == (placement is Left || placement is Right),
        (placement.spec_direction() is Vertical) == (placement is Top || placement is Bottom),
        placement.spec_dragged_first() == (placement is Left || placement is Top),
{
}

/// Where the other tabs stand once a tab has left its place.
proof fn taken_out_place(s: TabsView, tab: TabId, other: TabId)
    requires
        s.wf(),
        s.registered(tab),
        s.registered(other),
        tab != other,
        entries_disjoint(s.taken_out(tab)),
    ensures
        ({
            let e = entry_of(s.entries, tab);
            let i = entry_of(s.entries, other);
            let place = entry_of(s.taken_out(tab), other);
            &&& s.entries[e] is Single ==> i != e && place == (if i < e {
                i
            } else {
                i - 1
            }) && s.taken_out(tab)[place] == s.entries[i]
            &&& s.entries[e] is Split ==> place == i && s.taken_out(tab)[place] == (if i == e {
                TabEntry::Single(other)
            } else {
                s.entries[i]
            })
            &&& 0 <= place < s.taken_out(tab).len()
            &&& s.taken_out(tab)[place].has(other)
        }),
{
    shown_at(s, tab);
    shown_at(s, other);
    let e = entry_of(s.entries, tab);
    let i = entry_of(s.entries, other);
    if s.entries[e] is Single {
        let place = if i < e { i } else { i - 1 };
        assert(s.taken_out(tab)[place] == s.entries[i]);
        entry_of_is(s.taken_out(tab), other, place);
    } else {
        entry_of_is(s.taken_out(tab), other, i);
    }
}

/// A drop on a tab joins the two in one split where the target stood: side by side exactly for
/// the left and right edge, the dragged tab first exactly for the left and top edge, in equal
/// shares, and with the focus on the dragged tab.
pub proof fn a_drop_joins_two_tabs(
    s: TabsView,
    dragged: TabId,
    target: TabId,
    placement: SplitPlacement,
)
    requires
        s.wf(),
        dragged != target,
        s.registered(dragged),
        s.registered(target),
        s.entries[entry_of(s.entries, target)] is Single,
        s.next_split_group_id < u64::MAX,
    ensures
        ({
            let after = s.create_split(dragged, target, placement);
            let place = entry_of(after.entries, dragged);
            let group = group_at(after.entries, place);
            &&& s.can_split(dragged, target)
            &&& 0 <= place < after.entries.len()
            &&& after.entries[place] == TabEntry::Split(group)
            &&& entry_of(after.entries, target) == place
            &&& (group.direction is Horizontal) == (placement is Left || placement is Right)
            &&& (group.direction is Vertical) == (placement is Top || placement is Bottom)
            &&& placement is Left || placement is Top ==> group.first == dragged && group.second
                == target && group.focused is First
            &&& placement is Right || placement is Bottom ==> group.first == target && group.second
                == dragged && group.focused is Second
            &&& group.ratio_bits == 0x3F00_0000
            &&& !has_group(s.entries, group.id)
            &&& after.active == Some(dragged)
            &&& after.tabs == s.tabs
            &&& after.next_tab_id == s.next_tab_id
        }),
{
    let after = s.create_split(dragged, target, placement);
    registered_is_shown(s, dragged);
    create_split_keeps_wf(s, dragged, target, placement);
    let remaining = s.taken_out(dragged);
    let place = entry_of(remaining, target);
    assert(after.entries[place].has(dragged));
    assert(after.entries[place].has(target));
    entry_of_is(after.entries, dragged, place);
    entry_of_is(after.entries, target, place);
    let group = group_at(after.entries, place);
    if has_group(s.entries, group.id) {
        let i = group_of(s.entries, group.id);
        assert(entry_ok(s.entries[i], s.next_split_group_id));
    }
}

/// Forming a split leaves every other tab with the entry it had, but for the former partner of
/// the dragged tab, which is alone then. No two of the other tabs change their order, and the
/// split stands where the target stood among them.
pub proof fn forming_a_split_moves_no_other_tab(
    s: TabsView,
    dragged: TabId,
    target: TabId,
    placement: SplitPlacement,
    other: TabId,
    third: TabId,
)
    requires
        s.wf(),
        dragged != target,
        s.registered(dragged),
        s.registered(target),
        s.entries[entry_of(s.entries, target)] is Single,
        s.next_split_group_id < u64::MAX,
        s.registered(other),
        s.registered(third),
        other != dragged,
        third != dragged,
    ensures
        ({
            let after = s.create_split(dragged, target, placement);
            let place = entry_of(s.entries, other);
            let new_place = entry_of(after.entries, other);
            &&& 0 <= new_place < after.entries.len()
            &&& other != target ==> after.entries[new_place] == (if place == entry_of(
                s.entries,
                dragged,
            ) {
                TabEntry::Single(other)
            } else {
                s.entries[place]
            })
            &&& (place < entry_of(s.entries, third)) == (new_place < entry_of(after.entries, third))
        }),
{
    let after = s.create_split(dragged, target, placement);
    registered_is_shown(s, dragged);
    create_split_keeps_wf(s, dragged, target, placement);
    taken_out_shows_the_rest(s, dragged);
    let remaining = s.taken_out(dragged);
    taken_out_place(s, dragged, target);
    taken_out_place(s, dragged, other);
    taken_out_place(s, dragged, third);
    assert(after.entries[entry_of(remaining, other)].has(other));
    assert(after.entries[entry_of(remaining, third)].has(third));
    entry_of_is(after.entries, other, entry_of(remaining, other));
    entry_of_is(after.entries, third, entry_of(remaining, third));
    if other != target && entry_of(remaining, other) == entry_of(remaining, target) {
        assert(remaining[entry_of(remaining, target)] == TabEntry::Single(target));
    }
}

/// Where the other tabs stand once a tab was closed.
proof fn close_place(s: TabsView, index: int, other: TabId)
    requires
        s.wf(),
        0 <= index < s.tabs.len(),
        s.registered(other),
        other != s.tabs[index].id,
    ensures
        s.close(index).entries == s.taken_out(s.tabs[index].id),
        entry_of(s.close(index).entries, other) == entry_of(
            s.taken_out(s.tabs[index].id),
            other,
        ),
{
}

/// Closing a tab takes it out of the registry and of the tab bar. The other tabs keep their
/// entries and their order; the partner of the closed tab is alone then.
pub proof fn closing_moves_no_other_tab(s: TabsView, index: int, other: TabId, third: TabId)
    requires
        s.wf(),
        0 <= index < s.tabs.len(),
        s.registered(other),
        s.registered(third),
        other != s.tabs[index].id,
        third != s.tabs[index].id,
    ensures
        ({
            let after = s.close(index);
            let place = entry_of(s.entries, other);
            let new_place = entry_of(after.entries, other);
            &&& after.tabs == s.tabs.remove(index)
            &&& !shown(after.entries, s.tabs[index].id)
            &&& 0 <= new_place < after.entries.len()
            &&& after.entries[new_place] == (if place == entry_of(s.entries, s.tabs[index].id) {
                TabEntry::Single(other)
            } else {
                s.entries[place]
            })
            &&& (place < entry_of(s.entries, third)) == (new_place < entry_of(after.entries, third))
            &&& after.next_tab_id == s.next_tab_id
            &&& after.next_split_group_id == s.next_split_group_id
        }),
{
    let tab = s.tabs[index].id;
    assert(s.registered(tab));
    registered_is_shown(s, tab);
    taken_out_shows_the_rest(s, tab);
    taken_out_place(s, tab, other);
    taken_out_place(s, tab, third);
    close_place(s, index, other);
    close_place(s, index, third);
}

/// Closing a tab that is not active leaves the active tab. The partner of the active tab follows
/// it; without one, the focus of the entry behind it does, and at the end of the tab bar that of
/// the entry before it. Only the last tab of all leaves none active.
pub proof fn closing_passes_the_active_tab_on(s: TabsView, index: int)
    requires
        s.wf(),
        0 <= index < s.tabs.len(),
    ensures
        ({
            let tab = s.tabs[index].id;
            let e = entry_of(s.entries, tab);
            let after = s.close(index).active;
            &&& 0 <= e < s.entries.len()
            &&& s.active != Some(tab) ==> after == s.active
            &&& s.active == Some(tab) && s.entries[e] is Split ==> after is Some && after->0 != tab
                && s.entries[e].has(after->0)
            &&& s.active == Some(tab) && s.entries[e] is Single && e + 1 < s.entries.len()
                ==> after == Some(s.entries[e + 1].focus())
            &&& s.active == Some(tab) && s.entries[e] is Single && e + 1 == s.entries.len() && e > 0
                ==> after == Some(s.entries[e - 1].focus())
            &&& (after is None) == (s.tabs.len() == 1)
        }),
{
    let tab = s.tabs[index].id;
    assert(s.registered(tab));
    shown_at(s, tab);
    close_keeps_wf(s, index);
    let e = entry_of(s.entries, tab);
    let after = s.close(index);
    if s.tabs.len() == 1 {
        if after.active is Some {
            assert(after.registered(after.active->0));
        }
    } else if after.active is None {
        assert(after.tabs.len() == 0);
    }
}

/// The focus of an entry is its only tab, or the member on the side that has the focus.
pub proof fn the_focus_is_a_member(entry: TabEntry)
    ensures
        entry is Single ==> entry.focus() == entry->Single_0,
        entry is Split && entry->Split_0.focused is First ==> entry.focus()
            == entry->Split_0.first,
        entry is Split && entry->Split_0.focused is Second ==> entry.focus()
            == entry->Split_0.second,
        entry.has(entry.focus()),
        entry.members().contains(entry.focus()),
        forall|tab: TabId| #[trigger] entry.has(tab) == entry.members().contains(tab),
        entry is Split ==> entry.members() == seq![entry->Split_0.first, entry->Split_0.second],
{
    let members = entry.members();
    if entry is Single {
        assert(members[0] == entry->Single_0);
    } else {
        assert(members[0] == entry->Split_0.first);
        assert(members[1] == entry->Split_0.second);
    }
    assert forall|tab: TabId| #[trigger] entry.has(tab) == members.contains(tab) by {}
}

/// Selecting a tab makes it active and gives it the focus of its entry; the other entries, and
/// everything else of its own, stay as they are. A tab that is not shown changes nothing.
pub proof fn selecting_moves_the_focus(s: TabsView, tab: TabId)
    requires
        s.wf(),
    ensures
        ({
            let after = s.select_tab(tab);
            let e = entry_of(s.entries, tab);
            &&& !s.registered(tab) ==> after == s
            &&& s.registered(tab) ==> {
                &&& after.active == Some(tab)
                &&& after.entries.len() == s.entries.len()
                &&& 0 <= e < s.entries.len()
                &&& after.entries[e].focus() == tab
                &&& after.entries[e].members() == s.entries[e].members()
                &&& s.entries[e] is Split ==> after.entries[e] is Split && after.entries[e]->Split_0
                    == (SplitGroup {
                    focused: after.entries[e]->Split_0.focused,
                    ..s.entries[e]->Split_0
                })
                &&& forall|i: int|
                    0 <= i < s.entries.len() && i != e ==> #[trigger] after.entries[i]
                        == s.entries[i]
            }
            &&& after.tabs == s.tabs
            &&& after.next_tab_id == s.next_tab_id
            &&& after.next_split_group_id == s.next_split_group_id
        }),
{
    if s.registered(tab) {
        shown_at(s, tab);
        let e = entry_of(s.entries, tab);
        assert(s.select_tab(tab).entries[e].members() =~= s.entries[e].members());
    } else if shown(s.entries, tab) {
        let e = entry_of(s.entries, tab);
        assert(s.entries[e].has(tab));
    }
}

/// A rebound tab shows the new path under the same identity; nothing else changes.
pub proof fn rebinding_changes_one_path(s: TabsView, index: int, path: PathView)
    requires
        0 <= index < s.tabs.len(),
    ensures
        s.rebind(index, path).tabs.len() == s.tabs.len(),
        s.rebind(index, path).tabs[index].path == path,
        s.rebind(index, path).tabs[index].id == s.tabs[index].id,
        forall|i: int|
            0 <= i < s.tabs.len() && i != index ==> #[trigger] s.rebind(index, path).tabs[i]
                == s.tabs[i],
        s.rebind(index, path).entries == s.entries,
        s.rebind(index, path).active == s.active,
{
}

/// Exchanging the members of a split changes their sides and nothing else: the focus stays on its
/// tab, the divider and the other entries where they are.
pub proof fn swapping_changes_sides(s: TabsView, id: SplitGroupId)
    requires
        s.wf(),
        has_group(s.entries, id),
    ensures
        ({
            let e = group_of(s.entries, id);
            let before = group_at(s.entries, e);
            let after = s.swap_split_members(id);
            let group = group_at(after.entries, e);
            &&& 0 <= e < s.entries.len()
            &&& before.id == id
            &&& after.entries.len() == s.entries.len()
            &&& after.entries[e] == TabEntry::Split(group)
            &&& group.first == before.second
            &&& group.second == before.first
            &&& group.id == before.id
            &&& group.direction == before.direction
            &&& group.ratio_bits == before.ratio_bits
            &&& after.entries[e].focus() == s.entries[e].focus()
            &&& forall|i: int|
                0 <= i < s.entries.len() && i != e ==> #[trigger] after.entries[i] == s.entries[i]
            &&& after.active == s.active
            &&& after.tabs == s.tabs
        }),
{
}

/// Dissolving a split leaves its members alone and next to each other, the first one first, where
/// the split stood. The other entries keep their order, and the active tab stays active.
pub proof fn dissolving_leaves_the_members_side_by_side(s: TabsView, id: SplitGroupId)
    requires
        s.wf(),
        has_group(s.entries, id),
    ensures
        ({
            let e = group_of(s.entries, id);
            let group = group_at(s.entries, e);
            let after = s.unsplit(id);
            &&& 0 <= e < s.entries.len()
            &&& s.entries[e] == TabEntry::Split(group)
            &&& group.id == id
            &&& after.entries.len() == s.entries.len() + 1
            &&& after.entries[e] == TabEntry::Single(group.first)
            &&& after.entries[e + 1] == TabEntry::Single(group.second)
            &&& forall|i: int| 0 <= i < e ==> #[trigger] after.entries[i] == s.entries[i]
            &&& forall|i: int|
                e < i < s.entries.len() ==> after.entries[i + 1] == #[trigger] s.entries[i]
            &&& after.active == s.active
            &&& after.tabs == s.tabs
            &&& !has_group(after.entries, id)
        }),
{
    let e = group_of(s.entries, id);
    let after = s.unsplit(id);
    assert forall|i: int| 0 <= i < after.entries.len() implies !(
    #[trigger] after.entries[i]).is_group(id) by {
        if i < e {
            assert(after.entries[i] == s.entries[i]);
            assert(!s.entries[i].is_group(id)) by {
                if s.entries[i].is_group(id) {
                    group_of_is(s.entries, id, i);
                }
            }
        } else if i > e + 1 {
            assert(after.entries[i] == s.entries[i - 1]);
            if s.entries[i - 1].is_group(id) {
                group_of_is(s.entries, id, i - 1);
            }
        }
    }
}

/// A member that leaves its split stands alone in the gap that it was dropped in, and its partner
/// alone where the split stood. The other entries keep their order.
pub proof fn a_member_leaves_for_a_gap(s: TabsView, tab: TabId, gap: int)
    requires
        s.wf(),
        s.registered(tab),
        s.entries[entry_of(s.entries, tab)] is Split,
        0 <= gap <= s.entries.len(),
    ensures
        ({
            let e = entry_of(s.entries, tab);
            let after = s.extract_split_member(tab, gap);
            let partner = after.entries[if gap <= e {
                e + 1
            } else {
                e
            }];
            &&& s.can_extract(tab, gap)
            &&& after.entries.len() == s.entries.len() + 1
            &&& after.entries[gap] == TabEntry::Single(tab)
            &&& partner is Single
            &&& partner->Single_0 != tab
            &&& s.entries[e].has(partner->Single_0)
            &&& forall|i: int|
                0 <= i < gap && i != e ==> #[trigger] after.entries[i] == s.entries[i]
            &&& forall|i: int|
                gap <= i < s.entries.len() && i != e ==> after.entries[i + 1]
                    == #[trigger] s.entries[i]
            &&& after.active == s.active
            &&& after.tabs == s.tabs
        }),
{
    shown_at(s, tab);
}

/// A dragged tab takes the place of a member of another split, and that member the place that the
/// dragged tab had; the split keeps its identity, its direction, its divider and its other
/// member, and the dragged tab is active. No other entry changes.
pub proof fn replacing_exchanges_places(
    s: TabsView,
    id: SplitGroupId,
    side: SplitSide,
    dragged: TabId,
)
    requires
        s.wf(),
        has_group(s.entries, id),
        s.registered(dragged),
        !s.entries[group_of(s.entries, id)].has(dragged),
    ensures
        ({
            let t = group_of(s.entries, id);
            let e = entry_of(s.entries, dragged);
            let before = group_at(s.entries, t);
            let displaced = match side {
                SplitSide::First => before.first,
                SplitSide::Second => before.second,
            };
            let after = s.replace_split_member(id, side, dragged);
            let group = group_at(after.entries, t);
            &&& s.can_replace_member(id, side, dragged)
            &&& t != e
            &&& after.entries.len() == s.entries.len()
            &&& after.entries[t] == TabEntry::Split(group)
            &&& side is First ==> group.first == dragged && group.second == before.second
            &&& side is Second ==> group.second == dragged && group.first == before.first
            &&& group.focused == side
            &&& group.id == before.id
            &&& group.direction == before.direction
            &&& group.ratio_bits == before.ratio_bits
            &&& s.entries[e] is Single ==> after.entries[e] == TabEntry::Single(displaced)
            &&& s.entries[e] is Split && s.entries[e]->Split_0.first == dragged
                ==> after.entries[e] == TabEntry::Split(
                SplitGroup { first: displaced, ..s.entries[e]->Split_0 },
            )
            &&& s.entries[e] is Split && s.entries[e]->Split_0.second == dragged
                ==> after.entries[e] == TabEntry::Split(
                SplitGroup { second: displaced, ..s.entries[e]->Split_0 },
            )
            &&& forall|i: int|
                0 <= i < s.entries.len() && i != t && i != e ==> #[trigger] after.entries[i]
                    == s.entries[i]
            &&& after.active == Some(dragged)
            &&& after.tabs == s.tabs
        }),
{
    shown_at(s, dragged);
    let t = group_of(s.entries, id);
    assert(entry_ok(s.entries[t], s.next_split_group_id));
}

/// Dropped on the other side of its own split, a tab changes sides with its partner and is active;
/// nothing else of the tab bar changes.
pub proof fn replacing_within_a_split_changes_sides(
    s: TabsView,
    id: SplitGroupId,
    side: SplitSide,
    dragged: TabId,
)
    requires
        s.wf(),
        has_group(s.entries, id),
        s.entries[group_of(s.entries, id)].has(dragged),
        group_at(s.entries, group_of(s.entries, id)).member(side) != dragged,
    ensures
        ({
            let t = group_of(s.entries, id);
            let before = group_at(s.entries, t);
            let after = s.replace_split_member(id, side, dragged);
            let group = group_at(after.entries, t);
            &&& after.entries.len() == s.entries.len()
            &&& after.entries[t] == TabEntry::Split(group)
            &&& group.first == before.second
            &&& group.second == before.first
            &&& side is First ==> group.first == dragged
            &&& side is Second ==> group.second == dragged
            &&& group.focused == side
            &&& group.id == before.id
            &&& group.direction == before.direction
            &&& group.ratio_bits == before.ratio_bits
            &&& forall|i: int|
                0 <= i < s.entries.len() && i != t ==> #[trigger] after.entries[i] == s.entries[i]
            &&& after.active == Some(dragged)
            &&& after.tabs == s.tabs
        }),
{
    let t = group_of(s.entries, id);
    let before = group_at(s.entries, t);
    entry_of_is(s.entries, dragged, t);
    let swapped = s.swap_split_members(id);
    swap_split_members_keeps_wf(s, id);
    assert(swapped.entries[t].has(dragged));
    entry_of_is(swapped.entries, dragged, t);
    assert(entry_ok(s.entries[t], s.next_split_group_id));
}

/// A moved entry stands in the gap that was named, counted while it still stood in its old place:
/// behind the entries before the gap, in front of those behind it. All other entries keep their
/// order. A gap beside the entry itself changes nothing, nor does the gap at the end for the
/// entry before the last.
pub proof fn moving_puts_an_entry_into_the_gap(s: TabsView, current: int, gap: int)
    requires
        0 <= current < s.entries.len(),
        0 <= gap <= s.entries.len(),
    ensures
        ({
            let count = s.entries.len();
            let after = s.move_entry(current, gap);
            let stays = gap == current || gap == current + 1 || (gap == count && current == count
                - 2);
            let place = if stays {
                current
            } else if gap > current {
                gap - 1
            } else {
                gap
            };
            &&& after.entries.len() == count
            &&& stays ==> after == s
            &&& after.entries[place] == s.entries[current]
            &&& forall|i: int|
                0 <= i < count && i < current && i < place ==> #[trigger] after.entries[i]
                    == s.entries[i]
            &&& forall|i: int|
                0 <= i < count && i > current && i > place ==> #[trigger] after.entries[i]
                    == s.entries[i]
            &&& forall|i: int|
                current < i <= place ==> after.entries[i - 1] == #[trigger] s.entries[i]
            &&& forall|i: int|
                place <= i < current ==> after.entries[i + 1] == #[trigger] s.entries[i]
            &&& after.active == s.active
            &&& after.tabs == s.tabs
        }),
{
}

/// A restored layout shows its entries in their order, with their members, directions, dividers
/// and focus as they were; each split gets an identity that no split had before, and no two the
/// same.
pub proof fn a_restored_layout_is_as_saved(
    s: TabsView,
    restored: Seq<RestoredTabEntry>,
    active: Option<TabId>,
    i: int,
    j: int,
)
    requires
        s.wf(),
        0 <= i < restored.len(),
        0 <= j < restored.len(),
        s.next_split_group_id + splits_before(restored, restored.len() as int) <= u64::MAX,
    ensures
        ({
            let after = s.restore_layout(restored, active);
            &&& after.entries.len() == restored.len()
            &&& after.active == active
            &&& after.tabs == s.tabs
            &&& match restored[i] {
                RestoredTabEntry::Single(tab) => after.entries[i] == TabEntry::Single(tab),
                RestoredTabEntry::Split { first, second, direction, ratio_bits, focused } => {
                    &&& after.entries[i] is Split
                    &&& after.entries[i]->Split_0.first == first
                    &&& after.entries[i]->Split_0.second == second
                    &&& after.entries[i]->Split_0.direction == direction
                    &&& after.entries[i]->Split_0.ratio_bits == ratio_bits
                    &&& after.entries[i]->Split_0.focused == focused
                    &&& !has_group(s.entries, after.entries[i]->Split_0.id)
                    &&& restored[j] is Split && i != j ==> after.entries[i]->Split_0.id
                        != after.entries[j]->Split_0.id
                },
            }
        }),
{
    let after = s.restore_layout(restored, active);
    splits_before_grows(restored, 0, i);
    splits_before_grows(restored, 0, j);
    splits_before_grows(restored, i, restored.len() as int);
    splits_before_grows(restored, j, restored.len() as int);
    splits_before_grows(restored, i + 1, restored.len() as int);
    splits_before_grows(restored, j + 1, restored.len() as int);
    if i < j {
        splits_before_grows(restored, i + 1, j);
    } else if j < i {
        splits_before_grows(restored, j + 1, i);
    }
    if restored[i] is Split {
        let id = after.entries[i]->Split_0.id;
        if has_group(s.entries, id) {
            let k = group_of(s.entries, id);
            assert(entry_ok(s.entries[k], s.next_split_group_id));
        }
    }
}

} // verus!

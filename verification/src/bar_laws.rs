//! What a drag or a menu does to the tab bar, and what the panes show.
use crate::chrome::{search_progress, toolbar_for};
use crate::document::DocumentView;
use crate::editing::highlight_decision;
use crate::numbers::{at_most, below, total_place};
use crate::search::{all_matches, SearchView};
use crate::tab_bar::{
    dropped, gap_from, is_revealed, menu_chosen, preview_label, split_of, DropTarget, EdgeDistances,
    Rearrangement, SplitMenuAction, TabDragSource,
};
use crate::tab_laws::{entry_of_is, group_of_is, registered_is_shown};
use crate::tabs::{
    entry_of, group_at, group_of, has_group, shown, SplitDirection, SplitGroup, SplitGroupId,
    SplitPlacement, SplitSide, TabEntry, TabId, TabsView,
};
use crate::text::decimal;
use crate::view::page_reached;
use vstd::prelude::*;

verus! {

/// A tab that is dropped on an edge of the only pane joins the tab shown there in a split, unless it
/// is that tab; a drop in the middle changes nothing.
pub proof fn a_drop_on_an_edge_makes_a_split(
    tabs: TabsView,
    tab: TabId,
    showing: TabId,
    placement: Option<SplitPlacement>,
)
    ensures
        ({
            let effect = dropped(
                tabs,
                TabDragSource::Tab(tab),
                DropTarget::OnlyPane { showing, placement },
            );
            let joins = placement is Some && tab != showing && tabs.registered(tab)
                && tabs.entries[entry_of(tabs.entries, showing)] is Single;
            &&& effect.changed == joins
            &&& joins ==> effect.tabs == tabs.create_split(tab, showing, placement->0)
            &&& joins ==> effect.moved.contains(tab) && effect.moved.contains(showing)
            &&& !joins ==> effect.tabs == tabs && effect.moved.len() == 0
        }),
{
    let effect = dropped(
        tabs,
        TabDragSource::Tab(tab),
        DropTarget::OnlyPane { showing, placement },
    );
    if effect.changed {
        let moved = effect.moved;
        if split_of(tabs, tab) is None {
            assert(moved[0] == tab && moved[1] == showing);
        } else {
            assert(moved[1] == tab && moved[2] == showing);
        }
    }
}

/// A tab that is dropped on a pane of a split takes the place of the tab that is shown there, unless
/// it is that tab.
pub proof fn a_drop_on_a_pane_takes_its_place(tabs: TabsView, tab: TabId, side: Option<SplitSide>)
    requires
        tabs.wf(),
        tabs.active is Some,
    ensures
        ({
            let effect = dropped(tabs, TabDragSource::Tab(tab), DropTarget::TwoPanes { side });
            let entry = tabs.entries[entry_of(tabs.entries, tabs.active->0)];
            let there = match side {
                Some(SplitSide::First) => entry->Split_0.first,
                _ => entry->Split_0.second,
            };
            let replaces = entry is Split && side is Some && there != tab && tabs.registered(tab);
            &&& effect.changed == replaces
            &&& replaces ==> effect.tabs == tabs.replace_split_member(
                entry->Split_0.id,
                side->0,
                tab,
            ) && effect.moved == seq![tab, there]
            &&& !replaces ==> effect.tabs == tabs && effect.moved.len() == 0
        }),
{
    let active = tabs.active->0;
    registered_is_shown(tabs, active);
    let e = entry_of(tabs.entries, active);
    let entry = tabs.entries[e];
    if entry is Split {
        let id = entry->Split_0.id;
        assert(tabs.entries[e].is_group(id));
        group_of_is(tabs.entries, id, e);
    }
    if tabs.registered(tab) {
        registered_is_shown(tabs, tab);
    } else if shown(tabs.entries, tab) {
        let i = entry_of(tabs.entries, tab);
        assert(tabs.entries[i].has(tab));
    }
}

/// A split that is dragged can only be moved within the tab bar.
pub proof fn dragged_splits_stay_on_the_bar(
    tabs: TabsView,
    id: SplitGroupId,
    insertion: usize,
    over_tab: Option<TabId>,
    over_group: Option<SplitGroupId>,
    showing: TabId,
    placement: Option<SplitPlacement>,
    side: Option<SplitSide>,
)
    ensures
        ({
            let effect = dropped(
                tabs,
                TabDragSource::Group(id),
                DropTarget::Bar { insertion, over_tab, over_group },
            );
            let moves = has_group(tabs.entries, id) && insertion <= tabs.entries.len();
            &&& effect.changed == moves
            &&& effect.moved.len() == 0
            &&& moves ==> effect.tabs == tabs.move_entry(
                group_of(tabs.entries, id),
                insertion as int,
            )
            &&& !moves ==> effect.tabs == tabs
        }),
        dropped(tabs, TabDragSource::Group(id), DropTarget::OnlyPane { showing, placement })
            == Rearrangement::nothing(tabs),
        dropped(tabs, TabDragSource::Group(id), DropTarget::TwoPanes { side })
            == Rearrangement::nothing(tabs),
{
}

/// A tab that stands alone moves to the gap it is dropped in.
pub proof fn a_single_tab_moves_to_the_gap(
    tabs: TabsView,
    tab: TabId,
    insertion: usize,
    over_tab: Option<TabId>,
    over_group: Option<SplitGroupId>,
)
    requires
        tabs.wf(),
        tabs.registered(tab),
        tabs.entries[entry_of(tabs.entries, tab)] is Single,
    ensures
        ({
            let effect = dropped(
                tabs,
                TabDragSource::Tab(tab),
                DropTarget::Bar { insertion, over_tab, over_group },
            );
            &&& effect.changed == (insertion <= tabs.entries.len())
            &&& effect.changed ==> effect.tabs == tabs.move_entry(
                entry_of(tabs.entries, tab),
                insertion as int,
            )
            &&& !effect.changed ==> effect.tabs == tabs
            &&& effect.moved.len() == 0
        }),
{
    registered_is_shown(tabs, tab);
}

/// A member of a split that is dropped on its partner changes sides with it; dropped elsewhere on its
/// own split it stays, and dropped anywhere else on the bar it leaves the split for the gap.
pub proof fn a_member_swaps_stays_or_leaves(
    tabs: TabsView,
    tab: TabId,
    insertion: usize,
    over_tab: Option<TabId>,
    over_group: Option<SplitGroupId>,
)
    requires
        tabs.wf(),
        tabs.registered(tab),
        tabs.entries[entry_of(tabs.entries, tab)] is Split,
    ensures
        ({
            let effect = dropped(
                tabs,
                TabDragSource::Tab(tab),
                DropTarget::Bar { insertion, over_tab, over_group },
            );
            let group = tabs.entries[entry_of(tabs.entries, tab)]->Split_0;
            let own = over_group == Some(group.id);
            let partner = over_tab is Some && over_tab->0 != tab && (over_tab->0 == group.first
                || over_tab->0 == group.second);
            &&& own && partner ==> effect.changed && effect.tabs == tabs.swap_split_members(
                group.id,
            ) && effect.moved == seq![group.first, group.second]
            &&& own && over_tab == Some(tab) ==> !effect.changed && effect.tabs == tabs
            &&& own && over_tab is None ==> !effect.changed && effect.tabs == tabs
            &&& !own && insertion <= tabs.entries.len() ==> effect.changed && effect.tabs
                == tabs.extract_split_member(tab, insertion as int) && effect.moved
                == seq![group.second]
            &&& !own && insertion > tabs.entries.len() ==> !effect.changed && effect.tabs == tabs
        }),
{
    registered_is_shown(tabs, tab);
    let e = entry_of(tabs.entries, tab);
    let group = tabs.entries[e]->Split_0;
    if over_tab is Some && (over_tab->0 == group.first || over_tab->0 == group.second) {
        assert(tabs.entries[e].has(over_tab->0));
        entry_of_is(tabs.entries, over_tab->0, e);
    }
}

/// The menu of a split turns it, exchanges its sides or dissolves it; a split that is gone changes
/// nothing.
pub proof fn the_menu_does_what_it_says(tabs: TabsView, id: SplitGroupId, direction: SplitDirection)
    ensures
        !has_group(tabs.entries, id) ==> !menu_chosen(tabs, SplitMenuAction::Swap(id)).changed
            && menu_chosen(tabs, SplitMenuAction::Swap(id)).tabs == tabs && !menu_chosen(
            tabs,
            SplitMenuAction::Unsplit(id),
        ).changed && menu_chosen(tabs, SplitMenuAction::Unsplit(id)).tabs == tabs && !menu_chosen(
            tabs,
            SplitMenuAction::SetDirection(id, direction),
        ).changed && menu_chosen(tabs, SplitMenuAction::SetDirection(id, direction)).tabs == tabs,
        has_group(tabs.entries, id) ==> ({
            let e = group_of(tabs.entries, id);
            let group = group_at(tabs.entries, e);
            let turned = menu_chosen(tabs, SplitMenuAction::SetDirection(id, direction));
            let swapped = menu_chosen(tabs, SplitMenuAction::Swap(id));
            let dissolved = menu_chosen(tabs, SplitMenuAction::Unsplit(id));
            &&& swapped.changed && swapped.tabs == tabs.swap_split_members(id) && swapped.moved
                == seq![group.first, group.second]
            &&& dissolved.changed && dissolved.tabs == tabs.unsplit(id) && dissolved.moved
                == seq![group.second]
            &&& turned.changed && turned.moved.len() == 0
            &&& turned.tabs.entries.len() == tabs.entries.len()
            &&& turned.tabs.entries[e] == TabEntry::Split(
                SplitGroup {
                    id: group.id,
                    first: group.first,
                    second: group.second,
                    direction,
                    ratio_bits: group.ratio_bits,
                    focused: group.focused,
                },
            )
            &&& forall|i: int|
                0 <= i < tabs.entries.len() && i != e ==> #[trigger] turned.tabs.entries[i]
                    == tabs.entries[i]
            &&& turned.tabs.active == tabs.active
        }),
{
}

/// The gap under the pointer stands behind every tab whose middle it has passed and in front of the
/// next one.
pub proof fn the_gap_stands_under_the_pointer(centers: Seq<u32>, pointer_x: u32, from: int)
    requires
        0 <= from <= centers.len(),
    ensures
        ({
            let gap = gap_from(centers, pointer_x, from);
            &&& from <= gap <= centers.len()
            &&& forall|i: int| from <= i < gap ==> !below(pointer_x, #[trigger] centers[i])
            &&& gap < centers.len() ==> below(pointer_x, centers[gap])
        }),
    decreases centers.len() - from,
{
    if from < centers.len() && !below(pointer_x, centers[from]) {
        the_gap_stands_under_the_pointer(centers, pointer_x, from + 1);
    }
}

/// A drop counts for the edge that is nearest among those within three tenths of the pane; of
/// equally near ones the left comes before the right, the right before the top, the top before the
/// bottom.
pub proof fn the_nearest_edge_counts(distances: EdgeDistances, edge: SplitPlacement)
    ensures
        distances.is_near(SplitPlacement::Left) == at_most(distances.left, 0x3E99_999A),
        distances.is_near(SplitPlacement::Right) == at_most(distances.right, 0x3E99_999A),
        distances.is_near(SplitPlacement::Top) == at_most(distances.top, 0x3E99_999A),
        distances.is_near(SplitPlacement::Bottom) == at_most(distances.bottom, 0x3E99_999A),
        distances.is_nearest(SplitPlacement::Left) && at_most(distances.right, 0x3E99_999A)
            ==> total_place(distances.left) <= total_place(distances.right),
        distances.is_nearest(SplitPlacement::Left) && at_most(distances.top, 0x3E99_999A)
            ==> total_place(distances.left) <= total_place(distances.top),
        distances.is_nearest(SplitPlacement::Right) && at_most(distances.left, 0x3E99_999A)
            ==> total_place(distances.right) < total_place(distances.left),
        distances.is_nearest(SplitPlacement::Right) && at_most(distances.top, 0x3E99_999A)
            ==> total_place(distances.right) <= total_place(distances.top),
        distances.is_nearest(SplitPlacement::Top) && at_most(distances.left, 0x3E99_999A)
            ==> total_place(distances.top) < total_place(distances.left),
        distances.is_nearest(SplitPlacement::Top) && at_most(distances.bottom, 0x3E99_999A)
            ==> total_place(distances.top) <= total_place(distances.bottom),
        distances.is_nearest(SplitPlacement::Bottom) && at_most(distances.top, 0x3E99_999A)
            ==> total_place(distances.bottom) < total_place(distances.top),
        distances.is_nearest(edge) ==> distances.is_near(edge),
{
    assert(distances.is_near(SplitPlacement::Left) == at_most(distances.left, 0x3E99_999A));
    assert(distances.is_near(SplitPlacement::Right) == at_most(distances.right, 0x3E99_999A));
    assert(distances.is_near(SplitPlacement::Top) == at_most(distances.top, 0x3E99_999A));
    assert(distances.is_near(SplitPlacement::Bottom) == at_most(distances.bottom, 0x3E99_999A));
}

/// While it is dragged a tab is named by its document, and a split by both of its documents, the
/// first one first.
pub proof fn dragged_tabs_are_named(
    tabs: TabsView,
    names: Seq<Seq<char>>,
    i: int,
    j: int,
    e: int,
    id: SplitGroupId,
)
    requires
        tabs.wf(),
        0 <= i < tabs.tabs.len(),
        0 <= j < tabs.tabs.len(),
    ensures
        preview_label(tabs, names, TabDragSource::Tab(tabs.tabs[i].id)) == Some(names[i]),
        0 <= e < tabs.entries.len() && tabs.entries[e].is_group(id) && group_at(
            tabs.entries,
            e,
        ).first == tabs.tabs[i].id && group_at(tabs.entries, e).second == tabs.tabs[j].id
            ==> preview_label(tabs, names, TabDragSource::Group(id)) == Some(
            names[i] + " ｜ "@ + names[j],
        ),
        !has_group(tabs.entries, id) ==> preview_label(tabs, names, TabDragSource::Group(id)) is None,
{
    crate::restore_laws::registry_of_is(tabs, i);
    crate::restore_laws::registry_of_is(tabs, j);
    if 0 <= e < tabs.entries.len() && tabs.entries[e].is_group(id) {
        group_of_is(tabs.entries, id, e);
    }
}

/// The entry that holds the active tab is brought into view where that was asked for: a single tab
/// where it is the one asked for, a split in any case.
pub proof fn the_active_entry_is_brought_into_view(
    tabs: TabsView,
    entry: TabEntry,
    asked: Option<usize>,
    i: int,
)
    requires
        tabs.wf(),
        0 <= i < tabs.tabs.len(),
        tabs.active == Some(tabs.tabs[i].id),
    ensures
        asked is None ==> !is_revealed(tabs, entry, asked),
        !entry.has(tabs.tabs[i].id) ==> !is_revealed(tabs, entry, asked),
        entry == TabEntry::Single(tabs.tabs[i].id) && asked is Some ==> is_revealed(
            tabs,
            entry,
            asked,
        ) == (asked->0 == i),
        entry is Split && entry.has(tabs.tabs[i].id) && asked is Some ==> is_revealed(
            tabs,
            entry,
            asked,
        ),
{
    crate::restore_laws::registry_of_is(tabs, i);
}

/// Alone, the active tab fills the only pane. In a split, the first member is in the first pane and
/// the second in the second, and the pane of the active tab has the focus.
pub proof fn panes_show_the_members_in_order(tabs: TabsView, i: int, j: int)
    requires
        tabs.wf(),
        tabs.active is Some,
        0 <= i < tabs.tabs.len(),
        0 <= j < tabs.tabs.len(),
    ensures
        ({
            let active = tabs.active->0;
            let entry = tabs.entries[entry_of(tabs.entries, active)];
            &&& entry is Single ==> tabs.visible() == seq![active] && !tabs.is_split()
                && tabs.focused_side() is First && tabs.side_of(i) == (if tabs.tabs[i].id == active {
                Some(SplitSide::First)
            } else {
                None
            })
            &&& entry is Split ==> tabs.visible() == seq![
                entry->Split_0.first,
                entry->Split_0.second,
            ] && tabs.is_split()
            &&& entry is Split && tabs.tabs[i].id == entry->Split_0.first ==> tabs.side_of(i)
                == Some(SplitSide::First)
            &&& entry is Split && tabs.tabs[j].id == entry->Split_0.second ==> tabs.side_of(j)
                == Some(SplitSide::Second)
            &&& entry is Split ==> (tabs.focused_side() is First) == (active
                == entry->Split_0.first)
            &&& tabs.tabs[i].id == active ==> tabs.active_index() == Some(i)
        }),
{
    let active = tabs.active->0;
    registered_is_shown(tabs, active);
    let e = entry_of(tabs.entries, active);
    let entry = tabs.entries[e];
    crate::restore_laws::registry_of_is(tabs, i);
    assert(crate::tabs::entry_ok(entry, tabs.next_split_group_id));
    if entry is Single {
        assert(tabs.visible() =~= seq![active]);
    }
}

/// The arrows are offered exactly where turning a page leads to another one, printing where it can
/// start, and a highlight where one would be sent.
pub proof fn the_toolbar_offers_what_works(document: DocumentView, closing: bool)
    requires
        document.view.current_page < document.page_count(),
    ensures
        ({
            let offer = toolbar_for(document, closing);
            let page = document.view.current_page as int;
            let count = document.page_count() as int;
            &&& offer.previous_page == (page_reached(page, count, -1) != page)
            &&& offer.next_page == (page_reached(page, count, 1) != page)
            &&& offer.print == (!closing && document.printable())
            &&& !closing ==> offer.highlight == (highlight_decision(document, false) is Send)
            &&& offer.sidebar == (document.info is Some)
            &&& offer.fits_width == (document.view.zoom_mode is FitWidth)
            &&& offer.fits_page == (document.view.zoom_mode is FitPage)
            &&& offer.continuous == (document.view.display_mode is Continuous)
        }),
{
}

/// The search field counts hits from one, and from zero only where none is selected; while the search
/// runs it also says how many pages are searched.
pub proof fn hits_are_counted_from_one(search: SearchView, page_count: usize, i: int)
    requires
        search.wf(),
    ensures
        ({
            let matches = all_matches(search.pages);
            &&& !search.in_progress && 0 <= i < matches.len() && search.selected == Some(matches[i])
                ==> search_progress(search, page_count) == decimal((i + 1) as nat) + " / "@
                + decimal(matches.len())
            &&& !search.in_progress && search.selected is None ==> search_progress(
                search,
                page_count,
            ) == decimal(0) + " / "@ + decimal(matches.len())
            &&& search.in_progress ==> search_progress(search, page_count) == search_progress(
                SearchView { in_progress: false, ..search },
                page_count,
            ) + " · "@ + decimal(search.completed_pages as nat) + "/"@ + decimal(page_count as nat)
        }),
{
    crate::search::matches_are_distinct(search.pages);
    let matches = all_matches(search.pages);
    if 0 <= i < matches.len() && search.selected == Some(matches[i]) {
        assert(matches.contains(matches[i]));
        let at = matches.index_of(matches[i]);
        assert(matches[at] == matches[i]);
    }
}

} // verus!

//! Which sessions are valid, which fault is reported, and what an older session becomes.
use crate::migration::{
    decoded, each_in_one_pane, flattened, index_error, is_selected, migrated_entries,
    migrated_layout, migrated_split, occurrences, pane_error, panes_error, parsed_error,
    schema1_error, schema2_error, schema2_layout_error, schema_of, selected_before, ParsedSession,
    SessionLayoutSchema2, SessionPaneSchema2, SessionSchema, SessionStateSchema1,
    SessionStateSchema2,
};
use crate::path::ComponentView;
use crate::restore_laws::{counted_is_shown, shown_twice_is_counted_twice};
use crate::session::{
    colors_error, each_shown_once, entries_error, entries_error_covers_each,
    entries_without_errors, entry_error, layout_error, membership, session_error, session_tabs,
    tab_error, tabs_error, tabs_error_covers_each, tabs_without_errors, LayoutModel, SessionEntry,
    SessionError, SessionModel, SessionState, SessionTabModel,
};
use crate::tabs::SplitDirection;
use vstd::prelude::*;

verus! {

/// Whether a saved tab can be opened again by itself: its path is absolute and in normal form, its
/// point lies on the page and its zoom is between a quarter and four.
pub open spec fn is_sound_tab(tab: SessionTabModel) -> bool {
    &&& tab.path.absolute
    &&& forall|k: int|
        0 <= k < tab.path.parts.len() ==> (#[trigger] tab.path.parts[k]) != ComponentView::CurDir
            && tab.path.parts[k] != ComponentView::ParentDir
    &&& tab.view.page_x_bits <= 0x3F80_0000 || tab.view.page_x_bits == 0x8000_0000
    &&& tab.view.page_y_bits <= 0x3F80_0000 || tab.view.page_y_bits == 0x8000_0000
    &&& 0x3E80_0000 <= tab.view.zoom_bits <= 0x4080_0000
}

/// A saved tab has no fault exactly if it is sound and no tab before it has its path.
pub proof fn faultless_tabs(tabs: Seq<SessionTabModel>, index: int)
    requires
        0 <= index < tabs.len() <= usize::MAX,
    ensures
        (tab_error(tabs, index) is None) == (is_sound_tab(tabs[index]) && forall|i: int|
            0 <= i < index ==> (#[trigger] tabs[i]).path.parts != tabs[index].path.parts),
{
}

/// The faults of a saved tab are looked for in a fixed order: its path, its point, its zoom, and
/// whether another tab has its path already. The first one is reported, with the tab it is in.
pub proof fn the_first_fault_of_a_tab_is_reported(tabs: Seq<SessionTabModel>, index: int)
    requires
        0 <= index < tabs.len() <= usize::MAX,
    ensures
        ({
            let tab = tabs[index];
            let dotted = exists|k: int|
                0 <= k < tab.path.parts.len() && ((#[trigger] tab.path.parts[k])
                    == ComponentView::CurDir || tab.path.parts[k] == ComponentView::ParentDir);
            let good_x = tab.view.page_x_bits <= 0x3F80_0000 || tab.view.page_x_bits
                == 0x8000_0000;
            let good_y = tab.view.page_y_bits <= 0x3F80_0000 || tab.view.page_y_bits
                == 0x8000_0000;
            let good_zoom = 0x3E80_0000 <= tab.view.zoom_bits <= 0x4080_0000;
            let found = tab_error(tabs, index);
            &&& !tab.path.absolute ==> found == Some(SessionError::PathNotAbsolute(index as usize))
            &&& tab.path.absolute && dotted ==> found == Some(
                SessionError::PathNotNormalized(index as usize),
            )
            &&& tab.path.absolute && !dotted && !good_x ==> found == Some(
                SessionError::PageXOutOfRange,
            )
            &&& tab.path.absolute && !dotted && good_x && !good_y ==> found == Some(
                SessionError::PageYOutOfRange,
            )
            &&& tab.path.absolute && !dotted && good_x && good_y && !good_zoom ==> found == Some(
                SessionError::ZoomOutOfRange,
            )
            &&& is_sound_tab(tab) && found is Some ==> found == Some(
                SessionError::DuplicateTabPath(index as usize),
            )
        }),
{
}

/// Of several tabs with faults, the fault of the first one is reported.
pub proof fn the_first_bad_tab_is_reported(tabs: Seq<SessionTabModel>, index: int, count: int)
    requires
        0 <= index < count <= tabs.len(),
        tab_error(tabs, index) is Some,
        forall|i: int| 0 <= i < index ==> (#[trigger] tab_error(tabs, i)) is None,
    ensures
        tabs_error(tabs, count) == tab_error(tabs, index),
    decreases count,
{
    if index < count - 1 {
        the_first_bad_tab_is_reported(tabs, index, count - 1);
    } else {
        tabs_without_errors(tabs, count - 1);
    }
}

/// Whether an entry of a saved layout is sound: its tabs exist, a split shows two different ones
/// with a divider between a tenth and nine tenths, and focuses one of them, the active one if it
/// shows it.
pub open spec fn is_sound_entry(entry: SessionEntry, active: usize, tab_count: int) -> bool {
    match entry {
        SessionEntry::Single { tab_index } => tab_index < tab_count,
        SessionEntry::Split { first_tab, second_tab, direction: _, ratio_bits, focused_tab } => {
            &&& first_tab < tab_count
            &&& second_tab < tab_count
            &&& first_tab != second_tab
            &&& focused_tab == first_tab || focused_tab == second_tab
            &&& active == first_tab ==> focused_tab == first_tab
            &&& active == second_tab ==> focused_tab == second_tab
            &&& 0x3DCC_CCCD <= ratio_bits <= 0x3F66_6666
        },
    }
}

/// An entry has no fault exactly if it is sound; the fault that is reported is one it has.
pub proof fn faultless_entries(entry: SessionEntry, active: usize, tab_count: int)
    ensures
        (entry_error(entry, active, tab_count) is None) == is_sound_entry(
            entry,
            active,
            tab_count,
        ),
        match entry {
            SessionEntry::Single { tab_index } => entry_error(entry, active, tab_count) is Some
                ==> entry_error(entry, active, tab_count) == Some(
                SessionError::TabIndexOutOfRange(tab_index),
            ),
            SessionEntry::Split { first_tab, second_tab, direction: _, ratio_bits, focused_tab } => {
                let found = entry_error(entry, active, tab_count);
                let member = focused_tab == first_tab || focused_tab == second_tab;
                let stale = (active == first_tab || active == second_tab) && focused_tab != active;
                let good_ratio = 0x3DCC_CCCD <= ratio_bits <= 0x3F66_6666;
                &&& first_tab == second_tab ==> found == Some(SessionError::SplitRepeatsTab)
                &&& first_tab != second_tab && !member ==> found == Some(
                    SessionError::SplitFocusesNoMember,
                )
                &&& first_tab != second_tab && member && stale ==> found == Some(
                    SessionError::ActiveSplitTabNotFocused,
                )
                &&& first_tab != second_tab && member && !stale && !good_ratio ==> found == Some(
                    SessionError::SplitRatioOutOfRange,
                )
                &&& first_tab != second_tab && member && !stale && good_ratio && first_tab
                    >= tab_count ==> found == Some(SessionError::TabIndexOutOfRange(first_tab))
                &&& first_tab != second_tab && member && !stale && good_ratio && first_tab
                    < tab_count && second_tab >= tab_count ==> found == Some(
                    SessionError::TabIndexOutOfRange(second_tab),
                )
            },
        },
{
}

/// Of several entries with faults, the fault of the first one is reported.
pub proof fn the_first_bad_entry_is_reported(
    entries: Seq<SessionEntry>,
    active: usize,
    tab_count: int,
    index: int,
    count: int,
)
    requires
        0 <= index < count <= entries.len(),
        entry_error(entries[index], active, tab_count) is Some,
        forall|i: int|
            0 <= i < index ==> entry_error(#[trigger] entries[i], active, tab_count) is None,
    ensures
        entries_error(entries, active, tab_count, count) == entry_error(
            entries[index],
            active,
            tab_count,
        ),
    decreases count,
{
    if index < count - 1 {
        the_first_bad_entry_is_reported(entries, active, tab_count, index, count - 1);
    } else {
        entries_without_errors(entries, active, tab_count, count - 1);
    }
}

/// Whether some entry shows the tab.
pub open spec fn is_placed(entries: Seq<SessionEntry>, tab: int) -> bool {
    exists|i: int| 0 <= i < entries.len() && (#[trigger] entries[i]).has(tab)
}

/// Whether every tab is shown, and none by two entries.
pub open spec fn places_each_tab_once(entries: Seq<SessionEntry>, tab_count: int) -> bool {
    &&& forall|tab: int| 0 <= tab < tab_count ==> #[trigger] is_placed(entries, tab)
    &&& forall|i: int, j: int, tab: int|
        #![trigger entries[i].has(tab), entries[j].has(tab)]
        0 <= tab < tab_count && 0 <= i < j < entries.len() ==> !(entries[i].has(tab)
            && entries[j].has(tab))
}

proof fn shown_by_none_counts_nothing(entries: Seq<SessionEntry>, count: int, tab: int)
    requires
        0 <= count <= entries.len(),
        forall|i: int| 0 <= i < count ==> !(#[trigger] entries[i]).has(tab),
    ensures
        membership(entries, count, tab) == 0,
    decreases count,
{
    if count > 0 {
        shown_by_none_counts_nothing(entries, count - 1, tab);
        assert(!entries[count - 1].has(tab));
    }
}

proof fn shown_by_one_counts_once(entries: Seq<SessionEntry>, count: int, at: int, tab: int)
    requires
        0 <= at < count <= entries.len(),
        entries[at].has(tab),
        entries[at] matches SessionEntry::Split { first_tab, second_tab, .. } ==> first_tab
            != second_tab,
        forall|i: int| 0 <= i < count && i != at ==> !(#[trigger] entries[i]).has(tab),
    ensures
        membership(entries, count, tab) == 1,
    decreases count,
{
    if at < count - 1 {
        shown_by_one_counts_once(entries, count - 1, at, tab);
        assert(!entries[count - 1].has(tab));
    } else {
        shown_by_none_counts_nothing(entries, count - 1, tab);
    }
}

/// With sound entries, every tab is counted once exactly if each is shown by one entry.
proof fn counted_once_is_placed_once(entries: Seq<SessionEntry>, active: usize, tab_count: int)
    requires
        forall|i: int|
            0 <= i < entries.len() ==> is_sound_entry(#[trigger] entries[i], active, tab_count),
    ensures
        each_shown_once(entries, tab_count) == places_each_tab_once(entries, tab_count),
{
    let count = entries.len() as int;
    if each_shown_once(entries, tab_count) {
        assert forall|tab: int| 0 <= tab < tab_count implies #[trigger] is_placed(entries, tab) by {
            assert(membership(entries, count, tab) == 1);
            let at = counted_is_shown(entries, count, tab);
            assert(entries[at].has(tab));
        }
        assert forall|i: int, j: int, tab: int|
            #![trigger entries[i].has(tab), entries[j].has(tab)]
            0 <= tab < tab_count && 0 <= i < j < entries.len() implies !(entries[i].has(tab)
            && entries[j].has(tab)) by {
            assert(membership(entries, count, tab) == 1);
            if entries[i].has(tab) && entries[j].has(tab) {
                shown_twice_is_counted_twice(entries, count, i, j, tab);
            }
        }
    }
    if places_each_tab_once(entries, tab_count) {
        assert forall|tab: int| 0 <= tab < tab_count implies #[trigger] membership(
            entries,
            count,
            tab,
        ) == 1 by {
            assert(is_placed(entries, tab));
            let at = choose|at: int| 0 <= at < entries.len() && (#[trigger] entries[at]).has(tab);
            assert(is_sound_entry(entries[at], active, tab_count));
            assert forall|i: int| 0 <= i < count && i != at implies !(#[trigger] entries[i]).has(
                tab,
            ) by {
                if entries[i].has(tab) {
                    assert(entries[at].has(tab));
                }
            }
            shown_by_one_counts_once(entries, count, at, tab);
        }
    }
}

/// A layout is valid exactly if it is empty for no tabs, and else names an active tab that exists,
/// has only sound entries, and shows every tab in exactly one of them.
pub proof fn valid_layouts(layout: LayoutModel, tab_count: int)
    ensures
        (layout_error(layout, tab_count) is None) == (if tab_count == 0 {
            layout.entries.len() == 0 && layout.active_tab is None
        } else {
            &&& layout.active_tab is Some
            &&& layout.active_tab->0 < tab_count
            &&& forall|i: int|
                0 <= i < layout.entries.len() ==> is_sound_entry(
                    #[trigger] layout.entries[i],
                    layout.active_tab->0,
                    tab_count,
                )
            &&& places_each_tab_once(layout.entries, tab_count)
        }),
{
    if tab_count != 0 && layout.active_tab is Some {
        let active = layout.active_tab->0;
        let entries = layout.entries;
        let count = entries.len() as int;
        if forall|i: int|
            0 <= i < count ==> is_sound_entry(#[trigger] entries[i], active, tab_count) {
            assert forall|i: int| 0 <= i < count implies entry_error(
                #[trigger] entries[i],
                active,
                tab_count,
            ) is None by {
                assert(is_sound_entry(entries[i], active, tab_count));
                faultless_entries(entries[i], active, tab_count);
            }
            entries_without_errors(entries, active, tab_count, count);
            counted_once_is_placed_once(entries, active, tab_count);
        } else if entries_error(entries, active, tab_count, count) is None {
            assert forall|i: int| 0 <= i < count implies is_sound_entry(
                #[trigger] entries[i],
                active,
                tab_count,
            ) by {
                entries_error_covers_each(entries, active, tab_count, count, i);
                faultless_entries(entries[i], active, tab_count);
            }
        }
    }
}

/// A session is valid exactly if it is of the current version, its tabs are sound and all
/// different, its layout is valid, and its colors are at most five and all different.
pub proof fn valid_sessions(session: SessionModel)
    requires
        session.tabs.len() <= usize::MAX,
    ensures
        (session_error(session) is None) == ({
            &&& session.schema_version == 3
            &&& forall|i: int| 0 <= i < session.tabs.len() ==> is_sound_tab(#[trigger] session.tabs[i])
            &&& forall|i: int, j: int|
                #![trigger session.tabs[i], session.tabs[j]]
                0 <= i < j < session.tabs.len() ==> session.tabs[i].path.parts
                    != session.tabs[j].path.parts
            &&& layout_error(session.layout, session.tabs.len() as int) is None
            &&& session.recent_annotation_colors.len() <= 5
            &&& forall|i: int, j: int|
                #![trigger session.recent_annotation_colors[i], session.recent_annotation_colors[j]]
                0 <= i < j < session.recent_annotation_colors.len()
                    ==> session.recent_annotation_colors[i]@
                    != session.recent_annotation_colors[j]@
        }),
{
    let tabs = session.tabs;
    let count = tabs.len() as int;
    if tabs_error(tabs, count) is None {
        assert forall|i: int| 0 <= i < count implies is_sound_tab(#[trigger] tabs[i]) by {
            tabs_error_covers_each(tabs, count, i);
            faultless_tabs(tabs, i);
        }
        assert forall|i: int, j: int|
            #![trigger tabs[i], tabs[j]]
            0 <= i < j < count implies tabs[i].path.parts != tabs[j].path.parts by {
            tabs_error_covers_each(tabs, count, j);
            faultless_tabs(tabs, j);
        }
    }
    if (forall|i: int| 0 <= i < count ==> is_sound_tab(#[trigger] tabs[i])) && (forall|i: int, j: int|
        #![trigger tabs[i], tabs[j]]
        0 <= i < j < count ==> tabs[i].path.parts != tabs[j].path.parts) {
        assert forall|i: int| 0 <= i < count implies (#[trigger] tab_error(tabs, i)) is None by {
            assert(is_sound_tab(tabs[i]));
            faultless_tabs(tabs, i);
        }
        tabs_without_errors(tabs, count);
    }
}

/// What is wrong with a session is looked for in a fixed order: version, tabs, layout, colors.
pub proof fn faults_are_looked_for_in_order(session: SessionModel)
    ensures
        session.schema_version != 3 ==> session_error(session) == Some(
            SessionError::UnexpectedSchemaVersion(session.schema_version),
        ),
        session.schema_version == 3 && tabs_error(session.tabs, session.tabs.len() as int) is Some
            ==> session_error(session) == tabs_error(session.tabs, session.tabs.len() as int),
        session.schema_version == 3 && tabs_error(session.tabs, session.tabs.len() as int) is None
            && layout_error(session.layout, session.tabs.len() as int) is Some ==> session_error(
            session,
        ) == layout_error(session.layout, session.tabs.len() as int),
        session.recent_annotation_colors.len() > 5 ==> colors_error(
            session.recent_annotation_colors,
        ) == Some(SessionError::TooManyRecentColors),
        session.recent_annotation_colors.len() <= 5 && colors_error(
            session.recent_annotation_colors,
        ) is Some ==> colors_error(session.recent_annotation_colors) == Some(
            SessionError::DuplicateRecentColors,
        ),
{
}

/// Only the three versions that were ever written are read, each as what it is.
pub proof fn three_versions_are_read(version: Option<u64>)
    ensures
        (schema_of(version) is Ok) == (version == Some(1u64) || version == Some(2u64) || version
            == Some(3u64)),
        version == Some(1u64) ==> schema_of(version)->Ok_0 is Schema1,
        version == Some(2u64) ==> schema_of(version)->Ok_0 is Schema2,
        version == Some(3u64) ==> schema_of(version)->Ok_0 is Schema3,
        version is None ==> schema_of(version) == Err::<SessionSchema, SessionError>(
            SessionError::MissingSchemaVersion,
        ),
        version is Some && schema_of(version) is Err ==> schema_of(version) == Err::<
            SessionSchema,
            SessionError,
        >(SessionError::UnsupportedSchemaVersion(version->0)),
{
}

/// A session of the first version keeps its tabs in their order, each alone, with the selected one
/// active; everything else is carried over, and the version is the current one.
pub proof fn first_version_tabs_stand_in_a_row(state: SessionStateSchema1, i: int)
    requires
        0 <= i < state.tabs@.len() <= usize::MAX,
    ensures
        ({
            let session = decoded(ParsedSession::Schema1(state));
            &&& session.schema_version == 3
            &&& session.tabs.len() == state.tabs@.len()
            &&& session.tabs[i].path == state.tabs@[i].path@
            &&& session.tabs[i].view == state.tabs@[i].view
            &&& session.layout.entries.len() == state.tabs@.len()
            &&& session.layout.entries[i] == (SessionEntry::Single { tab_index: i as usize })
            &&& session.layout.active_tab == state.selected_tab
            &&& session.restore_enabled == state.restore_enabled
            &&& session.sidebar_open == state.sidebar_open
            &&& session.sidebar_tab == state.sidebar_tab
            &&& session.recent_annotation_colors == state.recent_annotation_colors@
        }),
{
}

/// A session of the second version keeps its tabs and its settings; only its layout is made anew.
pub proof fn second_version_tabs_stay(state: SessionStateSchema2, i: int)
    requires
        0 <= i < state.tabs@.len() <= usize::MAX,
    ensures
        ({
            let session = decoded(ParsedSession::Schema2(state));
            &&& session.schema_version == 3
            &&& session.tabs.len() == state.tabs@.len()
            &&& session.tabs[i].path == state.tabs@[i].path@
            &&& session.tabs[i].view == state.tabs@[i].view
            &&& session.layout == migrated_layout(state.layout, state.tabs@.len() as int)
            &&& session.restore_enabled == state.restore_enabled
            &&& session.sidebar_open == state.sidebar_open
            &&& session.sidebar_tab == state.sidebar_tab
            &&& session.recent_annotation_colors == state.recent_annotation_colors@
        }),
{
}

/// A current session is read as it is.
pub proof fn current_sessions_are_read_as_they_are(state: SessionState)
    ensures
        decoded(ParsedSession::Schema3(state)) == state@,
        parsed_error(ParsedSession::Schema3(state)) == session_error(state@),
{
}

/// One pane of a second-version session becomes a row of single entries in the order of the pane,
/// with its selected tab active.
pub proof fn one_pane_becomes_a_row(layout: SessionLayoutSchema2, tab_count: int, i: int)
    requires
        tab_count > 0,
        layout.panes@.len() == 1,
        0 <= i < layout.panes@[0].tab_indices@.len(),
    ensures
        migrated_layout(layout, tab_count).entries.len() == layout.panes@[0].tab_indices@.len(),
        migrated_layout(layout, tab_count).entries[i] == (SessionEntry::Single {
            tab_index: layout.panes@[0].tab_indices@[i],
        }),
        migrated_layout(layout, tab_count).active_tab == Some(layout.panes@[0].selected_tab),
{
}

/// Where the entries of two panes stand, when both selected tabs are listed once.
proof fn migrated_entries_stand(
    indices: Seq<usize>,
    count: int,
    first: usize,
    second: usize,
    split: SessionEntry,
    early: int,
    late: int,
)
    requires
        0 <= early < late < indices.len(),
        0 <= count <= indices.len(),
        is_selected(indices[early], first, second),
        is_selected(indices[late], first, second),
        forall|k: int|
            0 <= k < indices.len() && k != early && k != late ==> !is_selected(
                #[trigger] indices[k],
                first,
                second,
            ),
    ensures
        ({
            let entries = migrated_entries(indices, count, first, second, split);
            &&& entries.len() == (if count <= late {
                count
            } else {
                count - 1
            })
            &&& forall|k: int|
                0 <= k < count && k < late && k != early ==> (#[trigger] entries[k]) == (
                SessionEntry::Single { tab_index: indices[k] })
            &&& early < count ==> entries[early] == split
            &&& forall|k: int|
                late < k < count ==> entries[k - 1] == (SessionEntry::Single {
                    tab_index: #[trigger] indices[k],
                })
        }),
    decreases count,
{
    if count > 0 {
        migrated_entries_stand(indices, count - 1, first, second, split, early, late);
        let before = migrated_entries(indices, count - 1, first, second, split);
        let entries = migrated_entries(indices, count, first, second, split);
        let at = count - 1;
        if at == early {
            assert(!selected_before(indices, at, first, second)) by {
                if selected_before(indices, at, first, second) {
                    let k = choose|k: int|
                        0 <= k < at && is_selected(#[trigger] indices[k], first, second);
                    assert(k != early && k != late);
                }
            }
        } else if at == late {
            assert(is_selected(indices[early], first, second));
            assert(selected_before(indices, at, first, second));
        } else {
            assert(!is_selected(indices[at], first, second));
        }
        assert forall|k: int| 0 <= k < before.len() implies #[trigger] entries[k] == before[k] by {}
        assert forall|k: int| late < k < count implies entries[k - 1] == (SessionEntry::Single {
            tab_index: #[trigger] indices[k],
        }) by {
            if k < at {
                assert(entries[k - 1] == before[k - 1]);
            }
        }
    }
}

/// Two panes of a second-version session become one row: the tabs of the first pane, then those of
/// the second. The two selected tabs form a split, side by side with the divider where it was, in
/// the place of the one that comes first, the first pane's on the first side; it focuses the
/// selected tab of the focused pane, which is active. All other tabs stand alone, in their order.
pub proof fn two_panes_become_a_split(
    layout: SessionLayoutSchema2,
    tab_count: int,
    early: int,
    late: int,
    k: int,
)
    requires
        tab_count > 0,
        layout.panes@.len() == 2,
        0 <= early < layout.panes@[0].tab_indices@.len() <= late,
        late < layout.panes@[0].tab_indices@.len() + layout.panes@[1].tab_indices@.len(),
        layout.panes@[0].tab_indices@[early] == layout.panes@[0].selected_tab,
        layout.panes@[1].tab_indices@[late - layout.panes@[0].tab_indices@.len()]
            == layout.panes@[1].selected_tab,
        forall|i: int|
            0 <= i < layout.panes@[0].tab_indices@.len() && i != early ==> (
            #[trigger] layout.panes@[0].tab_indices@[i]) != layout.panes@[0].selected_tab
                && layout.panes@[0].tab_indices@[i] != layout.panes@[1].selected_tab,
        forall|i: int|
            0 <= i < layout.panes@[1].tab_indices@.len() && i != late
                - layout.panes@[0].tab_indices@.len() ==> (
            #[trigger] layout.panes@[1].tab_indices@[i]) != layout.panes@[0].selected_tab
                && layout.panes@[1].tab_indices@[i] != layout.panes@[1].selected_tab,
    ensures
        ({
            let row = layout.panes@[0].tab_indices@ + layout.panes@[1].tab_indices@;
            let after = migrated_layout(layout, tab_count);
            &&& after.entries.len() == row.len() - 1
            &&& after.entries[early] == (SessionEntry::Split {
                first_tab: layout.panes@[0].selected_tab,
                second_tab: layout.panes@[1].selected_tab,
                direction: SplitDirection::Horizontal,
                ratio_bits: layout.split->0.ratio_bits,
                focused_tab: layout.panes@[layout.focused_pane->0 as int].selected_tab,
            })
            &&& 0 <= k < late && k != early ==> after.entries[k] == (SessionEntry::Single {
                tab_index: row[k],
            })
            &&& late < k < row.len() ==> after.entries[k - 1] == (SessionEntry::Single {
                tab_index: row[k],
            })
            &&& after.active_tab == Some(
                layout.panes@[layout.focused_pane->0 as int].selected_tab,
            )
        }),
{
    let panes = layout.panes@;
    let front = panes[0].tab_indices@;
    let back = panes[1].tab_indices@;
    let row = front + back;
    reveal_with_fuel(flattened, 3);
    assert(flattened(panes, 2) =~= row);
    let first = panes[0].selected_tab;
    let second = panes[1].selected_tab;
    assert forall|i: int| 0 <= i < row.len() && i != early && i != late implies !is_selected(
        #[trigger] row[i],
        first,
        second,
    ) by {
        if i < front.len() {
            assert(row[i] == front[i]);
        } else {
            assert(row[i] == back[i - front.len()]);
        }
    }
    migrated_entries_stand(
        row,
        row.len() as int,
        first,
        second,
        migrated_split(layout),
        early,
        late,
    );
}

/// A session of the first version is valid exactly if it is of that version, selects a tab that
/// exists where it has any and none where it has none, and its tabs and colors are valid.
pub proof fn valid_first_version_sessions(state: SessionStateSchema1)
    ensures
        (schema1_error(state) is None) == ({
            &&& state.schema_version == 1
            &&& state.tabs@.len() == 0 ==> state.selected_tab is None
            &&& state.tabs@.len() > 0 ==> state.selected_tab is Some && state.selected_tab->0
                < state.tabs@.len()
            &&& tabs_error(session_tabs(state.tabs@), state.tabs@.len() as int) is None
            &&& colors_error(state.recent_annotation_colors@) is None
        }),
        state.schema_version != 1 ==> schema1_error(state) == Some(
            SessionError::WrongSchema1Version(state.schema_version),
        ),
        state.schema_version == 1 && state.tabs@.len() == 0 && state.selected_tab is Some
            ==> schema1_error(state) == Some(SessionError::EmptySessionSelectsTab),
        state.schema_version == 1 && state.tabs@.len() > 0 && state.selected_tab is None
            ==> schema1_error(state) == Some(SessionError::NonemptySessionSelectsNoTab),
        state.schema_version == 1 && state.tabs@.len() > 0 && state.selected_tab is Some
            && state.selected_tab->0 >= state.tabs@.len() ==> schema1_error(state) == Some(
            SessionError::SelectedTabOutOfRange(state.selected_tab->0),
        ),
{
}

/// How often a tab is listed among the first `count`, where it is not listed at all.
proof fn unlisted_occurs_never(indices: Seq<usize>, count: int, tab: int)
    requires
        0 <= count <= indices.len(),
        forall|i: int| 0 <= i < count ==> (#[trigger] indices[i]) != tab,
    ensures
        occurrences(indices, count, tab) == 0,
    decreases count,
{
    if count > 0 {
        unlisted_occurs_never(indices, count - 1, tab);
    }
}

proof fn occurrences_are_counted(indices: Seq<usize>, count: int, tab: int, a: int, b: int)
    requires
        0 <= count <= indices.len(),
    ensures
        occurrences(indices, count, tab) >= 0,
        0 <= a < count && indices[a] == tab ==> occurrences(indices, count, tab) >= 1,
        0 <= a < b < count && indices[a] == tab && indices[b] == tab ==> occurrences(
            indices,
            count,
            tab,
        ) >= 2,
    decreases count,
{
    if count > 0 {
        occurrences_are_counted(indices, count - 1, tab, a, b);
    }
}

proof fn listed_once_occurs_once(indices: Seq<usize>, count: int, tab: int, at: int)
    requires
        0 <= at < count <= indices.len(),
        indices[at] == tab,
        forall|i: int| 0 <= i < count && i != at ==> (#[trigger] indices[i]) != tab,
    ensures
        occurrences(indices, count, tab) == 1,
    decreases count,
{
    if at < count - 1 {
        listed_once_occurs_once(indices, count - 1, tab, at);
        assert(indices[count - 1] != tab);
    } else {
        unlisted_occurs_never(indices, count - 1, tab);
    }
}

/// A tab occurs once exactly if it is listed in one place and in no other.
pub proof fn occurring_once_is_standing_in_one_place(indices: Seq<usize>, tab: int)
    ensures
        (occurrences(indices, indices.len() as int, tab) == 1) == (exists|i: int|
            0 <= i < indices.len() && (#[trigger] indices[i]) == tab && forall|j: int|
                0 <= j < indices.len() && j != i ==> (#[trigger] indices[j]) != tab),
{
    let count = indices.len() as int;
    if occurrences(indices, count, tab) == 1 {
        if forall|i: int| 0 <= i < count ==> (#[trigger] indices[i]) != tab {
            unlisted_occurs_never(indices, count, tab);
        }
        let at = choose|at: int| 0 <= at < count && (#[trigger] indices[at]) == tab;
        assert forall|j: int| 0 <= j < count && j != at implies (#[trigger] indices[j]) != tab by {
            if indices[j] == tab {
                if j < at {
                    occurrences_are_counted(indices, count, tab, j, at);
                } else {
                    occurrences_are_counted(indices, count, tab, at, j);
                }
            }
        }
    } else if exists|i: int|
        0 <= i < count && (#[trigger] indices[i]) == tab && forall|j: int|
            0 <= j < count && j != i ==> (#[trigger] indices[j]) != tab {
        let at = choose|i: int|
            0 <= i < count && (#[trigger] indices[i]) == tab && forall|j: int|
                0 <= j < count && j != i ==> (#[trigger] indices[j]) != tab;
        listed_once_occurs_once(indices, count, tab, at);
    }
}

proof fn index_error_none_is(indices: Seq<usize>, tab_count: int, count: int)
    requires
        0 <= count <= indices.len(),
    ensures
        (index_error(indices, tab_count, count) is None) == forall|i: int|
            0 <= i < count ==> (#[trigger] indices[i]) < tab_count,
    decreases count,
{
    if count > 0 {
        index_error_none_is(indices, tab_count, count - 1);
        if indices[count - 1] < tab_count && forall|i: int|
            0 <= i < count - 1 ==> (#[trigger] indices[i]) < tab_count {
            assert(forall|i: int| 0 <= i < count ==> (#[trigger] indices[i]) < tab_count);
        }
    }
}

/// A pane is valid exactly if it lists its selected tab and only tabs that exist.
pub proof fn valid_panes(pane: SessionPaneSchema2, tab_count: int)
    ensures
        (pane_error(pane, tab_count) is None) == (pane.tab_indices@.contains(pane.selected_tab)
            && forall|i: int|
            0 <= i < pane.tab_indices@.len() ==> (#[trigger] pane.tab_indices@[i]) < tab_count),
        !pane.tab_indices@.contains(pane.selected_tab) ==> pane_error(pane, tab_count) == Some(
            SessionError::Schema2PaneSelection,
        ),
{
    index_error_none_is(pane.tab_indices@, tab_count, pane.tab_indices@.len() as int);
}

/// A layout of the second version is valid exactly if it is empty for no tabs, and else has one or
/// two valid panes, a divider in range exactly between two, a focused pane that exists, and every
/// tab in exactly one place.
pub proof fn valid_second_version_layouts(layout: SessionLayoutSchema2, tab_count: int)
    ensures
        (schema2_layout_error(layout, tab_count) is None) == (if tab_count == 0 {
            layout.panes@.len() == 0 && layout.focused_pane is None && layout.split is None
        } else {
            &&& layout.panes@.len() == 1 || layout.panes@.len() == 2
            &&& layout.focused_pane is Some
            &&& layout.focused_pane->0 < layout.panes@.len()
            &&& (layout.split is Some) == (layout.panes@.len() == 2)
            &&& layout.split is Some ==> 0x3DCC_CCCD <= layout.split->0.ratio_bits <= 0x3F66_6666
            &&& pane_error(layout.panes@[0], tab_count) is None
            &&& layout.panes@.len() == 2 ==> pane_error(layout.panes@[1], tab_count) is None
            &&& each_in_one_pane(layout.panes@, tab_count)
        }),
{
    reveal_with_fuel(panes_error, 3);
}

/// What is wrong with a second-version layout is looked for in a fixed order.
pub proof fn layout_faults_are_looked_for_in_order(layout: SessionLayoutSchema2, tab_count: int)
    ensures
        ({
            let panes = layout.panes@.len();
            let found = schema2_layout_error(layout, tab_count);
            &&& tab_count == 0 && found is Some ==> found == Some(
                SessionError::Schema2EmptySessionHasLayout,
            )
            &&& tab_count != 0 && panes != 1 && panes != 2 ==> found == Some(
                SessionError::Schema2PaneCount,
            )
            &&& tab_count != 0 && 1 <= panes <= 2 && layout.focused_pane is None ==> found == Some(
                SessionError::Schema2NoFocusedPane,
            )
            &&& tab_count != 0 && 1 <= panes <= 2 && layout.focused_pane is Some
                && layout.focused_pane->0 >= panes ==> found == Some(
                SessionError::Schema2FocusedPaneOutOfRange,
            )
            &&& tab_count != 0 && 1 <= panes <= 2 && layout.focused_pane is Some
                && layout.focused_pane->0 < panes ==> {
                &&& panes == 1 && layout.split is Some ==> found == Some(
                    SessionError::Schema2SinglePaneSplit,
                )
                &&& panes == 2 && layout.split is None ==> found == Some(
                    SessionError::Schema2TwoPanesWithoutSplit,
                )
                &&& panes == 2 && layout.split is Some && !(0x3DCC_CCCD
                    <= layout.split->0.ratio_bits <= 0x3F66_6666) ==> found == Some(
                    SessionError::Schema2RatioOutOfRange,
                )
            }
        }),
{
}

/// A session of the second version is valid exactly if it is of that version and its tabs, its
/// layout and its colors are valid.
pub proof fn valid_second_version_sessions(state: SessionStateSchema2)
    ensures
        (schema2_error(state) is None) == ({
            &&& state.schema_version == 2
            &&& tabs_error(session_tabs(state.tabs@), state.tabs@.len() as int) is None
            &&& schema2_layout_error(state.layout, state.tabs@.len() as int) is None
            &&& colors_error(state.recent_annotation_colors@) is None
        }),
        state.schema_version != 2 ==> schema2_error(state) == Some(
            SessionError::WrongSchema2Version(state.schema_version),
        ),
{
}

} // verus!

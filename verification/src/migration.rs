//! Sessions of older schemas, and how they become current ones.
use crate::controls::contains_index;
use crate::session::{
    LayoutModel, SCHEMA_VERSION, SessionEntry, SessionError, SessionLayout, SessionModel,
    SessionState, SessionTab, SidebarTab, colors_error, increment_membership, layout_error,
    membership, session_error, session_tabs, tabs_error, validate_recent_colors, validate_tabs,
    verdict,
};
use crate::tabs::{SplitDirection, ratio_in_range, valid_ratio};
use vstd::prelude::*;

verus! {

/// A session in the first schema: tabs in order, and the selected one.
#[derive(Debug, PartialEq, Eq)]
pub struct SessionStateSchema1 {
    pub schema_version: u32,
    pub restore_enabled: bool,
    pub selected_tab: Option<usize>,
    pub sidebar_open: bool,
    pub sidebar_tab: SidebarTab,
    pub tabs: Vec<SessionTab>,
    pub recent_annotation_colors: Vec<[u8; 3]>,
}

/// A session in the second schema: one or two panes, each with its own tabs.
#[derive(Debug, PartialEq, Eq)]
pub struct SessionStateSchema2 {
    pub schema_version: u32,
    pub restore_enabled: bool,
    pub sidebar_open: bool,
    pub sidebar_tab: SidebarTab,
    pub tabs: Vec<SessionTab>,
    pub layout: SessionLayoutSchema2,
    pub recent_annotation_colors: Vec<[u8; 3]>,
}

#[derive(Debug, PartialEq, Eq)]
pub struct SessionLayoutSchema2 {
    pub panes: Vec<SessionPaneSchema2>,
    pub focused_pane: Option<usize>,
    pub split: Option<SessionSplitSchema2>,
}

#[derive(Debug, PartialEq, Eq)]
pub struct SessionPaneSchema2 {
    pub tab_indices: Vec<usize>,
    pub selected_tab: usize,
}

/// The split between two panes, which the second schema knew as horizontal only.
#[derive(Clone, Copy, Debug, PartialEq, Eq, Structural)]
pub struct SessionSplitSchema2 {
    pub ratio_bits: u32,
}

/// What the selection of a first-schema session may be.
pub open spec fn selection_error(selected: Option<usize>, tab_count: int) -> Option<SessionError> {
    if tab_count == 0 {
        if selected is Some {
            Some(SessionError::EmptySessionSelectsTab)
        } else {
            None
        }
    } else if selected is None {
        Some(SessionError::NonemptySessionSelectsNoTab)
    } else if selected->0 >= tab_count {
        Some(SessionError::SelectedTabOutOfRange(selected->0))
    } else {
        None
    }
}

/// What is wrong with a first-schema session.
pub open spec fn schema1_error(old_state: SessionStateSchema1) -> Option<SessionError> {
    let tabs = session_tabs(old_state.tabs@);
    if old_state.schema_version != 1 {
        Some(SessionError::WrongSchema1Version(old_state.schema_version))
    } else if selection_error(old_state.selected_tab, tabs.len() as int) is Some {
        selection_error(old_state.selected_tab, tabs.len() as int)
    } else if tabs_error(tabs, tabs.len() as int) is Some {
        tabs_error(tabs, tabs.len() as int)
    } else {
        colors_error(old_state.recent_annotation_colors@)
    }
}

impl SessionStateSchema1 {
    pub fn validate(&self) -> (res: Result<(), SessionError>)
        ensures
            res == verdict(schema1_error(*self)),
    {
        if self.schema_version != 1 {
            return Err(SessionError::WrongSchema1Version(self.schema_version));
        }
        if self.tabs.len() == 0 {
            if self.selected_tab.is_some() {
                return Err(SessionError::EmptySessionSelectsTab);
            }
        } else {
            match self.selected_tab {
                None => {
                    return Err(SessionError::NonemptySessionSelectsNoTab);
                },
                Some(selected) => {
                    if selected >= self.tabs.len() {
                        return Err(SessionError::SelectedTabOutOfRange(selected));
                    }
                },
            }
        }
        if let Err(error) = validate_tabs(&self.tabs) {
            return Err(error);
        }
        validate_recent_colors(&self.recent_annotation_colors)
    }
}

/// The tabs of the first `count` panes, pane by pane.
pub open spec fn flattened(panes: Seq<SessionPaneSchema2>, count: int) -> Seq<usize>
    decreases count,
{
    if count <= 0 {
        seq![]
    } else {
        flattened(panes, count - 1) + panes[count - 1].tab_indices@
    }
}

/// How often `tab` is among the first `count` indices.
pub open spec fn occurrences(indices: Seq<usize>, count: int, tab: int) -> int
    decreases count,
{
    if count <= 0 {
        0
    } else {
        occurrences(indices, count - 1, tab) + (if indices[count - 1] == tab {
            1int
        } else {
            0int
        })
    }
}

/// The first error among the first `count` indices: one that names no tab.
pub open spec fn index_error(indices: Seq<usize>, tab_count: int, count: int) -> Option<SessionError>
    decreases count,
{
    if count <= 0 {
        None
    } else if index_error(indices, tab_count, count - 1) is Some {
        index_error(indices, tab_count, count - 1)
    } else if indices[count - 1] >= tab_count {
        Some(SessionError::TabIndexOutOfRange(indices[count - 1]))
    } else {
        None
    }
}

/// What is wrong with a pane: it must show its selection.
pub open spec fn pane_error(pane: SessionPaneSchema2, tab_count: int) -> Option<SessionError> {
    if !pane.tab_indices@.contains(pane.selected_tab) {
        Some(SessionError::Schema2PaneSelection)
    } else {
        index_error(pane.tab_indices@, tab_count, pane.tab_indices@.len() as int)
    }
}

/// The first error among the first `count` panes.
pub open spec fn panes_error(
    panes: Seq<SessionPaneSchema2>,
    tab_count: int,
    count: int,
) -> Option<SessionError>
    decreases count,
{
    if count <= 0 {
        None
    } else if panes_error(panes, tab_count, count - 1) is Some {
        panes_error(panes, tab_count, count - 1)
    } else {
        pane_error(panes[count - 1], tab_count)
    }
}

/// Whether every tab is in exactly one pane.
pub open spec fn each_in_one_pane(panes: Seq<SessionPaneSchema2>, tab_count: int) -> bool {
    forall|tab: int|
        0 <= tab < tab_count ==> #[trigger] occurrences(
            flattened(panes, panes.len() as int),
            flattened(panes, panes.len() as int).len() as int,
            tab,
        ) == 1
}

/// What is wrong with a second-schema layout for `tab_count` tabs.
pub open spec fn schema2_layout_error(
    layout: SessionLayoutSchema2,
    tab_count: int,
) -> Option<SessionError> {
    let panes = layout.panes@;
    if tab_count == 0 {
        if panes.len() > 0 || layout.focused_pane is Some || layout.split is Some {
            Some(SessionError::Schema2EmptySessionHasLayout)
        } else {
            None
        }
    } else if panes.len() != 1 && panes.len() != 2 {
        Some(SessionError::Schema2PaneCount)
    } else if layout.focused_pane is None {
        Some(SessionError::Schema2NoFocusedPane)
    } else if layout.focused_pane->0 >= panes.len() {
        Some(SessionError::Schema2FocusedPaneOutOfRange)
    } else if panes.len() == 1 && layout.split is Some {
        Some(SessionError::Schema2SinglePaneSplit)
    } else if panes.len() == 2 && layout.split is None {
        Some(SessionError::Schema2TwoPanesWithoutSplit)
    } else if layout.split is Some && !ratio_in_range(layout.split->0.ratio_bits) {
        Some(SessionError::Schema2RatioOutOfRange)
    } else if panes_error(panes, tab_count, panes.len() as int) is Some {
        panes_error(panes, tab_count, panes.len() as int)
    } else if !each_in_one_pane(panes, tab_count) {
        Some(SessionError::Schema2TabNotInExactlyOnePane)
    } else {
        None
    }
}

/// What is wrong with a second-schema session.
pub open spec fn schema2_error(old_state: SessionStateSchema2) -> Option<SessionError> {
    let tabs = session_tabs(old_state.tabs@);
    if old_state.schema_version != 2 {
        Some(SessionError::WrongSchema2Version(old_state.schema_version))
    } else if tabs_error(tabs, tabs.len() as int) is Some {
        tabs_error(tabs, tabs.len() as int)
    } else if schema2_layout_error(old_state.layout, tabs.len() as int) is Some {
        schema2_layout_error(old_state.layout, tabs.len() as int)
    } else {
        colors_error(old_state.recent_annotation_colors@)
    }
}

/// The indices of all panes can be counted in a machine word.
pub open spec fn countable(layout: SessionLayoutSchema2) -> bool {
    layout.panes@.len() == 2 ==> flattened(layout.panes@, 2).len() <= usize::MAX
}

proof fn occurrences_are_bounded(indices: Seq<usize>, count: int, tab: int)
    requires
        0 <= count,
    ensures
        0 <= occurrences(indices, count, tab) <= count,
    decreases count,
{
    if count > 0 {
        occurrences_are_bounded(indices, count - 1, tab);
    }
}

proof fn occurrences_of_prefix(a: Seq<usize>, b: Seq<usize>, count: int, tab: int)
    requires
        0 <= count <= a.len(),
    ensures
        occurrences(a + b, count, tab) == occurrences(a, count, tab),
    decreases count,
{
    if count > 0 {
        occurrences_of_prefix(a, b, count - 1, tab);
        assert((a + b)[count - 1] == a[count - 1]);
    }
}

proof fn occurrences_of_sum(a: Seq<usize>, b: Seq<usize>, count: int, tab: int)
    requires
        0 <= count <= b.len(),
    ensures
        occurrences(a + b, a.len() + count, tab) == occurrences(a, a.len() as int, tab)
            + occurrences(b, count, tab),
    decreases count,
{
    if count > 0 {
        occurrences_of_sum(a, b, count - 1, tab);
        assert((a + b)[a.len() + count - 1] == b[count - 1]);
    } else {
        occurrences_of_prefix(a, b, a.len() as int, tab);
    }
}

proof fn occurrence_is_counted(indices: Seq<usize>, count: int, position: int)
    requires
        0 <= position < count,
    ensures
        occurrences(indices, count, indices[position] as int) >= 1,
    decreases count,
{
    if position < count - 1 {
        occurrence_is_counted(indices, count - 1, position);
    } else {
        occurrences_are_bounded(indices, count - 1, indices[position] as int);
    }
}

proof fn index_error_is_first(indices: Seq<usize>, tab_count: int, position: int, count: int)
    requires
        0 <= position < count,
        index_error(indices, tab_count, position + 1) is Some,
    ensures
        index_error(indices, tab_count, count) == index_error(indices, tab_count, position + 1),
    decreases count,
{
    if position + 1 < count {
        index_error_is_first(indices, tab_count, position, count - 1);
    }
}

proof fn index_error_covers_each(indices: Seq<usize>, tab_count: int, count: int, position: int)
    requires
        index_error(indices, tab_count, count) is None,
        0 <= position < count,
    ensures
        indices[position] < tab_count,
    decreases count,
{
    if position < count - 1 {
        index_error_covers_each(indices, tab_count, count - 1, position);
    }
}

proof fn panes_error_is_first(
    panes: Seq<SessionPaneSchema2>,
    tab_count: int,
    position: int,
    count: int,
)
    requires
        0 <= position < count,
        panes_error(panes, tab_count, position + 1) is Some,
    ensures
        panes_error(panes, tab_count, count) == panes_error(panes, tab_count, position + 1),
    decreases count,
{
    if position + 1 < count {
        panes_error_is_first(panes, tab_count, position, count - 1);
    }
}

proof fn flattened_grows(panes: Seq<SessionPaneSchema2>, from: int, to: int)
    requires
        0 <= from <= to,
    ensures
        flattened(panes, from).len() <= flattened(panes, to).len(),
    decreases to,
{
    if from < to {
        flattened_grows(panes, from, to - 1);
    }
}

/// Checks a second-schema layout; the first offending pane decides.
pub fn validate_schema2_layout(layout: &SessionLayoutSchema2, tab_count: usize) -> (res: Result<
    (),
    SessionError,
>)
    requires
        countable(*layout),
    ensures
        res == verdict(schema2_layout_error(*layout, tab_count as int)),
{
    if tab_count == 0 {
        if layout.panes.len() > 0 || layout.focused_pane.is_some() || layout.split.is_some() {
            return Err(SessionError::Schema2EmptySessionHasLayout);
        }
        return Ok(());
    }
    let pane_count: usize = layout.panes.len();
    if pane_count != 1 && pane_count != 2 {
        return Err(SessionError::Schema2PaneCount);
    }
    match layout.focused_pane {
        None => {
            return Err(SessionError::Schema2NoFocusedPane);
        },
        Some(focus) => {
            if focus >= pane_count {
                return Err(SessionError::Schema2FocusedPaneOutOfRange);
            }
        },
    }
    if pane_count == 1 && layout.split.is_some() {
        return Err(SessionError::Schema2SinglePaneSplit);
    }
    if pane_count == 2 && layout.split.is_none() {
        return Err(SessionError::Schema2TwoPanesWithoutSplit);
    }
    if let Some(split) = layout.split {
        if !valid_ratio(split.ratio_bits) {
            return Err(SessionError::Schema2RatioOutOfRange);
        }
    }
    let ghost panes = layout.panes@;
    let ghost all = flattened(panes, panes.len() as int);
    proof {
        assert(flattened(panes, 0) =~= seq![]);
        assert(flattened(panes, 1) =~= panes[0].tab_indices@);
        assert(panes[0].tab_indices.len() <= usize::MAX);
    }
    assert(all.len() <= usize::MAX);
    let mut counts: Vec<usize> = vec![0; tab_count];
    let mut p: usize = 0;
    while p < pane_count
        invariant
            p <= pane_count,
            pane_count == panes.len(),
            panes == layout.panes@,
            all == flattened(panes, panes.len() as int),
            all.len() <= usize::MAX,
            counts@.len() == tab_count,
            panes_error(panes, tab_count as int, p as int) is None,
            forall|t: int|
                0 <= t < tab_count ==> #[trigger] counts@[t] == occurrences(
                    flattened(panes, p as int),
                    flattened(panes, p as int).len() as int,
                    t,
                ),
            schema2_layout_error(*layout, tab_count as int) == (if panes_error(
                panes,
                tab_count as int,
                panes.len() as int,
            ) is Some {
                panes_error(panes, tab_count as int, panes.len() as int)
            } else if !each_in_one_pane(panes, tab_count as int) {
                Some(SessionError::Schema2TabNotInExactlyOnePane)
            } else {
                None
            }),
        decreases pane_count - p,
    {
        let pane = &layout.panes[p];
        let ghost indices = pane.tab_indices@;
        let ghost earlier = flattened(panes, p as int);
        assert(panes_error(panes, tab_count as int, p + 1) == pane_error(
            panes[p as int],
            tab_count as int,
        ));
        proof {
            if pane_error(panes[p as int], tab_count as int) is Some {
                panes_error_is_first(panes, tab_count as int, p as int, panes.len() as int);
            }
            flattened_grows(panes, p + 1, panes.len() as int);
        }
        if !contains_index(&pane.tab_indices, pane.selected_tab) {
            return Err(SessionError::Schema2PaneSelection);
        }
        assert forall|t: int| 0 <= t < tab_count implies #[trigger] counts@[t] == occurrences(
            earlier,
            earlier.len() as int,
            t,
        ) + occurrences(indices, 0, t) by {}
        let mut i: usize = 0;
        while i < pane.tab_indices.len()
            invariant
                i <= pane.tab_indices.len(),
                p < panes.len(),
                indices == pane.tab_indices@,
                *pane == panes[p as int],
                all.len() <= usize::MAX,
                earlier.len() + indices.len() <= all.len(),
                counts@.len() == tab_count,
                pane_error(*pane, tab_count as int) == index_error(
                    indices,
                    tab_count as int,
                    indices.len() as int,
                ),
                pane_error(*pane, tab_count as int) is Some ==> schema2_layout_error(
                    *layout,
                    tab_count as int,
                ) == pane_error(*pane, tab_count as int),
                index_error(indices, tab_count as int, i as int) is None,
                forall|t: int|
                    0 <= t < tab_count ==> #[trigger] counts@[t] == occurrences(
                        earlier,
                        earlier.len() as int,
                        t,
                    ) + occurrences(indices, i as int, t),
            decreases pane.tab_indices.len() - i,
        {
            let tab_index: usize = pane.tab_indices[i];
            proof {
                assert forall|t: int| 0 <= t < tab_count implies #[trigger] counts@[t]
                    < usize::MAX by {
                    occurrences_are_bounded(earlier, earlier.len() as int, t);
                    occurrences_are_bounded(indices, i as int, t);
                }
                if tab_index >= tab_count {
                    assert(index_error(indices, tab_count as int, i + 1) is Some);
                    index_error_is_first(
                        indices,
                        tab_count as int,
                        i as int,
                        indices.len() as int,
                    );
                }
            }
            if let Err(error) = increment_membership(&mut counts, tab_index) {
                return Err(error);
            }
            i += 1;
        }
        proof {
            assert forall|t: int| 0 <= t < tab_count implies #[trigger] counts@[t] == occurrences(
                flattened(panes, p + 1),
                flattened(panes, p + 1).len() as int,
                t,
            ) by {
                occurrences_of_sum(earlier, indices, indices.len() as int, t);
            }
        }
        p += 1;
    }
    let mut t: usize = 0;
    while t < tab_count
        invariant
            t <= tab_count,
            counts@.len() == tab_count,
            panes_error(panes, tab_count as int, panes.len() as int) is None,
            forall|k: int|
                0 <= k < tab_count ==> #[trigger] counts@[k] == occurrences(
                    flattened(panes, panes.len() as int),
                    flattened(panes, panes.len() as int).len() as int,
                    k,
                ),
            forall|k: int| 0 <= k < t ==> #[trigger] counts@[k] == 1,
            schema2_layout_error(*layout, tab_count as int) == (if !each_in_one_pane(
                panes,
                tab_count as int,
            ) {
                Some(SessionError::Schema2TabNotInExactlyOnePane)
            } else {
                None
            }),
        decreases tab_count - t,
    {
        if counts[t] != 1 {
            assert(occurrences(
                flattened(panes, panes.len() as int),
                flattened(panes, panes.len() as int).len() as int,
                t as int,
            ) != 1);
            return Err(SessionError::Schema2TabNotInExactlyOnePane);
        }
        t += 1;
    }
    assert forall|tab: int| 0 <= tab < tab_count implies #[trigger] occurrences(
        flattened(panes, panes.len() as int),
        flattened(panes, panes.len() as int).len() as int,
        tab,
    ) == 1 by {
        assert(counts@[tab] == 1);
    }
    Ok(())
}

impl SessionStateSchema2 {
    pub fn validate(&self) -> (res: Result<(), SessionError>)
        requires
            countable(self.layout),
        ensures
            res == verdict(schema2_error(*self)),
    {
        if self.schema_version != 2 {
            return Err(SessionError::WrongSchema2Version(self.schema_version));
        }
        if let Err(error) = validate_tabs(&self.tabs) {
            return Err(error);
        }
        if let Err(error) = validate_schema2_layout(&self.layout, self.tabs.len()) {
            return Err(error);
        }
        validate_recent_colors(&self.recent_annotation_colors)
    }
}

/// Whether `tab` is one of the two selected tabs.
pub open spec fn is_selected(tab: usize, first: usize, second: usize) -> bool {
    tab == first || tab == second
}

/// Whether one of the first `count` indices is selected.
pub open spec fn selected_before(
    indices: Seq<usize>,
    count: int,
    first: usize,
    second: usize,
) -> bool {
    exists|i: int| 0 <= i < count && is_selected(#[trigger] indices[i], first, second)
}

/// The entries for the first `count` indices of two panes: the two selected tabs become
/// one split, where the earlier of them stood; every other tab becomes a single entry.
pub open spec fn migrated_entries(
    indices: Seq<usize>,
    count: int,
    first: usize,
    second: usize,
    split: SessionEntry,
) -> Seq<SessionEntry>
    decreases count,
{
    if count <= 0 {
        seq![]
    } else {
        let before = migrated_entries(indices, count - 1, first, second, split);
        if !is_selected(indices[count - 1], first, second) {
            before.push(SessionEntry::Single { tab_index: indices[count - 1] })
        } else if !selected_before(indices, count - 1, first, second) {
            before.push(split)
        } else {
            before
        }
    }
}

/// Single entries for the given tabs.
pub open spec fn single_entries(indices: Seq<usize>) -> Seq<SessionEntry> {
    Seq::new(indices.len(), |i: int| SessionEntry::Single { tab_index: indices[i] })
}

/// The tab that was focused in the pane `pane`.
pub open spec fn focused_selection(layout: SessionLayoutSchema2) -> usize {
    layout.panes@[layout.focused_pane->0 as int].selected_tab
}

/// The split that shows what the two panes showed.
pub open spec fn migrated_split(layout: SessionLayoutSchema2) -> SessionEntry {
    SessionEntry::Split {
        first_tab: layout.panes@[0].selected_tab,
        second_tab: layout.panes@[1].selected_tab,
        direction: SplitDirection::Horizontal,
        ratio_bits: layout.split->0.ratio_bits,
        focused_tab: focused_selection(layout),
    }
}

/// The current layout of a second-schema layout.
pub open spec fn migrated_layout(layout: SessionLayoutSchema2, tab_count: int) -> LayoutModel {
    if tab_count == 0 {
        LayoutModel { entries: seq![], active_tab: None }
    } else if layout.panes@.len() == 1 {
        LayoutModel {
            entries: single_entries(layout.panes@[0].tab_indices@),
            active_tab: Some(layout.panes@[0].selected_tab),
        }
    } else {
        LayoutModel {
            entries: migrated_entries(
                flattened(layout.panes@, 2),
                flattened(layout.panes@, 2).len() as int,
                layout.panes@[0].selected_tab,
                layout.panes@[1].selected_tab,
                migrated_split(layout),
            ),
            active_tab: Some(focused_selection(layout)),
        }
    }
}

/// Turns a valid second-schema layout into a current one. The tabs keep the order they
/// had across the panes.
pub fn migrate_schema2_layout(layout: &SessionLayoutSchema2, tab_count: usize) -> (res: SessionLayout)
    requires
        schema2_layout_error(*layout, tab_count as int) is None,
    ensures
        res@ == migrated_layout(*layout, tab_count as int),
{
    if tab_count == 0 {
        let res = SessionLayout { entries: Vec::new(), active_tab: None };
        assert(res@.entries =~= seq![]);
        return res;
    }
    if layout.panes.len() == 1 {
        let pane = &layout.panes[0];
        let mut entries: Vec<SessionEntry> = Vec::new();
        let mut i: usize = 0;
        while i < pane.tab_indices.len()
            invariant
                i <= pane.tab_indices.len(),
                entries.len() == i,
                forall|k: int|
                    0 <= k < i ==> #[trigger] entries@[k] == (SessionEntry::Single {
                        tab_index: pane.tab_indices@[k],
                    }),
            decreases pane.tab_indices.len() - i,
        {
            entries.push(SessionEntry::Single { tab_index: pane.tab_indices[i] });
            i += 1;
        }
        assert(entries@ =~= single_entries(pane.tab_indices@));
        return SessionLayout { entries, active_tab: Some(pane.selected_tab) };
    }
    let first: usize = layout.panes[0].selected_tab;
    let second: usize = layout.panes[1].selected_tab;
    let focused: usize = match layout.focused_pane {
        None => first,
        Some(pane) => layout.panes[pane].selected_tab,
    };
    let ratio_bits: u32 = match layout.split {
        None => 0,
        Some(split) => split.ratio_bits,
    };
    let split = SessionEntry::Split {
        first_tab: first,
        second_tab: second,
        direction: SplitDirection::Horizontal,
        ratio_bits,
        focused_tab: focused,
    };
    assert(split == migrated_split(*layout));
    let ghost all = flattened(layout.panes@, 2);
    let mut entries: Vec<SessionEntry> = Vec::new();
    let mut placed: bool = false;
    let mut p: usize = 0;
    proof {
        assert(flattened(layout.panes@, 0) =~= seq![]);
        assert(entries@ =~= migrated_entries(all, 0, first, second, split));
    }
    while p < 2
        invariant
            p <= 2,
            layout.panes@.len() == 2,
            all == flattened(layout.panes@, 2),
            entries@ == migrated_entries(
                all,
                flattened(layout.panes@, p as int).len() as int,
                first,
                second,
                split,
            ),
            placed == selected_before(
                all,
                flattened(layout.panes@, p as int).len() as int,
                first,
                second,
            ),
        decreases 2 - p,
    {
        let pane = &layout.panes[p];
        let ghost start = flattened(layout.panes@, p as int).len() as int;
        proof {
            assert(flattened(layout.panes@, 1) =~= flattened(layout.panes@, 0)
                + layout.panes@[0].tab_indices@);
            assert(all =~= flattened(layout.panes@, 1) + layout.panes@[1].tab_indices@);
            assert(flattened(layout.panes@, p + 1).len() == start + pane.tab_indices@.len());
            assert forall|k: int| 0 <= k < pane.tab_indices@.len() implies all[start + k]
                == #[trigger] pane.tab_indices@[k] by {
                if p == 0 {
                    assert(flattened(layout.panes@, 1)[k] == pane.tab_indices@[k]);
                }
            }
        }
        let mut i: usize = 0;
        while i < pane.tab_indices.len()
            invariant
                i <= pane.tab_indices.len(),
                forall|k: int|
                    0 <= k < pane.tab_indices@.len() ==> all[start + k]
                        == #[trigger] pane.tab_indices@[k],
                start >= 0,
                entries@ == migrated_entries(all, start + i, first, second, split),
                placed == selected_before(all, start + i, first, second),
            decreases pane.tab_indices.len() - i,
        {
            let tab_index: usize = pane.tab_indices[i];
            let ghost before = placed;
            assert(all[start + i] == tab_index);
            if tab_index == first || tab_index == second {
                if !placed {
                    entries.push(split);
                    placed = true;
                }
                assert(is_selected(all[start + i], first, second));
            } else {
                entries.push(SessionEntry::Single { tab_index });
            }
            proof {
                let next = start + i + 1;
                if before {
                    let k = choose|k: int|
                        0 <= k < start + i && is_selected(#[trigger] all[k], first, second);
                    assert(is_selected(all[k], first, second));
                }
                if selected_before(all, next, first, second) {
                    let k = choose|k: int|
                        0 <= k < next && is_selected(#[trigger] all[k], first, second);
                    if k < start + i {
                        assert(selected_before(all, start + i, first, second));
                    }
                }
                assert(placed == selected_before(all, next, first, second));
            }
            i += 1;
        }
        p += 1;
    }
    SessionLayout { entries, active_tab: Some(focused) }
}

/// A session as it was parsed, still in the schema it was written in.
pub enum ParsedSession {
    Schema1(SessionStateSchema1),
    Schema2(SessionStateSchema2),
    Schema3(SessionState),
}

/// The first `count` tabs as single entries.
pub open spec fn tab_sequence(count: int) -> Seq<SessionEntry> {
    Seq::new(count as nat, |i: int| SessionEntry::Single { tab_index: i as usize })
}

/// What is wrong with a parsed session.
pub open spec fn parsed_error(parsed: ParsedSession) -> Option<SessionError> {
    match parsed {
        ParsedSession::Schema1(old_state) => schema1_error(old_state),
        ParsedSession::Schema2(old_state) => schema2_error(old_state),
        ParsedSession::Schema3(state) => session_error(state@),
    }
}

/// The current session that a parsed one stands for.
pub open spec fn decoded(parsed: ParsedSession) -> SessionModel {
    match parsed {
        ParsedSession::Schema1(old_state) => SessionModel {
            schema_version: SCHEMA_VERSION,
            restore_enabled: old_state.restore_enabled,
            sidebar_open: old_state.sidebar_open,
            sidebar_tab: old_state.sidebar_tab,
            tabs: session_tabs(old_state.tabs@),
            layout: LayoutModel {
                entries: tab_sequence(old_state.tabs@.len() as int),
                active_tab: old_state.selected_tab,
            },
            recent_annotation_colors: old_state.recent_annotation_colors@,
        },
        ParsedSession::Schema2(old_state) => SessionModel {
            schema_version: SCHEMA_VERSION,
            restore_enabled: old_state.restore_enabled,
            sidebar_open: old_state.sidebar_open,
            sidebar_tab: old_state.sidebar_tab,
            tabs: session_tabs(old_state.tabs@),
            layout: migrated_layout(old_state.layout, old_state.tabs@.len() as int),
            recent_annotation_colors: old_state.recent_annotation_colors@,
        },
        ParsedSession::Schema3(state) => state@,
    }
}

/// Single entries in tab order show every tab once.
proof fn tab_sequence_shows_each_once(total: int, count: int, tab: int)
    requires
        0 <= count <= total <= usize::MAX,
        0 <= tab < total,
    ensures
        membership(tab_sequence(total), count, tab) == (if tab < count {
            1int
        } else {
            0int
        }),
    decreases count,
{
    if count > 0 {
        tab_sequence_shows_each_once(total, count - 1, tab);
    }
}

/// A first-schema session that passes its own checks becomes a valid current session.
pub proof fn schema1_migrates_to_a_valid_session(old_state: SessionStateSchema1)
    requires
        schema1_error(old_state) is None,
    ensures
        session_error(decoded(ParsedSession::Schema1(old_state))) is None,
{
    let state = decoded(ParsedSession::Schema1(old_state));
    let count = old_state.tabs@.len() as int;
    assert(old_state.tabs.len() <= usize::MAX);
    if count > 0 {
        let active = old_state.selected_tab->0;
        crate::session::entries_without_errors(state.layout.entries, active, count, count);
        assert forall|tab: int| 0 <= tab < count implies #[trigger] membership(
            state.layout.entries,
            state.layout.entries.len() as int,
            tab,
        ) == 1 by {
            tab_sequence_shows_each_once(count, count, tab);
        }
    }
}

/// Where the panes of a valid layout stand in the order of all their tabs.
proof fn panes_are_covered(layout: SessionLayoutSchema2, tab_count: int)
    requires
        schema2_layout_error(layout, tab_count) is None,
        tab_count > 0,
    ensures
        flattened(layout.panes@, 1) == layout.panes@[0].tab_indices@,
        layout.panes@.len() == 2 ==> flattened(layout.panes@, 2) == layout.panes@[0].tab_indices@
            + layout.panes@[1].tab_indices@,
        forall|i: int|
            0 <= i < flattened(layout.panes@, layout.panes@.len() as int).len() ==> (
            #[trigger] flattened(layout.panes@, layout.panes@.len() as int)[i]) < tab_count,
        pane_error(layout.panes@[0], tab_count) is None,
        layout.panes@.len() == 2 ==> pane_error(layout.panes@[1], tab_count) is None,
{
    let panes = layout.panes@;
    assert(flattened(panes, 0) =~= seq![]);
    assert(flattened(panes, 1) =~= panes[0].tab_indices@);
    assert(panes_error(panes, tab_count, 1) is None) by {
        assert(panes_error(panes, tab_count, panes.len() as int) is None);
        if panes.len() == 2 {
            assert(panes_error(panes, tab_count, 2) is None);
        }
    }
    assert(panes_error(panes, tab_count, 0) is None);
    assert(pane_error(panes[0], tab_count) is None);
    if panes.len() == 2 {
        assert(pane_error(panes[1], tab_count) is None);
        assert(flattened(panes, 2) =~= panes[0].tab_indices@ + panes[1].tab_indices@);
    }
    let all = flattened(panes, panes.len() as int);
    assert forall|i: int| 0 <= i < all.len() implies (#[trigger] all[i]) < tab_count by {
        let a = panes[0].tab_indices@;
        if i < a.len() {
            index_error_covers_each(a, tab_count, a.len() as int, i);
        } else {
            let b = panes[1].tab_indices@;
            index_error_covers_each(b, tab_count, b.len() as int, i - a.len());
        }
    }
}

/// Single entries show a tab as often as it is listed.
proof fn single_entries_show_the_listed(indices: Seq<usize>, count: int, tab: int)
    requires
        0 <= count <= indices.len(),
    ensures
        membership(single_entries(indices), count, tab) == occurrences(indices, count, tab),
    decreases count,
{
    if count > 0 {
        single_entries_show_the_listed(indices, count - 1, tab);
    }
}

/// More entries do not change what the first ones show.
proof fn membership_of_prefix(a: Seq<SessionEntry>, b: Seq<SessionEntry>, count: int, tab: int)
    requires
        0 <= count <= a.len(),
        count <= b.len(),
        forall|i: int| 0 <= i < count ==> a[i] == b[i],
    ensures
        membership(a, count, tab) == membership(b, count, tab),
    decreases count,
{
    if count > 0 {
        membership_of_prefix(a, b, count - 1, tab);
    }
}

/// The migrated entries show both selected tabs once, from where the earlier one stood,
/// and any other tab as often as it is listed.
proof fn migrated_entries_show_the_listed(
    indices: Seq<usize>,
    count: int,
    first: usize,
    second: usize,
    split: SessionEntry,
    tab: int,
)
    requires
        0 <= count <= indices.len(),
        first != second,
        split matches SessionEntry::Split { first_tab, second_tab, .. } && first_tab == first
            && second_tab == second,
    ensures
        ({
            let entries = migrated_entries(indices, count, first, second, split);
            membership(entries, entries.len() as int, tab) == (if tab == first || tab == second {
                if selected_before(indices, count, first, second) {
                    1int
                } else {
                    0int
                }
            } else {
                occurrences(indices, count, tab)
            })
        }),
    decreases count,
{
    if count > 0 {
        migrated_entries_show_the_listed(indices, count - 1, first, second, split, tab);
        let before = migrated_entries(indices, count - 1, first, second, split);
        let entries = migrated_entries(indices, count, first, second, split);
        membership_of_prefix(before, entries, before.len() as int, tab);
        if selected_before(indices, count - 1, first, second) {
            let k = choose|k: int|
                0 <= k < count - 1 && is_selected(#[trigger] indices[k], first, second);
            assert(is_selected(indices[k], first, second));
            assert(selected_before(indices, count, first, second));
        }
        if is_selected(indices[count - 1], first, second) {
            assert(selected_before(indices, count, first, second));
        } else if selected_before(indices, count, first, second) {
            let k = choose|k: int|
                0 <= k < count && is_selected(#[trigger] indices[k], first, second);
            assert(k < count - 1);
            assert(selected_before(indices, count - 1, first, second));
        }
    }
}

/// Every migrated entry is acceptable when the listed tabs exist and the split is.
proof fn migrated_entries_are_acceptable(
    indices: Seq<usize>,
    count: int,
    first: usize,
    second: usize,
    split: SessionEntry,
    active: usize,
    tab_count: int,
)
    requires
        0 <= count <= indices.len(),
        forall|i: int| 0 <= i < indices.len() ==> (#[trigger] indices[i]) < tab_count,
        crate::session::entry_error(split, active, tab_count) is None,
    ensures
        forall|i: int|
            0 <= i < migrated_entries(indices, count, first, second, split).len()
                ==> crate::session::entry_error(
                #[trigger] migrated_entries(indices, count, first, second, split)[i],
                active,
                tab_count,
            ) is None,
    decreases count,
{
    if count > 0 {
        migrated_entries_are_acceptable(
            indices,
            count - 1,
            first,
            second,
            split,
            active,
            tab_count,
        );
        let before = migrated_entries(indices, count - 1, first, second, split);
        let entries = migrated_entries(indices, count, first, second, split);
        assert forall|i: int| 0 <= i < entries.len() implies crate::session::entry_error(
            #[trigger] entries[i],
            active,
            tab_count,
        ) is None by {
            if i < before.len() {
                assert(entries[i] == before[i]);
            } else {
                assert(indices[count - 1] < tab_count);
            }
        }
    }
}

/// A valid second-schema layout becomes a valid current layout: every tab is still shown
/// exactly once, and the active tab has the focus.
pub proof fn schema2_layout_migrates_to_a_valid_one(layout: SessionLayoutSchema2, tab_count: int)
    requires
        schema2_layout_error(layout, tab_count) is None,
    ensures
        layout_error(migrated_layout(layout, tab_count), tab_count) is None,
{
    if tab_count != 0 {
        panes_are_covered(layout, tab_count);
        let panes = layout.panes@;
        let after = migrated_layout(layout, tab_count);
        let all = flattened(panes, panes.len() as int);
        let a = panes[0].tab_indices@;
        let first = panes[0].selected_tab;
        let p = choose|p: int| 0 <= p < a.len() && a[p] == first;
        assert(a.contains(first));
        assert(all[p] == first);
        if panes.len() == 1 {
            assert(all[p] < tab_count);
            assert forall|i: int| 0 <= i < after.entries.len() implies crate::session::entry_error(
                #[trigger] after.entries[i],
                first,
                tab_count,
            ) is None by {
                assert(all[i] < tab_count);
            }
            crate::session::entries_without_errors(
                after.entries,
                first,
                tab_count,
                after.entries.len() as int,
            );
            assert forall|tab: int| 0 <= tab < tab_count implies #[trigger] membership(
                after.entries,
                after.entries.len() as int,
                tab,
            ) == 1 by {
                single_entries_show_the_listed(a, a.len() as int, tab);
                assert(occurrences(all, all.len() as int, tab) == 1);
            }
        } else {
            let b = panes[1].tab_indices@;
            let second = panes[1].selected_tab;
            assert(b.contains(second));
            let q = choose|q: int| 0 <= q < b.len() && b[q] == second;
            assert(all[a.len() + q] == second);
            assert(first < tab_count && second < tab_count);
            if first == second {
                occurrences_of_sum(a, b, b.len() as int, first as int);
                occurrence_is_counted(a, a.len() as int, p);
                occurrence_is_counted(b, b.len() as int, q);
                assert(occurrences(all, all.len() as int, first as int) == 1);
            }
            let split = migrated_split(layout);
            let active = focused_selection(layout);
            assert(active == first || active == second);
            migrated_entries_are_acceptable(
                all,
                all.len() as int,
                first,
                second,
                split,
                active,
                tab_count,
            );
            crate::session::entries_without_errors(
                after.entries,
                active,
                tab_count,
                after.entries.len() as int,
            );
            assert(is_selected(all[p], first, second));
            assert forall|tab: int| 0 <= tab < tab_count implies #[trigger] membership(
                after.entries,
                after.entries.len() as int,
                tab,
            ) == 1 by {
                migrated_entries_show_the_listed(
                    all,
                    all.len() as int,
                    first,
                    second,
                    split,
                    tab,
                );
                assert(occurrences(all, all.len() as int, tab) == 1);
            }
        }
    }
}

/// A second-schema session that passes its own checks becomes a valid current session.
pub proof fn schema2_migrates_to_a_valid_session(old_state: SessionStateSchema2)
    requires
        schema2_error(old_state) is None,
    ensures
        session_error(decoded(ParsedSession::Schema2(old_state))) is None,
{
    schema2_layout_migrates_to_a_valid_one(old_state.layout, old_state.tabs@.len() as int);
}

impl SessionState {
    /// Checks a parsed session and brings it to the current schema. What comes out is valid.
    pub fn decode(parsed: ParsedSession) -> (res: Result<SessionState, SessionError>)
        requires
            parsed matches ParsedSession::Schema2(old_state) ==> countable(old_state.layout),
        ensures
            match res {
                Ok(state) => parsed_error(parsed) is None && state@ == decoded(parsed)
                    && session_error(state@) is None,
                Err(error) => parsed_error(parsed) == Some(error),
            },
    {
        let ghost origin = parsed;
        match parsed {
            ParsedSession::Schema1(old_state) => {
                if let Err(error) = old_state.validate() {
                    return Err(error);
                }
                proof {
                    schema1_migrates_to_a_valid_session(old_state);
                }
                let mut entries: Vec<SessionEntry> = Vec::new();
                let mut tab_index: usize = 0;
                while tab_index < old_state.tabs.len()
                    invariant
                        tab_index <= old_state.tabs.len(),
                        entries.len() == tab_index,
                        forall|k: int|
                            0 <= k < tab_index ==> #[trigger] entries@[k] == (SessionEntry::Single {
                                tab_index: k as usize,
                            }),
                    decreases old_state.tabs.len() - tab_index,
                {
                    entries.push(SessionEntry::Single { tab_index });
                    tab_index += 1;
                }
                assert(entries@ =~= tab_sequence(old_state.tabs@.len() as int));
                let state = SessionState {
                    schema_version: SCHEMA_VERSION,
                    restore_enabled: old_state.restore_enabled,
                    sidebar_open: old_state.sidebar_open,
                    sidebar_tab: old_state.sidebar_tab,
                    tabs: old_state.tabs,
                    layout: SessionLayout { entries, active_tab: old_state.selected_tab },
                    recent_annotation_colors: old_state.recent_annotation_colors,
                };
                assert(state@ =~= decoded(origin));
                Ok(state)
            },
            ParsedSession::Schema2(old_state) => {
                if let Err(error) = old_state.validate() {
                    return Err(error);
                }
                proof {
                    schema2_migrates_to_a_valid_session(old_state);
                }
                let layout = migrate_schema2_layout(&old_state.layout, old_state.tabs.len());
                let state = SessionState {
                    schema_version: SCHEMA_VERSION,
                    restore_enabled: old_state.restore_enabled,
                    sidebar_open: old_state.sidebar_open,
                    sidebar_tab: old_state.sidebar_tab,
                    tabs: old_state.tabs,
                    layout,
                    recent_annotation_colors: old_state.recent_annotation_colors,
                };
                assert(state@ =~= decoded(origin));
                Ok(state)
            },
            ParsedSession::Schema3(state) => {
                if let Err(error) = state.validate() {
                    return Err(error);
                }
                Ok(state)
            },
        }
    }
}

/// The schema that a session text was written in.
#[derive(Clone, Copy, Debug, PartialEq, Eq, Structural)]
pub enum SessionSchema {
    Schema1,
    Schema2,
    Schema3,
}

/// The schema that a version number stands for.
pub open spec fn schema_of(version: Option<u64>) -> Result<SessionSchema, SessionError> {
    match version {
        None => Err(SessionError::MissingSchemaVersion),
        Some(number) => if number == 1 {
            Ok(SessionSchema::Schema1)
        } else if number == 2 {
            Ok(SessionSchema::Schema2)
        } else if number == 3 {
            Ok(SessionSchema::Schema3)
        } else {
            Err(SessionError::UnsupportedSchemaVersion(number))
        },
    }
}

pub fn schema_for_version(version: Option<u64>) -> (res: Result<SessionSchema, SessionError>)
    ensures
        res == schema_of(version),
{
    match version {
        None => Err(SessionError::MissingSchemaVersion),
        Some(number) => if number == 1 {
            Ok(SessionSchema::Schema1)
        } else if number == 2 {
            Ok(SessionSchema::Schema2)
        } else if number == SCHEMA_VERSION as u64 {
            Ok(SessionSchema::Schema3)
        } else {
            Err(SessionError::UnsupportedSchemaVersion(number))
        },
    }
}

/// The error of a JSON text that does not parse.
#[verifier::external_type_specification]
#[verifier::external_body]
pub struct ExJsonError(serde_json::Error);

/// What `serde_json` reads under `key` in a JSON text: `None` when the text does not
/// parse, else the member's value if it is an unsigned number that fits.
pub uninterp spec fn json_u64_member(text: Seq<u8>, key: Seq<char>) -> Option<Option<u64>>;

/// Parses the text with `serde_json::from_slice` and reads one member with `Value::get`
/// and `Value::as_u64`. The result is a function of the text and the key; the text fails
/// to parse for the same inputs every time.
#[verifier::external_body]
fn read_u64_member(text: &[u8], key: &str) -> (res: Result<Option<u64>, serde_json::Error>)
    ensures
        match res {
            Ok(member) => json_u64_member(text@, key@) == Some(member),
            Err(_) => json_u64_member(text@, key@) is None,
        },
{
    let value: serde_json::Value = serde_json::from_slice(text)?;
    Ok(value.get(key).and_then(serde_json::Value::as_u64))
}

/// The schema of a session text, by its `schema_version`.
pub fn session_schema(text: &[u8]) -> (res: Result<SessionSchema, SessionError>)
    ensures
        res == (match json_u64_member(text@, "schema_version"@) {
            None => Err(SessionError::Malformed),
            Some(version) => schema_of(version),
        }),
{
    match read_u64_member(text, "schema_version") {
        Ok(version) => schema_for_version(version),
        Err(_) => Err(SessionError::Malformed),
    }
}

} // verus!

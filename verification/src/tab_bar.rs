//! Dragging tabs about, and the menu of a split.
use crate::controls::{tab_pointer_action, TabPointerAction};
use crate::numbers::{at_most, below, number_at_most, number_below, total_place, totally_before};
use crate::removal::moved_if;
use crate::tabs::{
    contains_tab, entry_of, group_at, group_of, has_group, shown, SplitDirection, SplitGroup,
    SplitGroupId, SplitPlacement, SplitSide, TabEntry, TabId, TabState, TabsView,
};
use crate::text::{string_views, with_text};
use crate::workspace::{
    active_word, can_be_shown, restoring_count_of_same, Activation, Workspace, WorkspaceView,
};
use vstd::prelude::*;

verus! {

/// The share of a page, from each edge, in which a tab can be dropped: three tenths.
pub const SPLIT_DROP_EDGE_FRACTION_BITS: u32 = 0x3E99_999A;

/// What is being dragged.
#[derive(Clone, Copy, Debug, PartialEq, Eq, Structural)]
pub enum TabDragSource {
    Tab(TabId),
    Group(SplitGroupId),
}

/// Whether an entry of the bar is scrolled into view: a single tab if it is active and is the one
/// to reveal, a split if it shows the active tab and any is to be revealed.
pub open spec fn is_revealed(tabs: TabsView, entry: TabEntry, tab_to_reveal: Option<usize>) -> bool {
    match entry {
        TabEntry::Single(tab) => tabs.active == Some(tab) && tab_to_reveal is Some
            && tab_to_reveal->0 == tabs.registry_of(tab),
        TabEntry::Split(_) => tabs.active is Some && entry.has(tabs.active->0)
            && tab_to_reveal is Some,
    }
}

/// Whether an entry of the bar is scrolled into view.
pub fn reveals_entry(tabs: &TabState, entry: &TabEntry, tab_to_reveal: Option<usize>) -> (res: bool)
    requires
        tabs.wf(),
    ensures
        res == is_revealed(tabs@, *entry, tab_to_reveal),
{
    match (tabs.active_tab_id(), tab_to_reveal) {
        (Some(active), Some(wanted)) => match entry {
            TabEntry::Single(tab) => *tab == active && match tabs.tab_registry_index(*tab) {
                None => false,
                Some(index) => index == wanted,
            },
            TabEntry::Split(_) => entry.contains(active),
        },
        _ => false,
    }
}

/// What was done to the tabs of the bar during one frame.
#[derive(Clone, Copy, Debug, PartialEq, Eq, Structural)]
pub struct TabBarActions {
    pub select: Option<TabId>,
    pub close: Option<TabId>,
    pub drag_started: Option<TabDragSource>,
    pub drag_released: bool,
}

/// What the pointer did to one tab.
#[derive(Clone, Copy, Debug, PartialEq, Eq, Structural)]
pub struct TabPointer {
    pub drag_started: bool,
    pub drag_stopped: bool,
    pub clicked: bool,
    pub middle_clicked: bool,
    /// The close button of the tab was clicked.
    pub close_clicked: bool,
}

impl TabBarActions {
    /// Nothing was done.
    pub fn nothing() -> (res: Self)
        ensures
            res == (TabBarActions {
                select: None,
                close: None,
                drag_started: None,
                drag_released: false,
            }),
    {
        TabBarActions { select: None, close: None, drag_started: None, drag_released: false }
    }

    /// Adds what the pointer did to a tab. A middle click closes without selecting; a tab that
    /// cannot be closed ignores both ways of closing.
    pub fn collect_tab_pointer_actions(
        &mut self,
        tab_id: TabId,
        pointer: TabPointer,
        can_close: bool,
    )
        ensures
            *final(self) == (TabBarActions {
                select: if pointer.clicked && !pointer.middle_clicked {
                    Some(tab_id)
                } else {
                    old(self).select
                },
                close: if can_close && (pointer.middle_clicked || pointer.close_clicked) {
                    Some(tab_id)
                } else {
                    old(self).close
                },
                drag_started: if pointer.drag_started {
                    Some(TabDragSource::Tab(tab_id))
                } else {
                    old(self).drag_started
                },
                drag_released: old(self).drag_released || pointer.drag_stopped,
            }),
            pointer.middle_clicked ==> final(self).select == old(self).select,
            !can_close ==> final(self).close == old(self).close,
            pointer.middle_clicked && can_close ==> final(self).close == Some(tab_id),
            pointer.drag_started ==> final(self).drag_started == Some(TabDragSource::Tab(tab_id)),
            pointer.drag_stopped ==> final(self).drag_released,
            old(self).drag_released ==> final(self).drag_released,
    {
        if pointer.drag_started {
            self.drag_started = Some(TabDragSource::Tab(tab_id));
        }
        self.drag_released = self.drag_released || pointer.drag_stopped;
        match tab_pointer_action(pointer.clicked, pointer.middle_clicked) {
            Some(TabPointerAction::Select) => {
                self.select = Some(tab_id);
            },
            Some(TabPointerAction::Close) => {
                if can_close {
                    self.close = Some(tab_id);
                }
            },
            None => {},
        }
        if can_close && pointer.close_clicked {
            self.close = Some(tab_id);
        }
    }
}

/// Where it is dropped.
#[derive(Clone, Copy, Debug, PartialEq, Eq, Structural)]
pub enum DropTarget {
    /// On the tab bar, at a gap, and over a tab and a split, if there is one.
    Bar { insertion: usize, over_tab: Option<TabId>, over_group: Option<SplitGroupId> },
    /// On the only pane, near an edge, if it is.
    OnlyPane { showing: TabId, placement: Option<SplitPlacement> },
    /// On one of two panes, or on none.
    TwoPanes { side: Option<SplitSide> },
}

/// An action of a split's menu.
#[derive(Clone, Copy, Debug, PartialEq, Eq, Structural)]
pub enum SplitMenuAction {
    SetDirection(SplitGroupId, SplitDirection),
    Swap(SplitGroupId),
    Unsplit(SplitGroupId),
}

/// What a drop or an action leads to.
#[verifier::ext_equal]
pub struct Rearrangement {
    pub tabs: TabsView,
    pub changed: bool,
    /// The tabs whose pane changed.
    pub moved: Seq<TabId>,
}

impl Rearrangement {
    /// Nothing changed.
    pub open spec fn nothing(tabs: TabsView) -> Rearrangement {
        Rearrangement { tabs, changed: false, moved: seq![] }
    }
}

/// The split that shows a tab.
pub open spec fn split_of(tabs: TabsView, tab: TabId) -> Option<SplitGroup> {
    if shown(tabs.entries, tab) {
        match tabs.entries[entry_of(tabs.entries, tab)] {
            TabEntry::Single(_) => None,
            TabEntry::Split(group) => Some(group),
        }
    } else {
        None
    }
}

/// What dropping a split on the tab bar leads to.
pub open spec fn group_on_bar(tabs: TabsView, id: SplitGroupId, insertion: int) -> Rearrangement {
    if insertion <= tabs.entries.len() && has_group(tabs.entries, id) {
        Rearrangement {
            tabs: tabs.move_entry(group_of(tabs.entries, id), insertion),
            changed: true,
            moved: seq![],
        }
    } else {
        Rearrangement::nothing(tabs)
    }
}

/// What dropping a member of a split on that split leads to: on the other member it swaps the
/// two.
pub open spec fn member_on_own_group(
    tabs: TabsView,
    tab: TabId,
    group: SplitGroup,
    over_tab: Option<TabId>,
) -> Rearrangement {
    let swaps = over_tab is Some && over_tab->0 != tab && split_of(tabs, over_tab->0) is Some
        && split_of(tabs, over_tab->0)->0.id == group.id;
    if swaps {
        Rearrangement {
            tabs: tabs.swap_split_members(group.id),
            changed: true,
            moved: seq![group.first, group.second],
        }
    } else {
        Rearrangement::nothing(tabs)
    }
}

/// What dropping a tab on the tab bar leads to.
pub open spec fn tab_on_bar(
    tabs: TabsView,
    tab: TabId,
    insertion: int,
    over_tab: Option<TabId>,
    over_group: Option<SplitGroupId>,
) -> Rearrangement {
    match split_of(tabs, tab) {
        Some(group) => if over_group == Some(group.id) {
            member_on_own_group(tabs, tab, group, over_tab)
        } else if tabs.can_extract(tab, insertion) {
            Rearrangement {
                tabs: tabs.extract_split_member(tab, insertion),
                changed: true,
                moved: seq![group.second],
            }
        } else {
            Rearrangement::nothing(tabs)
        },
        None => if tabs.can_reorder(tab, insertion) {
            Rearrangement {
                tabs: tabs.move_entry(entry_of(tabs.entries, tab), insertion),
                changed: true,
                moved: seq![],
            }
        } else {
            Rearrangement::nothing(tabs)
        },
    }
}

/// What dropping a tab on the only pane leads to.
pub open spec fn tab_on_only_pane(
    tabs: TabsView,
    tab: TabId,
    showing: TabId,
    placement: Option<SplitPlacement>,
) -> Rearrangement {
    if placement is Some && tabs.can_split(tab, showing) {
        Rearrangement {
            tabs: tabs.create_split(tab, showing, placement->0),
            changed: true,
            moved: match split_of(tabs, tab) {
                None => seq![tab, showing],
                Some(group) => seq![group.second, tab, showing],
            },
        }
    } else {
        Rearrangement::nothing(tabs)
    }
}

/// What dropping a tab on one of two panes leads to.
pub open spec fn tab_on_pane(tabs: TabsView, tab: TabId, side: Option<SplitSide>) -> Rearrangement {
    match tabs.active_entry() {
        Some(TabEntry::Split(group)) => if side is Some && tabs.can_replace_member(
            group.id,
            side->0,
            tab,
        ) {
            Rearrangement {
                tabs: tabs.replace_split_member(group.id, side->0, tab),
                changed: true,
                moved: seq![
                    tab,
                    group_at(tabs.entries, group_of(tabs.entries, group.id)).member(side->0),
                ],
            }
        } else {
            Rearrangement::nothing(tabs)
        },
        _ => Rearrangement::nothing(tabs),
    }
}

/// What a drop leads to.
pub open spec fn dropped(tabs: TabsView, source: TabDragSource, target: DropTarget) -> Rearrangement {
    match (source, target) {
        (TabDragSource::Group(id), DropTarget::Bar { insertion, .. }) => group_on_bar(
            tabs,
            id,
            insertion as int,
        ),
        (TabDragSource::Group(_), _) => Rearrangement::nothing(tabs),
        (TabDragSource::Tab(tab), DropTarget::Bar { insertion, over_tab, over_group }) =>
            tab_on_bar(tabs, tab, insertion as int, over_tab, over_group),
        (TabDragSource::Tab(tab), DropTarget::OnlyPane { showing, placement }) =>
            tab_on_only_pane(tabs, tab, showing, placement),
        (TabDragSource::Tab(tab), DropTarget::TwoPanes { side }) => tab_on_pane(tabs, tab, side),
    }
}

/// What an action of a split's menu leads to.
pub open spec fn menu_chosen(tabs: TabsView, action: SplitMenuAction) -> Rearrangement {
    let id = match action {
        SplitMenuAction::SetDirection(id, _) => id,
        SplitMenuAction::Swap(id) => id,
        SplitMenuAction::Unsplit(id) => id,
    };
    if !has_group(tabs.entries, id) {
        Rearrangement::nothing(tabs)
    } else {
        let group = group_at(tabs.entries, group_of(tabs.entries, id));
        match action {
            SplitMenuAction::SetDirection(_, direction) => Rearrangement {
                tabs: tabs.with_group(id, SplitGroup { direction, ..group }),
                changed: true,
                moved: seq![],
            },
            SplitMenuAction::Swap(_) => Rearrangement {
                tabs: tabs.swap_split_members(id),
                changed: true,
                moved: seq![group.first, group.second],
            },
            SplitMenuAction::Unsplit(_) => Rearrangement {
                tabs: tabs.unsplit(id),
                changed: true,
                moved: seq![group.second],
            },
        }
    }
}

impl TabState {
    fn split_copy(&self, tab: TabId) -> (res: Option<SplitGroup>)
        requires
            self.wf(),
        ensures
            res == split_of(self@, tab),
    {
        match self.split_for_tab(tab) {
            None => None,
            Some(group) => Some(*group),
        }
    }

    fn drop_on_bar(
        &mut self,
        tab: TabId,
        insertion: usize,
        over_tab: Option<TabId>,
        over_group: Option<SplitGroupId>,
    ) -> (res: (bool, Vec<TabId>))
        requires
            old(self).wf(),
        ensures
            final(self).wf(),
            ({
                let effect = tab_on_bar(
                    old(self)@,
                    tab,
                    insertion as int,
                    over_tab,
                    over_group,
                );
                &&& final(self)@ == effect.tabs
                &&& res.0 == effect.changed
                &&& res.1@ == effect.moved
            }),
    {
        let ghost before = self@;
        let mut moved: Vec<TabId> = Vec::new();
        match self.split_copy(tab) {
            Some(group) => {
                proof {
                    let e = entry_of(before.entries, tab);
                    assert(before.entries[e].is_group(group.id));
                    assert(has_group(before.entries, group.id));
                }
                let over_own = match over_group {
                    None => false,
                    Some(over) => over == group.id,
                };
                if over_own {
                    let swaps = match over_tab {
                        None => false,
                        Some(over) => over != tab && match self.split_copy(over) {
                            None => false,
                            Some(other) => other.id == group.id,
                        },
                    };
                    if swaps {
                        moved.push(group.first);
                        moved.push(group.second);
                        let changed = self.swap_split_members(group.id);
                        assert(moved@ =~= seq![group.first, group.second]);
                        return (changed, moved);
                    }
                    assert(moved@ =~= seq![]);
                    return (false, moved);
                }
                let changed = self.extract_split_member(tab, insertion);
                if changed {
                    moved.push(group.second);
                    assert(moved@ =~= seq![group.second]);
                } else {
                    assert(moved@ =~= seq![]);
                }
                (changed, moved)
            },
            None => {
                let changed = self.reorder_single(tab, insertion);
                assert(moved@ =~= seq![]);
                (changed, moved)
            },
        }
    }

    /// Drops what was dragged. Returns whether the tabs changed, and those whose pane did.
    pub fn drop_drag(&mut self, source: TabDragSource, target: DropTarget) -> (res: (
        bool,
        Vec<TabId>,
    ))
        requires
            old(self).wf(),
            old(self)@.next_split_group_id < u64::MAX,
            target is OnlyPane ==> old(self)@.registered(target->showing),
        ensures
            final(self).wf(),
            final(self)@ == dropped(old(self)@, source, target).tabs,
            res.0 == dropped(old(self)@, source, target).changed,
            res.1@ == dropped(old(self)@, source, target).moved,
    {
        let mut moved: Vec<TabId> = Vec::new();
        assert(moved@ =~= seq![]);
        match source {
            TabDragSource::Group(id) => match target {
                DropTarget::Bar { insertion, .. } => {
                    let changed = self.reorder_split(id, insertion);
                    (changed, moved)
                },
                _ => (false, moved),
            },
            TabDragSource::Tab(tab) => match target {
                DropTarget::Bar { insertion, over_tab, over_group } => self.drop_on_bar(
                    tab,
                    insertion,
                    over_tab,
                    over_group,
                ),
                DropTarget::OnlyPane { showing, placement } => match placement {
                    None => (false, moved),
                    Some(placement) => {
                        let group = self.split_copy(tab);
                        let changed = self.create_split(tab, showing, placement);
                        if changed {
                            if let Some(group) = group {
                                moved.push(group.second);
                            }
                            moved.push(tab);
                            moved.push(showing);
                            match group {
                                None => {
                                    assert(moved@ =~= seq![tab, showing]);
                                },
                                Some(group) => {
                                    assert(moved@ =~= seq![group.second, tab, showing]);
                                },
                            }
                        }
                        (changed, moved)
                    },
                },
                DropTarget::TwoPanes { side } => {
                    let group_id = match self.active_split() {
                        None => {
                            return (false, moved);
                        },
                        Some(group) => group.id(),
                    };
                    match side {
                        None => (false, moved),
                        Some(side) => match self.replace_split_member(group_id, side, tab) {
                            None => (false, moved),
                            Some(displaced) => {
                                moved.push(tab);
                                moved.push(displaced);
                                assert(moved@ =~= seq![tab, displaced]);
                                (true, moved)
                            },
                        },
                    }
                },
            },
        }
    }

    /// Takes an action of a split's menu. Returns whether the tabs changed, and those whose
    /// pane did.
    pub fn choose_menu(&mut self, action: SplitMenuAction) -> (res: (bool, Vec<TabId>))
        requires
            old(self).wf(),
        ensures
            final(self).wf(),
            final(self)@ == menu_chosen(old(self)@, action).tabs,
            res.0 == menu_chosen(old(self)@, action).changed,
            res.1@ == menu_chosen(old(self)@, action).moved,
    {
        let mut moved: Vec<TabId> = Vec::new();
        assert(moved@ =~= seq![]);
        match action {
            SplitMenuAction::SetDirection(id, direction) => {
                let changed = self.set_split_direction(id, direction);
                (changed, moved)
            },
            SplitMenuAction::Swap(id) => {
                let group = match self.split_group(id) {
                    None => {
                        return (false, moved);
                    },
                    Some(group) => *group,
                };
                moved.push(group.first);
                moved.push(group.second);
                assert(moved@ =~= seq![group.first, group.second]);
                let changed = self.swap_split_members(id);
                (changed, moved)
            },
            SplitMenuAction::Unsplit(id) => {
                let group = match self.split_group(id) {
                    None => {
                        return (false, moved);
                    },
                    Some(group) => *group,
                };
                moved.push(group.second);
                assert(moved@ =~= seq![group.second]);
                let changed = self.unsplit(id);
                (changed, moved)
            },
        }
    }
}

impl WorkspaceView {
    /// The workspace with its tabs rearranged, before the active tab is carried along.
    pub open spec fn rearranging(self, effect: Rearrangement) -> WorkspaceView {
        WorkspaceView {
            tabs: effect.tabs,
            documents: Seq::new(
                self.documents.len(),
                |i: int|
                    moved_if(self.documents[i], effect.moved.contains(effect.tabs.tabs[i].id)),
            ),
            ..self
        }
    }

    /// The workspace with its tabs rearranged: documents whose pane changed come back to the
    /// same point, and the active tab is carried along.
    pub open spec fn rearranged(self, effect: Rearrangement) -> WorkspaceView {
        if !effect.changed {
            self
        } else {
            match effect.tabs.active_index() {
                None => self.rearranging(effect),
                Some(index) => self.rearranging(effect).activate(
                    index,
                    active_word(self.tabs),
                    self.tabs.visible_words(),
                ),
            }
        }
    }
}

impl Workspace {
    fn move_documents(&mut self, moved: &Vec<TabId>)
        requires
            old(self).tabs.wf(),
            old(self)@.paired(),
        ensures
            final(self).tabs.wf(),
            final(self)@.paired(),
            final(self)@.restoring() == old(self)@.restoring(),
            final(self)@ == old(self)@.rearranging(
                (Rearrangement { tabs: old(self)@.tabs, changed: true, moved: moved@ }),
            ),
    {
        let ghost before = self@;
        let ghost effect = Rearrangement { tabs: before.tabs, changed: true, moved: moved@ };
        let ghost after = before.rearranging(effect);
        let mut i: usize = 0;
        while i < self.documents.len()
            invariant
                i <= self.documents.len(),
                self.tabs.wf(),
                before.paired(),
                effect == (Rearrangement { tabs: before.tabs, changed: true, moved: moved@ }),
                after == before.rearranging(effect),
                self@ == (WorkspaceView { documents: self@.documents, ..before }),
                self.documents@.len() == before.documents.len(),
                forall|k: int|
                    0 <= k < i ==> (#[trigger] self.documents@[k])@ == after.documents[k],
                forall|k: int|
                    i <= k < self.documents@.len() ==> (#[trigger] self.documents@[k])@
                        == before.documents[k],
            decreases self.documents.len() - i,
        {
            let ghost earlier = self.documents@;
            let all = self.tabs.tabs();
            assert(self@.tabs.tabs[i as int] == all@[i as int]@);
            if contains_tab(moved, all[i].id()) {
                self.documents[i].prepare_for_pane_transition();
                assert(self.documents@ =~= earlier.update(i as int, self.documents@[i as int]));
            }
            assert(self@ =~= (WorkspaceView { documents: self@.documents, ..before }));
            i += 1;
        }
        proof {
            assert(self@.documents =~= after.documents);
            assert(self@ =~= after);
            assert forall|k: int| 0 <= k < after.documents.len() implies (
            #[trigger] after.documents[k]).wf() && can_be_shown(after.documents[k])
                && after.documents[k].open_if_clean()
                && before.documents[k].restoring_from_session
                == after.documents[k].restoring_from_session by {
                assert(before.documents[k].wf() && can_be_shown(before.documents[k]));
            }
            assert forall|k: int| 0 <= k < before.documents.len() implies (
            #[trigger] before.documents[k]).restoring_from_session
                == after.documents[k].restoring_from_session by {
                assert(after.documents[k].wf());
            }
            restoring_count_of_same(
                before.documents,
                after.documents,
                before.documents.len() as int,
            );
        }
    }

    fn carry_along(
        &mut self,
        moved: &Vec<TabId>,
        previous: Option<usize>,
        previously_visible: &Vec<usize>,
    ) -> (res: Option<Activation>)
        requires
            old(self).tabs.wf(),
            old(self)@.paired(),
        ensures
            final(self).tabs.wf(),
            final(self)@.paired(),
            final(self)@.restoring() == old(self)@.restoring(),
            ({
                let effect = Rearrangement {
                    tabs: old(self)@.tabs,
                    changed: true,
                    moved: moved@,
                };
                let ready = old(self)@.rearranging(effect);
                match res {
                    None => old(self)@.tabs.active is None && final(self)@ == ready,
                    Some(activation) => {
                        let index = old(self)@.tabs.active_index()->0;
                        &&& old(self)@.tabs.active is Some
                        &&& final(self)@ == ready.activate(index, previous, previously_visible@)
                        &&& activation.fits(
                            ready,
                            index as usize,
                            previous,
                            previously_visible@,
                        )
                    },
                }
            }),
    {
        self.move_documents(moved);
        let count: usize = self.documents.len();
        match self.active_index() {
            None => None,
            Some(index) => {
                proof {
                    let tab = self@.tabs.active->0;
                    assert(self@.tabs.registered(tab));
                    assert(self@.tabs.tabs[self@.tabs.registry_of(tab)].id == tab);
                    assert(self@.tabs.registry_of(tab) < count);
                }
                Some(self.activate_document(index, previous, previously_visible))
            },
        }
    }

    /// Ends a drag. Returns what has to be done, if the tabs changed; the panes must then
    /// give up what the pointer was doing.
    pub fn finish_tab_drag(&mut self, source: TabDragSource, target: DropTarget) -> (res: (
        bool,
        Option<Activation>,
    ))
        requires
            old(self).wf(),
            old(self)@.tabs.next_split_group_id < u64::MAX,
            target is OnlyPane ==> old(self)@.tabs.registered(target->showing),
        ensures
            final(self).wf(),
            final(self)@ == old(self)@.rearranged(dropped(old(self)@.tabs, source, target)),
            res.0 == dropped(old(self)@.tabs, source, target).changed,
            res.1 is Some == (res.0 && final(self)@.tabs.active is Some),
            match res.1 {
                None => true,
                Some(activation) => {
                    let effect = dropped(old(self)@.tabs, source, target);
                    activation.fits(
                        old(self)@.rearranging(effect),
                        effect.tabs.active_index()->0 as usize,
                        active_word(old(self)@.tabs),
                        old(self)@.tabs.visible_words(),
                    )
                },
            },
    {
        let ghost before = self@;
        let previous = self.active_index();
        let previously_visible = self.tabs.visible_indices();
        let (changed, moved) = self.tabs.drop_drag(source, target);
        let ghost effect = dropped(before.tabs, source, target);
        proof {
            drops_keep_the_registry(before.tabs, source, target);
            assert(self@ =~= before.with_tabs(effect.tabs));
        }
        if !changed {
            assert(self@ =~= before) by {
                assert(effect.tabs == before.tabs);
            }
            return (false, None);
        }
        assert(self@.paired());
        let activation = self.carry_along(&moved, previous, &previously_visible);
        assert(before.with_tabs(effect.tabs).rearranging(
            (Rearrangement { tabs: effect.tabs, changed: true, moved: moved@ }),
        ) =~= before.rearranging(effect));
        (true, activation)
    }

    /// Takes an action of a split's menu. Returns what has to be done, if the tabs changed;
    /// the panes must then give up what the pointer was doing.
    pub fn apply_split_menu(&mut self, action: SplitMenuAction) -> (res: (bool, Option<Activation>))
        requires
            old(self).wf(),
        ensures
            final(self).wf(),
            final(self)@ == old(self)@.rearranged(menu_chosen(old(self)@.tabs, action)),
            res.0 == menu_chosen(old(self)@.tabs, action).changed,
            res.1 is Some == (res.0 && final(self)@.tabs.active is Some),
            match res.1 {
                None => true,
                Some(activation) => {
                    let effect = menu_chosen(old(self)@.tabs, action);
                    activation.fits(
                        old(self)@.rearranging(effect),
                        effect.tabs.active_index()->0 as usize,
                        active_word(old(self)@.tabs),
                        old(self)@.tabs.visible_words(),
                    )
                },
            },
    {
        let ghost before = self@;
        let previous = self.active_index();
        let previously_visible = self.tabs.visible_indices();
        let (changed, moved) = self.tabs.choose_menu(action);
        let ghost effect = menu_chosen(before.tabs, action);
        assert(self@ =~= before.with_tabs(effect.tabs));
        if !changed {
            assert(self@ =~= before);
            return (false, None);
        }
        assert(self@.paired());
        let activation = self.carry_along(&moved, previous, &previously_visible);
        assert(before.with_tabs(effect.tabs).rearranging(
            (Rearrangement { tabs: effect.tabs, changed: true, moved: moved@ }),
        ) =~= before.rearranging(effect));
        (true, activation)
    }
}

/// Whatever is dropped wherever, no tab comes or goes, and an unchanged bar is the same bar.
pub proof fn drops_keep_the_registry(tabs: TabsView, source: TabDragSource, target: DropTarget)
    ensures
        dropped(tabs, source, target).tabs.tabs == tabs.tabs,
        !dropped(tabs, source, target).changed ==> dropped(tabs, source, target).tabs == tabs,
{
}

/// What is shown while a tab or a split is dragged: its name, or those of its two members.
/// `names` has the name of each tab.
pub fn tab_drag_preview_label(tabs: &TabState, names: &Vec<String>, source: TabDragSource) -> (res:
    Option<String>)
    requires
        tabs.wf(),
        names@.len() == tabs@.tabs.len(),
    ensures
        match res {
            None => preview_label(tabs@, string_views(names@), source) is None,
            Some(label) => preview_label(tabs@, string_views(names@), source) == Some(label@),
        },
{
    match source {
        TabDragSource::Tab(tab) => match tabs.tab_registry_index(tab) {
            None => None,
            Some(index) => {
                assert(string_views(names@)[index as int] == names@[index as int]@);
                Some(names[index].clone())
            },
        },
        TabDragSource::Group(id) => {
            let group = match tabs.split_group(id) {
                None => {
                    return None;
                },
                Some(group) => *group,
            };
            proof {
                let e = group_of(tabs@.entries, id);
                assert(tabs@.entries[e].is_group(id));
                assert(tabs@.entries[e].has(group.first));
                assert(tabs@.entries[e].has(group.second));
                assert(tabs@.registered(group.first));
                assert(tabs@.registered(group.second));
            }
            match (tabs.tab_registry_index(group.first), tabs.tab_registry_index(group.second)) {
                (Some(first), Some(second)) => {
                    assert(string_views(names@)[first as int] == names@[first as int]@);
                    assert(string_views(names@)[second as int] == names@[second as int]@);
                    let mut label = with_text(names[first].as_str(), " ｜ ");
                    label.append(names[second].as_str());
                    Some(label)
                },
                _ => None,
            }
        },
    }
}

/// What is shown while a tab or a split is dragged.
pub open spec fn preview_label(tabs: TabsView, names: Seq<Seq<char>>, source: TabDragSource) -> Option<
    Seq<char>,
> {
    match source {
        TabDragSource::Tab(tab) => if tabs.registered(tab) {
            Some(names[tabs.registry_of(tab)])
        } else {
            None
        },
        TabDragSource::Group(id) => if has_group(tabs.entries, id) {
            let group = group_at(tabs.entries, group_of(tabs.entries, id));
            Some(
                names[tabs.registry_of(group.first)] + " ｜ "@ + names[tabs.registry_of(
                    group.second,
                )],
            )
        } else {
            None
        },
    }
}

/// The first gap from `from` on that the pointer is before.
pub open spec fn gap_from(centers: Seq<u32>, pointer_x: u32, from: int) -> int
    decreases centers.len() - from,
{
    if from >= centers.len() {
        centers.len() as int
    } else if below(pointer_x, centers[from]) {
        from
    } else {
        gap_from(centers, pointer_x, from + 1)
    }
}

/// The gap of the tab bar that the pointer is in: before the first entry whose middle is to
/// its right.
pub fn tab_insertion_index(centers: &Vec<u32>, pointer_x: u32) -> (res: usize)
    ensures
        res == gap_from(centers@, pointer_x, 0),
        res <= centers@.len(),
{
    let mut i: usize = 0;
    while i < centers.len()
        invariant
            i <= centers.len(),
            gap_from(centers@, pointer_x, 0) == gap_from(centers@, pointer_x, i as int),
        decreases centers.len() - i,
    {
        if number_below(pointer_x, centers[i]) {
            return i;
        }
        i += 1;
    }
    i
}

/// How far the pointer is from each edge of a page, as a share of the page.
#[derive(Clone, Copy, Debug, PartialEq, Eq, Structural)]
pub struct EdgeDistances {
    pub left: u32,
    pub right: u32,
    pub top: u32,
    pub bottom: u32,
}

impl EdgeDistances {
    pub open spec fn to(self, edge: SplitPlacement) -> u32 {
        match edge {
            SplitPlacement::Left => self.left,
            SplitPlacement::Right => self.right,
            SplitPlacement::Top => self.top,
            SplitPlacement::Bottom => self.bottom,
        }
    }

    /// The pointer is near an edge.
    pub open spec fn is_near(self, edge: SplitPlacement) -> bool {
        at_most(self.to(edge), SPLIT_DROP_EDGE_FRACTION_BITS)
    }

    /// The edge comes before another in the order left, right, top, bottom.
    pub open spec fn rank(edge: SplitPlacement) -> int {
        match edge {
            SplitPlacement::Left => 0,
            SplitPlacement::Right => 1,
            SplitPlacement::Top => 2,
            SplitPlacement::Bottom => 3,
        }
    }

    /// The nearest of the edges that the pointer is near; the first one of several.
    pub open spec fn is_nearest(self, edge: SplitPlacement) -> bool {
        &&& self.is_near(edge)
        &&& forall|other: SplitPlacement|
            #![trigger self.is_near(other)]
            self.is_near(other) ==> total_place(self.to(edge)) < total_place(self.to(other)) || (
            total_place(self.to(edge)) == total_place(self.to(other)) && EdgeDistances::rank(edge)
                <= EdgeDistances::rank(other))
    }
}

fn nearer(
    best: Option<(u32, SplitPlacement)>,
    distance: u32,
    edge: SplitPlacement,
) -> (res: Option<(u32, SplitPlacement)>)
    ensures
        res == (if at_most(distance, SPLIT_DROP_EDGE_FRACTION_BITS) && (best is None || total_place(
            distance,
        ) < total_place((best->0).0)) {
            Some((distance, edge))
        } else {
            best
        }),
{
    if !number_at_most(distance, SPLIT_DROP_EDGE_FRACTION_BITS) {
        return best;
    }
    match best {
        None => Some((distance, edge)),
        Some((nearest, _)) => if totally_before(distance, nearest) {
            Some((distance, edge))
        } else {
            best
        },
    }
}

/// Where a tab that is dropped on a page goes: to the nearest edge, and nowhere in the middle
/// or outside. `inside` says that the pointer is on a page with some extent.
pub fn split_drop_placement(inside: bool, distances: EdgeDistances) -> (res: Option<SplitPlacement>)
    ensures
        match res {
            None => !inside || forall|edge: SplitPlacement| !#[trigger] distances.is_near(edge),
            Some(edge) => inside && distances.is_nearest(edge),
        },
{
    if !inside {
        return None;
    }
    let left = nearer(None, distances.left, SplitPlacement::Left);
    let right = nearer(left, distances.right, SplitPlacement::Right);
    let top = nearer(right, distances.top, SplitPlacement::Top);
    let bottom = nearer(top, distances.bottom, SplitPlacement::Bottom);
    match bottom {
        None => None,
        Some((_, edge)) => Some(edge),
    }
}

} // verus!

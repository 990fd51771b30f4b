//! Which tabs are in the panes of the window, and which pane has the focus.
use crate::tab_laws::{entry_of_is, registered_is_shown};
use crate::tabs::{entry_of, SplitSide, TabEntry, TabId, TabState, TabsView};
use vstd::prelude::*;

verus! {

impl TabsView {
    /// The tabs in the panes, first pane first.
    pub open spec fn visible(self) -> Seq<TabId> {
        match self.active_entry() {
            None => seq![],
            Some(entry) => entry.members(),
        }
    }

    /// The tab at `index` is in a pane.
    pub open spec fn shows_index(self, index: int) -> bool {
        0 <= index < self.tabs.len() && self.visible().contains(self.tabs[index].id)
    }

    /// The pane that the tab at `index` is in.
    pub open spec fn side_of(self, index: int) -> Option<SplitSide> {
        if !(0 <= index < self.tabs.len()) {
            None
        } else {
            let id = self.tabs[index].id;
            let visible = self.visible();
            if visible.len() > 0 && visible[0] == id {
                Some(SplitSide::First)
            } else if visible.len() > 1 && visible[1] == id {
                Some(SplitSide::Second)
            } else {
                None
            }
        }
    }

    /// The pane that has the focus.
    pub open spec fn focused_side(self) -> SplitSide {
        match self.active_entry() {
            Some(TabEntry::Split(group)) if Some(group.first) != self.active => SplitSide::Second,
            _ => SplitSide::First,
        }
    }

    /// Two panes are on the screen.
    pub open spec fn is_split(self) -> bool {
        self.active_entry() is Some && self.active_entry()->0 is Split
    }

    /// The registry indices of the tabs in the panes, first pane first.
    pub open spec fn visible_words(self) -> Seq<usize> {
        Seq::new(self.visible().len(), |k: int| self.registry_of(self.visible()[k]) as usize)
    }

    /// Where the active tab stands in the registry.
    pub open spec fn active_index(self) -> Option<int> {
        match self.active {
            None => None,
            Some(tab) => Some(self.registry_of(tab)),
        }
    }
}

/// The registry index of a registered tab.
proof fn registry_is(tabs: TabsView, tab: TabId)
    requires
        tabs.registered(tab),
    ensures
        0 <= tabs.registry_of(tab) < tabs.tabs.len(),
        tabs.tabs[tabs.registry_of(tab)].id == tab,
{
}

/// The panes show the active tab, and only registered tabs, each once.
pub proof fn panes_show_the_active_tab(tabs: TabsView)
    requires
        tabs.wf(),
    ensures
        tabs.visible().len() <= 2,
        tabs.visible().no_duplicates(),
        tabs.is_split() == (tabs.visible().len() == 2),
        forall|k: int|
            0 <= k < tabs.visible().len() ==> tabs.registered(#[trigger] tabs.visible()[k]),
        tabs.active is Some ==> tabs.visible().contains(tabs.active->0),
        tabs.active is Some ==> tabs.shows_index(tabs.active_index()->0),
        tabs.active is None ==> tabs.visible().len() == 0,
        tabs.active is Some ==> tabs.side_of(tabs.active_index()->0) == Some(tabs.focused_side()),
{
    if tabs.active is Some {
        let tab = tabs.active->0;
        registry_is(tabs, tab);
        registered_is_shown(tabs, tab);
        let e = entry_of(tabs.entries, tab);
        entry_of_is(tabs.entries, tab, e);
        let entry = tabs.entries[e];
        assert(entry.has(tab));
        let visible = tabs.visible();
        match entry {
            TabEntry::Single(only) => {
                assert(visible[0] == tab);
                assert(entry.has(only));
            },
            TabEntry::Split(group) => {
                assert(visible[0] == group.first);
                assert(visible[1] == group.second);
                assert(entry.has(group.first));
                assert(entry.has(group.second));
                assert(tabs.registered(group.first));
                assert(tabs.registered(group.second));
            },
        }
    }
}

/// A tab is in a pane exactly if it has a side.
pub proof fn visible_tabs_have_a_side(tabs: TabsView, index: int)
    requires
        tabs.wf(),
    ensures
        tabs.shows_index(index) == (tabs.side_of(index) is Some),
{
    panes_show_the_active_tab(tabs);
    if 0 <= index < tabs.tabs.len() {
        let id = tabs.tabs[index].id;
        let visible = tabs.visible();
        if visible.contains(id) {
            let k = choose|k: int| 0 <= k < visible.len() && visible[k] == id;
            assert(k == 0 || k == 1);
        }
    }
}

impl TabState {
    /// The registry indices of the tabs in the panes, first pane first.
    pub fn visible_indices(&self) -> (res: Vec<usize>)
        requires
            self.wf(),
        ensures
            res@ == self@.visible_words(),
            forall|k: int| 0 <= k < res@.len() ==> (#[trigger] res@[k]) < self@.tabs.len(),
            forall|index: usize| #[trigger] self@.shows_index(index as int) == res@.contains(index),
    {
        proof {
            panes_show_the_active_tab(self@);
        }
        let visible = self.visible_tab_ids();
        let mut res: Vec<usize> = Vec::new();
        let mut k: usize = 0;
        while k < visible.len()
            invariant
                self.wf(),
                k <= visible.len(),
                visible@ == self@.visible(),
                forall|j: int|
                    0 <= j < visible@.len() ==> self@.registered(#[trigger] visible@[j]),
                res.len() == k,
                forall|j: int|
                    0 <= j < k ==> (#[trigger] res@[j]) < self@.tabs.len()
                        && self@.tabs[res@[j] as int].id == visible@[j] && res@[j]
                        == self@.registry_of(visible@[j]),
            decreases visible.len() - k,
        {
            let index = self.tab_registry_index(visible[k]);
            assert(self@.registered(visible@[k as int]));
            if let Some(index) = index {
                res.push(index);
            }
            k += 1;
        }
        proof {
            assert(res@ =~= self@.visible_words());
            assert forall|index: usize| #[trigger] self@.shows_index(index as int) == res@.contains(
                index,
            ) by {
                let id = self@.tabs[index as int].id;
                if self@.shows_index(index as int) {
                    let j = choose|j: int|
                        0 <= j < self@.visible().len() && self@.visible()[j] == id;
                    assert(self@.tabs[res@[j] as int].id == id);
                    assert(res@[j] == index);
                }
                if res@.contains(index) {
                    let j = choose|j: int| 0 <= j < res@.len() && res@[j] == index;
                    assert(self@.visible()[j] == id);
                }
            }
        }
        res
    }

    /// Whether the tab at `index` is in a pane.
    pub fn is_visible_index(&self, index: usize) -> (res: bool)
        requires
            self.wf(),
        ensures
            res == self@.shows_index(index as int),
    {
        proof {
            visible_tabs_have_a_side(self@, index as int);
        }
        self.side_for_index(index).is_some()
    }

    /// The pane that the tab at `index` is in.
    pub fn side_for_index(&self, index: usize) -> (res: Option<SplitSide>)
        requires
            self.wf(),
        ensures
            res == self@.side_of(index as int),
    {
        if index >= self.tabs().len() {
            return None;
        }
        let id = self.tabs()[index].id();
        let visible = self.visible_tab_ids();
        if visible.len() > 0 && visible[0] == id {
            Some(SplitSide::First)
        } else if visible.len() > 1 && visible[1] == id {
            Some(SplitSide::Second)
        } else {
            None
        }
    }

    /// The pane that has the focus.
    pub fn focused_side(&self) -> (res: SplitSide)
        requires
            self.wf(),
        ensures
            res == self@.focused_side(),
    {
        let active = match self.active_tab_id() {
            None => {
                return SplitSide::First;
            },
            Some(active) => active,
        };
        match self.active_split() {
            None => SplitSide::First,
            Some(group) => if group.tab(SplitSide::First) == active {
                SplitSide::First
            } else {
                SplitSide::Second
            },
        }
    }

    /// Whether two panes are on the screen.
    pub fn has_second_pane(&self) -> (res: bool)
        requires
            self.wf(),
        ensures
            res == self@.is_split(),
    {
        self.active_split().is_some()
    }

    /// Moves the focus to a pane. Says whether there is one.
    pub fn focus_side(&mut self, side: SplitSide) -> (res: bool)
        requires
            old(self).wf(),
        ensures
            final(self).wf(),
            ({
                let visible = old(self)@.visible();
                let at = if side is First {
                    0
                } else {
                    1int
                };
                &&& res == (at < visible.len())
                &&& final(self)@ == (if res {
                    old(self)@.select_tab(visible[at])
                } else {
                    old(self)@
                })
            }),
            final(self)@.tabs == old(self)@.tabs,
            final(self)@.entries.len() == old(self)@.entries.len(),
    {
        proof {
            panes_show_the_active_tab(self@);
        }
        let visible = self.visible_tab_ids();
        let at: usize = side.index();
        if at >= visible.len() {
            return false;
        }
        proof {
            let tab = visible@[at as int];
            assert(self@.registered(tab));
            registered_is_shown(self@, tab);
        }
        self.select_tab(visible[at])
    }
}

/// The pane that the pointer acts on: the first that holds it, unless something in front of the
/// panes takes it.
pub fn pointed_side(foreground_owns_pointer: bool, panes_hit: &Vec<bool>) -> (res: Option<SplitSide>)
    ensures
        res == (if foreground_owns_pointer {
            None
        } else if panes_hit@.len() > 0 && panes_hit@[0] {
            Some(SplitSide::First)
        } else if panes_hit@.len() > 1 && panes_hit@[1] {
            Some(SplitSide::Second)
        } else {
            None
        }),
        foreground_owns_pointer ==> res is None,
        res == Some(SplitSide::First) ==> panes_hit@[0],
        res == Some(SplitSide::Second) ==> panes_hit@[1] && !panes_hit@[0],
        !foreground_owns_pointer && panes_hit@.len() <= 2 && panes_hit@.contains(true)
            ==> res is Some,
{
    if foreground_owns_pointer {
        None
    } else if panes_hit.len() > 0 && panes_hit[0] {
        Some(SplitSide::First)
    } else if panes_hit.len() > 1 && panes_hit[1] {
        Some(SplitSide::Second)
    } else {
        None
    }
}

} // verus!

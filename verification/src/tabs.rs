//! The tab registry and the entries of the shared tab bar.
//!
//! Every open document is registered once, in the order it was opened. The tab bar
//! shows entries: a single tab, or a split that shows two tabs side by side. Each
//! registered tab is a member of exactly one entry.
use crate::path::{DocumentPath, PathView, same_path};
use crate::tab_laws::{
    append_keeps_wf, close_keeps_wf, create_split_keeps_wf, entry_of_is,
    extract_split_member_keeps_wf, group_of_is, move_entry_keeps_wf, path_of_is, rebind_keeps_wf,
    registered_is_shown, regroup_keeps_wf, replace_split_member_keeps_wf, restore_keeps_wf,
    select_tab_keeps_wf, splits_before_grows, swap_split_members_keeps_wf, taken_out_shows_the_rest,
    unsplit_keeps_wf,
};
use vstd::prelude::*;

verus! {

/// A tab's identity, never reused and independent of its position.
#[derive(Clone, Copy, Debug, PartialEq, Eq, Structural, Hash, PartialOrd, Ord)]
pub struct TabId(pub u64);

/// A split's identity, never reused.
#[derive(Clone, Copy, Debug, PartialEq, Eq, Structural, Hash, PartialOrd, Ord)]
pub struct SplitGroupId(pub u64);

/// Whether a list of tabs holds one.
pub(crate) fn contains_tab(tabs: &Vec<TabId>, tab: TabId) -> (res: bool)
    ensures
        res == tabs@.contains(tab),
{
    let mut i: usize = 0;
    while i < tabs.len()
        invariant
            i <= tabs.len(),
            forall|k: int| 0 <= k < i ==> (#[trigger] tabs@[k]) != tab,
        decreases tabs.len() - i,
    {
        if tabs[i] == tab {
            assert(tabs@[i as int] == tab);
            return true;
        }
        i += 1;
    }
    false
}

#[derive(Clone, Copy, Debug, PartialEq, Eq, Structural, Hash)]
pub enum SplitDirection {
    Horizontal,
    Vertical,
}

#[derive(Clone, Copy, Debug, PartialEq, Eq, Structural, Hash)]
pub enum SplitSide {
    First,
    Second,
}

impl SplitSide {
    pub open spec fn other(self) -> SplitSide {
        match self {
            SplitSide::First => SplitSide::Second,
            SplitSide::Second => SplitSide::First,
        }
    }

    pub fn index(self) -> (res: usize)
        ensures
            res == (if self is First { 0int } else { 1int }),
    {
        match self {
            SplitSide::First => 0,
            SplitSide::Second => 1,
        }
    }
}

/// The edge of a document that a dragged tab was dropped on.
#[derive(Clone, Copy, Debug, PartialEq, Eq, Structural, Hash)]
pub enum SplitPlacement {
    Left,
    Right,
    Top,
    Bottom,
}

impl SplitPlacement {
    pub open spec fn spec_direction(self) -> SplitDirection {
        if self is Left || self is Right {
            SplitDirection::Horizontal
        } else {
            SplitDirection::Vertical
        }
    }

    pub open spec fn spec_dragged_first(self) -> bool {
        self is Left || self is Top
    }

    pub fn direction(self) -> (res: SplitDirection)
        ensures
            res == self.spec_direction(),
    {
        match self {
            SplitPlacement::Left | SplitPlacement::Right => SplitDirection::Horizontal,
            SplitPlacement::Top | SplitPlacement::Bottom => SplitDirection::Vertical,
        }
    }

    /// Whether the dragged tab takes the first place of the new split.
    pub fn dragged_first(self) -> (res: bool)
        ensures
            res == self.spec_dragged_first(),
    {
        matches!(self, SplitPlacement::Left | SplitPlacement::Top)
    }
}

/// Whether `bits` is the pattern of a ratio from 0.1 to 0.9, both included.
///
/// The patterns of positive numbers are ordered as the numbers are, so two integer
/// comparisons also keep out infinities, negative numbers and what is not a number.
pub open spec fn ratio_in_range(bits: u32) -> bool {
    0x3DCC_CCCD <= bits <= 0x3F66_6666
}

/// The bit pattern of the ratio 0.5.
pub const HALF_RATIO_BITS: u32 = 0x3F00_0000;

pub fn valid_ratio(ratio_bits: u32) -> (res: bool)
    ensures
        res == ratio_in_range(ratio_bits),
{
    0x3DCC_CCCD <= ratio_bits && ratio_bits <= 0x3F66_6666
}

/// A registered tab.
#[derive(Debug, PartialEq, Eq)]
pub struct Tab {
    pub id: TabId,
    pub path: DocumentPath,
}

pub struct TabView {
    pub id: TabId,
    pub path: PathView,
}

impl View for Tab {
    type V = TabView;

    open spec fn view(&self) -> TabView {
        TabView { id: self.id, path: self.path@ }
    }
}

impl Tab {
    pub fn id(&self) -> (res: TabId)
        ensures
            res == self@.id,
    {
        self.id
    }

    pub fn path(&self) -> (res: &DocumentPath)
        ensures
            res@ == self@.path,
    {
        &self.path
    }
}

/// Two tabs shown side by side, one of which has the focus.
#[derive(Clone, Copy, Debug, PartialEq, Eq, Structural)]
pub struct SplitGroup {
    pub id: SplitGroupId,
    pub first: TabId,
    pub second: TabId,
    pub direction: SplitDirection,
    /// The bit pattern of the first pane's share.
    pub ratio_bits: u32,
    pub focused: SplitSide,
}

impl SplitGroup {
    pub open spec fn member(self, side: SplitSide) -> TabId {
        match side {
            SplitSide::First => self.first,
            SplitSide::Second => self.second,
        }
    }

    pub fn id(&self) -> (res: SplitGroupId)
        ensures
            res == self.id,
    {
        self.id
    }

    pub fn tabs(&self) -> (res: [TabId; 2])
        ensures
            res@ == seq![self.first, self.second],
    {
        let res: [TabId; 2] = [self.first, self.second];
        assert(res@ =~= seq![self.first, self.second]);
        res
    }

    pub fn tab(&self, side: SplitSide) -> (res: TabId)
        ensures
            res == self.member(side),
    {
        match side {
            SplitSide::First => self.first,
            SplitSide::Second => self.second,
        }
    }

    pub fn direction(&self) -> (res: SplitDirection)
        ensures
            res == self.direction,
    {
        self.direction
    }

    pub fn ratio(&self) -> (res: u32)
        ensures
            res == self.ratio_bits,
    {
        self.ratio_bits
    }

    pub fn focused(&self) -> (res: SplitSide)
        ensures
            res == self.focused,
    {
        self.focused
    }
}

/// One entry of the shared tab bar.
#[derive(Clone, Copy, Debug, PartialEq, Eq, Structural)]
pub enum TabEntry {
    Single(TabId),
    Split(SplitGroup),
}

impl TabEntry {
    /// Whether `tab` is a member.
    pub open spec fn has(self, tab: TabId) -> bool {
        match self {
            TabEntry::Single(only) => only == tab,
            TabEntry::Split(group) => group.first == tab || group.second == tab,
        }
    }

    /// The members, in display order.
    pub open spec fn members(self) -> Seq<TabId> {
        match self {
            TabEntry::Single(only) => seq![only],
            TabEntry::Split(group) => seq![group.first, group.second],
        }
    }

    /// The member that becomes active when the entry does.
    pub open spec fn focus(self) -> TabId {
        match self {
            TabEntry::Single(only) => only,
            TabEntry::Split(group) => group.member(group.focused),
        }
    }

    /// The other member of a split.
    pub open spec fn sibling(self, tab: TabId) -> Option<TabId> {
        match self {
            TabEntry::Single(_) => None,
            TabEntry::Split(group) => if group.first != tab {
                Some(group.first)
            } else if group.second != tab {
                Some(group.second)
            } else {
                None
            },
        }
    }

    /// The entry with `tab` focused.
    pub open spec fn focused_on(self, tab: TabId) -> TabEntry {
        match self {
            TabEntry::Single(only) => TabEntry::Single(only),
            TabEntry::Split(group) => TabEntry::Split(
                SplitGroup {
                    focused: if group.first == tab {
                        SplitSide::First
                    } else {
                        SplitSide::Second
                    },
                    ..group
                },
            ),
        }
    }

    /// The entry with `new` in the place of `old`.
    pub open spec fn with_member(self, old_tab: TabId, new_tab: TabId) -> TabEntry {
        match self {
            TabEntry::Single(_) => TabEntry::Single(new_tab),
            TabEntry::Split(group) => if group.first == old_tab {
                TabEntry::Split(SplitGroup { first: new_tab, ..group })
            } else {
                TabEntry::Split(SplitGroup { second: new_tab, ..group })
            },
        }
    }

    /// Whether this is the split with identity `id`.
    pub open spec fn is_group(self, id: SplitGroupId) -> bool {
        match self {
            TabEntry::Single(_) => false,
            TabEntry::Split(group) => group.id == id,
        }
    }

    pub fn tab_ids(&self) -> (res: Vec<TabId>)
        ensures
            res@ == self.members(),
    {
        let mut res: Vec<TabId> = Vec::new();
        match self {
            TabEntry::Single(only) => {
                res.push(*only);
            },
            TabEntry::Split(group) => {
                res.push(group.first);
                res.push(group.second);
            },
        }
        assert(res@ =~= self.members());
        res
    }

    pub fn contains(&self, tab_id: TabId) -> (res: bool)
        ensures
            res == self.has(tab_id),
    {
        match self {
            TabEntry::Single(only) => *only == tab_id,
            TabEntry::Split(group) => group.first == tab_id || group.second == tab_id,
        }
    }

    fn other_member(&self, tab_id: TabId) -> (res: Option<TabId>)
        ensures
            res == self.sibling(tab_id),
    {
        match self {
            TabEntry::Single(_) => None,
            TabEntry::Split(group) => if group.first != tab_id {
                Some(group.first)
            } else if group.second != tab_id {
                Some(group.second)
            } else {
                None
            },
        }
    }

    /// The member that becomes active when the entry does.
    pub fn entry_focus_tab(&self) -> (res: TabId)
        ensures
            res == self.focus(),
    {
        match self {
            TabEntry::Single(only) => *only,
            TabEntry::Split(group) => group.tab(group.focused),
        }
    }
}

/// Whether some entry shows `tab`.
pub open spec fn shown(entries: Seq<TabEntry>, tab: TabId) -> bool {
    exists|i: int| 0 <= i < entries.len() && (#[trigger] entries[i]).has(tab)
}

/// The index of the entry that shows `tab`.
pub open spec fn entry_of(entries: Seq<TabEntry>, tab: TabId) -> int {
    choose|i: int| 0 <= i < entries.len() && (#[trigger] entries[i]).has(tab)
}

/// Whether some entry is the split `id`.
pub open spec fn has_group(entries: Seq<TabEntry>, id: SplitGroupId) -> bool {
    exists|i: int| 0 <= i < entries.len() && (#[trigger] entries[i]).is_group(id)
}

/// The index of the split `id`.
pub open spec fn group_of(entries: Seq<TabEntry>, id: SplitGroupId) -> int {
    choose|i: int| 0 <= i < entries.len() && (#[trigger] entries[i]).is_group(id)
}

/// The split at `index`.
pub open spec fn group_at(entries: Seq<TabEntry>, index: int) -> SplitGroup {
    entries[index]->Split_0
}

/// No tab is a member of two entries.
pub open spec fn entries_disjoint(entries: Seq<TabEntry>) -> bool {
    forall|i: int, j: int, tab: TabId|
        #![trigger entries[i].has(tab), entries[j].has(tab)]
        0 <= i < entries.len() && 0 <= j < entries.len() && entries[i].has(tab) && entries[j].has(
            tab,
        ) ==> i == j
}

/// No two splits share an identity.
pub open spec fn groups_distinct(entries: Seq<TabEntry>) -> bool {
    forall|i: int, j: int, id: SplitGroupId|
        #![trigger entries[i].is_group(id), entries[j].is_group(id)]
        0 <= i < entries.len() && 0 <= j < entries.len() && entries[i].is_group(id)
            && entries[j].is_group(id) ==> i == j
}

/// A split shows two different tabs, with a ratio in range and an issued identity.
pub open spec fn entry_ok(entry: TabEntry, next_split_group_id: int) -> bool {
    match entry {
        TabEntry::Single(_) => true,
        TabEntry::Split(group) => {
            &&& group.first != group.second
            &&& ratio_in_range(group.ratio_bits)
            &&& group.id.0 < next_split_group_id
        },
    }
}

/// The members of all entries, in display order.
pub open spec fn display_order(entries: Seq<TabEntry>) -> Seq<TabId>
    decreases entries.len(),
{
    if entries.len() == 0 {
        seq![]
    } else {
        display_order(entries.drop_last()) + entries.last().members()
    }
}

/// The entry at `current` moved to the gap `insertion`; the gap is counted before the
/// entry leaves its place. A move whose gap, capped at the last entry, is the entry's
/// own place or the one after it changes nothing.
pub open spec fn moved(entries: Seq<TabEntry>, current: int, insertion: int) -> Seq<TabEntry> {
    let target = if insertion < entries.len() - 1 {
        insertion
    } else {
        entries.len() - 1
    };
    if target == current || target == current + 1 {
        entries
    } else {
        let adjusted = if insertion > current {
            insertion - 1
        } else {
            insertion
        };
        entries.remove(current).insert(adjusted, entries[current])
    }
}

/// Whether the registry holds `tab`.
pub open spec fn registered_in(tabs: Seq<TabView>, tab: TabId) -> bool {
    exists|i: int| 0 <= i < tabs.len() && (#[trigger] tabs[i]).id == tab
}

/// What the tab state holds.
#[verifier::ext_equal]
pub struct TabsView {
    pub tabs: Seq<TabView>,
    pub entries: Seq<TabEntry>,
    pub active: Option<TabId>,
    pub next_tab_id: int,
    pub next_split_group_id: int,
}

impl TabsView {
    pub open spec fn registered(self, tab: TabId) -> bool {
        registered_in(self.tabs, tab)
    }

    /// The registry position of a registered tab.
    pub open spec fn registry_of(self, tab: TabId) -> int {
        choose|i: int| 0 <= i < self.tabs.len() && (#[trigger] self.tabs[i]).id == tab
    }

    pub open spec fn has_path(self, path: PathView) -> bool {
        exists|i: int| 0 <= i < self.tabs.len() && same_path((#[trigger] self.tabs[i]).path, path)
    }

    /// The registry position of the tab for `path`.
    pub open spec fn path_of(self, path: PathView) -> int {
        choose|i: int| 0 <= i < self.tabs.len() && same_path((#[trigger] self.tabs[i]).path, path)
    }

    /// Identities are issued once and no document is registered twice.
    pub open spec fn registry_ok(self) -> bool {
        &&& forall|i: int, j: int|
            0 <= i < j < self.tabs.len() ==> (#[trigger] self.tabs[i]).id != (
            #[trigger] self.tabs[j]).id
        &&& forall|i: int, j: int|
            0 <= i < j < self.tabs.len() ==> !same_path(
                (#[trigger] self.tabs[i]).path,
                (#[trigger] self.tabs[j]).path,
            )
        &&& forall|i: int|
            0 <= i < self.tabs.len() ==> (#[trigger] self.tabs[i]).id.0 < self.next_tab_id
    }

    /// Every registered tab is a member of exactly one well-formed entry.
    pub open spec fn layout_ok(self) -> bool {
        &&& entries_disjoint(self.entries)
        &&& groups_distinct(self.entries)
        &&& forall|i: int|
            0 <= i < self.entries.len() ==> entry_ok(
                #[trigger] self.entries[i],
                self.next_split_group_id,
            )
        &&& forall|i: int, tab: TabId|
            0 <= i < self.entries.len() && (#[trigger] self.entries[i].has(tab))
                ==> self.registered(tab)
        &&& forall|i: int|
            0 <= i < self.tabs.len() ==> shown(self.entries, (#[trigger] self.tabs[i]).id)
    }

    /// A tab is active whenever there is one, and a split that shows it focuses it.
    pub open spec fn active_ok(self) -> bool {
        match self.active {
            None => self.tabs.len() == 0,
            Some(tab) => {
                &&& self.registered(tab)
                &&& forall|i: int|
                    0 <= i < self.entries.len() && (#[trigger] self.entries[i]).has(tab)
                        ==> self.entries[i].focus() == tab
            },
        }
    }

    /// The invariant of the tab state.
    pub open spec fn wf(self) -> bool {
        &&& self.registry_ok()
        &&& self.layout_ok()
        &&& self.active_ok()
        &&& self.next_tab_id >= 0
        &&& self.next_split_group_id >= 0
    }

    /// The entry that shows the active tab.
    pub open spec fn active_entry(self) -> Option<TabEntry> {
        match self.active {
            None => None,
            Some(tab) => Some(self.entries[entry_of(self.entries, tab)]),
        }
    }

    /// Makes `tab` active; nothing changes when no entry shows it.
    pub open spec fn select_tab(self, tab: TabId) -> TabsView {
        if shown(self.entries, tab) {
            let e = entry_of(self.entries, tab);
            TabsView {
                entries: self.entries.update(e, self.entries[e].focused_on(tab)),
                active: Some(tab),
                ..self
            }
        } else {
            self
        }
    }

    /// Registers `path` in a single entry behind the active one.
    pub open spec fn append(self, path: PathView) -> TabsView {
        let id = TabId(self.next_tab_id as u64);
        let gap = match self.active {
            None => self.entries.len() as int,
            Some(tab) => entry_of(self.entries, tab) + 1,
        };
        TabsView {
            tabs: self.tabs.push(TabView { id, path }),
            entries: self.entries.insert(gap, TabEntry::Single(id)),
            active: Some(id),
            next_tab_id: self.next_tab_id + 1,
            ..self
        }
    }

    /// Opens `path`, or selects the tab that already shows it.
    pub open spec fn open(self, path: PathView) -> TabsView {
        if self.has_path(path) {
            self.select_tab(self.tabs[self.path_of(path)].id)
        } else {
            self.append(path)
        }
    }

    /// Whether another tab than the one at `index` shows `path`.
    pub open spec fn path_taken(self, index: int, path: PathView) -> bool {
        exists|i: int|
            0 <= i < self.tabs.len() && i != index && same_path((#[trigger] self.tabs[i]).path, path)
    }

    /// Gives the tab at `index` another path.
    pub open spec fn rebind(self, index: int, path: PathView) -> TabsView {
        TabsView {
            tabs: self.tabs.update(index, TabView { id: self.tabs[index].id, path }),
            ..self
        }
    }

    /// Closes the tab at `index`. A split shrinks to its other member; the active tab
    /// passes to that member, or to the entry that moves into the freed place, or to
    /// the one before it.
    pub open spec fn close(self, index: int) -> TabsView {
        let tab = self.tabs[index].id;
        let e = entry_of(self.entries, tab);
        let entries = match self.entries[e].sibling(tab) {
            None => self.entries.remove(e),
            Some(sibling) => self.entries.update(e, TabEntry::Single(sibling)),
        };
        let active = if self.active != Some(tab) {
            self.active
        } else if self.entries[e].sibling(tab) is Some {
            self.entries[e].sibling(tab)
        } else if e < entries.len() {
            Some(entries[e].focus())
        } else if entries.len() > 0 {
            Some(entries[e - 1].focus())
        } else {
            None
        };
        TabsView { tabs: self.tabs.remove(index), entries, active, ..self }
    }

    /// The entries after `tab` left its place for a new split.
    pub open spec fn taken_out(self, tab: TabId) -> Seq<TabEntry> {
        let e = entry_of(self.entries, tab);
        match self.entries[e].sibling(tab) {
            None => self.entries.remove(e),
            Some(sibling) => self.entries.update(e, TabEntry::Single(sibling)),
        }
    }

    /// Whether `dragged` can form a split with `target`.
    pub open spec fn can_split(self, dragged: TabId, target: TabId) -> bool {
        &&& dragged != target
        &&& self.registered(dragged)
        &&& self.entries[entry_of(self.entries, target)] is Single
    }

    /// Forms a split of `dragged` and `target` where `target` was.
    pub open spec fn create_split(
        self,
        dragged: TabId,
        target: TabId,
        placement: SplitPlacement,
    ) -> TabsView {
        let remaining = self.taken_out(dragged);
        let group = SplitGroup {
            id: SplitGroupId(self.next_split_group_id as u64),
            first: if placement.spec_dragged_first() {
                dragged
            } else {
                target
            },
            second: if placement.spec_dragged_first() {
                target
            } else {
                dragged
            },
            direction: placement.spec_direction(),
            ratio_bits: HALF_RATIO_BITS,
            focused: if placement.spec_dragged_first() {
                SplitSide::First
            } else {
                SplitSide::Second
            },
        };
        TabsView {
            entries: remaining.update(entry_of(remaining, target), TabEntry::Split(group)),
            active: Some(dragged),
            next_split_group_id: self.next_split_group_id + 1,
            ..self
        }
    }

    /// Whether `dragged` can take the place of the member on `side` of the split `id`.
    pub open spec fn can_replace_member(
        self,
        id: SplitGroupId,
        side: SplitSide,
        dragged: TabId,
    ) -> bool {
        &&& has_group(self.entries, id)
        &&& group_at(self.entries, group_of(self.entries, id)).member(side) != dragged
        &&& shown(self.entries, dragged)
    }

    /// `dragged` and the member on `side` of the split `id` change places; `dragged`
    /// becomes active there.
    pub open spec fn replace_split_member(
        self,
        id: SplitGroupId,
        side: SplitSide,
        dragged: TabId,
    ) -> TabsView {
        let t = group_of(self.entries, id);
        let displaced = group_at(self.entries, t).member(side);
        let s = entry_of(self.entries, dragged);
        if s == t {
            self.swap_split_members(id).select_tab(dragged)
        } else {
            let sources = self.entries.update(
                s,
                self.entries[s].with_member(dragged, displaced),
            );
            let replaced = sources[t].with_member(displaced, dragged)->Split_0;
            TabsView {
                entries: sources.update(
                    t,
                    TabEntry::Split(SplitGroup { focused: side, ..replaced }),
                ),
                active: Some(dragged),
                ..self
            }
        }
    }

    /// Replaces the split `id`; nothing else changes.
    pub open spec fn with_group(self, id: SplitGroupId, group: SplitGroup) -> TabsView {
        TabsView {
            entries: self.entries.update(group_of(self.entries, id), TabEntry::Split(group)),
            ..self
        }
    }

    /// Exchanges the members of the split `id`; the focus stays on its tab.
    pub open spec fn swap_split_members(self, id: SplitGroupId) -> TabsView {
        let group = group_at(self.entries, group_of(self.entries, id));
        self.with_group(
            id,
            SplitGroup {
                first: group.second,
                second: group.first,
                focused: group.focused.other(),
                ..group
            },
        )
    }

    /// Dissolves the split `id` into its two members.
    pub open spec fn unsplit(self, id: SplitGroupId) -> TabsView {
        let e = group_of(self.entries, id);
        let group = group_at(self.entries, e);
        TabsView {
            entries: self.entries.update(e, TabEntry::Single(group.first)).insert(
                e + 1,
                TabEntry::Single(group.second),
            ),
            ..self
        }
    }

    /// Whether `tab` can leave its split for the gap `insertion`.
    pub open spec fn can_extract(self, tab: TabId, insertion: int) -> bool {
        &&& insertion <= self.entries.len()
        &&& shown(self.entries, tab)
        &&& self.entries[entry_of(self.entries, tab)] is Split
    }

    /// Moves `tab` out of its split to the gap `insertion`.
    pub open spec fn extract_split_member(self, tab: TabId, insertion: int) -> TabsView {
        let e = entry_of(self.entries, tab);
        TabsView {
            entries: self.entries.update(
                e,
                TabEntry::Single(self.entries[e].sibling(tab).unwrap()),
            ).insert(insertion, TabEntry::Single(tab)),
            ..self
        }
    }

    /// Whether `tab` is a single entry that can move to the gap `insertion`.
    pub open spec fn can_reorder(self, tab: TabId, insertion: int) -> bool {
        &&& insertion <= self.entries.len()
        &&& shown(self.entries, tab)
        &&& self.entries[entry_of(self.entries, tab)] is Single
    }

    /// Moves the entry at `current` to the gap `insertion`.
    pub open spec fn move_entry(self, current: int, insertion: int) -> TabsView {
        TabsView { entries: moved(self.entries, current, insertion), ..self }
    }
}

/// An entry of a layout to restore.
#[derive(Clone, Copy, Debug, PartialEq, Eq, Structural)]
pub enum RestoredTabEntry {
    Single(TabId),
    Split {
        first: TabId,
        second: TabId,
        direction: SplitDirection,
        /// The bit pattern of the first pane's share.
        ratio_bits: u32,
        focused: SplitSide,
    },
}

impl RestoredTabEntry {
    /// Whether `tab` is a member.
    pub open spec fn has(self, tab: TabId) -> bool {
        match self {
            RestoredTabEntry::Single(only) => only == tab,
            RestoredTabEntry::Split { first, second, .. } => first == tab || second == tab,
        }
    }

    /// Whether a split shows two different tabs, with a ratio in range, and focuses the
    /// active tab if it shows it.
    pub open spec fn acceptable(self, active: TabId) -> bool {
        match self {
            RestoredTabEntry::Single(_) => true,
            RestoredTabEntry::Split { first, second, ratio_bits, focused, .. } => {
                &&& first != second
                &&& ratio_in_range(ratio_bits)
                &&& self.has(active) ==> active == (if focused is First {
                    first
                } else {
                    second
                })
            },
        }
    }

    /// The entry this becomes; a split gets the identity `id`.
    pub open spec fn with_id(self, id: int) -> TabEntry {
        match self {
            RestoredTabEntry::Single(only) => TabEntry::Single(only),
            RestoredTabEntry::Split { first, second, direction, ratio_bits, focused } =>
            TabEntry::Split(
                SplitGroup {
                    id: SplitGroupId(id as u64),
                    first,
                    second,
                    direction,
                    ratio_bits,
                    focused,
                },
            ),
        }
    }

    fn contains(&self, tab_id: TabId) -> (res: bool)
        ensures
            res == self.has(tab_id),
    {
        match self {
            RestoredTabEntry::Single(only) => *only == tab_id,
            RestoredTabEntry::Split { first, second, .. } => *first == tab_id || *second == tab_id,
        }
    }
}

/// The number of splits among the first `count` entries.
pub open spec fn splits_before(restored: Seq<RestoredTabEntry>, count: int) -> int
    decreases count,
{
    if count <= 0 {
        0
    } else {
        splits_before(restored, count - 1) + (if restored[count - 1] is Split {
            1int
        } else {
            0int
        })
    }
}

/// Whether one of the first `count` entries shows `tab`.
pub open spec fn restored_before(
    restored: Seq<RestoredTabEntry>,
    count: int,
    tab: TabId,
) -> bool {
    exists|i: int| 0 <= i < count && (#[trigger] restored[i]).has(tab)
}

impl TabsView {
    /// Whether a layout shows every registered tab exactly once and nothing else, with
    /// every split acceptable.
    pub open spec fn restorable(
        self,
        restored: Seq<RestoredTabEntry>,
        active: Option<TabId>,
    ) -> bool {
        if self.tabs.len() == 0 {
            restored.len() == 0 && active is None
        } else {
            &&& active is Some
            &&& forall|i: int|
                0 <= i < restored.len() ==> (#[trigger] restored[i]).acceptable(active->0)
            &&& forall|i: int, tab: TabId|
                0 <= i < restored.len() && (#[trigger] restored[i].has(tab)) ==> self.registered(
                    tab,
                )
            &&& forall|i: int, j: int, tab: TabId|
                #![trigger restored[i].has(tab), restored[j].has(tab)]
                0 <= i < restored.len() && 0 <= j < restored.len() && restored[i].has(tab)
                    && restored[j].has(tab) ==> i == j
            &&& forall|i: int|
                0 <= i < self.tabs.len() ==> restored_before(
                    restored,
                    restored.len() as int,
                    (#[trigger] self.tabs[i]).id,
                )
            &&& self.registered(active->0)
        }
    }

    /// Replaces the whole layout; splits get new identities in order.
    pub open spec fn restore_layout(
        self,
        restored: Seq<RestoredTabEntry>,
        active: Option<TabId>,
    ) -> TabsView {
        TabsView {
            entries: Seq::new(
                restored.len(),
                |i: int|
                    restored[i].with_id(self.next_split_group_id + splits_before(restored, i)),
            ),
            active,
            next_split_group_id: self.next_split_group_id + splits_before(
                restored,
                restored.len() as int,
            ),
            ..self
        }
    }
}

/// What opening a document did.
#[derive(Clone, Copy, Debug, PartialEq, Eq, Structural)]
pub enum OpenTabResult {
    Opened(usize),
    SelectedExisting(usize),
}

/// Why a tab could not take another path.
#[derive(Clone, Copy, Debug, PartialEq, Eq, Structural)]
pub enum RebindError {
    /// Another tab already shows the path.
    AlreadyExists,
    /// No tab has that registry position.
    NotFound,
}

/// The tab registry, the tab bar and the active tab.
#[derive(Debug)]
pub struct TabState {
    tabs: Vec<Tab>,
    entries: Vec<TabEntry>,
    active: Option<TabId>,
    next_tab_id: u64,
    next_split_group_id: u64,
}

/// What the registry holds.
pub open spec fn tab_views(tabs: Seq<Tab>) -> Seq<TabView> {
    Seq::new(tabs.len(), |i: int| tabs[i]@)
}

impl View for TabState {
    type V = TabsView;

    closed spec fn view(&self) -> TabsView {
        TabsView {
            tabs: tab_views(self.tabs@),
            entries: self.entries@,
            active: self.active,
            next_tab_id: self.next_tab_id as int,
            next_split_group_id: self.next_split_group_id as int,
        }
    }
}

impl TabState {
    /// The invariant of the tab state.
    pub open spec fn wf(&self) -> bool {
        self@.wf()
    }

    /// An empty state without an active tab.
    pub fn new() -> (res: Self)
        ensures
            res.wf(),
            res@ == (TabsView {
                tabs: seq![],
                entries: seq![],
                active: None,
                next_tab_id: 0,
                next_split_group_id: 0,
            }),
    {
        let res = TabState {
            tabs: Vec::new(),
            entries: Vec::new(),
            active: None,
            next_tab_id: 0,
            next_split_group_id: 0,
        };
        assert(res@.tabs =~= seq![]);
        assert(res@.entries =~= seq![]);
        res
    }

    /// The tabs in registry order, which no rearrangement of the tab bar changes.
    pub fn tabs(&self) -> (res: &Vec<Tab>)
        ensures
            tab_views(res@) == self@.tabs,
    {
        &self.tabs
    }

    /// The entries of the tab bar in display order.
    pub fn entries(&self) -> (res: &Vec<TabEntry>)
        ensures
            res@ == self@.entries,
    {
        &self.entries
    }

    pub fn active_tab_id(&self) -> (res: Option<TabId>)
        ensures
            res == self@.active,
    {
        self.active
    }

    /// Whether another tab identity can be issued.
    pub fn can_issue_tab_id(&self) -> (res: bool)
        ensures
            res == (self@.next_tab_id < u64::MAX),
    {
        self.next_tab_id < u64::MAX
    }

    /// Whether `count` more split identities can be issued.
    pub fn can_issue_split_ids(&self, count: usize) -> (res: bool)
        ensures
            res == (self@.next_split_group_id + count <= u64::MAX),
    {
        count as u128 <= (u64::MAX - self.next_split_group_id) as u128
    }

    fn entry_index_for_tab(&self, tab_id: TabId) -> (res: Option<usize>)
        requires
            entries_disjoint(self@.entries),
        ensures
            match res {
                None => !shown(self@.entries, tab_id),
                Some(index) => {
                    &&& index < self@.entries.len()
                    &&& self@.entries[index as int].has(tab_id)
                    &&& shown(self@.entries, tab_id)
                    &&& entry_of(self@.entries, tab_id) == index
                },
            },
    {
        let mut index: usize = 0;
        while index < self.entries.len()
            invariant
                index <= self.entries.len(),
                entries_disjoint(self@.entries),
                forall|k: int| 0 <= k < index ==> !(#[trigger] self.entries@[k]).has(tab_id),
            decreases self.entries.len() - index,
        {
            if self.entries[index].contains(tab_id) {
                proof {
                    entry_of_is(self@.entries, tab_id, index as int);
                }
                return Some(index);
            }
            index += 1;
        }
        None
    }

    fn entry_index_for_group(&self, group_id: SplitGroupId) -> (res: Option<usize>)
        requires
            groups_distinct(self@.entries),
        ensures
            match res {
                None => !has_group(self@.entries, group_id),
                Some(index) => {
                    &&& index < self@.entries.len()
                    &&& self@.entries[index as int].is_group(group_id)
                    &&& has_group(self@.entries, group_id)
                    &&& group_of(self@.entries, group_id) == index
                },
            },
    {
        let mut index: usize = 0;
        while index < self.entries.len()
            invariant
                index <= self.entries.len(),
                groups_distinct(self@.entries),
                forall|k: int| 0 <= k < index ==> !(#[trigger] self.entries@[k]).is_group(group_id),
            decreases self.entries.len() - index,
        {
            if let TabEntry::Split(group) = &self.entries[index] {
                if group.id == group_id {
                    proof {
                        group_of_is(self@.entries, group_id, index as int);
                    }
                    return Some(index);
                }
            }
            index += 1;
        }
        None
    }

    /// The registry position of a tab.
    pub fn tab_registry_index(&self, tab_id: TabId) -> (res: Option<usize>)
        requires
            self.wf(),
        ensures
            match res {
                None => !self@.registered(tab_id),
                Some(index) => {
                    &&& index < self@.tabs.len()
                    &&& self@.tabs[index as int].id == tab_id
                    &&& self@.registered(tab_id)
                    &&& index == self@.registry_of(tab_id)
                },
            },
    {
        let mut index: usize = 0;
        while index < self.tabs.len()
            invariant
                index <= self.tabs.len(),
                self.wf(),
                forall|k: int| 0 <= k < index ==> (#[trigger] self.tabs@[k]).id != tab_id,
            decreases self.tabs.len() - index,
        {
            if self.tabs[index].id == tab_id {
                proof {
                    assert(self@.tabs[index as int].id == tab_id);
                    let chosen = self@.registry_of(tab_id);
                    assert(self@.tabs[chosen].id == tab_id);
                }
                return Some(index);
            }
            index += 1;
        }
        assert forall|k: int| 0 <= k < self@.tabs.len() implies (#[trigger] self@.tabs[k]).id
            != tab_id by {
            assert(self.tabs@[k].id != tab_id);
        }
        None
    }

    /// The registry position of the active tab.
    pub fn selected_index(&self) -> (res: Option<usize>)
        requires
            self.wf(),
        ensures
            match self@.active {
                None => res is None,
                Some(tab) => res is Some && res->0 == self@.registry_of(tab),
            },
    {
        match self.active {
            None => None,
            Some(tab) => self.tab_registry_index(tab),
        }
    }

    /// The entry that shows the active tab.
    pub fn active_entry(&self) -> (res: Option<&TabEntry>)
        requires
            self.wf(),
        ensures
            match self@.active_entry() {
                None => res is None,
                Some(entry) => res is Some && *res->0 == entry,
            },
    {
        match self.active {
            None => None,
            Some(tab) => {
                proof {
                    registered_is_shown(self@, tab);
                }
                match self.entry_index_for_tab(tab) {
                    None => None,
                    Some(index) => Some(&self.entries[index]),
                }
            },
        }
    }

    /// The split that shows the active tab.
    pub fn active_split(&self) -> (res: Option<&SplitGroup>)
        requires
            self.wf(),
        ensures
            match self@.active_entry() {
                Some(TabEntry::Split(group)) => res is Some && *res->0 == group,
                _ => res is None,
            },
    {
        match self.active_entry() {
            None => None,
            Some(entry) => match entry {
                TabEntry::Single(_) => None,
                TabEntry::Split(group) => Some(group),
            },
        }
    }

    /// The tabs on screen: the members of the active entry.
    pub fn visible_tab_ids(&self) -> (res: Vec<TabId>)
        requires
            self.wf(),
        ensures
            res@ == (match self@.active_entry() {
                None => seq![],
                Some(entry) => entry.members(),
            }),
    {
        match self.active_entry() {
            None => {
                let res: Vec<TabId> = Vec::new();
                assert(res@ =~= seq![]);
                res
            },
            Some(entry) => entry.tab_ids(),
        }
    }

    /// All tabs in display order.
    pub fn display_tab_ids(&self) -> (res: Vec<TabId>)
        ensures
            res@ == display_order(self@.entries),
    {
        let mut res: Vec<TabId> = Vec::new();
        let mut i: usize = 0;
        assert(res@ =~= display_order(self.entries@.take(0)));
        while i < self.entries.len()
            invariant
                i <= self.entries.len(),
                res@ == display_order(self.entries@.take(i as int)),
            decreases self.entries.len() - i,
        {
            let mut members = self.entries[i].tab_ids();
            proof {
                let next = self.entries@.take(i + 1);
                assert(next.drop_last() =~= self.entries@.take(i as int));
            }
            res.append(&mut members);
            i += 1;
        }
        assert(self.entries@.take(i as int) =~= self.entries@);
        res
    }

    /// The split that shows a tab.
    pub fn split_for_tab(&self, tab_id: TabId) -> (res: Option<&SplitGroup>)
        requires
            self.wf(),
        ensures
            match res {
                None => shown(self@.entries, tab_id) ==> self@.entries[entry_of(
                    self@.entries,
                    tab_id,
                )] is Single,
                Some(group) => shown(self@.entries, tab_id) && self@.entries[entry_of(
                    self@.entries,
                    tab_id,
                )] == TabEntry::Split(*group),
            },
    {
        match self.entry_index_for_tab(tab_id) {
            None => None,
            Some(index) => match &self.entries[index] {
                TabEntry::Single(_) => None,
                TabEntry::Split(group) => Some(group),
            },
        }
    }

    /// The split with an identity.
    pub fn split_group(&self, group_id: SplitGroupId) -> (res: Option<&SplitGroup>)
        requires
            self.wf(),
        ensures
            match res {
                None => !has_group(self@.entries, group_id),
                Some(group) => has_group(self@.entries, group_id) && *group == group_at(
                    self@.entries,
                    group_of(self@.entries, group_id),
                ),
            },
    {
        match self.entry_index_for_group(group_id) {
            None => None,
            Some(index) => match &self.entries[index] {
                TabEntry::Single(_) => None,
                TabEntry::Split(group) => Some(group),
            },
        }
    }

    /// Makes the tab at a registry position active.
    pub fn select(&mut self, index: usize) -> (res: bool)
        requires
            old(self).wf(),
        ensures
            final(self).wf(),
            res == (index < old(self)@.tabs.len()),
            final(self)@ == (if res {
                old(self)@.select_tab(old(self)@.tabs[index as int].id)
            } else {
                old(self)@
            }),
    {
        if index >= self.tabs.len() {
            return false;
        }
        let tab_id = self.tabs[index].id;
        assert(self@.tabs[index as int].id == tab_id);
        self.select_tab(tab_id)
    }

    /// Makes a tab active and, in a split, focuses it.
    pub fn select_tab(&mut self, tab_id: TabId) -> (res: bool)
        requires
            old(self).wf(),
        ensures
            final(self).wf(),
            res == shown(old(self)@.entries, tab_id),
            final(self)@ == old(self)@.select_tab(tab_id),
    {
        let ghost before = self@;
        match self.entry_index_for_tab(tab_id) {
            None => false,
            Some(index) => {
                if let TabEntry::Split(group) = self.entries[index] {
                    let focused = if group.first == tab_id {
                        SplitSide::First
                    } else {
                        SplitSide::Second
                    };
                    self.entries.set(index, TabEntry::Split(SplitGroup { focused, ..group }));
                } else {
                    assert(self.entries@ =~= self.entries@.update(
                        index as int,
                        self.entries@[index as int],
                    ));
                }
                self.active = Some(tab_id);
                proof {
                    select_tab_keeps_wf(before, tab_id);
                    assert(self@ =~= before.select_tab(tab_id));
                }
                true
            },
        }
    }

    /// Opens the document at a canonical path, or selects the tab that shows it.
    pub fn open(&mut self, path: DocumentPath) -> (res: OpenTabResult)
        requires
            old(self).wf(),
            !old(self)@.has_path(path@) ==> old(self)@.next_tab_id < u64::MAX,
        ensures
            final(self).wf(),
            final(self)@ == old(self)@.open(path@),
            match res {
                OpenTabResult::SelectedExisting(index) => old(self)@.has_path(path@) && index
                    == old(self)@.path_of(path@),
                OpenTabResult::Opened(index) => !old(self)@.has_path(path@) && index
                    == old(self)@.tabs.len(),
            },
    {
        let ghost before = self@;
        let mut index: usize = 0;
        while index < self.tabs.len()
            invariant
                index <= self.tabs.len(),
                self@ == before,
                before == old(self)@,
                before.wf(),
                forall|k: int|
                    0 <= k < index ==> !same_path((#[trigger] before.tabs[k]).path, path@),
            decreases self.tabs.len() - index,
        {
            if self.tabs[index].path.same(&path) {
                let tab_id = self.tabs[index].id;
                proof {
                    assert(same_path(before.tabs[index as int].path, path@));
                    path_of_is(before, path@, index as int);
                    registered_is_shown(before, before.tabs[index as int].id);
                }
                let _selected = self.select_tab(tab_id);
                return OpenTabResult::SelectedExisting(index);
            }
            index += 1;
        }
        let position: usize = self.tabs.len();
        let id = TabId(self.next_tab_id);
        let gap: usize = match self.active {
            None => self.entries.len(),
            Some(active) => {
                proof {
                    registered_is_shown(before, active);
                }
                match self.entry_index_for_tab(active) {
                    None => self.entries.len(),
                    Some(entry) => {
                        assert(entry < self.entries.len());
                        entry + 1
                    },
                }
            },
        };
        self.next_tab_id = self.next_tab_id + 1;
        let ghost path_view = path@;
        self.tabs.push(Tab { id, path });
        self.entries.insert(gap, TabEntry::Single(id));
        self.active = Some(id);
        proof {
            append_keeps_wf(before, path_view);
            assert(self@.tabs =~= before.append(path_view).tabs);
            assert(self@ =~= before.append(path_view));
        }
        OpenTabResult::Opened(position)
    }

    /// Follows a document to another canonical path. The tab keeps its identity and its
    /// place.
    pub fn rebind_path(&mut self, index: usize, path: DocumentPath) -> (res: Result<(), RebindError>)
        requires
            old(self).wf(),
        ensures
            final(self).wf(),
            match res {
                Ok(()) => index < old(self)@.tabs.len() && !old(self)@.path_taken(
                    index as int,
                    path@,
                ) && final(self)@ == old(self)@.rebind(index as int, path@),
                Err(RebindError::AlreadyExists) => old(self)@.path_taken(index as int, path@)
                    && final(self)@ == old(self)@,
                Err(RebindError::NotFound) => index >= old(self)@.tabs.len()
                    && !old(self)@.path_taken(index as int, path@) && final(self)@ == old(self)@,
            },
    {
        let ghost before = self@;
        let mut other: usize = 0;
        while other < self.tabs.len()
            invariant
                other <= self.tabs.len(),
                self@ == before,
                before == old(self)@,
                before.wf(),
                forall|k: int|
                    0 <= k < other && k != index ==> !same_path(
                        (#[trigger] before.tabs[k]).path,
                        path@,
                    ),
            decreases self.tabs.len() - other,
        {
            if other != index && self.tabs[other].path.same(&path) {
                assert(same_path(before.tabs[other as int].path, path@));
                return Err(RebindError::AlreadyExists);
            }
            other += 1;
        }
        if index >= self.tabs.len() {
            return Err(RebindError::NotFound);
        }
        let id = self.tabs[index].id;
        let ghost path_view = path@;
        self.tabs.set(index, Tab { id, path });
        proof {
            assert(self@.tabs =~= before.rebind(index as int, path_view).tabs);
            rebind_keeps_wf(before, index as int, path_view);
        }
        Ok(())
    }
}

fn seen_before(seen: &Vec<TabId>, tab_id: TabId) -> (res: bool)
    ensures
        res == seen@.contains(tab_id),
{
    let mut i: usize = 0;
    while i < seen.len()
        invariant
            i <= seen.len(),
            forall|k: int| 0 <= k < i ==> seen@[k] != tab_id,
        decreases seen.len() - i,
    {
        if seen[i] == tab_id {
            assert(seen@[i as int] == tab_id);
            return true;
        }
        i += 1;
    }
    false
}

impl TabState {
    /// Closes the tab at a registry position and returns it.
    pub fn close(&mut self, index: usize) -> (res: Option<Tab>)
        requires
            old(self).wf(),
        ensures
            final(self).wf(),
            match res {
                None => index >= old(self)@.tabs.len() && final(self)@ == old(self)@,
                Some(tab) => index < old(self)@.tabs.len() && tab@ == old(self)@.tabs[index as int]
                    && final(self)@ == old(self)@.close(index as int),
            },
    {
        let ghost before = self@;
        if index >= self.tabs.len() {
            return None;
        }
        let tab_id = self.tabs[index].id;
        proof {
            assert(before.tabs[index as int].id == tab_id);
            assert(shown(before.entries, before.tabs[index as int].id));
            close_keeps_wf(before, index as int);
        }
        let entry_index: usize = match self.entry_index_for_tab(tab_id) {
            None => {
                return None;
            },
            Some(entry_index) => entry_index,
        };
        let replacement = self.entries[entry_index].other_member(tab_id);
        match replacement {
            None => {
                let _entry = self.entries.remove(entry_index);
            },
            Some(sibling) => {
                self.entries.set(entry_index, TabEntry::Single(sibling));
            },
        }
        let removed = self.tabs.remove(index);
        if self.active == Some(tab_id) {
            self.active = match replacement {
                Some(sibling) => Some(sibling),
                None => if entry_index < self.entries.len() {
                    Some(self.entries[entry_index].entry_focus_tab())
                } else if self.entries.len() > 0 {
                    Some(self.entries[entry_index - 1].entry_focus_tab())
                } else {
                    None
                },
            };
        }
        proof {
            assert(self@.tabs =~= before.close(index as int).tabs);
            assert(self@ =~= before.close(index as int));
        }
        Some(removed)
    }

    /// Takes a tab out of its entry so that it can join a new split.
    fn extract_source_for_new_split(&mut self, tab_id: TabId)
        requires
            old(self).wf(),
            old(self)@.registered(tab_id),
        ensures
            final(self)@ == (TabsView { entries: old(self)@.taken_out(tab_id), ..old(self)@ }),
    {
        let ghost before = self@;
        proof {
            registered_is_shown(before, tab_id);
        }
        if let Some(source_index) = self.entry_index_for_tab(tab_id) {
            match self.entries[source_index].other_member(tab_id) {
                None => {
                    let _entry = self.entries.remove(source_index);
                },
                Some(sibling) => {
                    self.entries.set(source_index, TabEntry::Single(sibling));
                },
            }
        }
        assert(self@ =~= (TabsView { entries: before.taken_out(tab_id), ..before }));
    }

    /// Forms a split of a dragged tab and a tab in a single entry.
    pub fn create_split(
        &mut self,
        dragged_tab: TabId,
        target_tab: TabId,
        placement: SplitPlacement,
    ) -> (res: bool)
        requires
            old(self).wf(),
            dragged_tab != target_tab && old(self)@.registered(dragged_tab)
                ==> old(self)@.registered(target_tab) && old(self)@.next_split_group_id < u64::MAX,
        ensures
            final(self).wf(),
            res == old(self)@.can_split(dragged_tab, target_tab),
            final(self)@ == (if res {
                old(self)@.create_split(dragged_tab, target_tab, placement)
            } else {
                old(self)@
            }),
    {
        let ghost before = self@;
        if dragged_tab == target_tab || self.tab_registry_index(dragged_tab).is_none() {
            return false;
        }
        proof {
            registered_is_shown(before, target_tab);
            registered_is_shown(before, dragged_tab);
        }
        match self.entry_index_for_tab(target_tab) {
            None => {
                return false;
            },
            Some(index) => {
                if let TabEntry::Split(_) = self.entries[index] {
                    return false;
                }
            },
        }
        proof {
            create_split_keeps_wf(before, dragged_tab, target_tab, placement);
            taken_out_shows_the_rest(before, dragged_tab);
        }
        self.extract_source_for_new_split(dragged_tab);
        let target_index: usize = match self.entry_index_for_tab(target_tab) {
            None => {
                return false;
            },
            Some(target_index) => target_index,
        };
        let dragged_first = placement.dragged_first();
        let group = SplitGroup {
            id: SplitGroupId(self.next_split_group_id),
            first: if dragged_first {
                dragged_tab
            } else {
                target_tab
            },
            second: if dragged_first {
                target_tab
            } else {
                dragged_tab
            },
            direction: placement.direction(),
            ratio_bits: HALF_RATIO_BITS,
            focused: if dragged_first {
                SplitSide::First
            } else {
                SplitSide::Second
            },
        };
        self.next_split_group_id = self.next_split_group_id + 1;
        self.entries.set(target_index, TabEntry::Split(group));
        self.active = Some(dragged_tab);
        assert(self@ =~= before.create_split(dragged_tab, target_tab, placement));
        true
    }

    /// Exchanges a dragged tab with a member of a split, and returns the tab that gave
    /// up its place.
    pub fn replace_split_member(
        &mut self,
        group_id: SplitGroupId,
        side: SplitSide,
        dragged_tab: TabId,
    ) -> (res: Option<TabId>)
        requires
            old(self).wf(),
        ensures
            final(self).wf(),
            match res {
                None => !old(self)@.can_replace_member(group_id, side, dragged_tab) && final(self)@
                    == old(self)@,
                Some(displaced) => old(self)@.can_replace_member(group_id, side, dragged_tab)
                    && displaced == group_at(
                    old(self)@.entries,
                    group_of(old(self)@.entries, group_id),
                ).member(side) && final(self)@ == old(self)@.replace_split_member(
                    group_id,
                    side,
                    dragged_tab,
                ),
            },
    {
        let ghost before = self@;
        let target_entry: usize = match self.entry_index_for_group(group_id) {
            None => {
                return None;
            },
            Some(target_entry) => target_entry,
        };
        let group = match self.entries[target_entry] {
            TabEntry::Single(_) => {
                return None;
            },
            TabEntry::Split(group) => group,
        };
        let target_tab = group.tab(side);
        if target_tab == dragged_tab {
            return None;
        }
        let source_entry: usize = match self.entry_index_for_tab(dragged_tab) {
            None => {
                return None;
            },
            Some(source_entry) => source_entry,
        };
        proof {
            replace_split_member_keeps_wf(before, group_id, side, dragged_tab);
            assert(entry_ok(before.entries[target_entry as int], before.next_split_group_id));
        }
        if source_entry == target_entry {
            let _swapped = self.swap_split_members(group_id);
            // The focus goes by the places after the exchange.
            let _selected = self.select_tab(dragged_tab);
            return Some(target_tab);
        }
        match self.entries[source_entry] {
            TabEntry::Single(_) => {
                self.entries.set(source_entry, TabEntry::Single(target_tab));
            },
            TabEntry::Split(source) => {
                if source.first == dragged_tab {
                    self.entries.set(
                        source_entry,
                        TabEntry::Split(SplitGroup { first: target_tab, ..source }),
                    );
                } else {
                    self.entries.set(
                        source_entry,
                        TabEntry::Split(SplitGroup { second: target_tab, ..source }),
                    );
                }
            },
        }
        let replaced = match side {
            SplitSide::First => SplitGroup { first: dragged_tab, focused: side, ..group },
            SplitSide::Second => SplitGroup { second: dragged_tab, focused: side, ..group },
        };
        self.entries.set(target_entry, TabEntry::Split(replaced));
        self.active = Some(dragged_tab);
        assert(self@ =~= before.replace_split_member(group_id, side, dragged_tab));
        Some(target_tab)
    }

    /// Exchanges the two members of a split.
    pub fn swap_split_members(&mut self, group_id: SplitGroupId) -> (res: bool)
        requires
            old(self).wf(),
        ensures
            final(self).wf(),
            res == has_group(old(self)@.entries, group_id),
            final(self)@ == (if res {
                old(self)@.swap_split_members(group_id)
            } else {
                old(self)@
            }),
    {
        let ghost before = self@;
        let entry_index: usize = match self.entry_index_for_group(group_id) {
            None => {
                return false;
            },
            Some(entry_index) => entry_index,
        };
        proof {
            swap_split_members_keeps_wf(before, group_id);
        }
        if let TabEntry::Split(group) = self.entries[entry_index] {
            let focused = match group.focused {
                SplitSide::First => SplitSide::Second,
                SplitSide::Second => SplitSide::First,
            };
            self.entries.set(
                entry_index,
                TabEntry::Split(
                    SplitGroup { first: group.second, second: group.first, focused, ..group },
                ),
            );
        }
        assert(self@ =~= before.swap_split_members(group_id));
        true
    }

    /// Dissolves a split into single entries at the same place.
    pub fn unsplit(&mut self, group_id: SplitGroupId) -> (res: bool)
        requires
            old(self).wf(),
        ensures
            final(self).wf(),
            res == has_group(old(self)@.entries, group_id),
            final(self)@ == (if res {
                old(self)@.unsplit(group_id)
            } else {
                old(self)@
            }),
    {
        let ghost before = self@;
        let entry_index: usize = match self.entry_index_for_group(group_id) {
            None => {
                return false;
            },
            Some(entry_index) => entry_index,
        };
        proof {
            unsplit_keeps_wf(before, group_id);
        }
        if let TabEntry::Split(group) = self.entries[entry_index] {
            assert(entry_index < self.entries.len());
            self.entries.set(entry_index, TabEntry::Single(group.first));
            self.entries.insert(entry_index + 1, TabEntry::Single(group.second));
        }
        assert(self@ =~= before.unsplit(group_id));
        true
    }

    /// Moves a member of a split to a gap of the tab bar; the other member becomes a
    /// single entry.
    pub fn extract_split_member(&mut self, tab_id: TabId, insertion_index: usize) -> (res: bool)
        requires
            old(self).wf(),
        ensures
            final(self).wf(),
            res == old(self)@.can_extract(tab_id, insertion_index as int),
            final(self)@ == (if res {
                old(self)@.extract_split_member(tab_id, insertion_index as int)
            } else {
                old(self)@
            }),
    {
        let ghost before = self@;
        if insertion_index > self.entries.len() {
            return false;
        }
        let entry_index: usize = match self.entry_index_for_tab(tab_id) {
            None => {
                return false;
            },
            Some(entry_index) => entry_index,
        };
        assert(entry_ok(before.entries[entry_index as int], before.next_split_group_id));
        match self.entries[entry_index].other_member(tab_id) {
            None => false,
            Some(sibling) => {
                proof {
                    extract_split_member_keeps_wf(before, tab_id, insertion_index as int);
                }
                self.entries.set(entry_index, TabEntry::Single(sibling));
                self.entries.insert(insertion_index, TabEntry::Single(tab_id));
                assert(self@ =~= before.extract_split_member(tab_id, insertion_index as int));
                true
            },
        }
    }

    fn move_entry(&mut self, current: usize, insertion: usize)
        requires
            old(self).wf(),
            current < old(self)@.entries.len(),
            insertion <= old(self)@.entries.len(),
        ensures
            final(self).wf(),
            final(self)@ == old(self)@.move_entry(current as int, insertion as int),
    {
        let ghost before = self@;
        proof {
            move_entry_keeps_wf(before, current as int, insertion as int);
        }
        let last: usize = self.entries.len() - 1;
        let target: usize = if insertion < last {
            insertion
        } else {
            last
        };
        assert(current < self.entries.len());
        if target == current || target == current + 1 {
            assert(self@ =~= before.move_entry(current as int, insertion as int));
            return;
        }
        let entry = self.entries.remove(current);
        let adjusted: usize = if insertion > current {
            insertion - 1
        } else {
            insertion
        };
        self.entries.insert(adjusted, entry);
        assert(self@ =~= before.move_entry(current as int, insertion as int));
    }

    /// Moves a single entry to a gap of the tab bar.
    pub fn reorder_single(&mut self, tab_id: TabId, insertion_index: usize) -> (res: bool)
        requires
            old(self).wf(),
        ensures
            final(self).wf(),
            res == old(self)@.can_reorder(tab_id, insertion_index as int),
            final(self)@ == (if res {
                old(self)@.move_entry(
                    entry_of(old(self)@.entries, tab_id),
                    insertion_index as int,
                )
            } else {
                old(self)@
            }),
    {
        if insertion_index > self.entries.len() {
            return false;
        }
        match self.entry_index_for_tab(tab_id) {
            None => false,
            Some(current) => {
                if let TabEntry::Split(_) = self.entries[current] {
                    return false;
                }
                self.move_entry(current, insertion_index);
                true
            },
        }
    }

    /// Moves a split to a gap of the tab bar.
    pub fn reorder_split(&mut self, group_id: SplitGroupId, insertion_index: usize) -> (res: bool)
        requires
            old(self).wf(),
        ensures
            final(self).wf(),
            res == (insertion_index <= old(self)@.entries.len() && has_group(
                old(self)@.entries,
                group_id,
            )),
            final(self)@ == (if res {
                old(self)@.move_entry(
                    group_of(old(self)@.entries, group_id),
                    insertion_index as int,
                )
            } else {
                old(self)@
            }),
    {
        if insertion_index > self.entries.len() {
            return false;
        }
        match self.entry_index_for_group(group_id) {
            None => false,
            Some(current) => {
                self.move_entry(current, insertion_index);
                true
            },
        }
    }

    pub fn set_split_direction(
        &mut self,
        group_id: SplitGroupId,
        direction: SplitDirection,
    ) -> (res: bool)
        requires
            old(self).wf(),
        ensures
            final(self).wf(),
            res == has_group(old(self)@.entries, group_id),
            final(self)@ == (if res {
                old(self)@.with_group(
                    group_id,
                    SplitGroup {
                        direction,
                        ..group_at(old(self)@.entries, group_of(old(self)@.entries, group_id))
                    },
                )
            } else {
                old(self)@
            }),
    {
        let ghost before = self@;
        match self.entry_index_for_group(group_id) {
            None => false,
            Some(entry_index) => {
                assert(entry_ok(before.entries[entry_index as int], before.next_split_group_id));
                if let TabEntry::Split(group) = self.entries[entry_index] {
                    let changed = SplitGroup { direction, ..group };
                    proof {
                        regroup_keeps_wf(before, group_id, changed);
                    }
                    self.entries.set(entry_index, TabEntry::Split(changed));
                    assert(self@ =~= before.with_group(group_id, changed));
                }
                true
            },
        }
    }

    /// Sets the first pane's share of a split; a ratio out of range is refused.
    pub fn set_split_ratio(&mut self, group_id: SplitGroupId, ratio_bits: u32) -> (res: bool)
        requires
            old(self).wf(),
        ensures
            final(self).wf(),
            res == (ratio_in_range(ratio_bits) && has_group(old(self)@.entries, group_id)),
            final(self)@ == (if res {
                old(self)@.with_group(
                    group_id,
                    SplitGroup {
                        ratio_bits,
                        ..group_at(old(self)@.entries, group_of(old(self)@.entries, group_id))
                    },
                )
            } else {
                old(self)@
            }),
    {
        let ghost before = self@;
        if !valid_ratio(ratio_bits) {
            return false;
        }
        match self.entry_index_for_group(group_id) {
            None => false,
            Some(entry_index) => {
                assert(entry_ok(before.entries[entry_index as int], before.next_split_group_id));
                if let TabEntry::Split(group) = self.entries[entry_index] {
                    let changed = SplitGroup { ratio_bits, ..group };
                    proof {
                        regroup_keeps_wf(before, group_id, changed);
                    }
                    self.entries.set(entry_index, TabEntry::Split(changed));
                    assert(self@ =~= before.with_group(group_id, changed));
                }
                true
            },
        }
    }

    /// The tab that becomes active when the user cycles to the next entry. A split
    /// counts as one entry.
    pub fn next_entry_tab(&self) -> (res: Option<TabId>)
        requires
            self.wf(),
        ensures
            match res {
                None => self@.entries.len() == 0,
                Some(tab) => self@.active is Some && tab == self@.entries[(entry_of(
                    self@.entries,
                    self@.active->0,
                ) + 1) % (self@.entries.len() as int)].focus(),
            },
    {
        match self.active {
            None => {
                proof {
                    if self@.entries.len() > 0 {
                        let first = self@.entries[0];
                        assert(first.has(first.focus()));
                        assert(self@.registered(first.focus()));
                    }
                }
                None
            },
            Some(active) => {
                proof {
                    registered_is_shown(self@, active);
                }
                match self.entry_index_for_tab(active) {
                    None => None,
                    Some(current) => {
                        let count: usize = self.entries.len();
                        assert(current < count);
                        let next: usize = (current + 1) % count;
                        Some(self.entries[next].entry_focus_tab())
                    },
                }
            },
        }
    }

    /// Applies a restored layout as a whole, or changes nothing and returns `false`.
    #[verifier::rlimit(60)]
    pub fn restore_layout(
        &mut self,
        restored: Vec<RestoredTabEntry>,
        active: Option<TabId>,
    ) -> (res: bool)
        requires
            old(self).wf(),
            old(self)@.restorable(restored@, active) ==> old(self)@.next_split_group_id
                + splits_before(restored@, restored@.len() as int) <= u64::MAX,
        ensures
            final(self).wf(),
            res == old(self)@.restorable(restored@, active),
            final(self)@ == (if res {
                old(self)@.restore_layout(restored@, active)
            } else {
                old(self)@
            }),
    {
        let ghost before = self@;
        if self.tabs.len() == 0 {
            assert(self@.tabs.len() == 0);
            if restored.len() > 0 || active.is_some() {
                return false;
            }
            self.entries.clear();
            self.active = None;
            proof {
                restore_keeps_wf(before, restored@, active);
                assert(self@ =~= before.restore_layout(restored@, active));
            }
            return true;
        }
        assert(self@.tabs.len() > 0);
        let focus: TabId = match active {
            None => {
                return false;
            },
            Some(focus) => focus,
        };
        let mut seen: Vec<TabId> = Vec::new();
        let mut i: usize = 0;
        while i < restored.len()
            invariant
                i <= restored.len(),
                self@ == before,
                before == old(self)@,
                before.wf(),
                before.tabs.len() > 0,
                active == Some(focus),
                forall|t: TabId|
                    seen@.contains(t) == #[trigger] restored_before(restored@, i as int, t),
                forall|k: int| 0 <= k < i ==> (#[trigger] restored@[k]).acceptable(focus),
                forall|k: int, t: TabId|
                    0 <= k < i && (#[trigger] restored@[k].has(t)) ==> before.registered(t),
                forall|k: int, j: int, t: TabId|
                    #![trigger restored@[k].has(t), restored@[j].has(t)]
                    0 <= k < i && 0 <= j < i && restored@[k].has(t) && restored@[j].has(t) ==> k
                        == j,
            decreases restored.len() - i,
        {
            let entry = restored[i];
            let ghost earlier = seen@;
            let mut members: Vec<TabId> = Vec::new();
            match entry {
                RestoredTabEntry::Single(only) => {
                    members.push(only);
                },
                RestoredTabEntry::Split { first, second, direction: _, ratio_bits, focused } => {
                    if first == second || !valid_ratio(ratio_bits) {
                        assert(!restored@[i as int].acceptable(focus));
                        return false;
                    }
                    let focused_tab = match focused {
                        SplitSide::First => first,
                        SplitSide::Second => second,
                    };
                    if entry.contains(focus) && focused_tab != focus {
                        assert(!restored@[i as int].acceptable(focus));
                        return false;
                    }
                    members.push(first);
                    members.push(second);
                },
            }
            assert forall|t: TabId| entry.has(t) == #[trigger] members@.contains(t) by {
                if entry.has(t) {
                    assert(members@[0] == t || members@[1] == t);
                }
            }
            assert(members@.no_duplicates());
            let mut m: usize = 0;
            while m < members.len()
                invariant
                    m <= members.len(),
                    i < restored.len(),
                    entry == restored@[i as int],
                    self@ == before,
                    before == old(self)@,
                    before.wf(),
                    before.tabs.len() > 0,
                    active == Some(focus),
                    members@.no_duplicates(),
                    forall|t: TabId| entry.has(t) == #[trigger] members@.contains(t),
                    seen@ == earlier + members@.take(m as int),
                    forall|t: TabId|
                        earlier.contains(t) == #[trigger] restored_before(restored@, i as int, t),
                    forall|k: int|
                        0 <= k < m ==> before.registered(#[trigger] members@[k])
                            && !restored_before(restored@, i as int, members@[k]),
                decreases members.len() - m,
            {
                let tab_id = members[m];
                assert(members@.contains(tab_id));
                assert(restored@[i as int].has(tab_id));
                if self.tab_registry_index(tab_id).is_none() {
                    return false;
                }
                if seen_before(&seen, tab_id) {
                    proof {
                        assert(earlier.contains(tab_id)) by {
                            let k = choose|k: int| 0 <= k < seen@.len() && seen@[k] == tab_id;
                            if k >= earlier.len() {
                                assert(members@[k - earlier.len()] == members@[m as int]);
                            } else {
                                assert(earlier[k] == tab_id);
                            }
                        }
                        assert(restored_before(restored@, i as int, tab_id));
                        let k = choose|k: int|
                            0 <= k < i && (#[trigger] restored@[k]).has(tab_id);
                        assert(restored@[k].has(tab_id) && restored@[i as int].has(tab_id));
                    }
                    return false;
                }
                proof {
                    assert(!earlier.contains(tab_id)) by {
                        if earlier.contains(tab_id) {
                            let k = choose|k: int| 0 <= k < earlier.len() && earlier[k] == tab_id;
                            assert(seen@[k] == tab_id);
                        }
                    }
                    assert(members@.take(m + 1) =~= members@.take(m as int).push(tab_id));
                }
                seen.push(tab_id);
                assert(seen@ =~= earlier + members@.take(m + 1));
                m += 1;
            }
            proof {
                assert(members@.take(m as int) =~= members@);
                assert forall|t: TabId|
                    seen@.contains(t) == #[trigger] restored_before(restored@, i + 1, t) by {
                    if seen@.contains(t) {
                        let k = choose|k: int| 0 <= k < seen@.len() && seen@[k] == t;
                        if k < earlier.len() {
                            assert(earlier[k] == t);
                            assert(restored_before(restored@, i as int, t));
                            let o = choose|o: int| 0 <= o < i && (#[trigger] restored@[o]).has(t);
                            assert(restored@[o].has(t));
                        } else {
                            assert(members@[k - earlier.len()] == t);
                            assert(members@.contains(t));
                            assert(restored@[i as int].has(t));
                        }
                    }
                    if restored_before(restored@, i + 1, t) {
                        let o = choose|o: int| 0 <= o < i + 1 && (#[trigger] restored@[o]).has(t);
                        if o < i {
                            assert(restored_before(restored@, i as int, t));
                            assert(earlier.contains(t));
                            let k = choose|k: int| 0 <= k < earlier.len() && earlier[k] == t;
                            assert(seen@[k] == t);
                        } else {
                            assert(members@.contains(t));
                            let k = choose|k: int| 0 <= k < members@.len() && members@[k] == t;
                            assert(seen@[earlier.len() + k] == t);
                        }
                    }
                }
                assert forall|t: TabId| (#[trigger] restored@[i as int].has(t)) implies
                    before.registered(t) && !restored_before(restored@, i as int, t) by {
                    assert(members@.contains(t));
                    let k = choose|k: int| 0 <= k < members@.len() && members@[k] == t;
                    assert(before.registered(members@[k]));
                }
                assert forall|k: int, j: int, t: TabId|
                    #![trigger restored@[k].has(t), restored@[j].has(t)]
                    0 <= k < i + 1 && 0 <= j < i + 1 && restored@[k].has(t) && restored@[j].has(
                        t,
                    ) implies k == j by {
                    if k == i && j < i {
                        assert(restored_before(restored@, i as int, t));
                    }
                    if j == i && k < i {
                        assert(restored_before(restored@, i as int, t));
                    }
                }
            }
            i += 1;
        }
        let mut r: usize = 0;
        while r < self.tabs.len()
            invariant
                r <= self.tabs.len(),
                self@ == before,
                before == old(self)@,
                before.wf(),
                before.tabs.len() > 0,
                active == Some(focus),
                forall|t: TabId|
                    seen@.contains(t) == #[trigger] restored_before(
                        restored@,
                        restored@.len() as int,
                        t,
                    ),
                forall|k: int|
                    0 <= k < r ==> restored_before(
                        restored@,
                        restored@.len() as int,
                        (#[trigger] before.tabs[k]).id,
                    ),
            decreases self.tabs.len() - r,
        {
            let tab_id = self.tabs[r].id;
            assert(before.tabs[r as int].id == tab_id);
            if !seen_before(&seen, tab_id) {
                assert(!restored_before(restored@, restored@.len() as int, tab_id));
                return false;
            }
            r += 1;
        }
        if self.tab_registry_index(focus).is_none() {
            return false;
        }
        assert(before.restorable(restored@, active));
        let mut entries: Vec<TabEntry> = Vec::new();
        let mut next_group_id: u64 = self.next_split_group_id;
        let mut n: usize = 0;
        while n < restored.len()
            invariant
                n <= restored.len(),
                entries.len() == n,
                before.next_split_group_id + splits_before(restored@, restored@.len() as int)
                    <= u64::MAX,
                next_group_id == before.next_split_group_id + splits_before(restored@, n as int),
                forall|k: int|
                    0 <= k < n ==> (#[trigger] entries@[k]) == restored@[k].with_id(
                        before.next_split_group_id + splits_before(restored@, k),
                    ),
            decreases restored.len() - n,
        {
            proof {
                splits_before_grows(restored@, n + 1, restored@.len() as int);
            }
            match restored[n] {
                RestoredTabEntry::Single(only) => {
                    entries.push(TabEntry::Single(only));
                },
                RestoredTabEntry::Split { first, second, direction, ratio_bits, focused } => {
                    entries.push(
                        TabEntry::Split(
                            SplitGroup {
                                id: SplitGroupId(next_group_id),
                                first,
                                second,
                                direction,
                                ratio_bits,
                                focused,
                            },
                        ),
                    );
                    next_group_id = next_group_id + 1;
                },
            }
            n += 1;
        }
        self.entries = entries;
        self.active = Some(focus);
        self.next_split_group_id = next_group_id;
        proof {
            restore_keeps_wf(before, restored@, active);
            assert(self@.entries =~= before.restore_layout(restored@, active).entries);
            assert(self@ =~= before.restore_layout(restored@, active));
        }
        true
    }
}

} // verus!

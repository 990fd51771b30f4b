//! The persisted session: what it may hold, and how older layouts become current ones.
use crate::path::{DocumentPath, PathView, is_normal_form, normalize_path, same_path};
use crate::tabs::{SplitDirection, ratio_in_range, valid_ratio};
use vstd::prelude::*;

verus! {

/// The schema that sessions are written in.
pub const SCHEMA_VERSION: u32 = 3;

/// The number of colors that the annotation editor remembers.
pub const MAX_RECENT_ANNOTATION_COLORS: usize = 5;

/// The tab that the sidebar shows.
#[derive(Clone, Copy, Debug, PartialEq, Eq, Structural)]
pub enum SidebarTab {
    Outline,
    Thumbnails,
    Highlights,
}

/// How pages are laid out.
#[derive(Clone, Copy, Debug, PartialEq, Eq, Structural)]
pub enum DisplayMode {
    Continuous,
    SinglePage,
}

/// How the zoom is chosen.
#[derive(Clone, Copy, Debug, PartialEq, Eq, Structural)]
pub enum ZoomMode {
    Fixed,
    FitWidth,
    FitPage,
}

/// The position and zoom of one document. Anchors and zoom are bit patterns.
#[derive(Clone, Copy, Debug, PartialEq, Eq, Structural)]
pub struct SessionView {
    pub page_index: usize,
    pub page_x_bits: u32,
    pub page_y_bits: u32,
    pub display: DisplayMode,
    pub zoom_mode: ZoomMode,
    pub zoom_bits: u32,
}

/// A document to restore.
#[derive(Debug, PartialEq, Eq)]
pub struct SessionTab {
    pub path: DocumentPath,
    pub view: SessionView,
}

pub struct SessionTabModel {
    pub path: PathView,
    pub view: SessionView,
}

impl View for SessionTab {
    type V = SessionTabModel;

    open spec fn view(&self) -> SessionTabModel {
        SessionTabModel { path: self.path@, view: self.view }
    }
}

/// The tabs of a session.
pub open spec fn session_tabs(tabs: Seq<SessionTab>) -> Seq<SessionTabModel> {
    Seq::new(tabs.len(), |i: int| tabs[i]@)
}

/// One entry of the persisted tab bar; tabs are named by their index.
#[derive(Clone, Copy, Debug, PartialEq, Eq, Structural)]
pub enum SessionEntry {
    Single { tab_index: usize },
    Split {
        first_tab: usize,
        second_tab: usize,
        direction: SplitDirection,
        /// The bit pattern of the first pane's share.
        ratio_bits: u32,
        focused_tab: usize,
    },
}

impl SessionEntry {
    /// Whether the entry shows `tab`.
    pub open spec fn has(self, tab: int) -> bool {
        match self {
            SessionEntry::Single { tab_index } => tab_index == tab,
            SessionEntry::Split { first_tab, second_tab, .. } => first_tab == tab || second_tab
                == tab,
        }
    }
}

/// The persisted tab bar and the active tab.
#[derive(Debug, PartialEq, Eq)]
pub struct SessionLayout {
    pub entries: Vec<SessionEntry>,
    pub active_tab: Option<usize>,
}

#[verifier::ext_equal]
pub struct LayoutModel {
    pub entries: Seq<SessionEntry>,
    pub active_tab: Option<usize>,
}

impl View for SessionLayout {
    type V = LayoutModel;

    open spec fn view(&self) -> LayoutModel {
        LayoutModel { entries: self.entries@, active_tab: self.active_tab }
    }
}

/// The persisted state of the viewer.
#[derive(Debug, PartialEq, Eq)]
pub struct SessionState {
    pub schema_version: u32,
    pub restore_enabled: bool,
    pub sidebar_open: bool,
    pub sidebar_tab: SidebarTab,
    pub tabs: Vec<SessionTab>,
    pub layout: SessionLayout,
    pub recent_annotation_colors: Vec<[u8; 3]>,
}

/// Why a session is refused.
#[derive(Clone, Copy, Debug, PartialEq, Eq, Structural)]
pub enum SessionError {
    /// The text is not JSON.
    Malformed,
    /// There is no schema version, or it is no unsigned number.
    MissingSchemaVersion,
    UnsupportedSchemaVersion(u64),
    /// A session of the current schema has another version number.
    UnexpectedSchemaVersion(u32),
    WrongSchema1Version(u32),
    WrongSchema2Version(u32),
    EmptySessionSelectsTab,
    NonemptySessionSelectsNoTab,
    SelectedTabOutOfRange(usize),
    /// The path of the tab at the index.
    PathNotAbsolute(usize),
    PathNotNormalized(usize),
    PageXOutOfRange,
    PageYOutOfRange,
    ZoomOutOfRange,
    /// The tab at the index repeats the path of an earlier one.
    DuplicateTabPath(usize),
    EmptySessionHasLayout,
    NoActiveTab,
    ActiveTabOutOfRange(usize),
    TabIndexOutOfRange(usize),
    SplitRepeatsTab,
    SplitFocusesNoMember,
    ActiveSplitTabNotFocused,
    SplitRatioOutOfRange,
    TabNotInExactlyOneEntry,
    TooManyRecentColors,
    DuplicateRecentColors,
    Schema2EmptySessionHasLayout,
    Schema2PaneCount,
    Schema2NoFocusedPane,
    Schema2FocusedPaneOutOfRange,
    Schema2SinglePaneSplit,
    Schema2TwoPanesWithoutSplit,
    Schema2RatioOutOfRange,
    Schema2PaneSelection,
    Schema2TabNotInExactlyOnePane,
}

/// A check's result: the error, if there is one.
pub open spec fn verdict(error: Option<SessionError>) -> Result<(), SessionError> {
    match error {
        None => Ok(()),
        Some(error) => Err(error),
    }
}

/// Whether `bits` is the pattern of a number from 0 to 1, both included.
pub open spec fn unit_in_range(bits: u32) -> bool {
    bits <= 0x3F80_0000 || bits == 0x8000_0000
}

/// Whether `bits` is the pattern of a zoom from 0.25 to 4, both included.
pub open spec fn zoom_in_range(bits: u32) -> bool {
    0x3E80_0000 <= bits <= 0x4080_0000
}

/// What is wrong with a path: it must be absolute and hold neither `.` nor `..`.
pub open spec fn path_error(path: PathView, index: int) -> Option<SessionError> {
    if !path.absolute {
        Some(SessionError::PathNotAbsolute(index as usize))
    } else if !is_normal_form(path.parts) {
        Some(SessionError::PathNotNormalized(index as usize))
    } else {
        None
    }
}

/// What is wrong with a position.
pub open spec fn view_error(view: SessionView) -> Option<SessionError> {
    if !unit_in_range(view.page_x_bits) {
        Some(SessionError::PageXOutOfRange)
    } else if !unit_in_range(view.page_y_bits) {
        Some(SessionError::PageYOutOfRange)
    } else if !zoom_in_range(view.zoom_bits) {
        Some(SessionError::ZoomOutOfRange)
    } else {
        None
    }
}

/// Whether the tab at `index` has the path of an earlier one.
pub open spec fn repeats_path(tabs: Seq<SessionTabModel>, index: int) -> bool {
    exists|i: int| 0 <= i < index && same_path((#[trigger] tabs[i]).path, tabs[index].path)
}

/// What is wrong with the tab at `index`.
pub open spec fn tab_error(tabs: Seq<SessionTabModel>, index: int) -> Option<SessionError> {
    if path_error(tabs[index].path, index) is Some {
        path_error(tabs[index].path, index)
    } else if view_error(tabs[index].view) is Some {
        view_error(tabs[index].view)
    } else if repeats_path(tabs, index) {
        Some(SessionError::DuplicateTabPath(index as usize))
    } else {
        None
    }
}

/// The first error among the first `count` tabs.
pub open spec fn tabs_error(tabs: Seq<SessionTabModel>, count: int) -> Option<SessionError>
    decreases count,
{
    if count <= 0 {
        None
    } else if tabs_error(tabs, count - 1) is Some {
        tabs_error(tabs, count - 1)
    } else {
        tab_error(tabs, count - 1)
    }
}

/// The number of places in which the first `count` entries show `tab`.
pub open spec fn membership(entries: Seq<SessionEntry>, count: int, tab: int) -> int
    decreases count,
{
    if count <= 0 {
        0
    } else {
        membership(entries, count - 1, tab) + (match entries[count - 1] {
            SessionEntry::Single { tab_index } => if tab_index == tab {
                1int
            } else {
                0int
            },
            SessionEntry::Split { first_tab, second_tab, .. } => (if first_tab == tab {
                1int
            } else {
                0int
            }) + (if second_tab == tab {
                1int
            } else {
                0int
            }),
        })
    }
}

/// What is wrong with one entry.
pub open spec fn entry_error(
    entry: SessionEntry,
    active: usize,
    tab_count: int,
) -> Option<SessionError> {
    match entry {
        SessionEntry::Single { tab_index } => if tab_index >= tab_count {
            Some(SessionError::TabIndexOutOfRange(tab_index))
        } else {
            None
        },
        SessionEntry::Split { first_tab, second_tab, direction: _, ratio_bits, focused_tab } => {
            if first_tab == second_tab {
                Some(SessionError::SplitRepeatsTab)
            } else if focused_tab != first_tab && focused_tab != second_tab {
                Some(SessionError::SplitFocusesNoMember)
            } else if (active == first_tab || active == second_tab) && focused_tab != active {
                Some(SessionError::ActiveSplitTabNotFocused)
            } else if !ratio_in_range(ratio_bits) {
                Some(SessionError::SplitRatioOutOfRange)
            } else if first_tab >= tab_count {
                Some(SessionError::TabIndexOutOfRange(first_tab))
            } else if second_tab >= tab_count {
                Some(SessionError::TabIndexOutOfRange(second_tab))
            } else {
                None
            }
        },
    }
}

/// The first error among the first `count` entries.
pub open spec fn entries_error(
    entries: Seq<SessionEntry>,
    active: usize,
    tab_count: int,
    count: int,
) -> Option<SessionError>
    decreases count,
{
    if count <= 0 {
        None
    } else if entries_error(entries, active, tab_count, count - 1) is Some {
        entries_error(entries, active, tab_count, count - 1)
    } else {
        entry_error(entries[count - 1], active, tab_count)
    }
}

/// Whether every tab is shown in exactly one place.
pub open spec fn each_shown_once(entries: Seq<SessionEntry>, tab_count: int) -> bool {
    forall|tab: int|
        0 <= tab < tab_count ==> #[trigger] membership(entries, entries.len() as int, tab) == 1
}

/// What is wrong with a layout for `tab_count` tabs.
pub open spec fn layout_error(layout: LayoutModel, tab_count: int) -> Option<SessionError> {
    if tab_count == 0 {
        if layout.entries.len() > 0 || layout.active_tab is Some {
            Some(SessionError::EmptySessionHasLayout)
        } else {
            None
        }
    } else if layout.active_tab is None {
        Some(SessionError::NoActiveTab)
    } else if layout.active_tab->0 >= tab_count {
        Some(SessionError::ActiveTabOutOfRange(layout.active_tab->0))
    } else if entries_error(
        layout.entries,
        layout.active_tab->0,
        tab_count,
        layout.entries.len() as int,
    ) is Some {
        entries_error(
            layout.entries,
            layout.active_tab->0,
            tab_count,
            layout.entries.len() as int,
        )
    } else if !each_shown_once(layout.entries, tab_count) {
        Some(SessionError::TabNotInExactlyOneEntry)
    } else {
        None
    }
}

/// Whether two of the colors are equal.
pub open spec fn repeats_color(colors: Seq<[u8; 3]>) -> bool {
    exists|i: int, j: int|
        #![trigger colors[i], colors[j]]
        0 <= i < j < colors.len() && colors[i]@ == colors[j]@
}

/// What is wrong with the remembered colors.
pub open spec fn colors_error(colors: Seq<[u8; 3]>) -> Option<SessionError> {
    if colors.len() > MAX_RECENT_ANNOTATION_COLORS {
        Some(SessionError::TooManyRecentColors)
    } else if repeats_color(colors) {
        Some(SessionError::DuplicateRecentColors)
    } else {
        None
    }
}

fn unit_bits_in_range(bits: u32) -> (res: bool)
    ensures
        res == unit_in_range(bits),
{
    bits <= 0x3F80_0000 || bits == 0x8000_0000
}

/// Checks a persisted path.
pub fn validate_path(path: &DocumentPath, index: usize) -> (res: Result<(), SessionError>)
    ensures
        res == verdict(path_error(path@, index as int)),
{
    if !path.absolute {
        return Err(SessionError::PathNotAbsolute(index));
    }
    let normal = normalize_path(path);
    proof {
        crate::path::normalized_fixes_exactly_the_normal_forms(path@.parts);
    }
    if !normal.same(path) {
        return Err(SessionError::PathNotNormalized(index));
    }
    Ok(())
}

/// Checks a persisted position.
pub fn validate_view(view: &SessionView) -> (res: Result<(), SessionError>)
    ensures
        res == verdict(view_error(*view)),
{
    if !unit_bits_in_range(view.page_x_bits) {
        return Err(SessionError::PageXOutOfRange);
    }
    if !unit_bits_in_range(view.page_y_bits) {
        return Err(SessionError::PageYOutOfRange);
    }
    if view.zoom_bits < 0x3E80_0000 || view.zoom_bits > 0x4080_0000 {
        return Err(SessionError::ZoomOutOfRange);
    }
    Ok(())
}

/// Checks the persisted tabs; the first offending one decides.
pub fn validate_tabs(tabs: &Vec<SessionTab>) -> (res: Result<(), SessionError>)
    ensures
        res == verdict(tabs_error(session_tabs(tabs@), tabs@.len() as int)),
{
    let ghost model = session_tabs(tabs@);
    let mut i: usize = 0;
    while i < tabs.len()
        invariant
            i <= tabs.len(),
            model == session_tabs(tabs@),
            tabs_error(model, i as int) is None,
        decreases tabs.len() - i,
    {
        assert(model[i as int] == tabs@[i as int]@);
        let ghost error = tab_error(model, i as int);
        assert(tabs_error(model, i + 1) == error);
        if let Err(found) = validate_path(&tabs[i].path, i) {
            proof {
                tabs_error_is_first(model, i as int, tabs@.len() as int);
            }
            return Err(found);
        }
        if let Err(found) = validate_view(&tabs[i].view) {
            proof {
                tabs_error_is_first(model, i as int, tabs@.len() as int);
            }
            return Err(found);
        }
        let mut k: usize = 0;
        while k < i
            invariant
                k <= i < tabs.len(),
                model == session_tabs(tabs@),
                tabs_error(model, i as int) is None,
                path_error(model[i as int].path, i as int) is None,
                view_error(model[i as int].view) is None,
                forall|j: int|
                    0 <= j < k ==> !same_path((#[trigger] model[j]).path, model[i as int].path),
            decreases i - k,
        {
            if tabs[k].path.same(&tabs[i].path) {
                proof {
                    assert(same_path(model[k as int].path, model[i as int].path));
                    assert(repeats_path(model, i as int));
                    assert(tabs_error(model, i + 1) == tab_error(model, i as int));
                    tabs_error_is_first(model, i as int, tabs@.len() as int);
                }
                return Err(SessionError::DuplicateTabPath(i));
            }
            k += 1;
        }
        i += 1;
    }
    Ok(())
}

/// Once a tab is in error, more tabs do not change the first error.
proof fn tabs_error_is_first(tabs: Seq<SessionTabModel>, index: int, count: int)
    requires
        0 <= index < count,
        tabs_error(tabs, index + 1) is Some,
    ensures
        tabs_error(tabs, count) == tabs_error(tabs, index + 1),
    decreases count,
{
    if index + 1 < count {
        tabs_error_is_first(tabs, index, count - 1);
    }
}

/// Once an entry is in error, more entries do not change the first error.
proof fn entries_error_is_first(
    entries: Seq<SessionEntry>,
    active: usize,
    tab_count: int,
    index: int,
    count: int,
)
    requires
        0 <= index < count,
        entries_error(entries, active, tab_count, index + 1) is Some,
    ensures
        entries_error(entries, active, tab_count, count) == entries_error(
            entries,
            active,
            tab_count,
            index + 1,
        ),
    decreases count,
{
    if index + 1 < count {
        entries_error_is_first(entries, active, tab_count, index, count - 1);
    }
}

/// Counts one more place for a tab.
pub fn increment_membership(membership: &mut Vec<usize>, tab_index: usize) -> (res: Result<
    (),
    SessionError,
>)
    requires
        tab_index < old(membership)@.len() ==> old(membership)@[tab_index as int] < usize::MAX,
    ensures
        match res {
            Ok(()) => tab_index < old(membership)@.len() && final(membership)@ == old(
                membership,
            )@.update(tab_index as int, (old(membership)@[tab_index as int] + 1) as usize),
            Err(error) => tab_index >= old(membership)@.len() && error
                == SessionError::TabIndexOutOfRange(tab_index) && final(membership)@ == old(
                membership,
            )@,
        },
{
    if tab_index >= membership.len() {
        return Err(SessionError::TabIndexOutOfRange(tab_index));
    }
    let count: usize = membership[tab_index];
    membership.set(tab_index, count + 1);
    Ok(())
}

/// Whether every tab was counted exactly once.
fn all_one(counts: &Vec<usize>) -> (res: bool)
    ensures
        res == (forall|i: int| 0 <= i < counts@.len() ==> #[trigger] counts@[i] == 1),
{
    let mut i: usize = 0;
    while i < counts.len()
        invariant
            i <= counts.len(),
            forall|k: int| 0 <= k < i ==> #[trigger] counts@[k] == 1,
        decreases counts.len() - i,
    {
        if counts[i] != 1 {
            assert(counts@[i as int] != 1);
            return false;
        }
        i += 1;
    }
    true
}

/// Splits of two different tabs count a tab at most once per entry.
proof fn membership_is_bounded(
    entries: Seq<SessionEntry>,
    active: usize,
    tab_count: int,
    count: int,
    tab: int,
)
    requires
        entries_error(entries, active, tab_count, count) is None,
        0 <= count,
    ensures
        0 <= membership(entries, count, tab) <= count,
    decreases count,
{
    if count > 0 {
        membership_is_bounded(entries, active, tab_count, count - 1, tab);
    }
}

/// Checks a persisted layout; the first offending entry decides.
pub fn validate_layout(layout: &SessionLayout, tab_count: usize) -> (res: Result<(), SessionError>)
    ensures
        res == verdict(layout_error(layout@, tab_count as int)),
{
    if tab_count == 0 {
        if layout.entries.len() > 0 || layout.active_tab.is_some() {
            return Err(SessionError::EmptySessionHasLayout);
        }
        return Ok(());
    }
    let active: usize = match layout.active_tab {
        None => {
            return Err(SessionError::NoActiveTab);
        },
        Some(active) => active,
    };
    if active >= tab_count {
        return Err(SessionError::ActiveTabOutOfRange(active));
    }
    let ghost entries = layout.entries@;
    let mut counts: Vec<usize> = vec![0; tab_count];
    let mut i: usize = 0;
    while i < layout.entries.len()
        invariant
            i <= layout.entries.len(),
            entries == layout.entries@,
            layout.active_tab == Some(active),
            0 < tab_count,
            active < tab_count,
            counts@.len() == tab_count,
            entries_error(entries, active, tab_count as int, i as int) is None,
            forall|t: int|
                0 <= t < tab_count ==> #[trigger] counts@[t] == membership(entries, i as int, t),
        decreases layout.entries.len() - i,
    {
        assert(entries_error(entries, active, tab_count as int, i + 1) == entry_error(
            entries[i as int],
            active,
            tab_count as int,
        ));
        proof {
            assert forall|t: int| 0 <= t < tab_count implies #[trigger] counts@[t] <= i by {
                membership_is_bounded(entries, active, tab_count as int, i as int, t);
            }
            if entry_error(entries[i as int], active, tab_count as int) is Some {
                entries_error_is_first(
                    entries,
                    active,
                    tab_count as int,
                    i as int,
                    entries.len() as int,
                );
            }
        }
        match layout.entries[i] {
            SessionEntry::Single { tab_index } => {
                if let Err(error) = increment_membership(&mut counts, tab_index) {
                    return Err(error);
                }
            },
            SessionEntry::Split {
                first_tab,
                second_tab,
                direction: _,
                ratio_bits,
                focused_tab,
            } => {
                if first_tab == second_tab {
                    return Err(SessionError::SplitRepeatsTab);
                }
                if focused_tab != first_tab && focused_tab != second_tab {
                    return Err(SessionError::SplitFocusesNoMember);
                }
                if (active == first_tab || active == second_tab) && focused_tab != active {
                    return Err(SessionError::ActiveSplitTabNotFocused);
                }
                // A lopsided ratio would leave one document practically invisible.
                if !valid_ratio(ratio_bits) {
                    return Err(SessionError::SplitRatioOutOfRange);
                }
                if let Err(error) = increment_membership(&mut counts, first_tab) {
                    return Err(error);
                }
                if let Err(error) = increment_membership(&mut counts, second_tab) {
                    return Err(error);
                }
            },
        }
        i += 1;
    }
    if !all_one(&counts) {
        proof {
            let t = choose|t: int| 0 <= t < counts@.len() && #[trigger] counts@[t] != 1;
            assert(membership(entries, entries.len() as int, t) != 1);
        }
        return Err(SessionError::TabNotInExactlyOneEntry);
    }
    assert forall|tab: int| 0 <= tab < tab_count implies #[trigger] membership(
        entries,
        entries.len() as int,
        tab,
    ) == 1 by {
        assert(counts@[tab] == 1);
    }
    Ok(())
}

pub(crate) fn same_color(a: &[u8; 3], b: &[u8; 3]) -> (res: bool)
    ensures
        res == (a@ == b@),
{
    if a[0] == b[0] && a[1] == b[1] && a[2] == b[2] {
        assert(a@ =~= b@);
        true
    } else {
        assert(a@[0] != b@[0] || a@[1] != b@[1] || a@[2] != b@[2]);
        false
    }
}

/// Checks the remembered colors.
pub fn validate_recent_colors(colors: &Vec<[u8; 3]>) -> (res: Result<(), SessionError>)
    ensures
        res == verdict(colors_error(colors@)),
{
    if colors.len() > MAX_RECENT_ANNOTATION_COLORS {
        return Err(SessionError::TooManyRecentColors);
    }
    let mut j: usize = 0;
    while j < colors.len()
        invariant
            j <= colors.len() <= MAX_RECENT_ANNOTATION_COLORS,
            forall|a: int, b: int|
                #![trigger colors@[a], colors@[b]]
                0 <= a < b < j ==> colors@[a]@ != colors@[b]@,
        decreases colors.len() - j,
    {
        let mut i: usize = 0;
        while i < j
            invariant
                i <= j < colors.len() <= MAX_RECENT_ANNOTATION_COLORS,
                forall|a: int| 0 <= a < i ==> (#[trigger] colors@[a])@ != colors@[j as int]@,
            decreases j - i,
        {
            if same_color(&colors[i], &colors[j]) {
                assert(colors@[i as int]@ == colors@[j as int]@);
                return Err(SessionError::DuplicateRecentColors);
            }
            i += 1;
        }
        j += 1;
    }
    Ok(())
}

#[verifier::ext_equal]
pub struct SessionModel {
    pub schema_version: u32,
    pub restore_enabled: bool,
    pub sidebar_open: bool,
    pub sidebar_tab: SidebarTab,
    pub tabs: Seq<SessionTabModel>,
    pub layout: LayoutModel,
    pub recent_annotation_colors: Seq<[u8; 3]>,
}

impl View for SessionState {
    type V = SessionModel;

    open spec fn view(&self) -> SessionModel {
        SessionModel {
            schema_version: self.schema_version,
            restore_enabled: self.restore_enabled,
            sidebar_open: self.sidebar_open,
            sidebar_tab: self.sidebar_tab,
            tabs: session_tabs(self.tabs@),
            layout: self.layout@,
            recent_annotation_colors: self.recent_annotation_colors@,
        }
    }
}

/// What is wrong with a session in the current schema.
pub open spec fn session_error(state: SessionModel) -> Option<SessionError> {
    if state.schema_version != SCHEMA_VERSION {
        Some(SessionError::UnexpectedSchemaVersion(state.schema_version))
    } else if tabs_error(state.tabs, state.tabs.len() as int) is Some {
        tabs_error(state.tabs, state.tabs.len() as int)
    } else if layout_error(state.layout, state.tabs.len() as int) is Some {
        layout_error(state.layout, state.tabs.len() as int)
    } else {
        colors_error(state.recent_annotation_colors)
    }
}

impl Default for SessionState {
    /// The session of a first start: nothing open, restoring switched on.
    fn default() -> (res: Self)
        ensures
            res@ == (SessionModel {
                schema_version: SCHEMA_VERSION,
                restore_enabled: true,
                sidebar_open: false,
                sidebar_tab: SidebarTab::Outline,
                tabs: seq![],
                layout: LayoutModel { entries: seq![], active_tab: None },
                recent_annotation_colors: seq![],
            }),
    {
        let res = SessionState {
            schema_version: SCHEMA_VERSION,
            restore_enabled: true,
            sidebar_open: false,
            sidebar_tab: SidebarTab::Outline,
            tabs: Vec::new(),
            layout: SessionLayout { entries: Vec::new(), active_tab: None },
            recent_annotation_colors: Vec::new(),
        };
        assert(res@.tabs =~= seq![]);
        assert(res@.layout.entries =~= seq![]);
        assert(res@.recent_annotation_colors =~= seq![]);
        res
    }
}

impl SessionState {
    /// Checks a session before it is restored or written.
    pub fn validate(&self) -> (res: Result<(), SessionError>)
        ensures
            res == verdict(session_error(self@)),
    {
        if self.schema_version != SCHEMA_VERSION {
            return Err(SessionError::UnexpectedSchemaVersion(self.schema_version));
        }
        if let Err(error) = validate_tabs(&self.tabs) {
            return Err(error);
        }
        if let Err(error) = validate_layout(&self.layout, self.tabs.len()) {
            return Err(error);
        }
        validate_recent_colors(&self.recent_annotation_colors)
    }
}

/// The default session is valid.
pub proof fn default_session_is_valid()
    ensures
        session_error(
            SessionModel {
                schema_version: SCHEMA_VERSION,
                restore_enabled: true,
                sidebar_open: false,
                sidebar_tab: SidebarTab::Outline,
                tabs: seq![],
                layout: LayoutModel { entries: seq![], active_tab: None },
                recent_annotation_colors: seq![],
            },
        ) is None,
{
}

/// Without an error in any tab there is none in the tabs.
pub proof fn tabs_without_errors(tabs: Seq<SessionTabModel>, count: int)
    requires
        0 <= count,
        forall|i: int| 0 <= i < count ==> (#[trigger] tab_error(tabs, i)) is None,
    ensures
        tabs_error(tabs, count) is None,
    decreases count,
{
    if count > 0 {
        tabs_without_errors(tabs, count - 1);
        assert(tab_error(tabs, count - 1) is None);
    }
}

/// Without an error in the tabs there is none in any of them.
pub proof fn tabs_error_covers_each(tabs: Seq<SessionTabModel>, count: int, index: int)
    requires
        tabs_error(tabs, count) is None,
        0 <= index < count,
    ensures
        tab_error(tabs, index) is None,
    decreases count,
{
    if index < count - 1 {
        tabs_error_covers_each(tabs, count - 1, index);
    }
}

/// Without an error in any entry there is none in the entries.
pub proof fn entries_without_errors(
    entries: Seq<SessionEntry>,
    active: usize,
    tab_count: int,
    count: int,
)
    requires
        0 <= count,
        forall|i: int|
            0 <= i < count ==> entry_error(#[trigger] entries[i], active, tab_count) is None,
    ensures
        entries_error(entries, active, tab_count, count) is None,
    decreases count,
{
    if count > 0 {
        entries_without_errors(entries, active, tab_count, count - 1);
        assert(entry_error(entries[count - 1], active, tab_count) is None);
    }
}

/// Without an error in the entries there is none in any of them.
pub proof fn entries_error_covers_each(
    entries: Seq<SessionEntry>,
    active: usize,
    tab_count: int,
    count: int,
    index: int,
)
    requires
        entries_error(entries, active, tab_count, count) is None,
        0 <= index < count,
    ensures
        entry_error(entries[index], active, tab_count) is None,
    decreases count,
{
    if index < count - 1 {
        entries_error_covers_each(entries, active, tab_count, count - 1, index);
    }
}

} // verus!

//! Bringing back the last session, and keeping this one.
use crate::opening::OpenOutcome;
use crate::path::{DocumentPath, PathView};
use crate::restore::{
    capture_layout, resolved, restored_active, restored_runtime_layout, saved_layout,
};
use crate::restore_laws::captured_layout_is_valid;
use crate::session::{
    colors_error, path_error, repeats_path, session_error, session_tabs, tabs_error, view_error,
    SessionModel, SessionState, SessionTab, SessionTabModel, SidebarTab, SCHEMA_VERSION,
};
use crate::tabs::{splits_before, RestoredTabEntry, TabId, TabsView};
use crate::workspace::{SessionRestoreProgress, Workspace, WorkspaceView};
use vstd::prelude::*;

verus! {

/// The views of paths that may be missing.
pub open spec fn found_paths(found: Seq<Option<DocumentPath>>) -> Seq<Option<PathView>> {
    Seq::new(
        found.len(),
        |i: int|
            match found[i] {
                None => None,
                Some(path) => Some(path@),
            },
    )
}

/// The workspace with the first `count` tabs of a session open. `found` has the file of each
/// tab, if it can be opened.
pub open spec fn reopened(
    workspace: WorkspaceView,
    tabs: Seq<SessionTabModel>,
    found: Seq<Option<PathView>>,
    count: int,
) -> WorkspaceView
    decreases count,
{
    if count <= 0 {
        workspace
    } else {
        let before = reopened(workspace, tabs, found, count - 1);
        match found[count - 1] {
            None => before,
            Some(path) => before.open(path, Some(tabs[count - 1].view)),
        }
    }
}

/// How many of the first `count` saved tabs have a file that can be opened.
pub open spec fn found_before(found: Seq<Option<PathView>>, count: int) -> int
    decreases count,
{
    if count <= 0 {
        0
    } else if found[count - 1] is Some {
        found_before(found, count - 1) + 1
    } else {
        found_before(found, count - 1)
    }
}

/// What opening the first `count` tabs of a session leads to: one outcome for each file that
/// can be opened, in order.
pub open spec fn lists_reopened(
    outcomes: Seq<OpenOutcome>,
    workspace: WorkspaceView,
    tabs: Seq<SessionTabModel>,
    found: Seq<Option<PathView>>,
    count: int,
) -> bool {
    &&& outcomes.len() == found_before(found, count)
    &&& forall|i: int|
        0 <= i < count && (#[trigger] found[i]) is Some ==> outcomes[found_before(found, i)].fits(
            reopened(workspace, tabs, found, i),
            found[i]->0,
            Some(tabs[i].view),
        )
}

/// The tab that the saved tab at `index` became.
pub open spec fn reopened_tab(
    workspace: WorkspaceView,
    tabs: Seq<SessionTabModel>,
    found: Seq<Option<PathView>>,
    index: int,
) -> Option<TabId> {
    match found[index] {
        None => None,
        Some(path) => {
            let before = reopened(workspace, tabs, found, index);
            let after = reopened(workspace, tabs, found, index + 1);
            Some(after.tabs.tabs[before.opened_at(path)].id)
        },
    }
}

/// The tabs that the saved tabs became.
pub open spec fn reopened_tabs(
    workspace: WorkspaceView,
    tabs: Seq<SessionTabModel>,
    found: Seq<Option<PathView>>,
) -> Seq<Option<TabId>> {
    Seq::new(tabs.len(), |i: int| reopened_tab(workspace, tabs, found, i))
}

/// How many of the first `count` saved tabs have to be opened by a worker, were open already,
/// and are missing.
pub open spec fn reopen_counts(
    workspace: WorkspaceView,
    tabs: Seq<SessionTabModel>,
    found: Seq<Option<PathView>>,
    count: int,
) -> (int, int, int)
    decreases count,
{
    if count <= 0 {
        (0, 0, 0)
    } else {
        let (pending, restored, skipped) = reopen_counts(workspace, tabs, found, count - 1);
        match found[count - 1] {
            None => (pending, restored, skipped + 1),
            Some(path) => if reopened(workspace, tabs, found, count - 1).tabs.has_path(path) {
                (pending, restored + 1, skipped)
            } else {
                (pending + 1, restored, skipped)
            },
        }
    }
}

/// How far the tabs of a session have come once all of them were asked for.
pub open spec fn reopen_progress(
    workspace: WorkspaceView,
    tabs: Seq<SessionTabModel>,
    found: Seq<Option<PathView>>,
) -> SessionRestoreProgress {
    let (pending, restored, skipped) = reopen_counts(workspace, tabs, found, tabs.len() as int);
    SessionRestoreProgress {
        requested: tabs.len() as usize,
        pending: pending as usize,
        restored: restored as usize,
        skipped: skipped as usize,
    }
}

/// The tabs in the layout of the session, where it fits.
pub open spec fn laid_out(tabs: TabsView, entries: Seq<RestoredTabEntry>, active: Option<TabId>) -> TabsView {
    if tabs.restorable(entries, active) {
        tabs.restore_layout(entries, active)
    } else {
        tabs
    }
}

/// The workspace with a session brought back.
pub open spec fn brought_back(
    workspace: WorkspaceView,
    session: SessionModel,
    found: Seq<Option<PathView>>,
) -> WorkspaceView {
    let opened = reopened(workspace, session.tabs, found, session.tabs.len() as int);
    let ids = reopened_tabs(workspace, session.tabs, found);
    let entries = resolved(
        session.layout.entries,
        ids,
        session.layout.entries.len() as int,
    ).entries;
    let progress = reopen_progress(workspace, session.tabs, found);
    WorkspaceView {
        tabs: laid_out(opened.tabs, entries, restored_active(session.layout, ids)),
        restore: if progress.pending > 0 {
            Some(progress)
        } else {
            opened.restore
        },
        ..opened
    }
}

/// What bringing back a session led to.
#[derive(Debug)]
pub struct RestoreReport {
    /// For each saved tab that could be opened, what opening it led to.
    pub opened: Vec<OpenOutcome>,
    pub status: String,
}

proof fn few_splits(entries: Seq<RestoredTabEntry>, count: int)
    requires
        0 <= count <= entries.len(),
    ensures
        0 <= splits_before(entries, count) <= count,
    decreases count,
{
    if count > 0 {
        few_splits(entries, count - 1);
    }
}

proof fn few_entries(
    saved: Seq<crate::session::SessionEntry>,
    ids: Seq<Option<TabId>>,
    count: int,
)
    requires
        0 <= count <= saved.len(),
    ensures
        resolved(saved, ids, count).entries.len() <= count,
    decreases count,
{
    if count > 0 {
        few_entries(saved, ids, count - 1);
    }
}

/// The files that are found keep their order.
pub proof fn found_before_grows(found: Seq<Option<PathView>>, less: int, more: int)
    requires
        0 <= less <= more,
    ensures
        0 <= found_before(found, less) <= found_before(found, more),
        less < more && found[less] is Some ==> found_before(found, less) < found_before(
            found,
            more,
        ),
    decreases more,
{
    if less < more {
        found_before_grows(found, less, more - 1);
    } else if 0 < more {
        found_before_grows(found, less - 1, more - 1);
    }
}

proof fn reopening_one_more(
    shorter: Seq<OpenOutcome>,
    longer: Seq<OpenOutcome>,
    workspace: WorkspaceView,
    tabs: Seq<SessionTabModel>,
    found: Seq<Option<PathView>>,
    count: int,
)
    requires
        0 <= count < found.len(),
        lists_reopened(shorter, workspace, tabs, found, count),
        match found[count] {
            None => longer == shorter,
            Some(path) => {
                &&& longer.len() == shorter.len() + 1
                &&& longer == shorter.push(longer.last())
                &&& longer.last().fits(
                    reopened(workspace, tabs, found, count),
                    path,
                    Some(tabs[count].view),
                )
            },
        },
    ensures
        lists_reopened(longer, workspace, tabs, found, count + 1),
{
    assert forall|i: int|
        0 <= i < count + 1 && (#[trigger] found[i]) is Some implies longer[found_before(
        found,
        i,
    )].fits(reopened(workspace, tabs, found, i), found[i]->0, Some(tabs[i].view)) by {
        found_before_grows(found, i, count);
        if i < count {
            assert(longer[found_before(found, i)] == shorter[found_before(found, i)]);
        }
    }
}

impl Workspace {
    /// Opens the tabs of a session and lays them out as they were. `found` has the file of
    /// each saved tab, if it can be opened.
    pub fn restore_session(&mut self, session: &SessionState, found: Vec<Option<DocumentPath>>) -> (res:
        RestoreReport)
        requires
            old(self).wf(),
            old(self)@.restore is None,
            found@.len() == session.tabs@.len(),
            old(self)@.tabs.next_tab_id + found@.len() <= u64::MAX,
            old(self)@.next_document_id + found@.len() <= u64::MAX,
            old(self)@.tabs.next_split_group_id + session.layout.entries@.len() <= u64::MAX,
        ensures
            final(self).wf(),
            final(self)@ == brought_back(old(self)@, session@, found_paths(found@)),
            lists_reopened(
                res.opened@,
                old(self)@,
                session@.tabs,
                found_paths(found@),
                found@.len() as int,
            ),
            res.status@ == reopen_progress(
                old(self)@,
                session@.tabs,
                found_paths(found@),
            ).shown(),
    {
        let ghost before = self@;
        let ghost tabs = session@.tabs;
        let ghost paths = found_paths(found@);
        let count: usize = found.len();
        let mut ids: Vec<Option<TabId>> = Vec::new();
        let mut opened: Vec<OpenOutcome> = Vec::new();
        let mut pending: usize = 0;
        let mut restored: usize = 0;
        let mut skipped: usize = 0;
        let mut i: usize = 0;
        proof {
            crate::opening::restoring_is_counted(
                before.documents,
                0,
                before.documents.len() as int,
            );
        }
        while i < count
            invariant
                i <= count,
                count == found@.len(),
                count == session.tabs@.len(),
                tabs == session@.tabs,
                paths == found_paths(found@),
                self.tabs.wf(),
                self@.paired(),
                before.restore is None,
                before.tabs.next_tab_id + count <= u64::MAX,
                before.next_document_id + count <= u64::MAX,
                before.tabs.next_split_group_id + session.layout.entries@.len() <= u64::MAX,
                self@ == reopened(before, tabs, paths, i as int),
                self@.tabs.next_tab_id <= before.tabs.next_tab_id + i,
                self@.next_document_id <= before.next_document_id + i,
                self@.tabs.next_split_group_id == before.tabs.next_split_group_id,
                self@.restore is None,
                self@.restoring() == pending,
                (pending as int, restored as int, skipped as int) == reopen_counts(
                    before,
                    tabs,
                    paths,
                    i as int,
                ),
                pending + restored + skipped == i,
                ids@.len() == i,
                forall|k: int|
                    0 <= k < i ==> (#[trigger] ids@[k]) == reopened_tab(before, tabs, paths, k),
                lists_reopened(opened@, before, tabs, paths, i as int),
            decreases count - i,
        {
            let ghost outcomes = opened@;
            assert(tabs[i as int] == session.tabs@[i as int]@);
            match &found[i] {
                None => {
                    assert(paths[i as int] is None);
                    ids.push(None);
                    skipped = skipped + 1;
                },
                Some(path) => {
                    assert(paths[i as int] == Some(path@));
                    let outcome = self.open_document(path.clone(), Some(session.tabs[i].view));
                    let all = self.tabs.tabs();
                    ids.push(Some(all[outcome.index].id()));
                    if outcome.is_new {
                        pending = pending + 1;
                    } else {
                        restored = restored + 1;
                    }
                    assert(self@ == reopened(before, tabs, paths, i + 1));
                    opened.push(outcome);
                },
            }
            proof {
                reopening_one_more(outcomes, opened@, before, tabs, paths, i as int);
            }
            i += 1;
        }
        assert(ids@ =~= reopened_tabs(before, tabs, paths));
        let (entries, active) = restored_runtime_layout(&session.layout, &ids);
        proof {
            few_entries(session@.layout.entries, ids@, session@.layout.entries.len() as int);
            few_splits(entries@, entries@.len() as int);
        }
        let ghost reached = self@;
        let _accepted = self.tabs.restore_layout(entries, active);
        let progress = SessionRestoreProgress { requested: count, pending, restored, skipped };
        assert(progress == reopen_progress(before, tabs, paths));
        let status = progress.status();
        if pending > 0 {
            self.restore = Some(progress);
        }
        assert(self@ =~= brought_back(before, session@, paths));
        assert(self@.documents == reached.documents);
        RestoreReport { opened, status }
    }

    /// What is kept of the workspace for the next start.
    pub fn current_session(
        &self,
        restore_enabled: bool,
        sidebar_open: bool,
        sidebar_tab: SidebarTab,
        recent_annotation_colors: Vec<[u8; 3]>,
    ) -> (res: SessionState)
        requires
            self.wf(),
        ensures
            res@ == kept_session(
                self@,
                restore_enabled,
                sidebar_open,
                sidebar_tab,
                recent_annotation_colors@,
            ),
    {
        let mut tabs: Vec<SessionTab> = Vec::new();
        let mut i: usize = 0;
        while i < self.documents.len()
            invariant
                self.wf(),
                i <= self.documents.len(),
                tabs@.len() == i,
                forall|k: int| 0 <= k < i ==> (#[trigger] tabs@[k])@ == kept_tab(self@, k),
            decreases self.documents.len() - i,
        {
            let all = self.tabs.tabs();
            assert(self@.documents[i as int] == self.documents@[i as int]@);
            assert(self@.tabs.tabs[i as int] == all@[i as int]@);
            tabs.push(
                SessionTab {
                    path: all[i].path().clone(),
                    view: self.documents[i].view.to_session(),
                },
            );
            i += 1;
        }
        let layout = capture_layout(&self.tabs);
        let res = SessionState {
            schema_version: SCHEMA_VERSION,
            restore_enabled,
            sidebar_open,
            sidebar_tab,
            tabs,
            layout,
            recent_annotation_colors,
        };
        assert(session_tabs(tabs@) =~= kept_tabs(self@));
        res
    }
}

/// What is kept of one tab.
pub open spec fn kept_tab(workspace: WorkspaceView, index: int) -> SessionTabModel {
    SessionTabModel {
        path: workspace.tabs.tabs[index].path,
        view: workspace.documents[index].view.remembered(),
    }
}

pub open spec fn kept_tabs(workspace: WorkspaceView) -> Seq<SessionTabModel> {
    Seq::new(workspace.documents.len(), |i: int| kept_tab(workspace, i))
}

/// What is kept of the workspace for the next start.
pub open spec fn kept_session(
    workspace: WorkspaceView,
    restore_enabled: bool,
    sidebar_open: bool,
    sidebar_tab: SidebarTab,
    recent_annotation_colors: Seq<[u8; 3]>,
) -> SessionModel {
    SessionModel {
        schema_version: SCHEMA_VERSION,
        restore_enabled,
        sidebar_open,
        sidebar_tab,
        tabs: kept_tabs(workspace),
        layout: saved_layout(workspace.tabs),
        recent_annotation_colors,
    }
}

proof fn kept_tabs_have_no_error(workspace: WorkspaceView, count: int)
    requires
        workspace.wf(),
        0 <= count <= workspace.documents.len(),
        forall|i: int|
            0 <= i < workspace.documents.len() ==> path_error(
                (#[trigger] workspace.tabs.tabs[i]).path,
                i,
            ) is None,
        forall|i: int|
            0 <= i < workspace.documents.len() ==> view_error(
                (#[trigger] workspace.documents[i]).view.remembered(),
            ) is None,
    ensures
        tabs_error(kept_tabs(workspace), count) is None,
    decreases count,
{
    if count > 0 {
        kept_tabs_have_no_error(workspace, count - 1);
        let tabs = kept_tabs(workspace);
        let index = count - 1;
        assert(tabs[index].path == workspace.tabs.tabs[index].path);
        assert(path_error(workspace.tabs.tabs[index].path, index) is None);
        assert(view_error(workspace.documents[index].view.remembered()) is None);
        if repeats_path(tabs, index) {
            let i = choose|i: int|
                0 <= i < index && crate::path::same_path(
                    (#[trigger] tabs[i]).path,
                    tabs[index].path,
                );
            assert(tabs[i].path == workspace.tabs.tabs[i].path);
        }
    }
}

/// What is kept for the next start is a valid session, as long as every document has a
/// plain absolute path and a position in range, and the colours are in order.
pub proof fn kept_session_is_valid(
    workspace: WorkspaceView,
    restore_enabled: bool,
    sidebar_open: bool,
    sidebar_tab: SidebarTab,
    colors: Seq<[u8; 3]>,
)
    requires
        workspace.wf(),
        workspace.documents.len() <= usize::MAX,
        forall|i: int|
            0 <= i < workspace.documents.len() ==> path_error(
                (#[trigger] workspace.tabs.tabs[i]).path,
                i,
            ) is None,
        forall|i: int|
            0 <= i < workspace.documents.len() ==> view_error(
                (#[trigger] workspace.documents[i]).view.remembered(),
            ) is None,
        colors_error(colors) is None,
    ensures
        session_error(
            kept_session(workspace, restore_enabled, sidebar_open, sidebar_tab, colors),
        ) is None,
{
    kept_tabs_have_no_error(workspace, workspace.documents.len() as int);
    captured_layout_is_valid(workspace.tabs);
}

/// Every saved tab is awaited, was open already, or is missing.
pub proof fn every_saved_tab_is_counted(
    workspace: WorkspaceView,
    tabs: Seq<SessionTabModel>,
    found: Seq<Option<PathView>>,
    count: int,
)
    requires
        0 <= count,
    ensures
        ({
            let (pending, restored, skipped) = reopen_counts(workspace, tabs, found, count);
            &&& pending + restored + skipped == count
            &&& 0 <= pending
            &&& 0 <= restored
            &&& 0 <= skipped
        }),
    decreases count,
{
    if count > 0 {
        every_saved_tab_is_counted(workspace, tabs, found, count - 1);
    }
}

/// Whether the tabs of the last session are brought back: where there is one and it may be,
/// and no document was asked for by name.
pub fn restores_session(session: &Option<SessionState>, explicit_paths: usize) -> (res: bool)
    ensures
        res == (session is Some && session->0.restore_enabled && explicit_paths == 0),
{
    match session {
        None => false,
        Some(session) => session.restore_enabled && explicit_paths == 0,
    }
}

/// What the program starts with.
#[derive(Debug)]
pub struct Startup {
    pub workspace: Workspace,
    pub restore_enabled: bool,
    pub sidebar_open: bool,
    pub sidebar_tab: SidebarTab,
    pub recent_annotation_colors: Vec<[u8; 3]>,
    pub status: String,
    /// What has to be done for each document that was opened.
    pub opened: Vec<OpenOutcome>,
}

/// The workspace with documents opened one after another.
pub open spec fn opened_all(workspace: WorkspaceView, paths: Seq<DocumentPath>, count: int) -> WorkspaceView
    decreases count,
{
    if count <= 0 {
        workspace
    } else {
        opened_all(workspace, paths, count - 1).open(paths[count - 1]@, None)
    }
}

/// What opening the first `count` documents one after another leads to: one outcome for each,
/// in order.
pub open spec fn lists_opened(
    outcomes: Seq<OpenOutcome>,
    workspace: WorkspaceView,
    paths: Seq<DocumentPath>,
    count: int,
) -> bool {
    &&& outcomes.len() == count
    &&& forall|i: int|
        0 <= i < count ==> (#[trigger] outcomes[i]).fits(
            opened_all(workspace, paths, i),
            paths[i]@,
            None,
        )
}

fn colors_of(session: &Option<SessionState>) -> (res: Vec<[u8; 3]>)
    ensures
        res@ == (match session {
            None => seq![],
            Some(session) => session@.recent_annotation_colors,
        }),
{
    let mut res: Vec<[u8; 3]> = Vec::new();
    match session {
        None => {
            assert(res@ =~= seq![]);
        },
        Some(session) => {
            let mut i: usize = 0;
            while i < session.recent_annotation_colors.len()
                invariant
                    i <= session.recent_annotation_colors@.len(),
                    res@ == session.recent_annotation_colors@.take(i as int),
                decreases session.recent_annotation_colors.len() - i,
            {
                res.push(session.recent_annotation_colors[i]);
                assert(res@ =~= session.recent_annotation_colors@.take(i + 1));
                i += 1;
            }
            assert(res@ =~= session.recent_annotation_colors@);
        },
    }
    res
}

/// Starts the program: brings the last session back, or opens the documents that were asked
/// for by name. The colours of the last session are kept in any case. `found` has the file of
/// each saved tab, if it can be opened. The documents opened by name are announced by
/// `open_status`.
pub fn from_startup(
    paths: Vec<DocumentPath>,
    session: Option<SessionState>,
    found: Vec<Option<DocumentPath>>,
) -> (res: Startup)
    requires
        session is Some ==> found@.len() == session->0.tabs@.len(),
        paths@.len() < u64::MAX,
        found@.len() < u64::MAX,
    ensures
        res.workspace.wf(),
        res.restore_enabled == (session is None || session->0.restore_enabled),
        res.recent_annotation_colors@ == (match session {
            None => seq![],
            Some(session) => session@.recent_annotation_colors,
        }),
        ({
            let fresh = WorkspaceView::fresh();
            let found = found_paths(found@);
            if session is Some && session->0.restore_enabled && paths@.len() == 0 {
                &&& res.workspace@ == brought_back(fresh, session->0@, found)
                &&& res.sidebar_open == session->0.sidebar_open
                &&& res.sidebar_tab == session->0.sidebar_tab
                &&& res.status@ == reopen_progress(fresh, session->0@.tabs, found).shown()
                &&& lists_reopened(
                    res.opened@,
                    fresh,
                    session->0@.tabs,
                    found,
                    found.len() as int,
                )
            } else {
                &&& res.workspace@ == opened_all(fresh, paths@, paths@.len() as int)
                &&& res.workspace@.restore is None
                &&& res.sidebar_open == false
                &&& res.sidebar_tab == SidebarTab::Outline
                &&& res.status@ == "Drop a PDF into the window to open it"@
                &&& lists_opened(res.opened@, fresh, paths@, paths@.len() as int)
            }
        }),
{
    let restore_enabled = match &session {
        None => true,
        Some(session) => session.restore_enabled,
    };
    let recent_annotation_colors = colors_of(&session);
    let mut workspace = Workspace::new();
    let ghost fresh = workspace@;
    let mut sidebar_open = false;
    let mut sidebar_tab = SidebarTab::Outline;
    let mut status = "Drop a PDF into the window to open it".to_owned();
    let mut opened: Vec<OpenOutcome> = Vec::new();
    if restores_session(&session, paths.len()) {
        if let Some(session) = &session {
            sidebar_open = session.sidebar_open;
            sidebar_tab = session.sidebar_tab;
            let entry_count: usize = session.layout.entries.len();
            assert(entry_count <= u64::MAX);
            let report = workspace.restore_session(session, found);
            status = report.status;
            opened = report.opened;
        }
    } else {
        let mut i: usize = 0;
        while i < paths.len()
            invariant
                i <= paths@.len(),
                paths@.len() < u64::MAX,
                fresh == WorkspaceView::fresh(),
                workspace.wf(),
                workspace@ == opened_all(fresh, paths@, i as int),
                lists_opened(opened@, fresh, paths@, i as int),
                workspace@.tabs.next_tab_id <= i,
                workspace@.next_document_id <= 1 + i,
                workspace@.restore is None,
            decreases paths.len() - i,
        {
            let outcome = workspace.open_document(paths[i].clone(), None);
            opened.push(outcome);
            i += 1;
        }
    }
    Startup {
        workspace,
        restore_enabled,
        sidebar_open,
        sidebar_tab,
        recent_annotation_colors,
        status,
        opened,
    }
}

} // verus!

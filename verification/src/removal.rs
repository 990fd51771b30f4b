//! Removing tabs, letting workers go, and the editor that keeps a tab from closing.
use crate::annotation::{with_edit_pending, EditorView};
use crate::close_flow::document_views;
use crate::controls::{
    contains_index, oldest_suspendable_index, suspendable_at, tab_reveal_after_close,
};
use crate::document::{DocumentTab, DocumentView, SuspendPlan};
use crate::eviction::{find_document, stands_for};
use crate::opening::{restoring_count_of_update, restoring_is_counted};
use crate::path::{same_path, DocumentPath};
use crate::restore_laws::registry_of_is;
use crate::tab_laws::registered_is_shown;
use crate::tabs::{entry_of, SplitSide, TabEntry, TabId};
use crate::workspace::{
    active_word, can_be_shown, has_resumed, lists_resumed, restoring_count,
    restoring_count_of_same, resumed_grows, select_one, selected_if, show_one, showing, shown_if,
    Resumed, Workspace, WorkspaceView,
};
use vstd::prelude::*;

verus! {

/// What becomes of one document when another tab is removed: it moves to another pane, comes
/// to the screen, and is the one selected last, as the arguments say.
#[verifier::opaque]
pub open spec fn settled(
    document: DocumentView,
    moves: bool,
    shows: bool,
    sequence: Option<u64>,
) -> DocumentView {
    selected_if(shown_if(moved_if(document, moves), shows), sequence)
}

pub open spec fn moved_if(document: DocumentView, moves: bool) -> DocumentView {
    if moves {
        document.moved_to_pane()
    } else {
        document
    }
}

proof fn settling_keeps(document: DocumentView, moves: bool, shows: bool, sequence: Option<u64>)
    requires
        document.wf(),
        can_be_shown(document),
        document.open_if_clean(),
    ensures
        ({
            let after = settled(document, moves, shows, sequence);
            &&& after.wf()
            &&& can_be_shown(after)
            &&& after.open_if_clean()
            &&& after.restoring_from_session == document.restoring_from_session
        }),
{
    reveal(settled);
}

fn move_one(document: &mut DocumentTab, moves: bool)
    ensures
        final(document)@ == moved_if(old(document)@, moves),
{
    if moves {
        document.prepare_for_pane_transition();
    }
}

fn settle_one(
    document: &mut DocumentTab,
    index: usize,
    moves: bool,
    shows: bool,
    sequence: Option<u64>,
) -> (res: Option<Resumed>)
    requires
        can_be_shown(old(document)@),
    ensures
        final(document)@ == settled(old(document)@, moves, shows, sequence),
        match res {
            None => !(shows && old(document)@.state is Suspended),
            Some(resumed) => shows && old(document)@.state is Suspended && resumed.index == index
                && resumed.matches(old(document)@),
        },
{
    proof {
        reveal(settled);
    }
    move_one(document, moves);
    let resumed = show_one(document, index, shows);
    select_one(document, sequence);
    resumed
}

/// What becomes of the document at `i`.
pub open spec fn settled_at(
    before: Seq<DocumentView>,
    visible: Seq<usize>,
    moving: Option<usize>,
    active: Option<usize>,
    sequence: u64,
    i: int,
) -> DocumentView {
    settled(
        before[i],
        moving == Some(i as usize),
        visible.contains(i as usize),
        if active == Some(i as usize) {
            Some(sequence)
        } else {
            None
        },
    )
}

fn settle_all(
    documents: &mut Vec<DocumentTab>,
    visible: &Vec<usize>,
    moving: Option<usize>,
    active: Option<usize>,
    sequence: u64,
) -> (res: Vec<Resumed>)
    requires
        forall|k: int|
            0 <= k < old(documents)@.len() ==> can_be_shown((#[trigger] old(documents)@[k])@),
    ensures
        final(documents)@.len() == old(documents)@.len(),
        forall|k: int|
            0 <= k < old(documents)@.len() ==> (#[trigger] final(documents)@[k])@ == settled_at(
                document_views(old(documents)@),
                visible@,
                moving,
                active,
                sequence,
                k,
            ),
        lists_resumed(
            res@,
            document_views(old(documents)@),
            old(documents)@.len() as int,
            showing(visible@),
        ),
{
    let ghost before = document_views(documents@);
    let mut resumed: Vec<Resumed> = Vec::new();
    let mut i: usize = 0;
    while i < documents.len()
        invariant
            i <= documents.len(),
            documents@.len() == before.len(),
            before == document_views(old(documents)@),
            old(documents)@.len() == before.len(),
            forall|k: int| 0 <= k < before.len() ==> can_be_shown(#[trigger] before[k]),
            forall|k: int|
                0 <= k < i ==> (#[trigger] documents@[k])@ == settled_at(
                    before,
                    visible@,
                    moving,
                    active,
                    sequence,
                    k,
                ),
            forall|k: int|
                i <= k < documents@.len() ==> (#[trigger] documents@[k])@ == before[k],
            lists_resumed(resumed@, before, i as int, showing(visible@)),
        decreases documents.len() - i,
    {
        let shows = contains_index(visible, i);
        let moves = match moving {
            None => false,
            Some(moving) => moving == i,
        };
        let selected = match active {
            Some(active) if active == i => Some(sequence),
            _ => None,
        };
        let ghost earlier = documents@;
        let ghost resumed_before = resumed@;
        assert(can_be_shown(before[i as int]));
        assert(documents@[i as int]@ == before[i as int]);
        let one_resumed = settle_one(&mut documents[i], i, moves, shows, selected);
        assert(documents@ =~= earlier.update(i as int, documents@[i as int]));
        if let Some(one_resumed) = one_resumed {
            resumed.push(one_resumed);
        }
        proof {
            resumed_grows(resumed_before, resumed@, before, i as int, showing(visible@));
        }
        i += 1;
    }
    resumed
}

/// The editor once the document is gone.
pub open spec fn editor_without(editor: Option<EditorView>, document_id: u64) -> Option<EditorView> {
    if editor is Some && editor->0.document_id == document_id {
        None
    } else {
        editor
    }
}

impl WorkspaceView {
    /// The tab whose pane changes when the tab at `index` is removed: the second of a split,
    /// when the first one goes.
    pub open spec fn pane_heir(self, index: int) -> Option<TabId> {
        let id = self.tabs.tabs[index].id;
        match self.tabs.entries[entry_of(self.tabs.entries, id)] {
            TabEntry::Split(group) if group.first == id => Some(group.second),
            _ => None,
        }
    }

    /// Where that tab is once the tab at `index` is gone.
    pub open spec fn heir_word(self, index: int) -> Option<usize> {
        match self.pane_heir(index) {
            None => None,
            Some(heir) => Some(self.tabs.close(index).registry_of(heir) as usize),
        }
    }

    /// What becomes of the document at `i` once the tab at `index` is gone.
    pub open spec fn document_without(self, index: int, i: int) -> DocumentView {
        let tabs = self.tabs.close(index);
        settled(
            self.documents.remove(index)[i],
            self.heir_word(index) == Some(i as usize),
            tabs.shows_index(i),
            if active_word(tabs) == Some(i as usize) {
                Some(self.activity_sequence.wrapping_add(1))
            } else {
                None
            },
        )
    }

    /// The workspace without the tab at `index` and its document.
    pub open spec fn without_tab(self, index: int) -> WorkspaceView {
        let tabs = self.tabs.close(index);
        let id = self.documents[index].document_id;
        WorkspaceView {
            tabs,
            documents: Seq::new(
                (self.documents.len() - 1) as nat,
                |i: int| self.document_without(index, i),
            ),
            activity_sequence: if tabs.active is Some {
                self.activity_sequence.wrapping_add(1)
            } else {
                self.activity_sequence
            },
            tab_to_reveal: if active_word(self.tabs) == Some(index as usize) {
                active_word(tabs)
            } else {
                None
            },
            editor: editor_without(self.editor, id),
            picker_document: if self.picker_document == Some(id) {
                None
            } else {
                self.picker_document
            },
            ..self
        }
    }

    /// The workspace once the tab at `index` was removed; one that was being restored counts
    /// as skipped.
    pub open spec fn removed(self, index: int) -> WorkspaceView {
        if self.documents[index].restoring_from_session {
            self.without_tab(index).finish_restore(false)
        } else {
            self.without_tab(index)
        }
    }
}

/// What has to be done once a tab was removed.
#[derive(Debug)]
pub struct Removal {
    /// The document that is gone; what was kept for it is kept no more.
    pub document: DocumentTab,
    pub resumed: Vec<Resumed>,
    pub begin_search: bool,
    /// What to say of the restoring.
    pub restore_status: Option<String>,
}

impl Removal {
    /// What has to be done once the tab at `index` of `workspace` was removed.
    pub open spec fn fits(self, workspace: WorkspaceView, index: int) -> bool {
        let after = workspace.without_tab(index);
        &&& self.document@ == workspace.documents[index]
        &&& lists_resumed(
            self.resumed@,
            workspace.documents.remove(index),
            workspace.documents.len() - 1,
            after.on_screen(),
        )
        &&& match self.restore_status {
            None => !workspace.documents[index].restoring_from_session,
            Some(status) => workspace.documents[index].restoring_from_session && status@
                == workspace.restore->0.finished_one(false).shown(),
        }
        &&& self.begin_search == searches_when_active(after)
    }
}

/// A search has to be started in the active document.
pub open spec fn searches_when_active(workspace: WorkspaceView) -> bool {
    match workspace.tabs.active_index() {
        None => false,
        Some(active) => !crate::text::is_blank(workspace.documents[active].search.query)
            && !workspace.documents[active].search.in_progress,
    }
}

/// Without a tab, the workspace is as sound as with it.
proof fn removal_is_sound(before: WorkspaceView, index: int)
    requires
        before.wf(),
        before.tabs.close(index).wf(),
        0 <= index < before.documents.len(),
    ensures
        before.without_tab(index).paired(),
        before.without_tab(index).restoring() == before.restoring() - (
        if before.documents[index].restoring_from_session {
            1int
        } else {
            0
        }),
        before.documents[index].restoring_from_session ==> before.restoring() >= 1,
{
    let after = before.without_tab(index);
    let remaining = before.documents.remove(index);
    assert forall|k: int| 0 <= k < after.documents.len() implies (#[trigger] after.documents[k]).wf()
        && can_be_shown(after.documents[k]) && after.documents[k].open_if_clean() && remaining[k].restoring_from_session
        == after.documents[k].restoring_from_session by {
        if k < index {
            assert(remaining[k] == before.documents[k]);
        } else {
            assert(remaining[k] == before.documents[k + 1]);
        }
        settling_keeps(
            remaining[k],
            before.heir_word(index) == Some(k as usize),
            after.tabs.shows_index(k),
            if active_word(after.tabs) == Some(k as usize) {
                Some(before.activity_sequence.wrapping_add(1))
            } else {
                None
            },
        );
    }
    assert forall|i: int| 0 <= i < remaining.len() implies (
    #[trigger] remaining[i]).restoring_from_session
        == after.documents[i].restoring_from_session by {
        assert(after.documents[i].wf());
    }
    restoring_count_of_same(remaining, after.documents, remaining.len() as int);
    restoring_count_of_remove(before.documents, index, before.documents.len() as int);
    restoring_is_counted(before.documents, index, before.documents.len() as int);
}

proof fn restoring_count_of_remove(documents: Seq<DocumentView>, index: int, count: int)
    requires
        0 <= index < count <= documents.len(),
    ensures
        restoring_count(documents.remove(index), count - 1) == restoring_count(documents, count) - (
        if documents[index].restoring_from_session {
            1int
        } else {
            0
        }),
    decreases count,
{
    let shorter = documents.remove(index);
    if index == count - 1 {
        restoring_count_of_same(documents, shorter, count - 1);
    } else {
        restoring_count_of_remove(documents, index, count - 1);
        assert(shorter[count - 2] == documents[count - 1]);
    }
}

impl Workspace {
    fn heir_of(&self, index: usize) -> (res: Option<TabId>)
        requires
            self.wf(),
            index < self@.documents.len(),
        ensures
            res == self@.pane_heir(index as int),
    {
        let all = self.tabs.tabs();
        let id = all[index].id();
        proof {
            registry_of_is(self@.tabs, index as int);
            registered_is_shown(self@.tabs, id);
        }
        match self.tabs.split_for_tab(id) {
            None => None,
            Some(group) => if group.tab(SplitSide::First) == id {
                Some(group.tab(SplitSide::Second))
            } else {
                None
            },
        }
    }

    fn forget_document(&mut self, document_id: u64)
        ensures
            final(self).tabs == old(self).tabs,
            final(self).documents == old(self).documents,
            final(self)@ == (WorkspaceView {
                editor: editor_without(old(self)@.editor, document_id),
                picker_document: if old(self)@.picker_document == Some(document_id) {
                    None
                } else {
                    old(self)@.picker_document
                },
                ..old(self)@
            }),
    {
        let ghost before = self@;
        let closes_editor = match &self.editor {
            None => false,
            Some(editor) => editor.document_id == document_id,
        };
        if closes_editor {
            self.editor = None;
        }
        let closes_picker = match self.picker_document {
            None => false,
            Some(picked) => picked == document_id,
        };
        if closes_picker {
            self.picker_document = None;
        }
        assert(self@ =~= (WorkspaceView {
            editor: editor_without(before.editor, document_id),
            picker_document: if before.picker_document == Some(document_id) {
                None
            } else {
                before.picker_document
            },
            ..before
        }));
    }

    /// Removes the tab at `index` and its document. The tab that becomes active, and the one
    /// that takes over the first pane, are carried along.
    #[verifier::rlimit(50)]
    #[verifier::spinoff_prover]
    pub fn remove_tab_now(&mut self, index: usize) -> (res: Option<Removal>)
        requires
            old(self).wf(),
        ensures
            final(self).wf(),
            match res {
                None => index >= old(self)@.documents.len() && final(self)@ == old(self)@,
                Some(removal) => index < old(self)@.documents.len() && final(self)@
                    == old(self)@.removed(index as int) && removal.fits(old(self)@, index as int),
            },
    {
        let ghost before = self@;
        if index >= self.documents.len() {
            return None;
        }
        let count: usize = self.documents.len();
        let previous = self.active_index();
        let heir = self.heir_of(index);
        let closed = self.tabs.close(index);
        assert(self@.tabs == before.tabs.close(index as int));
        let ghost earlier = self.documents@;
        let document = self.documents.remove(index);
        let document_id: u64 = document.document_id;
        let was_restoring = document.restoring_from_session;
        assert(document@ == before.documents[index as int]);
        assert(document_views(self.documents@) =~= before.documents.remove(index as int));
        self.forget_document(document_id);
        let moving = match heir {
            None => None,
            Some(heir) => self.tabs.tab_registry_index(heir),
        };
        proof {
            heir_stays(before, index as int);
            assert(moving == before.heir_word(index as int));
        }
        let active = self.active_index();
        self.tab_to_reveal = tab_reveal_after_close(previous, index, active);
        let visible = self.tabs.visible_indices();
        let sequence: u64 = self.activity_sequence.wrapping_add(1);
        if active.is_some() {
            self.activity_sequence = sequence;
        }
        let ghost remaining = before.documents.remove(index as int);
        proof {
            remaining_can_be_shown(before, index as int);
            assert(remaining == document_views(self.documents@));
            assert forall|k: int| 0 <= k < self.documents@.len() implies can_be_shown(
                (#[trigger] self.documents@[k])@,
            ) by {
                assert(self.documents@[k]@ == remaining[k]);
            }
        }
        let resumed = settle_all(&mut self.documents, &visible, moving, active, sequence);
        let ghost after = before.without_tab(index as int);
        proof {
            assert forall|k: int| 0 <= k < remaining.len() implies (#[trigger] self@.documents[k])
                == after.documents[k] by {
                assert(self@.documents[k] == self.documents@[k]@);
                assert(self@.tabs.shows_index(k as usize as int) == visible@.contains(k as usize));
            }
            assert(self@.documents =~= after.documents);
            assert(self@ =~= after);
            removal_is_sound(before, index as int);
            resumed_at(resumed@, remaining, after, visible@);
        }
        let begin_search = match active {
            None => false,
            Some(active) => {
                proof {
                    let tab = self@.tabs.active->0;
                    assert(self@.tabs.registered(tab));
                    assert(self@.tabs.tabs[self@.tabs.registry_of(tab)].id == tab);
                }
                assert(self@.documents[active as int] == self.documents@[active as int]@);
                self.documents[active].wants_search()
            },
        };
        let restore_status = if was_restoring {
            Some(self.finish_session_restore(false))
        } else {
            None
        };
        Some(Removal { document, resumed, begin_search, restore_status })
    }
}

proof fn remaining_can_be_shown(before: WorkspaceView, index: int)
    requires
        before.paired(),
        0 <= index < before.documents.len(),
    ensures
        ({
            let remaining = before.documents.remove(index);
            forall|k: int| 0 <= k < remaining.len() ==> can_be_shown(#[trigger] remaining[k])
        }),
{
    let remaining = before.documents.remove(index);
    assert forall|k: int| 0 <= k < remaining.len() implies can_be_shown(#[trigger] remaining[k]) by {
        if k < index {
            assert(remaining[k] == before.documents[k]);
        } else {
            assert(remaining[k] == before.documents[k + 1]);
        }
    }
}

proof fn resumed_at(
    resumed: Seq<Resumed>,
    documents: Seq<DocumentView>,
    workspace: WorkspaceView,
    visible: Seq<usize>,
)
    requires
        documents.len() <= usize::MAX,
        lists_resumed(resumed, documents, documents.len() as int, showing(visible)),
        forall|k: usize| #[trigger]
            workspace.tabs.shows_index(k as int) == visible.contains(k),
    ensures
        lists_resumed(resumed, documents, documents.len() as int, workspace.on_screen()),
{
    let shows = workspace.on_screen();
    assert forall|i: int|
        0 <= i < documents.len() && #[trigger] shows(i)
            && documents[i].state is Suspended implies has_resumed(resumed, i) by {
        assert(workspace.tabs.shows_index(i as usize as int) == visible.contains(i as usize));
        assert(showing(visible)(i));
    }
    assert forall|k: int| 0 <= k < resumed.len() implies shows(
        (#[trigger] resumed[k]).index as int,
    ) by {
        assert(showing(visible)(resumed[k].index as int));
        assert(workspace.tabs.shows_index(resumed[k].index as int) == visible.contains(
            resumed[k].index,
        ));
    }
}

/// The tab that takes over the first pane stays registered.
proof fn heir_stays(workspace: WorkspaceView, index: int)
    requires
        workspace.tabs.wf(),
        0 <= index < workspace.tabs.tabs.len(),
    ensures
        workspace.pane_heir(index) is Some ==> workspace.tabs.close(index).registered(
            workspace.pane_heir(index)->0,
        ),
{
    let tabs = workspace.tabs;
    let id = tabs.tabs[index].id;
    registry_of_is(tabs, index);
    registered_is_shown(tabs, id);
    let e = entry_of(tabs.entries, id);
    assert(tabs.entries[e].has(id));
    if workspace.pane_heir(index) is Some {
        let heir = workspace.pane_heir(index)->0;
        assert(tabs.entries[e].has(heir));
        assert(tabs.registered(heir));
        let at = tabs.registry_of(heir);
        assert(tabs.tabs[at].id == heir);
        assert(crate::tabs::entry_ok(tabs.entries[e], tabs.next_split_group_id));
        assert(heir != id);
        let after = tabs.close(index);
        if at < index {
            assert(after.tabs[at] == tabs.tabs[at]);
        } else {
            assert(after.tabs[at - 1] == tabs.tabs[at]);
        }
    }
}

/// How much memory the program may use before a worker is let go, in bytes.
pub const RESIDENT_MEMORY_SUSPEND_THRESHOLD_BYTES: usize = 536_870_912;

/// The workspace once so many tabs were removed, the last one first.
pub open spec fn without_last_tabs(workspace: WorkspaceView, count: int) -> WorkspaceView
    decreases count,
{
    if count <= 0 {
        workspace
    } else {
        let before = without_last_tabs(workspace, count - 1);
        before.removed(before.documents.len() - 1)
    }
}

/// The document at `index` can be let go: nothing is lost by it, and no editor works on it.
pub open spec fn can_let_go(workspace: WorkspaceView, index: int) -> bool {
    &&& workspace.documents[index].suspendable()
    &&& !(workspace.editor is Some && workspace.editor->0.document_id
        == workspace.documents[index].document_id)
}

/// The hidden document at `index` can be let go.
pub open spec fn may_suspend(workspace: WorkspaceView, index: int) -> bool {
    &&& 0 <= index < workspace.documents.len()
    &&& can_let_go(workspace, index)
    &&& !workspace.tabs.shows_index(index)
}

/// The document at `index` is the one to let go: of those that can be, the one selected
/// longest ago.
pub open spec fn is_to_suspend(workspace: WorkspaceView, index: int) -> bool {
    &&& may_suspend(workspace, index)
    &&& forall|i: int| #[trigger]
        may_suspend(workspace, i) ==> workspace.documents[index].last_selected_sequence
            < workspace.documents[i].last_selected_sequence || (
        workspace.documents[index].last_selected_sequence
            == workspace.documents[i].last_selected_sequence && index <= i)
}

/// The notice in an editor that keeps a tab from closing.
pub open spec fn blocking_notice(mutation_in_flight: bool) -> Seq<char> {
    if mutation_in_flight {
        "注釈処理の完了後にタブを閉じてください。"@
    } else {
        "タブを閉じる前に、注釈の変更を保存または破棄してください。"@
    }
}

impl WorkspaceView {
    /// The editor of the document at `index` must not be left, and that document is asked
    /// about.
    pub open spec fn is_blocked_at(self, only: Option<usize>, index: int) -> bool {
        &&& self.editor is Some
        &&& self.editor->0.is_busy()
        &&& stands_for(self.documents, self.editor->0.document_id, index)
        &&& only is None || only->0 == index
    }

    /// The editor works on its document as it is now.
    pub open spec fn editor_is_current(self) -> bool {
        &&& self.editor is Some
        &&& exists|i: int| #[trigger]
            stands_for(self.documents, self.editor->0.document_id, i)
                && self.documents[i].revision() == Some(self.editor->0.revision)
    }

    /// The workspace once the draft in the editor is known: a change of what may be edited
    /// can be saved, as long as the document is still the one it was made on and no earlier
    /// change is under way.
    pub open spec fn with_draft(self, changed: bool, can_edit: bool) -> WorkspaceView {
        match self.editor {
            None => self,
            Some(editor) => WorkspaceView {
                editor: Some(
                    EditorView {
                        dirty: changed,
                        can_save: changed && can_edit && !editor.mutation_in_flight
                            && self.editor_is_current(),
                        ..editor
                    },
                ),
                ..self
            },
        }
    }
}

impl Workspace {
    /// Removes every tab, the last one first.
    pub fn remove_all_tabs(&mut self) -> (res: Vec<Removal>)
        requires
            old(self).wf(),
        ensures
            final(self).wf(),
            final(self)@ == without_last_tabs(old(self)@, old(self)@.documents.len() as int),
            final(self)@.documents.len() == 0,
            res@.len() == old(self)@.documents.len(),
            forall|i: int|
                0 <= i < res@.len() ==> (#[trigger] res@[i]).fits(
                    without_last_tabs(old(self)@, i),
                    res@.len() - 1 - i,
                ),
    {
        let ghost before = self@;
        let mut removals: Vec<Removal> = Vec::new();
        while self.documents.len() > 0
            invariant
                self.wf(),
                self@ == without_last_tabs(before, removals@.len() as int),
                removals@.len() + self@.documents.len() == before.documents.len(),
                forall|i: int|
                    0 <= i < removals@.len() ==> (#[trigger] removals@[i]).fits(
                        without_last_tabs(before, i),
                        before.documents.len() - 1 - i,
                    ),
            decreases self.documents.len(),
        {
            let last: usize = self.documents.len() - 1;
            if let Some(removal) = self.remove_tab_now(last) {
                removals.push(removal);
            }
        }
        removals
    }

    /// Removes the tab of a document, if it is open.
    pub fn close_tab_by_path(&mut self, path: &DocumentPath) -> (res: Option<Removal>)
        requires
            old(self).wf(),
        ensures
            final(self).wf(),
            match res {
                None => !old(self)@.tabs.has_path(path@) && final(self)@ == old(self)@,
                Some(removal) => old(self)@.tabs.has_path(path@) && final(self)@ == old(
                    self,
                )@.removed(old(self)@.tabs.path_of(path@)) && removal.fits(
                    old(self)@,
                    old(self)@.tabs.path_of(path@),
                ),
            },
    {
        match self.index_of_path(path) {
            None => None,
            Some(index) => self.remove_tab_now(index),
        }
    }

    /// Where the tab of a document is.
    pub fn index_of_path(&self, path: &DocumentPath) -> (res: Option<usize>)
        requires
            self.wf(),
        ensures
            match res {
                None => !self@.tabs.has_path(path@),
                Some(index) => self@.tabs.has_path(path@) && index == self@.tabs.path_of(path@)
                    && index < self@.documents.len(),
            },
    {
        let all = self.tabs.tabs();
        let mut i: usize = 0;
        while i < all.len()
            invariant
                i <= all.len(),
                self.wf(),
                crate::tabs::tab_views(all@) == self@.tabs.tabs,
                forall|k: int|
                    0 <= k < i ==> !same_path((#[trigger] self@.tabs.tabs[k]).path, path@),
            decreases all.len() - i,
        {
            assert(self@.tabs.tabs[i as int] == all@[i as int]@);
            if all[i].path().same(path) {
                proof {
                    crate::tab_laws::path_of_is(self@.tabs, path@, i as int);
                }
                return Some(i);
            }
            i += 1;
        }
        None
    }

    /// Lets the worker of a hidden document go when the program uses too much memory. Returns
    /// which one, and what to take back from it.
    pub fn maybe_suspend_inactive_document(&mut self, resident_bytes: usize) -> (res: Option<
        (usize, SuspendPlan),
    >)
        requires
            old(self).wf(),
        ensures
            final(self).wf(),
            match res {
                None => final(self)@ == old(self)@ && (resident_bytes
                    <= RESIDENT_MEMORY_SUSPEND_THRESHOLD_BYTES || forall|i: int|
                    !#[trigger] may_suspend(old(self)@, i)),
                Some(suspended) => {
                    let index = suspended.0 as int;
                    &&& resident_bytes > RESIDENT_MEMORY_SUSPEND_THRESHOLD_BYTES
                    &&& is_to_suspend(old(self)@, index)
                    &&& suspended.1.matches(old(self)@.documents[index])
                    &&& final(self)@ == (WorkspaceView {
                        documents: old(self)@.documents.update(
                            index,
                            old(self)@.documents[index].suspended(),
                        ),
                        ..old(self)@
                    })
                },
            },
    {
        let ghost before = self@;
        if resident_bytes <= RESIDENT_MEMORY_SUSPEND_THRESHOLD_BYTES {
            return None;
        }
        let candidates = self.suspend_candidates();
        let visible = self.tabs.visible_indices();
        let count: usize = self.documents.len();
        let chosen = oldest_suspendable_index(&visible, &candidates);
        proof {
            assert forall|i: int| may_suspend(before, i) == #[trigger] suspendable_at(
                visible@,
                candidates@,
                i,
            ) by {
                if 0 <= i < count {
                    assert(before.tabs.shows_index(i as usize as int) == visible@.contains(
                        i as usize,
                    ));
                    assert(candidates@[i].0 == can_let_go(before, i));
                }
            }
        }
        match chosen {
            None => {
                assert forall|i: int| !#[trigger] may_suspend(before, i) by {
                    assert(!suspendable_at(visible@, candidates@, i));
                }
                None
            },
            Some(index) => {
                proof {
                    assert(may_suspend(before, index as int) == suspendable_at(
                        visible@,
                        candidates@,
                        index as int,
                    ));
                    assert forall|i: int| #[trigger] may_suspend(
                        before,
                        i,
                    ) implies before.documents[index as int].last_selected_sequence
                        < before.documents[i].last_selected_sequence || (
                    before.documents[index as int].last_selected_sequence
                        == before.documents[i].last_selected_sequence && index <= i) by {
                        assert(suspendable_at(visible@, candidates@, i));
                        assert(candidates@[i].1 == before.documents[i].last_selected_sequence);
                        assert(candidates@[index as int].1
                            == before.documents[index as int].last_selected_sequence);
                    }
                    assert(before.documents[index as int].wf() && can_be_shown(
                        before.documents[index as int],
                    ));
                    assert(before.documents[index as int] == self.documents@[index as int]@);
                }
                let ghost earlier = self.documents@;
                let ghost document = before.documents[index as int];
                let plan = self.documents[index].suspend();
                proof {
                    let after = document.suspended();
                    assert(self.documents@ =~= earlier.update(
                        index as int,
                        self.documents@[index as int],
                    ));
                    assert(self@.documents =~= before.documents.update(index as int, after));
                    assert(self@ =~= (WorkspaceView {
                        documents: before.documents.update(index as int, after),
                        ..before
                    }));
                    suspending_is_sound(before, index as int);
                }
                Some((index, plan))
            },
        }
    }

    fn suspend_candidates(&self) -> (res: Vec<(bool, u64)>)
        ensures
            res@.len() == self@.documents.len(),
            forall|i: int|
                0 <= i < res@.len() ==> (#[trigger] res@[i]) == (
                    can_let_go(self@, i),
                    self@.documents[i].last_selected_sequence,
                ),
    {
        let mut res: Vec<(bool, u64)> = Vec::new();
        let mut i: usize = 0;
        while i < self.documents.len()
            invariant
                i <= self.documents.len(),
                res@.len() == i,
                forall|k: int|
                    0 <= k < i ==> (#[trigger] res@[k]) == (
                        can_let_go(self@, k),
                        self@.documents[k].last_selected_sequence,
                    ),
            decreases self.documents.len() - i,
        {
            assert(self@.documents[i as int] == self.documents@[i as int]@);
            let owns_editor = match &self.editor {
                None => false,
                Some(editor) => editor.document_id == self.documents[i].document_id,
            };
            let can_go = self.documents[i].is_suspendable() && !owns_editor;
            res.push((can_go, self.documents[i].last_selected_sequence));
            i += 1;
        }
        res
    }

    /// Notes whether the draft in the editor differs from its annotation, and whether that
    /// annotation may be edited.
    pub fn draft_changed(&mut self, changed: bool, can_edit: bool)
        requires
            old(self).wf(),
        ensures
            final(self).wf(),
            final(self)@ == old(self)@.with_draft(changed, can_edit),
    {
        let ghost before = self@;
        let current = match &self.editor {
            None => false,
            Some(editor) => match find_document(&self.documents, editor.document_id) {
                None => false,
                Some(index) => {
                    assert(before.documents[index as int] == self.documents@[index as int]@);
                    assert(stands_for(before.documents, editor.document_id, index as int));
                    match self.documents[index].revision() {
                        None => false,
                        Some(revision) => revision == editor.revision,
                    }
                },
            },
        };
        assert(current == before.editor_is_current());
        if let Some(editor) = &mut self.editor {
            editor.dirty = changed;
            editor.can_save = changed && can_edit && !editor.mutation_in_flight && current;
        }
        assert(self@ =~= before.with_draft(changed, can_edit));
    }

    /// Finds the editor that must not be left, if it belongs to the document asked about, and
    /// says so in it. Returns the tab to select.
    pub fn focus_blocking_annotation_editor(&mut self, only_index: Option<usize>) -> (res: Option<
        usize,
    >)
        requires
            old(self).wf(),
        ensures
            final(self).wf(),
            match res {
                None => final(self)@ == old(self)@ && forall|i: int|
                    !#[trigger] old(self)@.is_blocked_at(only_index, i),
                Some(index) => old(self)@.is_blocked_at(only_index, index as int) && index
                    < old(self)@.documents.len() && final(self)@ == (WorkspaceView {
                    editor: Some(
                        EditorView {
                            notice: Some(
                                blocking_notice(old(self)@.editor->0.mutation_in_flight),
                            ),
                            ..old(self)@.editor->0
                        },
                    ),
                    ..old(self)@
                }),
            },
    {
        let ghost before = self@;
        let document_id: u64 = match &self.editor {
            None => {
                return None;
            },
            Some(editor) => {
                if !editor.dirty && !editor.mutation_in_flight {
                    return None;
                }
                editor.document_id
            },
        };
        let found = find_document(&self.documents, document_id);
        let index: usize = match found {
            None => {
                return None;
            },
            Some(index) => index,
        };
        if let Some(only) = only_index {
            if only != index {
                return None;
            }
        }
        match &mut self.editor {
            None => {},
            Some(editor) => {
                editor.notice = Some(
                    if editor.mutation_in_flight {
                        "注釈処理の完了後にタブを閉じてください。".to_owned()
                    } else {
                        "タブを閉じる前に、注釈の変更を保存または破棄してください。".to_owned()
                    },
                );
            },
        }
        assert(self@ =~= (WorkspaceView { editor: self@.editor, ..before }));
        Some(index)
    }
}

/// Whatever is sent to the worker of a document, and however the worker goes or comes, a document
/// without edits was opened; so one that is let go can be shown again.
pub proof fn clean_documents_stay_open(document: DocumentView)
    requires
        document.open_if_clean(),
    ensures
        with_edit_pending(document).open_if_clean(),
        document.saving().open_if_clean(),
        document.disconnected().open_if_clean(),
        document.resumed().open_if_clean(),
        document.suspended().open_if_clean(),
        document.suspendable() ==> can_be_shown(document.suspended()),
{
}

proof fn suspending_is_sound(before: WorkspaceView, index: int)
    requires
        before.wf(),
        0 <= index < before.documents.len(),
        before.documents[index].suspendable(),
    ensures
        (WorkspaceView {
            documents: before.documents.update(index, before.documents[index].suspended()),
            ..before
        }).wf(),
{
    let document = before.documents[index];
    let after = document.suspended();
    assert(document.wf() && can_be_shown(document) && document.open_if_clean());
    clean_documents_stay_open(document);
    restoring_count_of_update(before.documents, index, after, before.documents.len() as int);
    let updated = before.documents.update(index, after);
    assert forall|i: int| 0 <= i < updated.len() implies (#[trigger] updated[i]).wf()
        && can_be_shown(updated[i]) && updated[i].open_if_clean() by {
        if i != index {
            assert(updated[i] == before.documents[i]);
        }
    }
}

} // verus!

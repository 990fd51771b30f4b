//! What turning to a tab, opening one and closing one does to the documents.
use crate::annotation::EditorView;
use crate::document::DocumentView;
use crate::eviction::{stands_for, without_thumbnail, without_thumbnails};
use crate::layout_laws::selecting_moves_the_focus;
use crate::opening::opened_status;
use crate::path::PathView;
use crate::removal::{is_to_suspend, may_suspend, settled, without_last_tabs, Removal};
use crate::rendering::{TextSnapshotKey, ThumbnailCacheKey, TileCacheKey};
use crate::restore_laws::registry_of_is;
use crate::session::{SessionView, SidebarTab};
use crate::startup::kept_session;
use crate::tab_bar::Rearrangement;
use crate::tab_laws::{close_keeps_wf, entry_of_is, opening_adds_one_tab, path_of_is};
use crate::tabs::{shown, TabEntry};
use crate::text::is_blank;
use crate::workspace::{
    activated, active_word, has_left, has_resumed, Activation, SessionRestoreProgress,
    WorkspaceView,
};
use vstd::prelude::*;

verus! {

/// Whether a document kept everything that turning between tabs must not touch: what it is, what is
/// edited in it, and where it is looked at.
pub open spec fn is_same_work(before: DocumentView, after: DocumentView) -> bool {
    &&& after.document_id == before.document_id
    &&& after.info == before.info
    &&& after.error == before.error
    &&& after.edit_history == before.edit_history
    &&& after.pending_edits == before.pending_edits
    &&& after.save_in_flight == before.save_in_flight
    &&& after.print_in_flight == before.print_in_flight
    &&& after.undo_in_flight == before.undo_in_flight
    &&& after.selection == before.selection
    &&& after.save_as == before.save_as
    &&& after.search.query == before.search.query
    &&& after.search.pages == before.search.pages
    &&& after.search.selected == before.search.selected
    &&& after.highlight_index == before.highlight_index
    &&& after.restoring_from_session == before.restoring_from_session
    &&& after.view.remembered() == before.view.remembered()
}

/// Turning to a tab touches no document's work. The document that is turned to is the one that was
/// used last.
pub proof fn turning_keeps_the_work(
    workspace: WorkspaceView,
    index: int,
    previous: Option<usize>,
    was_visible: Seq<usize>,
    i: int,
)
    requires
        0 <= i < workspace.documents.len(),
    ensures
        ({
            let after = workspace.activate(index, previous, was_visible);
            let document = workspace.documents[i];
            &&& after.documents.len() == workspace.documents.len()
            &&& is_same_work(document, after.documents[i])
            &&& i == index ==> after.documents[i].last_selected_sequence == after.activity_sequence
            &&& i != index ==> after.documents[i].last_selected_sequence
                == document.last_selected_sequence
            &&& after.activity_sequence == workspace.activity_sequence.wrapping_add(1)
            &&& previous != Some(index as usize) ==> after.tab_to_reveal == Some(index as usize)
            &&& previous == Some(index as usize) ==> after.tab_to_reveal == workspace.tab_to_reveal
            &&& after.tabs == workspace.tabs
            &&& after.editor == workspace.editor
            &&& after.picker_document == workspace.picker_document
            &&& after.restore == workspace.restore
            &&& after.next_document_id == workspace.next_document_id
        }),
{
    reveal(activated);
}

/// A document that leaves the screen waits for nothing more: no tile, no text, no hit. One that comes
/// to the screen after it was let go is opened again. Any other document goes on as it did.
pub proof fn hidden_documents_wait_for_nothing(
    workspace: WorkspaceView,
    index: int,
    previous: Option<usize>,
    was_visible: Seq<usize>,
    i: int,
    tile: TileCacheKey,
    text: TextSnapshotKey,
)
    requires
        0 <= i < workspace.documents.len() <= usize::MAX,
    ensures
        ({
            let before = workspace.documents[i];
            let after = workspace.activate(index, previous, was_visible).documents[i];
            let leaves = was_visible.contains(i as usize) && !workspace.tabs.shows_index(i);
            let comes_back = workspace.tabs.shows_index(i) && before.state is Suspended;
            &&& leaves ==> !after.tiles.pending.dom().contains(tile)
                && !after.tiles.wanted.contains(tile) && !after.texts.pending.contains(text)
                && !after.texts.cached.contains(text) && !after.search.in_progress
                && after.search.generation != before.search.generation && after.tiles.cached
                == before.tiles.cached && after.state == before.state
            &&& comes_back ==> after.state is Opening && after.connected && after.view.generation
                != before.view.generation
            &&& !leaves && !comes_back ==> after.state == before.state && after.connected
                == before.connected && after.search == before.search && after.tiles == before.tiles
                && after.texts == before.texts && after.annotations == before.annotations
                && after.view.generation == before.view.generation
            &&& i != index && previous == Some(i as usize) ==> after.view.autoscroll is None
            &&& (i == index || previous != Some(i as usize)) ==> after.view.autoscroll
                == before.view.autoscroll
        }),
{
    reveal(activated);
}

/// A tab that is selected is active afterwards, and its document is the one that was used last.
pub proof fn a_selected_tab_is_active(workspace: WorkspaceView, index: int)
    requires
        workspace.wf(),
        0 <= index < workspace.documents.len() <= usize::MAX,
    ensures
        ({
            let after = workspace.select(index);
            &&& after.tabs.active == Some(workspace.tabs.tabs[index].id)
            &&& after.tabs.tabs == workspace.tabs.tabs
            &&& after.documents.len() == workspace.documents.len()
            &&& after.documents[index].last_selected_sequence == after.activity_sequence
            &&& after.documents[index].document_id == workspace.documents[index].document_id
        }),
{
    reveal(activated);
    registry_of_is(workspace.tabs, index);
    selecting_moves_the_focus(workspace.tabs, workspace.tabs.tabs[index].id);
}

/// Opening a file that no tab shows adds one document behind the others, with an identity of its own,
/// active; opening one that a tab shows adds none and turns to that tab.
pub proof fn opening_adds_at_most_one_document(
    workspace: WorkspaceView,
    path: PathView,
    restored_view: Option<SessionView>,
    i: int,
)
    requires
        workspace.wf(),
        workspace.next_document_id < u64::MAX,
        workspace.tabs.next_tab_id < u64::MAX,
        workspace.documents.len() < usize::MAX,
    ensures
        ({
            let after = workspace.open(path, restored_view);
            let count = workspace.documents.len() as int;
            &&& !workspace.tabs.has_path(path) ==> {
                &&& after.documents.len() == count + 1
                &&& after.tabs.tabs[count].path == path
                &&& after.tabs.active == Some(after.tabs.tabs[count].id)
                &&& after.documents[count].document_id == workspace.next_document_id
                &&& after.next_document_id == workspace.next_document_id + 1
                &&& after.documents[count].state is Opening
                &&& after.documents[count].restoring_from_session == (restored_view is Some)
                &&& restored_view is Some ==> after.documents[count].view.remembered()
                    == restored_view->0
                &&& 0 <= i < count ==> is_same_work(workspace.documents[i], after.documents[i])
            }
            &&& workspace.tabs.has_path(path) ==> {
                &&& after.documents.len() == count
                &&& after.tabs.tabs == workspace.tabs.tabs
                &&& after.next_document_id == workspace.next_document_id
                &&& 0 <= i < count ==> is_same_work(workspace.documents[i], after.documents[i])
                &&& 0 <= i < count && workspace.tabs.tabs[i].path.parts == path.parts
                    ==> after.tabs.active == Some(workspace.tabs.tabs[i].id)
            }
        }),
{
    reveal(activated);
    if workspace.tabs.has_path(path) {
        let at = workspace.tabs.path_of(path);
        assert(0 <= at < workspace.tabs.tabs.len());
        registry_of_is(workspace.tabs, at);
        selecting_moves_the_focus(workspace.tabs, workspace.tabs.tabs[at].id);
        if 0 <= i < workspace.documents.len() && workspace.tabs.tabs[i].path.parts == path.parts {
            path_of_is(workspace.tabs, path, i);
        }
    } else {
        opening_adds_one_tab(workspace.tabs, path);
    }
}

/// Closing a tab takes its document away and touches the work of no other; they keep their order. An
/// editor or a choice of annotations closes with its document, and only with it.
pub proof fn closing_takes_one_document(workspace: WorkspaceView, index: int, i: int)
    requires
        0 <= index < workspace.documents.len() <= usize::MAX,
        0 <= i < workspace.documents.len() - 1,
    ensures
        ({
            let after = workspace.without_tab(index);
            let closed = workspace.documents[index].document_id;
            let before = workspace.documents[if i < index {
                i
            } else {
                i + 1
            }];
            let document = after.documents[i];
            &&& after.documents.len() == workspace.documents.len() - 1
            &&& after.tabs == workspace.tabs.close(index)
            &&& document.document_id == before.document_id
            &&& document.info == before.info
            &&& document.edit_history == before.edit_history
            &&& document.pending_edits == before.pending_edits
            &&& document.save_in_flight == before.save_in_flight
            &&& document.print_in_flight == before.print_in_flight
            &&& document.selection == before.selection
            &&& document.search == before.search
            &&& document.error == before.error
            &&& document.restoring_from_session == before.restoring_from_session
            &&& document.view.current_page == before.view.current_page
            &&& document.view.center_anchor == before.view.center_anchor
            &&& document.view.zoom_bits == before.view.zoom_bits
            &&& active_word(after.tabs) != Some(i as usize) ==> document.last_selected_sequence
                == before.last_selected_sequence
            &&& active_word(after.tabs) == Some(i as usize) ==> document.last_selected_sequence
                == after.activity_sequence || after.tabs.active is None
            &&& workspace.editor is Some && workspace.editor->0.document_id == closed
                ==> after.editor is None
            &&& workspace.editor is Some && workspace.editor->0.document_id != closed
                ==> after.editor == workspace.editor
            &&& workspace.picker_document == Some(closed) ==> after.picker_document is None
            &&& workspace.picker_document != Some(closed) ==> after.picker_document
                == workspace.picker_document
            &&& active_word(workspace.tabs) != Some(index as usize) ==> after.tab_to_reveal is None
            &&& active_word(workspace.tabs) == Some(index as usize) ==> after.tab_to_reveal
                == active_word(after.tabs)
        }),
{
    reveal(settled);
}

/// Closing a tab that was still being restored counts as one that could not be opened; closing any
/// other one counts nothing.
pub proof fn closing_a_tab_being_restored_is_counted(workspace: WorkspaceView, index: int)
    requires
        0 <= index < workspace.documents.len(),
    ensures
        !workspace.documents[index].restoring_from_session ==> workspace.removed(index).restore
            == workspace.restore,
        workspace.documents[index].restoring_from_session && workspace.restore is Some
            && workspace.restore->0.pending > 1 && workspace.restore->0.skipped < usize::MAX
            ==> workspace.removed(index).restore is Some && workspace.removed(
            index,
        ).restore->0.pending == workspace.restore->0.pending - 1 && workspace.removed(
            index,
        ).restore->0.skipped == workspace.restore->0.skipped + 1,
        workspace.documents[index].restoring_from_session && workspace.restore is Some
            && workspace.restore->0.pending == 1 ==> workspace.removed(index).restore is None,
{
}

/// Each tab of a session that was dealt with is one less to wait for, and one more that opened or
/// that did not; as many are asked for as before.
pub proof fn restored_tabs_are_counted(progress: SessionRestoreProgress, opened: bool)
    requires
        progress.wf(),
        progress.pending > 0,
    ensures
        progress.finished_one(opened).pending == progress.pending - 1,
        progress.finished_one(opened).requested == progress.requested,
        opened ==> progress.finished_one(opened).restored == progress.restored + 1
            && progress.finished_one(opened).skipped == progress.skipped,
        !opened ==> progress.finished_one(opened).skipped == progress.skipped + 1
            && progress.finished_one(opened).restored == progress.restored,
        progress.finished_one(opened).wf(),
{
}

/// A document is let go exactly if it is clean and at rest, not on the screen, and its annotation is
/// not being edited; of several the one that was not used for longest.
pub proof fn the_oldest_hidden_document_is_let_go(workspace: WorkspaceView, index: int, other: int)
    requires
        0 <= index < workspace.documents.len(),
        0 <= other < workspace.documents.len(),
    ensures
        may_suspend(workspace, index) == (workspace.documents[index].state is ReadyClean
            && !workspace.documents[index].unsaved() && !workspace.documents[index].print_in_flight
            && !workspace.tabs.shows_index(index) && !(workspace.editor is Some
            && workspace.editor->0.document_id == workspace.documents[index].document_id)),
        is_to_suspend(workspace, index) ==> may_suspend(workspace, index),
        is_to_suspend(workspace, index) && may_suspend(workspace, other)
            ==> workspace.documents[index].last_selected_sequence
            <= workspace.documents[other].last_selected_sequence,
        is_to_suspend(workspace, index) && is_to_suspend(workspace, other) ==> index == other,
{
}

/// A text that was changed can be saved where the annotation may be edited, nothing is being saved
/// and its document still is what was edited; a text that is as it was can be left.
pub proof fn drafts_can_be_saved(workspace: WorkspaceView, changed: bool, can_edit: bool, i: int)
    requires
        workspace.editor is Some,
    ensures
        ({
            let before = workspace.editor->0;
            let after = workspace.with_draft(changed, can_edit).editor->0;
            &&& workspace.with_draft(changed, can_edit).editor is Some
            &&& after.dirty == changed
            &&& !changed || !can_edit || before.mutation_in_flight ==> !after.can_save
            &&& changed && can_edit && !before.mutation_in_flight && stands_for(
                workspace.documents,
                before.document_id,
                i,
            ) ==> after.can_save == (workspace.documents[i].info is Some
                && workspace.documents[i].info->0.revision == before.revision)
            &&& after == (EditorView { dirty: after.dirty, can_save: after.can_save, ..before })
            &&& workspace.with_draft(changed, can_edit).documents == workspace.documents
            &&& workspace.with_draft(changed, can_edit).tabs == workspace.tabs
        }),
{
    let before = workspace.editor->0;
    if stands_for(workspace.documents, before.document_id, i) && workspace.editor_is_current() {
        let k = choose|k: int| #[trigger]
            stands_for(workspace.documents, before.document_id, k)
                && workspace.documents[k].revision() == Some(before.revision);
        if k < i {
            assert(workspace.documents[k].document_id != before.document_id);
        } else if i < k {
            assert(workspace.documents[i].document_id != before.document_id);
        }
    }
}

/// A rearranged bar moves documents from pane to pane; their work stays, and those that moved come
/// back to the point that they showed.
pub proof fn moved_documents_keep_their_point(
    workspace: WorkspaceView,
    effect: Rearrangement,
    i: int,
)
    requires
        0 <= i < workspace.documents.len(),
    ensures
        ({
            let before = workspace.documents[i];
            let after = workspace.rearranging(effect).documents[i];
            let moves = effect.moved.contains(effect.tabs.tabs[i].id);
            &&& workspace.rearranging(effect).documents.len() == workspace.documents.len()
            &&& workspace.rearranging(effect).tabs == effect.tabs
            &&& !moves ==> after == before
            &&& moves ==> after.view.autoscroll is None
            &&& moves && before.view.display_mode is Continuous ==> after.view.restore_anchor
                == before.view.center_anchor
            &&& moves && before.view.display_mode is SinglePage
                ==> after.view.restore_single_anchor == before.view.single_center_anchor
            &&& after == (DocumentView { view: after.view, ..before })
            &&& after.view.current_page == before.view.current_page
            &&& after.view.center_anchor == before.view.center_anchor
            &&& after.view.zoom_bits == before.view.zoom_bits
        }),
{
}

/// Closing all tabs leaves none, whatever order they had.
pub proof fn closing_all_leaves_none(workspace: WorkspaceView, count: int)
    requires
        0 <= count <= workspace.documents.len(),
    ensures
        without_last_tabs(workspace, count).documents.len() == workspace.documents.len() - count,
    decreases count,
{
    if count > 0 {
        closing_all_leaves_none(workspace, count - 1);
    }
}

/// What the cache of thumbnails pushed out is kept no longer, and what it did not push out stays kept.
pub proof fn documents_keep_the_thumbnails_that_stay(
    documents: Seq<DocumentView>,
    evicted: Seq<ThumbnailCacheKey>,
    i: int,
    key: ThumbnailCacheKey,
)
    requires
        stands_for(documents, key.document_id, i),
    ensures
        without_thumbnails(documents, evicted).len() == documents.len(),
        forall|j: int|
            0 <= j < documents.len() ==> (#[trigger] without_thumbnails(
                documents,
                evicted,
            )[j]).document_id == documents[j].document_id,
        without_thumbnails(documents, evicted)[i].thumbnails.cached.contains(key) == (
        documents[i].thumbnails.cached.contains(key) && !evicted.contains(key)),
    decreases evicted.len(),
{
    if evicted.len() > 0 {
        let fewer = evicted.drop_last();
        let last = evicted.last();
        documents_keep_the_thumbnails_that_stay(documents, fewer, i, key);
        let before = without_thumbnails(documents, fewer);
        let after = without_thumbnails(documents, evicted);
        assert(after == without_thumbnail(before, last));
        assert forall|j: int| 0 <= j < documents.len() implies (#[trigger] after[j]).document_id
            == documents[j].document_id by {
            assert(before[j].document_id == documents[j].document_id);
        }
        assert(stands_for(before, key.document_id, i)) by {
            assert(before[i].document_id == documents[i].document_id);
            assert forall|j: int| 0 <= j < i implies before[j].document_id != key.document_id by {
                assert(before[j].document_id == documents[j].document_id);
            }
        }
        if evicted.contains(key) {
            let k = choose|k: int| 0 <= k < evicted.len() && evicted[k] == key;
            if k < fewer.len() {
                assert(fewer[k] == key);
            }
        }
        if fewer.contains(key) {
            let k = choose|k: int| 0 <= k < fewer.len() && fewer[k] == key;
            assert(evicted[k] == key);
        }
        assert(evicted[evicted.len() - 1] == last);
    }
}

/// What is kept for the next start names every tab with its path and where it is looked at, in the
/// order of the registry, together with the settings that were handed over.
pub proof fn every_tab_is_kept(
    workspace: WorkspaceView,
    restore_enabled: bool,
    sidebar_open: bool,
    sidebar_tab: SidebarTab,
    colors: Seq<[u8; 3]>,
    i: int,
)
    requires
        0 <= i < workspace.documents.len(),
    ensures
        ({
            let session = kept_session(
                workspace,
                restore_enabled,
                sidebar_open,
                sidebar_tab,
                colors,
            );
            &&& session.schema_version == 3
            &&& session.restore_enabled == restore_enabled
            &&& session.sidebar_open == sidebar_open
            &&& session.sidebar_tab == sidebar_tab
            &&& session.recent_annotation_colors == colors
            &&& session.tabs.len() == workspace.documents.len()
            &&& session.tabs[i].path == workspace.tabs.tabs[i].path
            &&& session.tabs[i].view == workspace.documents[i].view.remembered()
            &&& session.layout.entries.len() == workspace.tabs.entries.len()
        }),
{
}

/// When the first tab of a split closes, the second one takes over its pane: it comes back to the
/// point that it showed, and no longer scrolls by itself. Any other document stays where it is.
pub proof fn the_second_pane_moves_up(workspace: WorkspaceView, index: int, i: int, e: int)
    requires
        workspace.wf(),
        0 <= index < workspace.documents.len() <= usize::MAX,
        0 <= i < workspace.documents.len() - 1,
        0 <= e < workspace.tabs.entries.len(),
        workspace.tabs.entries[e].has(workspace.tabs.tabs[index].id),
    ensures
        ({
            let closed = workspace.tabs.tabs[index].id;
            let k = if i < index {
                i
            } else {
                i + 1
            };
            let before = workspace.documents[k].view;
            let after = workspace.without_tab(index).documents[i].view;
            let moves = workspace.tabs.entries[e] matches TabEntry::Split(group) && group.first
                == closed && group.second == workspace.tabs.tabs[k].id;
            &&& moves ==> after.autoscroll is None
            &&& moves && before.display_mode is Continuous ==> after.restore_anchor
                == before.center_anchor
            &&& moves && before.display_mode is SinglePage ==> after.restore_single_anchor
                == before.single_center_anchor
            &&& !moves ==> after.autoscroll == before.autoscroll && after.restore_anchor
                == before.restore_anchor && after.restore_single_anchor
                == before.restore_single_anchor
        }),
{
    reveal(settled);
    let closed = workspace.tabs.tabs[index].id;
    let k = if i < index {
        i
    } else {
        i + 1
    };
    entry_of_is(workspace.tabs.entries, closed, e);
    close_keeps_wf(workspace.tabs, index);
    let tabs = workspace.tabs.close(index);
    registry_of_is(tabs, i);
    assert(tabs.tabs[i] == workspace.tabs.tabs[k]);
    assert(workspace.documents.remove(index)[i] == workspace.documents[k]);
    if let TabEntry::Split(group) = workspace.tabs.entries[e] {
        if group.first == closed && group.second != workspace.tabs.tabs[k].id {
            assert(workspace.tabs.entries[e].has(group.second));
            assert(shown(workspace.tabs.entries, group.second));
            assert(workspace.tabs.registered(group.second));
            let other = choose|j: int|
                0 <= j < workspace.tabs.tabs.len() && (#[trigger] workspace.tabs.tabs[j]).id
                    == group.second;
            let place = if other < index {
                other
            } else {
                other - 1
            };
            assert(other != index);
            assert(tabs.tabs[place] == workspace.tabs.tabs[other]);
            registry_of_is(tabs, place);
        }
    }
}

/// The editor of a document with something to save, or to wait for, is not left; one without is, and
/// so is one of another document than the one that is asked about.
pub proof fn busy_editors_are_not_left(
    workspace: WorkspaceView,
    only: Option<usize>,
    index: int,
    other: int,
)
    ensures
        workspace.is_blocked_at(only, index) ==> 0 <= index < workspace.documents.len()
            && workspace.editor is Some && (workspace.editor->0.dirty
            || workspace.editor->0.mutation_in_flight) && workspace.documents[index].document_id
            == workspace.editor->0.document_id,
        workspace.is_blocked_at(only, index) && workspace.is_blocked_at(only, other) ==> index
            == other,
        only is Some && only->0 != index ==> !workspace.is_blocked_at(only, index),
        workspace.editor is Some && (workspace.editor->0.dirty
            || workspace.editor->0.mutation_in_flight) && stands_for(
            workspace.documents,
            workspace.editor->0.document_id,
            index,
        ) ==> workspace.is_blocked_at(None, index) && workspace.is_blocked_at(
            Some(index as usize),
            index,
        ) || index > usize::MAX,
{
}

/// Once a tab is gone, a search starts exactly if the tab that is active then has one to make and
/// does not make it yet. A document gets a new worker exactly if it was let go and is on the screen.
pub proof fn what_follows_a_closed_tab(
    workspace: WorkspaceView,
    index: int,
    removal: Removal,
    active: int,
    k: int,
    i: int,
)
    requires
        removal.fits(workspace, index),
    ensures
        ({
            let after = workspace.without_tab(index);
            &&& removal.document@ == workspace.documents[index]
            &&& after.tabs.active_index() is None ==> !removal.begin_search
            &&& after.tabs.active_index() == Some(active) ==> removal.begin_search == (!is_blank(
                after.documents[active].search.query,
            ) && !after.documents[active].search.in_progress)
            &&& 0 <= k < removal.resumed@.len() ==> after.tabs.shows_index(
                removal.resumed@[k].index as int,
            ) && workspace.documents.remove(index)[removal.resumed@[k].index as int].state
                is Suspended
            &&& 0 <= i < workspace.documents.len() - 1 && after.tabs.shows_index(i)
                && workspace.documents.remove(index)[i].state is Suspended ==> exists|r: int|
                0 <= r < removal.resumed@.len() && (#[trigger] removal.resumed@[r]).index == i
            &&& (removal.restore_status is Some)
                == workspace.documents[index].restoring_from_session
        }),
{
    let after = workspace.without_tab(index);
    if 0 <= i < workspace.documents.len() - 1 {
        assert(after.on_screen()(i) == after.tabs.shows_index(i));
        if after.tabs.shows_index(i) && workspace.documents.remove(index)[i].state is Suspended {
            assert(has_resumed(removal.resumed@, i));
        }
    }
    if 0 <= k < removal.resumed@.len() {
        assert(after.on_screen()(removal.resumed@[k].index as int));
    }
}

/// Turning to a tab takes back what the documents that leave the screen were waiting for, and gives
/// a new worker to those that come to it and were let go. A search starts exactly if the tab has one
/// to make and does not make it yet.
pub proof fn what_follows_a_turn(
    workspace: WorkspaceView,
    index: usize,
    previous: Option<usize>,
    was_visible: Seq<usize>,
    activation: Activation,
    k: int,
    i: int,
)
    requires
        activation.fits(workspace, index, previous, was_visible),
        0 <= i < workspace.documents.len(),
    ensures
        ({
            let after = workspace.activate(index as int, previous, was_visible);
            let leaves = was_visible.contains(i as usize) && !workspace.tabs.shows_index(i);
            let comes_back = workspace.tabs.shows_index(i)
                && workspace.documents[i].state is Suspended;
            &&& leaves == exists|r: int|
                0 <= r < activation.left@.len() && (#[trigger] activation.left@[r]).index == i
            &&& comes_back == exists|r: int|
                0 <= r < activation.resumed@.len() && (#[trigger] activation.resumed@[r]).index == i
            &&& 0 <= k < activation.left@.len() && activation.left@[k].index == i
                ==> activation.left@[k].search_generation == after.documents[i].search.generation
            &&& 0 <= k < activation.resumed@.len() && activation.resumed@[k].index == i
                ==> workspace.documents[i].info is Some && activation.resumed@[k].version
                == workspace.documents[i].info->0.version
            &&& activation.begin_search == (!is_blank(
                after.documents[index as int].search.query,
            ) && !after.documents[index as int].search.in_progress)
            &&& previous is None || previous == Some(index) ==> !activation.cancel_viewports
            &&& previous is Some && previous != Some(index) ==> activation.cancel_viewports
        }),
{
    reveal(activated);
    assert(workspace.leaves_screen(was_visible)(i) == (was_visible.contains(i as usize)
        && !workspace.tabs.shows_index(i)));
    assert(workspace.on_screen()(i) == workspace.tabs.shows_index(i));
    if workspace.leaves_screen(was_visible)(i) {
        assert(has_left(activation.left@, i));
    }
    if workspace.on_screen()(i) && workspace.documents[i].state is Suspended {
        assert(has_resumed(activation.resumed@, i));
    }
}

/// Bars that did not change leave the workspace as it is; a changed bar is taken over, and the tab
/// that is active in it is the one that was used last.
pub proof fn a_changed_bar_is_taken_over(
    workspace: WorkspaceView,
    effect: Rearrangement,
    active: int,
)
    ensures
        !effect.changed ==> workspace.rearranged(effect) == workspace,
        effect.changed ==> workspace.rearranged(effect).tabs == effect.tabs,
        effect.changed ==> workspace.rearranged(effect).documents.len()
            == workspace.documents.len(),
        effect.changed && effect.tabs.active_index() == Some(active) && 0 <= active
            < workspace.documents.len() ==> workspace.rearranged(
            effect,
        ).documents[active].last_selected_sequence == workspace.rearranged(
            effect,
        ).activity_sequence,
        effect.changed && effect.tabs.active_index() is None ==> workspace.rearranged(
            effect,
        ).activity_sequence == workspace.activity_sequence,
{
    reveal(activated);
}

/// What is said of a file that is asked for names it, and tells one that is opened from one that a
/// tab shows already.
pub proof fn asked_files_are_named(a: Seq<char>, b: Seq<char>, is_new: bool)
    ensures
        opened_status(true, a) != opened_status(false, b),
        opened_status(is_new, a) == opened_status(is_new, b) ==> a == b,
{
    reveal_strlit("Opening ");
    reveal_strlit("…");
    reveal_strlit("Selected existing tab: ");
    assert(opened_status(true, a)[0] == 'O');
    assert(opened_status(false, b)[0] == 'S');
    if opened_status(is_new, a) == opened_status(is_new, b) {
        let one = opened_status(is_new, a);
        let other = opened_status(is_new, b);
        let from: int = if is_new {
            8
        } else {
            23
        };
        let behind: int = if is_new {
            1
        } else {
            0
        };
        assert(one.len() == from + a.len() + behind);
        assert(other.len() == from + b.len() + behind);
        assert forall|i: int| 0 <= i < a.len() implies a[i] == b[i] by {
            assert(one[from + i] == a[i]);
            assert(other[from + i] == b[i]);
        }
        assert(a =~= b);
    }
}

} // verus!

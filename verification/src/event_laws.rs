//! What each report of a worker does to its document, and what it leaves alone.
use crate::annotation::EditorView;
use crate::controls::page_for_input;
use crate::document::{
    failure_message, lists, lists_pending, page_entered, state_told, DocumentInfo, DocumentState, DocumentView,
    EditAction, SaveAsView, Selection,
};
use crate::events::{
    after_event, changed_outcome, document_received, editor_after_event, failed_outcome,
    is_expected, opened_outcome, outcome_of, outcome_received, search_received, DocumentEvent,
    EventContext, EventOutcome, HighlightFollowUp,
};
use crate::highlight_index::{HighlightIndexBatch, HighlightIndexRequest};
use crate::path::DocumentPath;
use crate::rendering::{
    rendered_key, AnnotationPageRequest, RenderedThumbnail, RenderedTile, TextSnapshotKey,
    TextSnapshotRequest, ThumbnailCacheKey, ThumbnailRequest, TileCacheKey, TileRequest,
};
use crate::search::SearchPageResult;
use crate::session::SessionView;
use crate::text::{decimal, is_blank, trimmed, written_number};
use crate::tiles::is_dropped;
use vstd::prelude::*;

verus! {

/// There is something to lose exactly while an edit is not in the file: it is being made, it was
/// made, or the file that holds it is being written.
pub proof fn what_can_be_lost(document: DocumentView)
    ensures
        document.unsaved() == (document.pending_edits > 0 || document.state is ReadyDirty
            || document.state is Saving || (document.info is Some && document.info->0.dirty)),
        document.suspendable() ==> !document.unsaved() && !document.print_in_flight
            && document.state is ReadyClean && document.pending_edits == 0,
        document.state is ReadyClean && document.pending_edits == 0 && !document.print_in_flight
            && (document.info is None || !document.info->0.dirty) ==> document.suspendable(),
{
}

/// A description without edits makes a document clean. One with edits makes it dirty, but does not
/// end a save that is under way.
pub proof fn descriptions_set_the_state(current: DocumentState, dirty: bool)
    ensures
        !dirty ==> state_told(current, dirty) is ReadyClean,
        dirty && current is Saving ==> state_told(current, dirty) is Saving,
        dirty && !(current is Saving) ==> state_told(current, dirty) is ReadyDirty,
{
}

/// An opened document is ready, as clean as the file says, without an error, and shows pages that
/// exist; it is not being restored any more, and no change of the file is known. Nothing else of it
/// changes but the list of highlights.
pub proof fn an_opened_document_is_ready(
    before: DocumentView,
    after: DocumentView,
    context: EventContext,
    info: DocumentInfo,
    shown_path: String,
)
    requires
        document_received(before, after, context, DocumentEvent::Opened { info, shown_path }),
    ensures
        after.info == Some(info),
        (after.state is ReadyDirty) == info.dirty,
        (after.state is ReadyClean) == !info.dirty,
        after.error is None,
        !after.restoring_from_session,
        after.external_candidate is None,
        !after.external_conflict_reported,
        !after.reload_in_flight,
        info.page_count > 0 ==> after.view.current_page < info.page_count,
        before.view.current_page < info.page_count ==> after.view.current_page
            == before.view.current_page,
        after.view.zoom_bits == before.view.zoom_bits,
        after.view.display_mode == before.view.display_mode,
        after.view.generation == before.view.generation,
        before.highlight_index.started && before.highlight_index.revision != Some(info.revision)
            ==> after.highlight_index.revision == Some(info.revision)
            && after.highlight_index.generation != before.highlight_index.generation
            && after.highlight_index.total_pages == info.page_count
            && after.highlight_index.in_flight is None,
        !before.highlight_index.started || before.highlight_index.revision == Some(info.revision)
            ==> after.highlight_index == before.highlight_index,
        after == (DocumentView {
            info: after.info,
            state: after.state,
            error: after.error,
            restoring_from_session: after.restoring_from_session,
            external_candidate: after.external_candidate,
            external_conflict_reported: after.external_conflict_reported,
            reload_in_flight: after.reload_in_flight,
            view: after.view,
            highlight_index: after.highlight_index,
            ..before
        }),
{
    reveal(DocumentView::opened);
}

/// Once opened, the outline is asked for where it was not yet, and a search goes on in the active
/// document; a restored tab is counted.
pub proof fn an_opened_document_is_followed_up(
    document: DocumentView,
    active: bool,
    info: DocumentInfo,
    shown_path: Seq<char>,
)
    ensures
        ({
            let outcome = opened_outcome(document, active, info, shown_path);
            &&& outcome.status == Some("Opened "@ + shown_path)
            &&& outcome.load_outline == !document.outline_requested
            &&& outcome.begin_search == (active && !is_blank(document.search.query))
            &&& outcome.restored == document.restoring_from_session
            &&& !outcome.stop && !outcome.saved && !outcome.save_failed
                && !outcome.drop_restored_tab && !outcome.cancel_viewport
            &&& !document.highlight_index.started ==> outcome.highlight is Nothing
            &&& document.highlight_index.started && document.highlight_index.revision == Some(
                info.revision,
            ) ==> outcome.highlight == HighlightFollowUp::Reconnect(
                document.highlight_index.generation,
            )
            &&& document.highlight_index.started && document.highlight_index.revision != Some(
                info.revision,
            ) ==> outcome.highlight is Announce
        }),
{
    reveal(opened_outcome);
    reveal(DocumentView::opened);
}

/// A new description is taken over, and nothing that was rendered or read of the old one counts any
/// more. Without edits the history is over and a save has come to its end; with edits the history
/// stays and a save goes on.
pub proof fn a_new_description_is_taken_over(
    before: DocumentView,
    after: DocumentView,
    context: EventContext,
    info: DocumentInfo,
    external_reload: bool,
)
    requires
        document_received(
            before,
            after,
            context,
            DocumentEvent::DocumentChanged { info, external_reload },
        ),
    ensures
        after.info == Some(info),
        after.state == state_told(before.state, info.dirty),
        info.dirty ==> after.edit_history == before.edit_history && after.save_in_flight
            == before.save_in_flight,
        !info.dirty ==> after.edit_history.len() == 0 && !after.save_in_flight,
        after.pending_rebind_path is None,
        after.pending_highlight_refresh_page is None,
        after.pending_edits == before.pending_edits,
        after.undo_in_flight == before.undo_in_flight,
        after.print_in_flight == before.print_in_flight,
        after.error == before.error,
        after.connected == before.connected,
        after.document_id == before.document_id,
        after.save_as == before.save_as,
        after.page_input == before.page_input,
        after.view.generation != before.view.generation,
        after.thumbnail_generation != before.thumbnail_generation,
        after.view.zoom_bits == before.view.zoom_bits,
        after.view.display_mode == before.view.display_mode,
        context.visible ==> after.view.autoscroll is None,
        forall|key: TextSnapshotKey| !(#[trigger] after.texts.cached.contains(key)),
        forall|key: AnnotationPageRequest| !(#[trigger] after.annotations.cached.contains(key)),
        forall|key: ThumbnailCacheKey| !(#[trigger] after.thumbnails.cached.contains(key)),
        forall|key: ThumbnailCacheKey| !(#[trigger] after.thumbnails.pending.contains(key)),
{
    reveal(DocumentView::changed);
    reveal(DocumentView::described);
    reveal(DocumentView::reread);
}

/// A description after an edit of one page reads the highlights of that page again; any other
/// description reads all of them again.
pub proof fn highlights_are_read_again(
    before: DocumentView,
    after: DocumentView,
    context: EventContext,
    info: DocumentInfo,
    external_reload: bool,
    page: usize,
)
    requires
        document_received(
            before,
            after,
            context,
            DocumentEvent::DocumentChanged { info, external_reload },
        ),
        before.highlight_index.started,
    ensures
        after.highlight_index.revision == Some(info.revision),
        after.highlight_index.generation != before.highlight_index.generation,
        after.highlight_index.in_flight is None,
        before.pending_highlight_refresh_page is Some && info.dirty
            ==> after.highlight_index.pages.dom().contains(page) == (
        before.highlight_index.pages.dom().contains(page) && page < info.page_count && page
            != before.pending_highlight_refresh_page->0),
        before.pending_highlight_refresh_page is None || !info.dirty
            ==> !after.highlight_index.pages.dom().contains(page),
{
    reveal(DocumentView::changed);
    reveal(DocumentView::described);
    reveal(DocumentView::reread);
}

/// A file that was read again because it changed outside is looked at as new: without a selection,
/// without hits, without an outline, on pages that exist, and no change of it is known. A
/// description of the user's own edits leaves all of that alone.
pub proof fn a_file_changed_outside_is_looked_at_as_new(
    before: DocumentView,
    after: DocumentView,
    context: EventContext,
    info: DocumentInfo,
    external_reload: bool,
)
    requires
        document_received(
            before,
            after,
            context,
            DocumentEvent::DocumentChanged { info, external_reload },
        ),
    ensures
        external_reload ==> {
            &&& after.selection is None
            &&& after.selection_generation != before.selection_generation
            &&& after.search.pages.len() == 0
            &&& after.search.selected is None
            &&& !after.search.in_progress
            &&& after.search.query == before.search.query
            &&& !after.outline_loaded
            &&& !after.outline_requested
            &&& after.external_candidate is None
            &&& !after.external_conflict_reported
            &&& !after.reload_in_flight
            &&& after.failed_external_version is None
            &&& info.page_count > 0 ==> after.view.current_page < info.page_count
        },
        !external_reload ==> {
            &&& after.selection == before.selection
            &&& after.selection_generation == before.selection_generation
            &&& after.search == before.search
            &&& after.outline_loaded == before.outline_loaded
            &&& after.outline_requested == before.outline_requested
            &&& after.external_candidate == before.external_candidate
            &&& after.external_conflict_reported == before.external_conflict_reported
            &&& after.reload_in_flight == before.reload_in_flight
            &&& after.failed_external_version == before.failed_external_version
            &&& after.view.current_page == before.view.current_page
            &&& after.view.center_anchor == before.view.center_anchor
        },
{
    reveal(DocumentView::changed);
    reveal(DocumentView::described);
    reveal(DocumentView::reread);
}

/// What follows a new description: rendering on the screen is called off, a file without edits
/// counts as saved, a search goes on unless something closes, and a changed file's outline is read.
pub proof fn a_new_description_is_followed_up(
    document: DocumentView,
    context: EventContext,
    info: DocumentInfo,
    external_reload: bool,
)
    ensures
        ({
            let outcome = changed_outcome(document, context, info, external_reload);
            &&& outcome.cancel_viewport == context.visible
            &&& outcome.saved == !info.dirty
            &&& outcome.load_outline == external_reload
            &&& outcome.begin_search == (context.active && !context.closing && !is_blank(
                document.search.query,
            ))
            &&& (outcome.highlight is Announce) == document.highlight_index.started
            &&& !outcome.stop && !outcome.save_failed && !outcome.restored
                && !outcome.drop_restored_tab && outcome.status is None
        }),
{
    reveal(changed_outcome);
    reveal(DocumentView::changed);
    reveal(DocumentView::described);
    reveal(DocumentView::reread);
}

/// An edit that was made is the last of the history and leaves one less to wait for; the document
/// is dirty and the page of the edit is to be read again. Nothing else changes.
pub proof fn an_edit_is_noted(
    before: DocumentView,
    after: DocumentView,
    context: EventContext,
    action: EditAction,
)
    requires
        document_received(before, after, context, DocumentEvent::EditActionCreated(action)),
    ensures
        after.edit_history.len() == before.edit_history.len() + 1,
        after.edit_history.last() == action,
        forall|i: int|
            0 <= i < before.edit_history.len() ==> #[trigger] after.edit_history[i]
                == before.edit_history[i],
        before.pending_edits > 0 ==> after.pending_edits == before.pending_edits - 1,
        before.pending_edits == 0 ==> after.pending_edits == 0,
        after.state is ReadyDirty,
        after.unsaved(),
        action matches EditAction::CreateHighlight { page_index, .. }
            ==> after.pending_highlight_refresh_page == Some(page_index),
        action matches EditAction::UpdateAnnotation { annotation_id, .. }
            ==> after.pending_highlight_refresh_page == Some(annotation_id.page_index),
        action matches EditAction::DeleteAnnotation { annotation_id, .. }
            ==> after.pending_highlight_refresh_page == Some(annotation_id.page_index),
        after == (DocumentView {
            edit_history: after.edit_history,
            pending_edits: after.pending_edits,
            state: after.state,
            pending_highlight_refresh_page: after.pending_highlight_refresh_page,
            ..before
        }),
{
    reveal(DocumentView::edited);
}

/// An undo takes the last edit off the history if it is the one that was undone, and else leaves the
/// history with a message; either way no undo is under way any more.
pub proof fn an_undo_is_noted(
    before: DocumentView,
    after: DocumentView,
    context: EventContext,
    action: EditAction,
)
    requires
        document_received(before, after, context, DocumentEvent::EditActionUndone(action)),
    ensures
        !after.undo_in_flight,
        before.edit_history.len() > 0 && before.edit_history.last() == action
            ==> after.edit_history.len() == before.edit_history.len() - 1 && after.error
            == before.error && after.pending_highlight_refresh_page is Some,
        before.edit_history.len() == 0 || before.edit_history.last() != action
            ==> after.edit_history == before.edit_history && after.error is Some
            && after.pending_highlight_refresh_page == before.pending_highlight_refresh_page,
        forall|i: int|
            0 <= i < after.edit_history.len() ==> #[trigger] after.edit_history[i]
                == before.edit_history[i],
        after.state == before.state,
        after.pending_edits == before.pending_edits,
        after == (DocumentView {
            undo_in_flight: after.undo_in_flight,
            edit_history: after.edit_history,
            error: after.error,
            pending_highlight_refresh_page: after.pending_highlight_refresh_page,
            ..before
        }),
{
    reveal(DocumentView::undone);
}

/// A rendered tile is not waited for any more. It is kept exactly if it is on the screen, of the
/// current state, still wanted and sound; one that is wanted but not sound is an error.
pub proof fn rendered_tiles_are_kept_or_dropped(
    before: DocumentView,
    after: DocumentView,
    context: EventContext,
    tile: RenderedTile,
)
    requires
        document_received(before, after, context, DocumentEvent::TileRendered(tile)),
    ensures
        ({
            let key = rendered_key(before.document_id, tile);
            let wanted = context.visible && tile.generation == before.view.generation
                && before.info is Some && before.info->0.revision == tile.revision
                && before.tiles.wanted.contains(key);
            let sound = tile.spec.pixel_width * tile.spec.pixel_height * 4 == tile.pixel_bytes
                && tile.page_pixel_width > 0 && tile.page_pixel_height > 0 && tile.bounds_match;
            let kept = outcome_of(before, context, DocumentEvent::TileRendered(tile)).keep_tile;
            &&& !after.tiles.pending.dom().contains(key)
            &&& after.tiles.cached == before.tiles.cached
            &&& after.tiles.wanted == before.tiles.wanted
            &&& (kept is Some) == (wanted && sound)
            &&& kept is Some ==> kept->0.key == key && kept->0.weight == tile.pixel_bytes && (
            kept->0.was_prefetched == (before.tiles.pending.dom().contains(key) && !(
            before.tiles.pending[key].priority is Visible)))
            &&& wanted && !sound ==> after.error is Some
            &&& !wanted || sound ==> after.error == before.error
            &&& after == (DocumentView { tiles: after.tiles, error: after.error, ..before })
        }),
{
    reveal(DocumentView::tile_rendered);
    reveal(DocumentView::tile_to_keep);
}

/// A selection counts only if it is the one that was asked for last.
pub proof fn only_the_last_selection_counts(
    before: DocumentView,
    after: DocumentView,
    context: EventContext,
    selection: Selection,
)
    requires
        document_received(before, after, context, DocumentEvent::SelectionReady(selection)),
    ensures
        selection.generation == before.selection_generation ==> after.selection == Some(
            selection@,
        ),
        selection.generation != before.selection_generation ==> after.selection
            == before.selection,
        after == (DocumentView { selection: after.selection, ..before }),
{
    reveal(DocumentView::selected);
}

/// A page's texts are there once they were read, if the page is on the screen, exists, is of the
/// current revision and is still wanted; in any case they are not waited for any more.
pub proof fn texts_are_kept_while_wanted(
    before: DocumentView,
    after: DocumentView,
    context: EventContext,
    key: TextSnapshotKey,
)
    requires
        document_received(before, after, context, DocumentEvent::TextSnapshotReady(key)),
    ensures
        ({
            let wanted = context.visible && before.info is Some && before.info->0.revision
                == key.revision && key.page_index < before.info->0.page_count
                && before.texts.wanted.contains(key);
            &&& !after.texts.pending.contains(key)
            &&& after.texts.cached.contains(key) == (wanted || before.texts.cached.contains(key))
            &&& after.error == before.error
            &&& after == (DocumentView { texts: after.texts, ..before })
        }),
{
    reveal(DocumentView::text_read);
}

/// The annotations of a page are there once they were read, if the page is on the screen, of the
/// current revision and still wanted; in any case they are not waited for any more.
pub proof fn annotations_are_kept_while_wanted(
    before: DocumentView,
    after: DocumentView,
    context: EventContext,
    request: AnnotationPageRequest,
)
    requires
        document_received(before, after, context, DocumentEvent::AnnotationsReady(request)),
    ensures
        ({
            let wanted = context.visible && before.info is Some && before.info->0.revision
                == request.expected_revision && before.annotations.wanted.contains(request);
            &&& !after.annotations.pending.contains(request)
            &&& after.annotations.cached.contains(request) == (wanted
                || before.annotations.cached.contains(request))
            &&& after == (DocumentView { annotations: after.annotations, ..before })
        }),
{
    reveal(DocumentView::annotations_read);
}

/// Texts or annotations that cannot be read are an error exactly where they would have counted, and
/// are then known to fail; in any case they are not waited for any more.
pub proof fn pages_that_cannot_be_read_are_reported_while_wanted(
    before: DocumentView,
    context: EventContext,
    key: TextSnapshotKey,
    request: AnnotationPageRequest,
    message: Seq<char>,
)
    ensures
        ({
            let text = before.text_failed(context.visible, key, message);
            let wanted = context.visible && before.info is Some && before.info->0.revision
                == key.revision && key.page_index < before.info->0.page_count
                && before.texts.wanted.contains(key);
            &&& !text.texts.pending.contains(key)
            &&& wanted ==> text.texts.failed.contains(key) && text.error is Some
            &&& !wanted ==> text.texts.failed == before.texts.failed && text.error == before.error
            &&& text.texts.cached == before.texts.cached
            &&& text == (DocumentView { texts: text.texts, error: text.error, ..before })
        }),
        ({
            let after = before.annotations_failed(context.visible, request, message);
            let wanted = context.visible && before.info is Some && before.info->0.revision
                == request.expected_revision && before.annotations.wanted.contains(request);
            &&& !after.annotations.pending.contains(request)
            &&& wanted ==> after.annotations.failed.contains(request) && after.error is Some
            &&& !wanted ==> after.annotations.failed == before.annotations.failed && after.error
                == before.error
            &&& after.annotations.cached == before.annotations.cached
            &&& after == (DocumentView {
                annotations: after.annotations,
                error: after.error,
                ..before
            })
        }),
{
    reveal(DocumentView::text_failed);
    reveal(DocumentView::annotations_failed);
}

/// A thumbnail that was rendered is not waited for any more; it is kept exactly if its document is
/// active, it is of the current state and its size fits.
pub proof fn thumbnails_are_kept_while_current(
    before: DocumentView,
    after: DocumentView,
    context: EventContext,
    thumbnail: RenderedThumbnail,
)
    requires
        document_received(before, after, context, DocumentEvent::ThumbnailReady(thumbnail)),
    ensures
        ({
            let key = ThumbnailCacheKey {
                document_id: before.document_id,
                page_index: thumbnail.page_index,
                max_pixel_width: thumbnail.max_pixel_width,
                max_pixel_height: thumbnail.max_pixel_height,
                revision: thumbnail.revision,
            };
            let kept = outcome_of(
                before,
                context,
                DocumentEvent::ThumbnailReady(thumbnail),
            ).keep_thumbnail;
            &&& !after.thumbnails.pending.contains(key)
            &&& !after.thumbnails.failed.contains(key)
            &&& (kept is Some) == (context.active && thumbnail.generation
                == before.thumbnail_generation && before.info is Some && before.info->0.revision
                == thumbnail.revision && thumbnail.pixel_width * thumbnail.pixel_height * 4
                == thumbnail.pixel_bytes)
            &&& kept is Some ==> kept->0.key == key && kept->0.weight == thumbnail.pixel_bytes
            &&& after == (DocumentView { thumbnails: after.thumbnails, ..before })
        }),
{
    reveal(DocumentView::thumbnail_rendered);
    reveal(DocumentView::thumbnail_to_keep);
}

/// A copy that was written ends the wait for it, and only for that copy.
pub proof fn a_written_copy_ends_the_wait(
    before: DocumentView,
    after: DocumentView,
    context: EventContext,
    path: DocumentPath,
)
    requires
        document_received(before, after, context, DocumentEvent::SavedAs(path)),
    ensures
        ({
            let awaited = before.save_as is Saving && before.save_as->Saving_0.parts == path@.parts;
            let outcome = outcome_of(before, context, DocumentEvent::SavedAs(path));
            &&& awaited ==> after.save_as is Idle && outcome.saved_copy == Some(path@)
            &&& !awaited ==> after == before && outcome.saved_copy is None
            &&& after == (DocumentView { save_as: after.save_as, ..before })
        }),
{
    reveal(DocumentView::copy_saved);
}

/// The ends of a print, an outline or a status message change only what they are about.
pub proof fn small_reports_change_little(before: DocumentView, context: EventContext, status: String)
    ensures
        after_event(before, context, DocumentEvent::PrintCompleted) == (DocumentView {
            print_in_flight: false,
            ..before
        }),
        after_event(before, context, DocumentEvent::PrintCancelled) == (DocumentView {
            print_in_flight: false,
            ..before
        }),
        after_event(before, context, DocumentEvent::OutlineReady) == (DocumentView {
            outline_loaded: true,
            ..before
        }),
        after_event(before, context, DocumentEvent::Status(status)) == (DocumentView {
            error: None,
            ..before
        }),
        outcome_of(before, context, DocumentEvent::Status(status)).status == Some(status@),
{
    reveal(DocumentView::printed);
    reveal(DocumentView::outlined);
    reveal(DocumentView::untroubled);
}

/// A hit counts for the running search only, and only in the revision that was searched.
pub proof fn only_current_hits_count(
    before: DocumentView,
    after: DocumentView,
    context: EventContext,
    result: SearchPageResult,
)
    requires
        document_received(before, after, context, DocumentEvent::SearchPageReady(result)),
        before.search.completed_pages < usize::MAX,
    ensures
        ({
            let current = result.generation == before.search.generation && before.info is Some
                && before.info->0.revision == result.revision;
            &&& !current ==> after == before
            &&& current ==> after.search.completed_pages == before.search.completed_pages + 1
                && after.search.truncated == (before.search.truncated || result.truncated)
                && after.search.query == before.search.query && after.search.selected
                == before.search.selected && after.search.in_progress == (
            before.search.in_progress && before.search.completed_pages + 1
                < before.info->0.page_count)
            &&& after == (DocumentView { search: after.search, ..before })
        }),
{
    reveal(search_received);
}

/// A worker that is lost leaves an error, nothing to wait for, and nothing that was being made. A tab
/// that was still being restored is dropped as it is.
pub proof fn a_lost_worker_leaves_an_error(
    before: DocumentView,
    after: DocumentView,
    context: EventContext,
)
    requires
        document_received(before, after, context, DocumentEvent::Disconnected),
    ensures
        ({
            let outcome = outcome_of(before, context, DocumentEvent::Disconnected);
            &&& outcome.stop
            &&& outcome.cancel_viewport == context.visible
            &&& outcome.drop_restored_tab == before.restoring_from_session
            &&& outcome.save_failed == !before.restoring_from_session
        }),
        !before.restoring_from_session ==> {
            &&& after.state is Error
            &&& !after.connected
            &&& after.pending_edits == 0
            &&& !after.save_in_flight
            &&& !after.print_in_flight
            &&& !after.undo_in_flight
            &&& after.error is Some || before.state is Error
            &&& before.state is Error ==> after.error == before.error
            &&& after.edit_history == before.edit_history
            &&& after.info == before.info
            &&& after.search == before.search
            &&& after.selection == before.selection
            &&& after.tiles == before.tiles
            &&& after.texts == before.texts
            &&& after.thumbnails == before.thumbnails
        },
        before.restoring_from_session ==> after.state == before.state && after.connected
            == before.connected && after.error == before.error && after.pending_edits
            == before.pending_edits,
        context.visible ==> after.view.autoscroll is None,
        !context.visible ==> after.view == before.view,
{
    reveal(DocumentView::orphaned);
}

/// A failure leaves its message. It ends what failed and nothing else: a save, a print, an undo, a
/// copy or a rename that failed is not under way any more.
#[verifier::rlimit(80)]
pub proof fn a_failure_ends_what_failed(
    before: DocumentView,
    visible: bool,
    operation: Seq<char>,
    message: Seq<char>,
)
    requires
        !(operation == "open"@ && before.restoring_from_session),
    ensures
        ({
            let after = before.failed(visible, operation, message);
            &&& after.error is Some
            &&& operation == "save"@ ==> !after.save_in_flight && after.state is ReadyDirty
            &&& operation != "save"@ ==> after.save_in_flight == before.save_in_flight
            &&& operation == "print"@ ==> !after.print_in_flight
            &&& operation != "print"@ ==> after.print_in_flight == before.print_in_flight
            &&& operation == "undo"@ ==> !after.undo_in_flight
            &&& operation != "undo"@ ==> after.undo_in_flight == before.undo_in_flight
            &&& operation == "save-as"@ ==> after.save_as is Idle
            &&& operation != "save-as"@ ==> after.save_as == before.save_as
            &&& operation == "rename"@ ==> after.pending_rebind_path is None
            &&& operation != "rename"@ ==> after.pending_rebind_path == before.pending_rebind_path
            &&& operation == "reload"@ ==> !after.reload_in_flight
            &&& operation != "reload"@ ==> after.reload_in_flight == before.reload_in_flight
                && after.failed_external_version == before.failed_external_version
            &&& operation == "search"@ ==> after.search.pages.len() == 0
                && !after.search.in_progress && after.search.query == before.search.query
            &&& operation != "search"@ ==> after.search == before.search
            &&& after.edit_history == before.edit_history
            &&& after.info == before.info
            &&& after.selection == before.selection
            &&& after.connected == before.connected
            &&& visible ==> after.view.autoscroll is None
            &&& !visible ==> after.view == before.view
        }),
{
    reveal(DocumentView::failed);
    reveal(DocumentView::given_up);
    operations_differ();
}

/// The names of operations are all different.
proof fn operations_differ()
    ensures
        "save"@ != "print"@ && "save"@ != "undo"@ && "save"@ != "save-as"@ && "save"@ != "rename"@
            && "save"@ != "reload"@ && "save"@ != "search"@,
        "print"@ != "undo"@ && "print"@ != "save-as"@ && "print"@ != "rename"@ && "print"@
            != "reload"@ && "print"@ != "search"@,
        "undo"@ != "save-as"@ && "undo"@ != "rename"@ && "undo"@ != "reload"@ && "undo"@
            != "search"@,
        "save-as"@ != "rename"@ && "save-as"@ != "reload"@ && "save-as"@ != "search"@,
        "rename"@ != "reload"@ && "rename"@ != "search"@ && "reload"@ != "search"@,
        "highlight"@ != "save"@ && "highlight"@ != "print"@ && "highlight"@ != "undo"@
            && "highlight"@ != "save-as"@ && "highlight"@ != "rename"@ && "highlight"@ != "reload"@
            && "highlight"@ != "search"@ && "highlight"@ != "highlight-state"@,
        "highlight-state"@ != "save"@ && "highlight-state"@ != "print"@ && "highlight-state"@
            != "undo"@ && "highlight-state"@ != "save-as"@ && "highlight-state"@ != "rename"@
            && "highlight-state"@ != "reload"@ && "highlight-state"@ != "search"@,
        "annotation-update"@ != "save"@ && "annotation-update"@ != "print"@ && "annotation-update"@
            != "undo"@ && "annotation-update"@ != "save-as"@ && "annotation-update"@ != "rename"@
            && "annotation-update"@ != "reload"@ && "annotation-update"@ != "search"@
            && "annotation-update"@ != "highlight"@ && "annotation-update"@ != "highlight-state"@,
        "annotation-delete"@ != "save"@ && "annotation-delete"@ != "print"@ && "annotation-delete"@
            != "undo"@ && "annotation-delete"@ != "save-as"@ && "annotation-delete"@ != "rename"@
            && "annotation-delete"@ != "reload"@ && "annotation-delete"@ != "search"@
            && "annotation-delete"@ != "highlight"@ && "annotation-delete"@ != "highlight-state"@,
        "open"@ != "search"@ && "open"@ != "save"@ && "open"@ != "rename"@ && "open"@ != "undo"@
            && "open"@ != "highlight"@ && "open"@ != "highlight-state"@ && "open"@
            != "annotation-update"@ && "open"@ != "annotation-delete"@,
{
    reveal_strlit("save");
    reveal_strlit("print");
    reveal_strlit("undo");
    reveal_strlit("save-as");
    reveal_strlit("rename");
    reveal_strlit("reload");
    reveal_strlit("search");
    reveal_strlit("highlight");
    reveal_strlit("highlight-state");
    reveal_strlit("annotation-update");
    reveal_strlit("annotation-delete");
    reveal_strlit("open");
    assert("save"@.len() == 4);
    assert("print"@.len() == 5);
    assert("undo"@.len() == 4);
    assert("save-as"@.len() == 7);
    assert("rename"@.len() == 6);
    assert("reload"@.len() == 6);
    assert("search"@.len() == 6);
    assert("highlight"@.len() == 9);
    assert("highlight-state"@.len() == 15);
    assert("annotation-update"@.len() == 17);
    assert("annotation-delete"@.len() == 17);
    assert("open"@.len() == 4);
    assert("save"@[0] != "open"@[0]);
    assert("rename"@[2] != "reload"@[2]);
    assert("rename"@[0] != "search"@[0]);
    assert("reload"@[0] != "search"@[0]);
    assert("save"@[0] != "undo"@[0]);
    assert("open"@[0] != "undo"@[0]);
    assert("annotation-update"@[11] != "annotation-delete"@[11]);
}

/// An edit that failed leaves one less to wait for; where nothing else is left to lose, the document
/// is clean again. One whose end is not known leaves the document dirty.
#[verifier::rlimit(60)]
pub proof fn a_failed_edit_is_not_waited_for(
    before: DocumentView,
    visible: bool,
    operation: Seq<char>,
    message: Seq<char>,
)
    requires
        operation == "highlight"@ || operation == "annotation-update"@ || operation
            == "annotation-delete"@ || operation == "highlight-state"@,
    ensures
        ({
            let after = before.failed(visible, operation, message);
            &&& before.pending_edits > 0 ==> after.pending_edits == before.pending_edits - 1
            &&& before.pending_edits == 0 ==> after.pending_edits == 0
            &&& operation == "highlight-state"@ ==> after.state is ReadyDirty
            &&& operation != "highlight-state"@ && before.pending_edits <= 1 && !(
            before.state is ReadyDirty) && !(before.state is Saving) && (before.info is None
                || !before.info->0.dirty) && !before.save_in_flight ==> after.state is ReadyClean
            &&& operation != "highlight-state"@ && (before.pending_edits > 1
                || before.state is ReadyDirty || before.state is Saving || (before.info is Some
                && before.info->0.dirty) || before.save_in_flight) ==> after.state == before.state
        }),
{
    reveal(DocumentView::failed);
    reveal(DocumentView::given_up);
    operations_differ();
}

/// What follows a failure: a tab that could not be restored is dropped, a save is reported as failed,
/// and a rename is taken back.
pub proof fn a_failure_is_followed_up(
    document: DocumentView,
    context: EventContext,
    operation: Seq<char>,
)
    ensures
        ({
            let outcome = failed_outcome(document, context, operation);
            let gone = operation == "open"@ && document.restoring_from_session;
            &&& outcome.cancel_viewport == context.visible
            &&& outcome.drop_restored_tab == gone
            &&& outcome.stop == gone
            &&& outcome.save_failed == (operation == "save"@)
            &&& operation == "rename"@ ==> outcome.previous_path == document.pending_rebind_path
            &&& operation != "rename"@ ==> outcome.previous_path is None
            &&& (outcome.search_generation is Some) == (operation == "search"@)
            &&& !outcome.saved && !outcome.restored && !outcome.begin_search
                && outcome.status is None
        }),
{
    reveal(failed_outcome);
    operations_differ();
}

/// An editor closes when its annotation was changed, or when its document was saved; it stays open
/// for any other edit and any other document.
pub proof fn editors_close_with_their_change(
    document: DocumentView,
    editor: EditorView,
    action: EditAction,
    info: DocumentInfo,
    external_reload: bool,
)
    ensures
        ({
            let closed = editor_after_event(
                document,
                Some(editor),
                DocumentEvent::EditActionCreated(action),
            );
            let own = editor.document_id == document.document_id;
            let hits = match action {
                EditAction::CreateHighlight { .. } => false,
                EditAction::UpdateAnnotation { annotation_id, .. } => annotation_id
                    == editor.annotation_id,
                EditAction::DeleteAnnotation { annotation_id, .. } => annotation_id
                    == editor.annotation_id,
            };
            &&& own && hits ==> closed is None
            &&& !own || !hits ==> closed == Some(editor)
        }),
        ({
            let closed = editor_after_event(
                document,
                Some(editor),
                DocumentEvent::DocumentChanged { info, external_reload },
            );
            &&& editor.document_id == document.document_id && !info.dirty ==> closed is None
            &&& editor.document_id != document.document_id || info.dirty ==> closed == Some(editor)
        }),
{
}

/// A page number that exists is turned to and shown; any other input leaves the page and names the
/// pages that there are.
pub proof fn page_numbers_are_turned_to(document: DocumentView, input: Seq<char>, number: nat)
    requires
        written_number(trimmed(input)) == Some(number),
        document.page_count() < usize::MAX,
    ensures
        ({
            let after = page_entered(document, input);
            &&& 1 <= number <= document.page_count() ==> after.view.current_page == number - 1
                && after.page_input == decimal(number) && after.page_input_error is None
                && page_for_input(input, document.page_count() as int) == Some(number - 1)
            &&& !(1 <= number <= document.page_count()) ==> after.view == document.view
                && after.page_input == decimal((document.view.current_page + 1) as nat)
                && after.page_input_error is Some
            &&& after == (DocumentView {
                view: after.view,
                page_input: after.page_input,
                page_input_error: after.page_input_error,
                ..document
            })
        }),
{
}

/// What is not a number leaves the page.
pub proof fn other_input_leaves_the_page(document: DocumentView, input: Seq<char>)
    requires
        written_number(trimmed(input)) is None,
    ensures
        page_entered(document, input).view == document.view,
        page_entered(document, input).page_input_error is Some,
        page_entered(document, input).page_input == decimal(
            (document.view.current_page + 1) as nat,
        ),
{
}

/// A new document is being opened by a worker, without anything to lose; it shows what its session
/// kept, if it comes from one.
pub proof fn a_new_document_is_being_opened(
    document_id: u64,
    sequence: u64,
    restored_view: Option<SessionView>,
)
    ensures
        ({
            let document = DocumentView::fresh(document_id, sequence, restored_view);
            &&& document.document_id == document_id
            &&& document.last_selected_sequence == sequence
            &&& document.state is Opening
            &&& document.connected
            &&& document.info is None
            &&& document.error is None
            &&& !document.unsaved()
            &&& document.edit_history.len() == 0
            &&& document.restoring_from_session == (restored_view is Some)
            &&& restored_view is Some ==> document.view.remembered() == restored_view->0
            &&& restored_view is None ==> document.view.current_page == 0
            &&& document.search.query.len() == 0
            &&& document.page_input == "1"@
            &&& document.selection is None
            &&& document.save_as is Idle
        }),
{
}

/// A document that is let go keeps what it is and where it is looked at; what was rendered or read is
/// dropped, and its worker is gone. Shown again, it is opened anew at the same place.
pub proof fn a_suspended_document_comes_back(document: DocumentView)
    ensures
        ({
            let gone = document.suspended();
            let back = gone.resumed();
            &&& gone.state is Suspended
            &&& !gone.connected
            &&& gone.info == document.info
            &&& gone.view.remembered() == document.view.remembered()
            &&& gone.edit_history == document.edit_history
            &&& gone.selection == document.selection
            &&& gone.search.pages == document.search.pages
            &&& gone.search.query == document.search.query
            &&& !gone.search.in_progress
            &&& gone.tiles.pending.dom() == Set::<TileCacheKey>::empty()
            &&& gone.tiles.cached == Set::<TileCacheKey>::empty()
            &&& gone.texts.cached == Set::<TextSnapshotKey>::empty()
            &&& gone.thumbnails.cached == Set::<ThumbnailCacheKey>::empty()
            &&& back.state is Opening
            &&& back.connected
            &&& back.view.remembered() == document.view.remembered()
            &&& back.view.generation != gone.view.generation
            &&& back.info == document.info
            &&& back.document_id == document.document_id
            &&& back.last_selected_sequence == document.last_selected_sequence
        }),
{
    let gone = document.suspended();
    assert(gone.tiles.pending.dom() =~= Set::<TileCacheKey>::empty());
}

/// A followed rename is taken over: the new description counts, no rename is under way any more, and
/// the change that was seen of the old name is forgotten. Nothing else changes.
pub proof fn a_followed_rename_is_taken_over(
    before: DocumentView,
    after: DocumentView,
    context: EventContext,
    info: DocumentInfo,
    shown_path: String,
)
    requires
        document_received(before, after, context, DocumentEvent::PathRebound { info, shown_path }),
    ensures
        after.info == Some(info),
        after.pending_rebind_path is None,
        after.external_candidate is None,
        after == (DocumentView {
            info: after.info,
            pending_rebind_path: after.pending_rebind_path,
            external_candidate: after.external_candidate,
            ..before
        }),
{
    reveal(DocumentView::rebound);
}

/// What a worker left out is not waited for any more, and is neither there nor known to fail.
pub proof fn what_was_left_out_can_be_asked_for_again(
    before: DocumentView,
    text: TextSnapshotRequest,
    annotations: AnnotationPageRequest,
    thumbnail: ThumbnailRequest,
)
    ensures
        ({
            let key = TextSnapshotKey {
                page_index: text.page_index,
                revision: text.expected_revision,
            };
            let after = before.text_skipped(text);
            &&& !after.texts.pending.contains(key)
            &&& after.texts.cached == before.texts.cached
            &&& after.texts.failed == before.texts.failed
            &&& after == (DocumentView { texts: after.texts, ..before })
        }),
        ({
            let after = before.annotations_skipped(annotations);
            &&& !after.annotations.pending.contains(annotations)
            &&& after.annotations.cached == before.annotations.cached
            &&& after.annotations.failed == before.annotations.failed
            &&& after == (DocumentView { annotations: after.annotations, ..before })
        }),
        ({
            let key = ThumbnailCacheKey {
                document_id: before.document_id,
                page_index: thumbnail.page_index,
                max_pixel_width: thumbnail.max_pixel_width,
                max_pixel_height: thumbnail.max_pixel_height,
                revision: thumbnail.expected_revision,
            };
            let after = before.thumbnail_skipped(thumbnail);
            &&& !after.thumbnails.pending.contains(key)
            &&& after.thumbnails.cached == before.thumbnails.cached
            &&& after.thumbnails.failed == before.thumbnails.failed
            &&& after == (DocumentView { thumbnails: after.thumbnails, ..before })
        }),
{
    reveal(DocumentView::text_skipped);
    reveal(DocumentView::annotations_skipped);
    reveal(DocumentView::thumbnail_skipped);
}

/// A thumbnail that cannot be rendered is known to fail, not waited for any more, and reported.
pub proof fn a_failed_thumbnail_is_reported(
    before: DocumentView,
    request: ThumbnailRequest,
    message: Seq<char>,
)
    ensures
        ({
            let key = ThumbnailCacheKey {
                document_id: before.document_id,
                page_index: request.page_index,
                max_pixel_width: request.max_pixel_width,
                max_pixel_height: request.max_pixel_height,
                revision: request.expected_revision,
            };
            let after = before.thumbnail_failed(request, message);
            &&& after.thumbnails.failed.contains(key)
            &&& !after.thumbnails.pending.contains(key)
            &&& after.thumbnails.cached == before.thumbnails.cached
            &&& after.error is Some
            &&& after == (DocumentView {
                thumbnails: after.thumbnails,
                error: after.error,
                ..before
            })
        }),
{
    reveal(DocumentView::thumbnail_failed);
}

/// A batch of highlights changes only the list of highlights, and only if it answers the request
/// under way; a request that failed or was left out leaves its message there.
pub proof fn highlight_reports_change_the_list_only(
    before: DocumentView,
    batch: HighlightIndexBatch,
    request: HighlightIndexRequest,
    message: Seq<char>,
)
    ensures
        before.highlights_came(batch) == (DocumentView {
            highlight_index: before.highlights_came(batch).highlight_index,
            ..before
        }),
        before.highlight_index.in_flight is None ==> before.highlights_came(batch) == before,
        batch.generation != before.highlight_index.generation ==> before.highlights_came(batch)
            == before,
        before.highlights_skipped(request) == (DocumentView {
            highlight_index: before.highlights_skipped(request).highlight_index,
            ..before
        }),
        before.highlights_failed(request, message) == (DocumentView {
            highlight_index: before.highlights_failed(request, message).highlight_index,
            ..before
        }),
        before.highlight_index.in_flight == Some(request) && request.generation
            == before.highlight_index.generation ==> before.highlights_skipped(
            request,
        ).highlight_index.error is Some && before.highlights_skipped(
            request,
        ).highlight_index.in_flight is None && before.highlights_failed(
            request,
            message,
        ).highlight_index.error is Some && before.highlights_failed(
            request,
            message,
        ).highlight_index.in_flight is None,
        before.highlight_index.in_flight != Some(request) ==> before.highlights_skipped(request)
            == before && before.highlights_failed(request, message) == before,
{
    reveal(DocumentView::highlights_came);
    reveal(DocumentView::highlights_skipped);
    reveal(DocumentView::highlights_failed);
}

/// Calling off the rendering makes what was rendered for the old state worthless and waits for
/// nothing more; what the cache holds stays. Dropping texts, annotations or thumbnails touches only
/// those.
pub proof fn dropping_touches_only_what_it_names(
    document: DocumentView,
    tile: TileCacheKey,
    text: TextSnapshotKey,
    annotations: AnnotationPageRequest,
    thumbnail: ThumbnailCacheKey,
)
    ensures
        ({
            let after = document.without_rendering();
            &&& after.view.generation != document.view.generation
            &&& !after.tiles.pending.dom().contains(tile)
            &&& !after.tiles.wanted.contains(tile)
            &&& after.tiles.cached == document.tiles.cached
            &&& after.view.remembered() == document.view.remembered()
            &&& after == (DocumentView { view: after.view, tiles: after.tiles, ..document })
        }),
        !document.without_texts().texts.cached.contains(text),
        !document.without_texts().texts.pending.contains(text),
        document.without_texts() == (DocumentView {
            texts: document.without_texts().texts,
            ..document
        }),
        !document.without_annotations().annotations.cached.contains(annotations),
        !document.without_annotations().annotations.pending.contains(annotations),
        document.without_annotations() == (DocumentView {
            annotations: document.without_annotations().annotations,
            ..document
        }),
        ({
            let after = document.without_thumbnails();
            &&& !after.thumbnails.cached.contains(thumbnail)
            &&& !after.thumbnails.pending.contains(thumbnail)
            &&& !after.thumbnails.failed.contains(thumbnail)
            &&& after.thumbnails.wanted == document.thumbnails.wanted
            &&& after.thumbnail_generation != document.thumbnail_generation
            &&& after == (DocumentView {
                thumbnails: after.thumbnails,
                thumbnail_generation: after.thumbnail_generation,
                ..document
            })
        }),
        ({
            let after = document.without_selection();
            &&& after.selection is None
            &&& after.selection_generation != document.selection_generation
            &&& after == (DocumentView {
                selection: after.selection,
                selection_generation: after.selection_generation,
                ..document
            })
        }),
{
}

/// The requests that are called off are those that were waited for, each once.
pub proof fn what_is_called_off_was_waited_for(
    requests: Seq<TileRequest>,
    pending: Map<TileCacheKey, TileRequest>,
    texts: Seq<TextSnapshotKey>,
    waited: Set<TextSnapshotKey>,
    key: TileCacheKey,
    text: TextSnapshotKey,
    i: int,
)
    requires
        lists_pending(requests, pending),
        lists(texts, waited),
    ensures
        pending.dom().contains(key) ==> requests.contains(pending[key]),
        0 <= i < requests.len() ==> exists|k: TileCacheKey| #[trigger]
            pending.dom().contains(k) && pending[k] == requests[i],
        requests.len() == pending.dom().len(),
        texts.contains(text) == waited.contains(text),
        texts.no_duplicates(),
{
    if 0 <= i < requests.len() {
        assert(is_dropped(pending, Set::empty(), requests[i]));
    }
    assert(texts.to_set().contains(text) == texts.contains(text));
}

/// A report that changes nothing on the screen says nothing: no status, nothing to keep, nothing to
/// do next.
pub proof fn quiet_reports_say_nothing(
    document: DocumentView,
    context: EventContext,
    selection: Selection,
    action: EditAction,
    path: DocumentPath,
)
    ensures
        ({
            let outcome = outcome_of(document, context, DocumentEvent::SelectionReady(selection));
            (outcome.status is Some) == (selection.generation == document.selection_generation)
        }),
        ({
            let outcome = outcome_of(document, context, DocumentEvent::EditActionUndone(action));
            (outcome.status is Some) == (document.edit_history.len() > 0
                && document.edit_history.last() == action)
        }),
        ({
            let outcome = outcome_of(document, context, DocumentEvent::EditActionCreated(action));
            &&& document.save_as matches SaveAsView::WaitingEditorCommit(waiting)
                ==> outcome.save_copy == Some(waiting)
            &&& !(document.save_as is WaitingEditorCommit) ==> outcome.save_copy is None
        }),
        outcome_of(document, context, DocumentEvent::OutlineReady).status is None,
        !outcome_of(document, context, DocumentEvent::OutlineReady).stop,
        !outcome_of(document, context, DocumentEvent::SavedAs(path)).stop,
{
}

/// What is said of an operation that failed ends with what the worker said, and names the operation;
/// reading the outcome of an edit counts as the edit, and reading a description as the resuming.
#[verifier::rlimit(60)]
pub proof fn failures_are_named(operation: Seq<char>, detail: Seq<char>, other: Seq<char>)
    ensures
        failure_message(operation, detail).len() > detail.len(),
        failure_message(operation, detail).subrange(
            failure_message(operation, detail).len() - detail.len(),
            failure_message(operation, detail).len() as int,
        ) == detail,
        failure_message(operation, detail) == failure_message(operation, other) ==> detail == other,
        failure_message("open"@, detail)[4] == '開',
        failure_message("resume"@, detail)[4] == '再',
        failure_message("render"@, detail)[0] == 'ペ',
        failure_message("selection"@, detail)[0] == 'テ',
        failure_message("highlight"@, detail)[0] == 'H',
        failure_message("annotation-update"@, detail)[3] == '更',
        failure_message("annotation-delete"@, detail)[3] == '削',
        failure_message("undo"@, detail)[3] == '元',
        failure_message("outline"@, detail)[0] == '目',
        failure_message("search"@, detail)[5] == '検',
        failure_message("print"@, detail)[4] == '印',
        failure_message("save"@, detail)[4] == '保',
        failure_message("document-info"@, detail) == failure_message("resume"@, detail),
        failure_message("highlight-state"@, detail) == failure_message("highlight"@, detail),
        failure_message("annotation-update-state"@, detail) == failure_message(
            "annotation-update"@,
            detail,
        ),
        failure_message("annotation-delete-state"@, detail) == failure_message(
            "annotation-delete"@,
            detail,
        ),
        failure_message("undo-state"@, detail) == failure_message("undo"@, detail),
{
    reveal_strlit("open");
    reveal_strlit("resume");
    reveal_strlit("document-info");
    reveal_strlit("render");
    reveal_strlit("selection");
    reveal_strlit("highlight");
    reveal_strlit("highlight-state");
    reveal_strlit("annotation-update");
    reveal_strlit("annotation-update-state");
    reveal_strlit("annotation-delete");
    reveal_strlit("annotation-delete-state");
    reveal_strlit("undo");
    reveal_strlit("undo-state");
    reveal_strlit("outline");
    reveal_strlit("search");
    reveal_strlit("print");
    reveal_strlit("save");
    reveal_strlit("PDFを開けませんでした。ファイルが破損していないか確認してください。");
    reveal_strlit("PDFを再開できませんでした。ファイルの変更を確認し、タブを開き直してください。");
    reveal_strlit("ページを表示できませんでした。PDFを開き直してください。");
    reveal_strlit("テキストを選択できませんでした。選択し直してください。");
    reveal_strlit("Highlightを作成できませんでした。PDFの編集制限を確認してください。");
    reveal_strlit("注釈を更新できませんでした。PDFの編集制限と注釈ロックを確認してください。");
    reveal_strlit("注釈を削除できませんでした。PDFの編集制限と注釈ロックを確認してください。");
    reveal_strlit("編集を元に戻せませんでした。PDFを開き直して状態を確認してください。");
    reveal_strlit("目次を読み込めませんでした。PDFを開き直してください。");
    reveal_strlit("PDF内を検索できませんでした。検索語を確認して再実行してください。");
    reveal_strlit("PDFを印刷できませんでした。プリンターの状態と設定を確認してください。");
    reveal_strlit("PDFを保存できませんでした。ファイルの書き込み権限と空き容量を確認してください。");
    assert("open"@.len() == 4);
    assert("resume"@.len() == 6);
    assert("document-info"@.len() == 13);
    assert("render"@.len() == 6);
    assert("selection"@.len() == 9);
    assert("highlight"@.len() == 9);
    assert("highlight-state"@.len() == 15);
    assert("annotation-update"@.len() == 17);
    assert("annotation-update-state"@.len() == 23);
    assert("annotation-delete"@.len() == 17);
    assert("annotation-delete-state"@.len() == 23);
    assert("undo"@.len() == 4);
    assert("undo-state"@.len() == 10);
    assert("outline"@.len() == 7);
    assert("search"@.len() == 6);
    assert("print"@.len() == 5);
    assert("save"@.len() == 4);
    assert("open"@[0] == 'o');
    assert("undo"@[0] == 'u');
    assert("save"@[0] == 's');
    assert("resume"@[2] == 's');
    assert("render"@[2] == 'n');
    assert("search"@[2] == 'a');
    assert("selection"@[0] == 's');
    assert("highlight"@[0] == 'h');
    assert("annotation-update"@[11] == 'u');
    assert("annotation-delete"@[11] == 'd');
    assert("annotation-update-state"@[11] == 'u');
    assert("annotation-delete-state"@[11] == 'd');
    reveal_strlit(" 詳細: ");
    let message = failure_message(operation, detail);
    assert(message.subrange(message.len() - detail.len(), message.len() as int) =~= detail);
    let second = failure_message(operation, other);
    if message == second {
        assert(detail.len() == other.len());
        assert(second.subrange(second.len() - other.len(), second.len() as int) =~= other);
    }
}

/// When a document was changed, every request that it waits for is called off and every thumbnail
/// that it keeps is dropped; no other report calls anything off.
pub proof fn a_change_calls_off_what_was_waited_for(
    before: DocumentView,
    outcome: EventOutcome,
    context: EventContext,
    event: DocumentEvent,
    tile: TileCacheKey,
    text: TextSnapshotKey,
    thumbnail: ThumbnailCacheKey,
)
    requires
        outcome_received(before, outcome, context, event),
    ensures
        outcome@ == outcome_of(before, context, event),
        event is DocumentChanged ==> (before.tiles.pending.dom().contains(tile)
            ==> outcome.cancelled_tiles@.contains(before.tiles.pending[tile])),
        event is DocumentChanged ==> outcome.cancelled_tiles@.len()
            == before.tiles.pending.dom().len(),
        event is DocumentChanged ==> outcome.cancelled_texts@.contains(text)
            == before.texts.pending.contains(text),
        event is DocumentChanged ==> outcome.dropped_thumbnails@.contains(thumbnail)
            == before.thumbnails.cached.contains(thumbnail),
        !(event is DocumentChanged) ==> outcome.cancelled_tiles@.len() == 0
            && outcome.cancelled_texts@.len() == 0 && outcome.dropped_thumbnails@.len() == 0,
{
    if event is DocumentChanged {
        assert(outcome.cancelled_texts@.to_set().contains(text)
            == outcome.cancelled_texts@.contains(text));
        assert(outcome.dropped_thumbnails@.to_set().contains(thumbnail)
            == outcome.dropped_thumbnails@.contains(thumbnail));
    }
}

/// Any report can be had of a document that is open. One that was never opened cannot fail in an
/// edit, unless it has more to lose.
pub proof fn open_documents_expect_any_report(
    document: DocumentView,
    operation: String,
    message: String,
)
    ensures
        document.info is Some ==> is_expected(
            document,
            DocumentEvent::Failed { operation, message },
        ),
        operation@ != "highlight"@ && operation@ != "annotation-update"@ && operation@
            != "annotation-delete"@ ==> is_expected(
            document,
            DocumentEvent::Failed { operation, message },
        ),
        document.info is None && document.pending_edits <= 1 && !(document.state is ReadyDirty)
            && !(document.state is Saving) && !document.save_in_flight && (operation@
            == "highlight"@ || operation@ == "annotation-update"@ || operation@
            == "annotation-delete"@) ==> !is_expected(
            document,
            DocumentEvent::Failed { operation, message },
        ),
{
}

} // verus!

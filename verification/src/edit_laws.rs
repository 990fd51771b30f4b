//! What may be edited, saved, printed, undone or read again, and when.
use crate::annotation::{
    blocks_document, decision, delete_decision, editor_after_failure, editor_after_open,
    editor_while_sending, hit_ids, with_edit_pending, AnnotationCandidateDecision, AnnotationHit,
    EditorView,
};
use crate::annotation_actions::{
    editor_shown, is_first_entry, jumped, offers_choice, page_lets_delete, page_lists, stays_open,
    AnnotationEntry, AnnotationPicker,
};
use crate::controls::{first_copy_at, held_after, page_for_input, suspendable_at, CopyInput};
use crate::document::{AnnotationId, DocumentVersion, DocumentView, ExternalCandidate};
use crate::editing::{highlight_decision, save_decision, HighlightDecisionView};
use crate::external::{after_look, external_decision, first_same_file, is_same_file};
use crate::rendering::{ThumbnailCacheKey, TileCacheKey};
use crate::text::{
    decimal, leading_space, trimmed, trimming_takes_only_outer_space, written_numbers_read_back,
};
use vstd::prelude::*;

verus! {

/// One annotation under the pointer is opened, of several one is to be chosen.
pub proof fn several_annotations_are_a_choice(candidates: Seq<AnnotationId>)
    ensures
        candidates.len() == 0 ==> decision(candidates) is Nothing,
        candidates.len() == 1 ==> decision(candidates) == AnnotationCandidateDecision::Open(
            candidates[0],
        ),
        candidates.len() > 1 ==> decision(candidates) is Choose,
{
}

/// The annotations under the pointer come in the order of the page: one behind another that was hit
/// is listed behind it.
pub proof fn hits_keep_the_order_of_the_page(first: Seq<AnnotationHit>, rest: Seq<AnnotationHit>)
    ensures
        hit_ids(first + rest, (first + rest).len() as int) == hit_ids(first, first.len() as int)
            + hit_ids(rest, rest.len() as int),
        rest.len() == 1 ==> hit_ids(rest, 1) == (if rest[0].quads_hit@.contains(true) {
            seq![rest[0].id]
        } else {
            seq![]
        }),
    decreases rest.len(),
{
    let all = first + rest;
    if rest.len() == 0 {
        assert(all =~= first);
        assert(hit_ids(first, first.len() as int) + seq![] =~= hit_ids(first, first.len() as int));
    } else {
        let shorter = rest.drop_last();
        hits_keep_the_order_of_the_page(first, shorter);
        prefix_hits_alike(all, first + shorter, all.len() - 1);
        prefix_hits_alike(rest, shorter, rest.len() - 1);
        assert(hit_ids(all, all.len() as int) =~= hit_ids(first, first.len() as int) + hit_ids(
            rest,
            rest.len() as int,
        ));
    }
    if rest.len() == 1 {
        reveal_with_fuel(hit_ids, 2);
        assert(Seq::<AnnotationId>::empty().push(rest[0].id) =~= seq![rest[0].id]);
    }
}

proof fn prefix_hits_alike(a: Seq<AnnotationHit>, b: Seq<AnnotationHit>, count: int)
    requires
        0 <= count <= a.len(),
        count <= b.len(),
        forall|i: int| 0 <= i < count ==> #[trigger] a[i] == b[i],
    ensures
        hit_ids(a, count) == hit_ids(b, count),
    decreases count,
{
    if count > 0 {
        prefix_hits_alike(a, b, count - 1);
        assert(a[count - 1] == b[count - 1]);
    }
}

/// An editor holds a document while it has a change that is not saved or is being saved.
pub proof fn unsaved_changes_hold_the_document(editor: Option<EditorView>, document_id: u64)
    ensures
        blocks_document(editor, document_id) == (editor is Some && editor->0.document_id
            == document_id && (editor->0.dirty || editor->0.mutation_in_flight)),
{
}

/// Opening an annotation opens an editor for it, unless the editor that is open has a change to save
/// or shows that very annotation: then it stays as it is.
pub proof fn editors_open_for_the_annotation(
    editor: Option<EditorView>,
    document_id: u64,
    revision: u64,
    annotation_id: AnnotationId,
)
    ensures
        ({
            let after = editor_after_open(editor, document_id, revision, annotation_id);
            let same = editor is Some && editor->0.document_id == document_id && editor->0.revision
                == revision && editor->0.annotation_id == annotation_id;
            let busy = editor is Some && (editor->0.dirty || editor->0.mutation_in_flight);
            &&& after is Some
            &&& stays_open(editor, document_id, revision, annotation_id) == (same || busy)
            &&& !same && !busy ==> after->0.document_id == document_id && after->0.revision
                == revision && after->0.annotation_id == annotation_id && !after->0.dirty
                && !after->0.can_save && !after->0.mutation_in_flight && after->0.notice is None
            &&& same || busy ==> after->0 == (EditorView {
                notice: after->0.notice,
                ..editor->0
            })
            &&& same ==> after->0.notice is None
            &&& !same && busy ==> after->0.notice is Some
        }),
{
}

/// A failure ends the change that was under way and leaves its message in the editor of that
/// document; the text that was typed stays, and so does any other editor.
pub proof fn failed_changes_can_be_tried_again(
    editor: EditorView,
    document_id: u64,
    message: Seq<char>,
)
    ensures
        editor.document_id == document_id ==> editor_after_failure(
            Some(editor),
            document_id,
            message,
        ) == Some(EditorView { mutation_in_flight: false, notice: Some(message), ..editor }),
        editor.document_id != document_id ==> editor_after_failure(
            Some(editor),
            document_id,
            message,
        ) == Some(editor),
        editor_after_failure(None, document_id, message) is None,
{
}

/// A change that is sent is waited for: by the editor of that annotation, and by the document, which
/// has one more edit to lose.
pub proof fn sent_changes_are_waited_for(
    document: DocumentView,
    editor: EditorView,
    document_id: u64,
    annotation_id: AnnotationId,
    message: Seq<char>,
)
    requires
        document.pending_edits < usize::MAX,
    ensures
        with_edit_pending(document).pending_edits == document.pending_edits + 1,
        with_edit_pending(document).state is ReadyDirty,
        with_edit_pending(document).unsaved(),
        with_edit_pending(document) == (DocumentView {
            pending_edits: with_edit_pending(document).pending_edits,
            state: with_edit_pending(document).state,
            ..document
        }),
        ({
            let after = editor_while_sending(Some(editor), document_id, annotation_id, message);
            let own = editor.document_id == document_id && editor.annotation_id == annotation_id;
            &&& own ==> after == Some(
                EditorView { mutation_in_flight: true, notice: Some(message), ..editor },
            )
            &&& !own ==> after == Some(editor)
        }),
{
}

/// An annotation is deleted exactly if it may be and no other annotation has a change to save; that
/// comes first.
pub proof fn deletions_need_leave(
    editor: Option<EditorView>,
    document_id: u64,
    revision: u64,
    annotation_id: AnnotationId,
    can_delete: bool,
)
    ensures
        ({
            let found = delete_decision(editor, document_id, revision, annotation_id, can_delete);
            let other_busy = editor is Some && (editor->0.dirty || editor->0.mutation_in_flight)
                && !(editor->0.document_id == document_id && editor->0.revision == revision
                && editor->0.annotation_id == annotation_id);
            &&& (found is EditorBusy) == other_busy
            &&& (found is Forbidden) == (!other_busy && !can_delete)
            &&& (found is Send) == (!other_busy && can_delete)
        }),
{
}

/// The page says whether an annotation may be deleted: the first entry for it counts.
pub proof fn the_first_entry_counts(entries: Vec<AnnotationEntry>, annotation_id: AnnotationId, i: int)
    requires
        0 <= i < entries@.len(),
        entries@[i].id == annotation_id,
        forall|j: int| 0 <= j < i ==> (#[trigger] entries@[j]).id != annotation_id,
    ensures
        page_lists(Some(entries), annotation_id),
        page_lets_delete(Some(entries), annotation_id) == entries@[i].can_delete,
        !page_lets_delete(None, annotation_id),
        !page_lists(None, annotation_id),
{
    assert(entries@[i].id == annotation_id);
    assert(is_first_entry(entries@, annotation_id, i));
    if page_lets_delete(Some(entries), annotation_id) {
        let k = choose|k: int| #[trigger]
            is_first_entry(entries@, annotation_id, k) && entries@[k].can_delete;
        if k < i {
            assert(entries@[k].id != annotation_id);
        } else if i < k {
            assert(entries@[i].id != annotation_id);
        }
    }
}

/// A choice between annotations is offered in its own document and revision only, and so is an
/// editor; an editor of another revision cannot save any more.
pub proof fn choices_belong_to_a_revision(
    picker: Option<AnnotationPicker>,
    editor: Option<EditorView>,
    document_id: u64,
    current_revision: Option<u64>,
)
    ensures
        offers_choice(picker, document_id, current_revision) == (picker is Some
            && picker->0.document_id == document_id && current_revision is Some
            && current_revision->0 == picker->0.revision),
        (editor_shown(editor, document_id, current_revision) is Hidden) == (editor is None
            || editor->0.document_id != document_id),
        (editor_shown(editor, document_id, current_revision) is Current) == (editor is Some
            && editor->0.document_id == document_id && current_revision is Some
            && current_revision->0 == editor->0.revision),
{
}

/// A page of the list is turned to if it exists.
pub proof fn listed_pages_are_turned_to(document: DocumentView, page: usize)
    ensures
        page < document.page_count() ==> jumped(document, page).view.current_page == page
            && jumped(document, page).page_input_error is None,
        page >= document.page_count() ==> jumped(document, page) == document,
        jumped(document, page) == (DocumentView {
            view: jumped(document, page).view,
            page_input_error: jumped(document, page).page_input_error,
            ..document
        }),
{
}

/// A highlight is made on the page of the selection; without a selection, or where the file does not
/// allow it, it is refused with a reason.
pub proof fn highlights_are_made_on_the_selection(document: DocumentView, closing: bool)
    ensures
        ({
            let found = highlight_decision(document, closing);
            let possible = !closing && !document.print_in_flight && document.info is Some;
            let allowed = possible && document.info->0.highlight_capability is Allowed;
            let marks = document.selection is Some && document.selection->0.quad_count > 0;
            &&& (found is Ignored) == !possible
            &&& allowed && marks ==> found == (HighlightDecisionView::Send {
                page_index: document.selection->0.page_index,
            })
            &&& possible && !(allowed && marks) ==> found is Refused
        }),
{
}

/// A save is sent exactly if there is something to save and nothing runs; what stands in its way is
/// said in a fixed order.
pub proof fn saves_are_sent_when_needed(document: DocumentView, closing: bool)
    ensures
        ({
            let found = save_decision(document, closing);
            let needed = document.info is Some && (document.info->0.dirty || document.pending_edits
                > 0);
            &&& (found is Send) == (!closing && !document.save_in_flight
                && !document.print_in_flight && needed)
            &&& (found is AlreadySaving) == (!closing && document.save_in_flight)
            &&& (found is Printing) == (!closing && !document.save_in_flight
                && document.print_in_flight)
            &&& (found is NothingToSave) == (!closing && !document.save_in_flight
                && !document.print_in_flight && document.info is Some && !needed)
            &&& document.saving().save_in_flight
            &&& document.saving().state is Saving
            &&& document.saving().unsaved()
            &&& !(save_decision(document.saving(), false) is Send)
        }),
{
}

/// An undo needs an edit, a worker, and nothing that runs; a print needs an open file, a worker, and
/// nothing that runs.
pub proof fn undo_and_print_need_rest(document: DocumentView)
    ensures
        document.undoable() == (document.edit_history.len() > 0 && document.connected
            && !document.undo_in_flight && !document.save_in_flight && !document.print_in_flight),
        document.printable() == (document.info is Some && document.connected
            && !document.save_in_flight && !document.print_in_flight && (
        document.state is ReadyClean || document.state is ReadyDirty || document.state is Saving)),
{
}

/// A tile or thumbnail that the cache keeps is kept, one that it does not keep is not; no other one is
/// touched.
pub proof fn the_cache_decides_what_is_kept(
    document: DocumentView,
    key: TileCacheKey,
    other: TileCacheKey,
    was_prefetched: bool,
    kept: bool,
    thumbnail: ThumbnailCacheKey,
    other_thumbnail: ThumbnailCacheKey,
)
    ensures
        ({
            let after = document.with_tile(key, was_prefetched, kept);
            &&& after.tiles.cached.contains(key) == kept
            &&& after.tiles.prefetched.contains(key) == (kept && was_prefetched)
            &&& other != key ==> after.tiles.cached.contains(other)
                == document.tiles.cached.contains(other) && after.tiles.prefetched.contains(other)
                == document.tiles.prefetched.contains(other)
            &&& after.tiles.pending == document.tiles.pending
            &&& after.tiles.wanted == document.tiles.wanted
            &&& after == (DocumentView { tiles: after.tiles, ..document })
        }),
        ({
            let after = document.with_thumbnail(thumbnail, kept);
            &&& after.thumbnails.cached.contains(thumbnail) == kept
            &&& other_thumbnail != thumbnail ==> after.thumbnails.cached.contains(other_thumbnail)
                == document.thumbnails.cached.contains(other_thumbnail)
            &&& after.thumbnails.pending == document.thumbnails.pending
            &&& after.thumbnails.failed == document.thumbnails.failed
            &&& after == (DocumentView { thumbnails: after.thumbnails, ..document })
        }),
{
}

/// A file is read again exactly if it is watched, changed, was seen in the same changed state before,
/// is not being read already, and nothing would be lost; a file that is gone is looked for under
/// another name.
pub proof fn changed_files_are_read_again(
    document: DocumentView,
    current: Option<DocumentVersion>,
    protected: bool,
)
    ensures
        ({
            let found = external_decision(document, current, protected);
            let watched = document.info is Some && !(document.state is Suspended);
            let seen_before = document.external_candidate is Some && current is Some
                && document.external_candidate->0.version == current->0
                && document.external_candidate->0.seen >= 1;
            &&& (found is LookForRename) == (watched && current is None)
            &&& (found is Reload) == (watched && current is Some && current->0
                != document.info->0.version && seen_before && !document.reload_in_flight
                && !protected)
        }),
{
}

/// A look at the file notes what it saw, and how often in a row; the file as it was read forgets it.
/// Where something would be lost, the change is reported once and stays.
pub proof fn looks_are_counted(
    document: DocumentView,
    current: Option<DocumentVersion>,
    protected: bool,
)
    ensures
        ({
            let after = after_look(document, current, protected);
            let watched = document.info is Some && !(document.state is Suspended);
            let changed = watched && current is Some && current->0 != document.info->0.version;
            let again = document.external_candidate is Some && current is Some
                && document.external_candidate->0.version == current->0;
            &&& !watched ==> after == document
            &&& watched && current is None ==> after == document
            &&& watched && current == Some(document.info->0.version)
                ==> after.external_candidate is None
            &&& changed && !again ==> after.external_candidate == Some(
                ExternalCandidate { version: current->0, seen: 1 },
            )
            &&& changed && again && document.external_candidate->0.seen < 255
                ==> after.external_candidate is Some && after.external_candidate->0.version
                == current->0 && after.external_candidate->0.seen
                == document.external_candidate->0.seen + 1
            &&& changed && again && document.external_candidate->0.seen >= 1 && protected
                && !document.reload_in_flight ==> after.external_conflict_reported
            &&& !protected ==> after.external_conflict_reported
                == document.external_conflict_reported && after.error == document.error
            &&& document.external_conflict_reported ==> after.error == document.error
            &&& after == (DocumentView {
                external_candidate: after.external_candidate,
                external_conflict_reported: after.external_conflict_reported,
                error: after.error,
                ..document
            })
        }),
{
}

/// A renamed file is the first one of its folder with the same identity, whatever its size and time.
pub proof fn renamed_files_keep_their_identity(
    files: Seq<Option<DocumentVersion>>,
    expected: DocumentVersion,
    from: int,
)
    requires
        0 <= from <= files.len(),
    ensures
        match first_same_file(files, expected, from) {
            None => forall|i: int|
                from <= i < files.len() ==> !((#[trigger] files[i]) is Some
                    && files[i]->0.identity_primary == expected.identity_primary
                    && files[i]->0.identity_secondary == expected.identity_secondary),
            Some(index) => {
                &&& from <= index < files.len()
                &&& files[index] is Some
                &&& files[index]->0.identity_primary == expected.identity_primary
                &&& files[index]->0.identity_secondary == expected.identity_secondary
                &&& forall|i: int|
                    from <= i < index ==> !((#[trigger] files[i]) is Some
                        && files[i]->0.identity_primary == expected.identity_primary
                        && files[i]->0.identity_secondary == expected.identity_secondary)
            },
        },
    decreases files.len() - from,
{
    if from < files.len() && !is_same_file(files[from], expected) {
        renamed_files_keep_their_identity(files, expected, from + 1);
    }
}

/// Every page can be reached by typing its number, and no other number leads anywhere.
pub proof fn page_numbers_count_from_one(page: nat, page_count: int)
    ensures
        page_for_input(decimal(page), page_count) == (if 1 <= page <= page_count {
            Some(page - 1)
        } else {
            None
        }),
{
    let text = decimal(page);
    written_numbers_read_back(page);
    trimming_takes_only_outer_space(text);
    let start = leading_space(text);
    let end = start + trimmed(text).len();
    if start > 0 {
        assert(text.take(start)[0] == text[0]);
        assert('0' <= text[0] <= '9');
    }
    if end < text.len() {
        let last = text.len() - 1;
        assert(text.skip(end)[last - end] == text[last]);
        assert('0' <= text[last] <= '9');
    }
    assert(text.subrange(0, text.len() as int) =~= text);
}

/// A copy shortcut counts when it is pressed, and again only after a copy key was released.
pub proof fn copies_count_per_press(held: bool, events: Seq<CopyInput>, index: int)
    requires
        0 <= index < events.len(),
    ensures
        !(events[index] is Copy) ==> !first_copy_at(held, events, index),
        index == 0 && events[0] is Copy ==> first_copy_at(held, events, 0) == !held,
        index > 0 && events[index] is Copy && events[index - 1] is Copy ==> !first_copy_at(
            held,
            events,
            index,
        ),
        index > 0 && events[index] is Copy && events[index - 1] is CopyKeyReleased ==> first_copy_at(
            held,
            events,
            index,
        ),
        events[index] is Other ==> held_after(held, events, index + 1) == held_after(
            held,
            events,
            index,
        ),
        events[index] is Copy ==> held_after(held, events, index + 1),
        events[index] is CopyKeyReleased ==> !held_after(held, events, index + 1),
{
    reveal_with_fuel(held_after, 2);
}

/// Only a document that may go and is not on the screen is let go.
pub proof fn shown_documents_stay(visible: Seq<usize>, candidates: Seq<(bool, u64)>, index: usize)
    requires
        index < candidates.len(),
    ensures
        suspendable_at(visible, candidates, index as int) == (candidates[index as int].0
            && !visible.contains(index)),
{
}

} // verus!

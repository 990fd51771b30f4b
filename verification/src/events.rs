//! What a worker reports, and what a document makes of it.
use crate::annotation::{
    editor_after_failure, editor_view, note_editor_failure, AnnotationEditor, EditorView,
};
use crate::document::{
    document_failure_message, failure_message, lists, lists_pending, path_view,
    state_after_document_info, state_told, DocumentInfo, DocumentState, DocumentTab, DocumentView,
    EditAction, SaveAsState, SaveAsView, Selection, SelectionView,
};
use crate::highlight_index::{
    apply_highlight_index_batch, message_view, HighlightIndexBatch, HighlightIndexRequest,
    HighlightIndexView,
};
use crate::page_books::PageBookView;
use crate::path::{same_path, DocumentPath, PathView};
use crate::rendering::{
    annotation_page_result_is_current, is_current_revision, mark_thumbnail_failed, rendered_key,
    rgba_byte_count, text_snapshot_result_is_current, tile_result_is_current,
    AnnotationPageRequest, RenderPriority, RenderedThumbnail, RenderedTile, TextSnapshotKey,
    TextSnapshotRequest, ThumbnailCacheKey, ThumbnailRequest, TileCacheKey, TileRequest,
};
use crate::search::{page_counts, SearchPageResult};
use crate::text::{is_blank, text_eq, with_text};
use crate::tiles::TileBookView;
use crate::view::ViewState;
use vstd::prelude::*;

verus! {

/// What a worker reports.
#[allow(inconsistent_fields)]
#[derive(Debug)]
pub enum DocumentEvent {
    Opened { info: DocumentInfo, shown_path: String },
    DocumentChanged { info: DocumentInfo, external_reload: bool },
    PathRebound { info: DocumentInfo, shown_path: String },
    SavedAs(DocumentPath),
    TileRendered(RenderedTile),
    SelectionReady(Selection),
    EditActionCreated(EditAction),
    EditActionUndone(EditAction),
    TextSnapshotReady(TextSnapshotKey),
    TextSnapshotSkipped(TextSnapshotRequest),
    TextSnapshotFailed { request: TextSnapshotRequest, message: String },
    AnnotationsReady(AnnotationPageRequest),
    AnnotationsSkipped(AnnotationPageRequest),
    AnnotationsFailed { request: AnnotationPageRequest, message: String },
    HighlightIndexReady(HighlightIndexBatch),
    HighlightIndexSkipped(HighlightIndexRequest),
    HighlightIndexFailed { request: HighlightIndexRequest, message: String },
    OutlineReady,
    SearchPageReady(SearchPageResult),
    ThumbnailReady(RenderedThumbnail),
    ThumbnailSkipped(ThumbnailRequest),
    ThumbnailFailed { request: ThumbnailRequest, message: String },
    PrintCompleted,
    PrintCancelled,
    Status(String),
    Failed { operation: String, message: String },
    /// The worker ended: nothing more will come.
    Disconnected,
}

/// Where the document stands among the others.
#[derive(Clone, Copy, Debug, PartialEq, Eq, Structural)]
pub struct EventContext {
    /// The document is in a pane.
    pub visible: bool,
    /// The document is in the pane that has the focus.
    pub active: bool,
    /// A tab, all tabs or the window is about to close.
    pub closing: bool,
}

/// What the index of highlights needs next.
#[derive(Clone, Copy, Debug, PartialEq, Eq, Structural)]
pub enum HighlightFollowUp {
    Nothing,
    /// Announce the generation, then go on reading whether or not the worker took it.
    Announce(u64),
    /// Announce the generation to a new worker, and go on reading if it took it.
    Reconnect(u64),
    /// Go on reading.
    ReadOn,
}

/// A rendered tile to be put on the screen and kept.
#[derive(Clone, Copy, Debug, PartialEq, Eq, Structural)]
pub struct TileToKeep {
    pub key: TileCacheKey,
    pub weight: usize,
    pub was_prefetched: bool,
}

/// A rendered thumbnail to be kept.
#[derive(Clone, Copy, Debug, PartialEq, Eq, Structural)]
pub struct ThumbnailToKeep {
    pub key: ThumbnailCacheKey,
    pub weight: usize,
}

/// What has to be done outside the document, in this order.
#[derive(Debug)]
pub struct EventOutcome {
    /// What to say.
    pub status: Option<String>,
    /// The pane must give up what the pointer was doing.
    pub cancel_viewport: bool,
    pub cancelled_tiles: Vec<TileRequest>,
    pub cancelled_texts: Vec<TextSnapshotKey>,
    pub highlight: HighlightFollowUp,
    pub dropped_thumbnails: Vec<ThumbnailCacheKey>,
    /// The document is saved: a close that waited for it can go on.
    pub saved: bool,
    /// The document could not be saved: a close that waited for it waits no more.
    pub save_failed: bool,
    pub begin_search: bool,
    pub load_outline: bool,
    /// The document of a restored tab was opened.
    pub restored: bool,
    /// The document of a restored tab could not be opened.
    pub drop_restored_tab: bool,
    /// The copy that was saved under another name: open it, and read the original again.
    pub saved_copy: Option<DocumentPath>,
    /// The edits are in: save the copy now.
    pub save_copy: Option<DocumentPath>,
    pub keep_tile: Option<TileToKeep>,
    pub keep_thumbnail: Option<ThumbnailToKeep>,
    /// The generation of searches to announce.
    pub search_generation: Option<u64>,
    /// The path that the tab goes back to.
    pub previous_path: Option<DocumentPath>,
    /// No further report of this document is to be read now.
    pub stop: bool,
}

/// What an `EventOutcome` stands for in specifications. The lists of what to take back have no
/// order of their own: `outcome_received` tells which requests and thumbnails they hold.
#[verifier::ext_equal]
pub struct OutcomeView {
    pub status: Option<Seq<char>>,
    pub cancel_viewport: bool,
    pub highlight: HighlightFollowUp,
    pub saved: bool,
    pub save_failed: bool,
    pub begin_search: bool,
    pub load_outline: bool,
    pub restored: bool,
    pub drop_restored_tab: bool,
    pub saved_copy: Option<PathView>,
    pub save_copy: Option<PathView>,
    pub keep_tile: Option<TileToKeep>,
    pub keep_thumbnail: Option<ThumbnailToKeep>,
    pub search_generation: Option<u64>,
    pub previous_path: Option<PathView>,
    pub stop: bool,
}

impl View for EventOutcome {
    type V = OutcomeView;

    open spec fn view(&self) -> OutcomeView {
        OutcomeView {
            status: message_view(self.status),
            cancel_viewport: self.cancel_viewport,
            highlight: self.highlight,
            saved: self.saved,
            save_failed: self.save_failed,
            begin_search: self.begin_search,
            load_outline: self.load_outline,
            restored: self.restored,
            drop_restored_tab: self.drop_restored_tab,
            saved_copy: path_view(self.saved_copy),
            save_copy: path_view(self.save_copy),
            keep_tile: self.keep_tile,
            keep_thumbnail: self.keep_thumbnail,
            search_generation: self.search_generation,
            previous_path: path_view(self.previous_path),
            stop: self.stop,
        }
    }
}

impl OutcomeView {
    /// Nothing has to be done.
    pub open spec fn nothing() -> OutcomeView {
        OutcomeView {
            status: None,
            cancel_viewport: false,
            highlight: HighlightFollowUp::Nothing,
            saved: false,
            save_failed: false,
            begin_search: false,
            load_outline: false,
            restored: false,
            drop_restored_tab: false,
            saved_copy: None,
            save_copy: None,
            keep_tile: None,
            keep_thumbnail: None,
            search_generation: None,
            previous_path: None,
            stop: false,
        }
    }

    /// Something has to be said, and nothing else done.
    pub open spec fn saying(status: Seq<char>) -> OutcomeView {
        OutcomeView { status: Some(status), ..OutcomeView::nothing() }
    }
}

impl EventOutcome {
    /// Nothing is taken back.
    pub open spec fn takes_nothing_back(self) -> bool {
        self.cancelled_tiles@.len() == 0 && self.cancelled_texts@.len() == 0
            && self.dropped_thumbnails@.len() == 0
    }

    fn nothing() -> (res: EventOutcome)
        ensures
            res@ == OutcomeView::nothing(),
            res.takes_nothing_back(),
    {
        EventOutcome {
            status: None,
            cancel_viewport: false,
            cancelled_tiles: Vec::new(),
            cancelled_texts: Vec::new(),
            highlight: HighlightFollowUp::Nothing,
            dropped_thumbnails: Vec::new(),
            saved: false,
            save_failed: false,
            begin_search: false,
            load_outline: false,
            restored: false,
            drop_restored_tab: false,
            saved_copy: None,
            save_copy: None,
            keep_tile: None,
            keep_thumbnail: None,
            search_generation: None,
            previous_path: None,
            stop: false,
        }
    }

    fn saying(status: String) -> (res: EventOutcome)
        ensures
            res@ == OutcomeView::saying(status@),
            res.takes_nothing_back(),
    {
        let mut res = EventOutcome::nothing();
        res.status = Some(status);
        assert(res@ =~= OutcomeView::saying(status@));
        res
    }
}

/// One less, and never below zero.
pub open spec fn one_less(count: usize) -> usize {
    if count > 0 {
        (count - 1) as usize
    } else {
        0
    }
}

impl DocumentView {
    /// The document with its view at rest, if it is in a pane.
    pub open spec fn still(self, visible: bool) -> DocumentView {
        if visible {
            DocumentView { view: ViewState { autoscroll: None, ..self.view }, ..self }
        } else {
            self
        }
    }

    /// There is something to search for.
    pub open spec fn searches(self) -> bool {
        !is_blank(self.search.query)
    }

    /// The highlights that were read belong to another revision.
    pub open spec fn highlights_outdated(self, info: DocumentInfo) -> bool {
        self.highlight_index.started && self.highlight_index.revision != Some(info.revision)
    }

    /// The document once it is open.
    #[verifier::opaque]
    pub open spec fn opened(self, info: DocumentInfo) -> DocumentView {
        DocumentView {
            restoring_from_session: false,
            view: self.view.clamped(info.page_count as int),
            state: if info.dirty {
                DocumentState::ReadyDirty
            } else {
                DocumentState::ReadyClean
            },
            error: None,
            external_candidate: None,
            external_conflict_reported: false,
            reload_in_flight: false,
            info: Some(info),
            highlight_index: if self.highlights_outdated(info) {
                self.highlight_index.reset(info.revision, info.page_count)
            } else {
                self.highlight_index
            },
            ..self
        }
    }

    /// The document once someone else's state of the file was read.
    #[verifier::opaque]
    pub open spec fn reread(self, page_count: usize) -> DocumentView {
        DocumentView {
            external_candidate: None,
            external_conflict_reported: false,
            reload_in_flight: false,
            failed_external_version: None,
            outline_loaded: false,
            outline_requested: false,
            search: self.search.restarted(false),
            view: self.view.clamped(page_count as int),
            ..self.without_selection()
        }
    }

    /// The highlights to keep: those of the other pages after an edit of one page; none after
    /// anything else, since the file may have named its annotations anew.
    pub open spec fn highlights_after(self, info: DocumentInfo) -> HighlightIndexView {
        match self.pending_highlight_refresh_page {
            Some(page_index) if info.dirty => self.highlight_index.refreshed(
                page_index,
                info.revision,
                info.page_count,
            ),
            _ => self.highlight_index.reset(info.revision, info.page_count),
        }
    }

    /// The document with another description, and with nothing that belonged to the last one.
    #[verifier::opaque]
    pub open spec fn described(self, info: DocumentInfo) -> DocumentView {
        DocumentView {
            pending_rebind_path: None,
            pending_highlight_refresh_page: None,
            save_in_flight: self.save_in_flight && info.dirty,
            edit_history: if info.dirty {
                self.edit_history
            } else {
                seq![]
            },
            state: state_told(self.state, info.dirty),
            info: Some(info),
            highlight_index: self.highlights_after(info),
            ..self.without_rendering().without_texts().without_annotations().without_thumbnails()
        }
    }

    /// The document once its worker described it anew.
    #[verifier::opaque]
    pub open spec fn changed(self, info: DocumentInfo, external_reload: bool) -> DocumentView {
        if external_reload {
            self.reread(info.page_count).described(info)
        } else {
            self.described(info)
        }
    }

    /// The document once its file was found under another name.
    #[verifier::opaque]
    pub open spec fn rebound(self, info: DocumentInfo) -> DocumentView {
        DocumentView {
            info: Some(info),
            external_candidate: None,
            pending_rebind_path: None,
            ..self
        }
    }

    /// The document waits for a copy saved under that name.
    pub open spec fn saves_copy(self, path: PathView) -> bool {
        self.save_as is Saving && same_path(self.save_as->Saving_0, path)
    }

    /// The document without the request that a rendered tile answers.
    pub open spec fn without_tile_request(self, key: TileCacheKey) -> DocumentView {
        DocumentView {
            tiles: TileBookView { pending: self.tiles.pending.remove(key), ..self.tiles },
            ..self
        }
    }

    /// A rendered tile still belongs on the screen.
    pub open spec fn wants_tile(self, visible: bool, key: TileCacheKey, generation: u64) -> bool {
        visible && generation == self.view.generation && self.revision() == Some(key.revision)
            && self.tiles.wanted.contains(key)
    }

    /// The document after a tile was rendered.
    #[verifier::opaque]
    pub open spec fn tile_rendered(self, visible: bool, tile: RenderedTile) -> DocumentView {
        let key = rendered_key(self.document_id, tile);
        let after = self.without_tile_request(key);
        if self.wants_tile(visible, key, tile.generation) && !is_sound(tile) {
            DocumentView { error: Some(bad_tile_message()), ..after }
        } else {
            after
        }
    }

    /// The tile to keep, if it still belongs on the screen and is sound.
    #[verifier::opaque]
    pub open spec fn tile_to_keep(self, visible: bool, tile: RenderedTile) -> Option<TileToKeep> {
        let key = rendered_key(self.document_id, tile);
        if self.wants_tile(visible, key, tile.generation) && is_sound(tile) {
            Some(
                TileToKeep {
                    key,
                    weight: tile.pixel_bytes,
                    was_prefetched: self.tiles.pending.dom().contains(key)
                        && !(self.tiles.pending[key].priority is Visible),
                },
            )
        } else {
            None
        }
    }

    /// The document after an edit was made.
    #[verifier::opaque]
    pub open spec fn edited(self, action: EditAction) -> DocumentView {
        DocumentView {
            pending_edits: one_less(self.pending_edits),
            pending_highlight_refresh_page: Some(action.page()),
            edit_history: self.edit_history.push(action),
            state: DocumentState::ReadyDirty,
            ..self
        }
    }

    /// An edit is the last one that was made.
    pub open spec fn made_last(self, action: EditAction) -> bool {
        self.edit_history.len() > 0 && self.edit_history.last() == action
    }

    /// The document after an edit was undone. Only the last one can be.
    #[verifier::opaque]
    pub open spec fn undone(self, action: EditAction) -> DocumentView {
        if self.made_last(action) {
            DocumentView {
                undo_in_flight: false,
                edit_history: self.edit_history.drop_last(),
                pending_highlight_refresh_page: Some(action.page()),
                ..self
            }
        } else {
            DocumentView { undo_in_flight: false, error: Some(undo_order_message()), ..self }
        }
    }

    /// The text of a page still belongs on the screen.
    pub open spec fn wants_text(self, visible: bool, key: TextSnapshotKey) -> bool {
        visible && self.revision() == Some(key.revision) && key.page_index < self.page_count()
            && self.texts.wanted.contains(key)
    }

    /// The annotations of a page still belong on the screen.
    pub open spec fn wants_annotations(self, visible: bool, request: AnnotationPageRequest) -> bool {
        visible && self.revision() == Some(request.expected_revision)
            && self.annotations.wanted.contains(request)
    }

    /// The document after the text of a page came.
    #[verifier::opaque]
    pub open spec fn text_read(self, visible: bool, key: TextSnapshotKey) -> DocumentView {
        DocumentView {
            texts: if self.wants_text(visible, key) {
                self.texts.answered(key)
            } else {
                self.texts.skipped(key)
            },
            ..self
        }
    }

    /// The document after the text of a page could not be read.
    #[verifier::opaque]
    pub open spec fn text_failed(self, visible: bool, key: TextSnapshotKey, message: Seq<char>) -> DocumentView {
        if self.wants_text(visible, key) {
            DocumentView {
                texts: self.texts.refused(key),
                error: Some(
                    "テキスト情報を読み取れませんでした。PDFを開き直してください。詳細: "@ + message,
                ),
                ..self
            }
        } else {
            DocumentView { texts: self.texts.skipped(key), ..self }
        }
    }

    /// The document after the annotations of a page came.
    #[verifier::opaque]
    pub open spec fn annotations_read(self, visible: bool, request: AnnotationPageRequest) -> DocumentView {
        DocumentView {
            annotations: if self.wants_annotations(visible, request) {
                self.annotations.answered(request)
            } else {
                self.annotations.skipped(request)
            },
            ..self
        }
    }

    /// The document after the annotations of a page could not be read.
    #[verifier::opaque]
    pub open spec fn annotations_failed(
        self,
        visible: bool,
        request: AnnotationPageRequest,
        message: Seq<char>,
    ) -> DocumentView {
        if self.wants_annotations(visible, request) {
            DocumentView {
                annotations: self.annotations.refused(request),
                error: Some(
                    "注釈情報を読み取れませんでした。PDFを開き直してください。詳細: "@ + message,
                ),
                ..self
            }
        } else {
            DocumentView { annotations: self.annotations.skipped(request), ..self }
        }
    }

    /// The document after a thumbnail came, before it is kept.
    #[verifier::opaque]
    pub open spec fn thumbnail_rendered(self, key: ThumbnailCacheKey) -> DocumentView {
        DocumentView {
            thumbnails: PageBookView {
                pending: self.thumbnails.pending.remove(key),
                failed: self.thumbnails.failed.remove(key),
                ..self.thumbnails
            },
            ..self
        }
    }

    /// The thumbnail to keep, if it still counts and is sound.
    #[verifier::opaque]
    pub open spec fn thumbnail_to_keep(self, active: bool, thumbnail: RenderedThumbnail) -> Option<
        ThumbnailToKeep,
    > {
        if active && thumbnail.generation == self.thumbnail_generation && self.revision() == Some(
            thumbnail.revision,
        ) && thumbnail.pixel_width * thumbnail.pixel_height * 4 == thumbnail.pixel_bytes {
            Some(
                ThumbnailToKeep {
                    key: thumbnail_key(self.document_id, thumbnail),
                    weight: thumbnail.pixel_bytes,
                },
            )
        } else {
            None
        }
    }

    /// The document after a copy was saved under the name that it waits for.
    #[verifier::opaque]
    pub open spec fn copy_saved(self, path: PathView) -> DocumentView {
        if self.saves_copy(path) {
            DocumentView { save_as: SaveAsView::Idle, ..self }
        } else {
            self
        }
    }

    /// The document after a selection was worked out; one of another drag does not count.
    #[verifier::opaque]
    pub open spec fn selected(self, selection: SelectionView) -> DocumentView {
        if selection.generation == self.selection_generation {
            DocumentView { selection: Some(selection), ..self }
        } else {
            self
        }
    }

    /// The document after the text of a page was passed over.
    #[verifier::opaque]
    pub open spec fn text_skipped(self, request: TextSnapshotRequest) -> DocumentView {
        DocumentView { texts: self.texts.skipped(text_key(request)), ..self }
    }

    /// The document after the annotations of a page were passed over.
    #[verifier::opaque]
    pub open spec fn annotations_skipped(self, request: AnnotationPageRequest) -> DocumentView {
        DocumentView { annotations: self.annotations.skipped(request), ..self }
    }

    /// The document after highlights came.
    #[verifier::opaque]
    pub open spec fn highlights_came(self, batch: HighlightIndexBatch) -> DocumentView {
        DocumentView { highlight_index: highlights_read(self.highlight_index, batch), ..self }
    }

    /// The document after highlights were passed over.
    #[verifier::opaque]
    pub open spec fn highlights_skipped(self, request: HighlightIndexRequest) -> DocumentView {
        DocumentView {
            highlight_index: self.highlight_index.gave_up(
                request,
                "文書が更新されたため、ハイライト一覧の読み込みを中止しました。"@,
            ),
            ..self
        }
    }

    /// The document after highlights could not be read.
    #[verifier::opaque]
    pub open spec fn highlights_failed(self, request: HighlightIndexRequest, message: Seq<char>) -> DocumentView {
        DocumentView {
            highlight_index: self.highlight_index.gave_up(
                request,
                "ハイライト一覧を読み込めませんでした。詳細: "@ + message,
            ),
            ..self
        }
    }

    /// The document once its outline is known.
    #[verifier::opaque]
    pub open spec fn outlined(self) -> DocumentView {
        DocumentView { outline_loaded: true, ..self }
    }

    /// The document after a thumbnail was passed over.
    #[verifier::opaque]
    pub open spec fn thumbnail_skipped(self, request: ThumbnailRequest) -> DocumentView {
        DocumentView {
            thumbnails: self.thumbnails.skipped(thumbnail_request_key(self.document_id, request)),
            ..self
        }
    }

    /// The document after a thumbnail could not be rendered.
    #[verifier::opaque]
    pub open spec fn thumbnail_failed(self, request: ThumbnailRequest, message: Seq<char>) -> DocumentView {
        DocumentView {
            thumbnails: self.thumbnails.refused(thumbnail_request_key(self.document_id, request)),
            error: Some(
                "サムネイルを表示できませんでした。PDFを開き直してください。詳細: "@ + message,
            ),
            ..self
        }
    }

    /// The document once a print is over.
    #[verifier::opaque]
    pub open spec fn printed(self) -> DocumentView {
        DocumentView { print_in_flight: false, ..self }
    }

    /// The document without a complaint.
    #[verifier::opaque]
    pub open spec fn untroubled(self) -> DocumentView {
        DocumentView { error: None, ..self }
    }

    /// The document after its worker ended.
    #[verifier::opaque]
    pub open spec fn orphaned(self, visible: bool) -> DocumentView {
        if self.restoring_from_session {
            self.still(visible)
        } else {
            self.still(visible).disconnected()
        }
    }

    /// The document after an edit failed that changed nothing.
    pub open spec fn edit_failed(self) -> DocumentView {
        let fewer = DocumentView { pending_edits: one_less(self.pending_edits), ..self };
        if !fewer.unsaved() && !fewer.save_in_flight {
            DocumentView { state: DocumentState::ReadyClean, ..fewer }
        } else {
            fewer
        }
    }

    /// The document after an edit was made whose outcome could not be read.
    pub open spec fn edit_unclear(self) -> DocumentView {
        DocumentView {
            pending_edits: one_less(self.pending_edits),
            state: DocumentState::ReadyDirty,
            ..self
        }
    }

    /// The document once `operation` is not waited for any more.
    #[verifier::opaque]
    pub open spec fn given_up(self, operation: Seq<char>) -> DocumentView {
        if operation == "highlight"@ {
            self.edit_failed()
        } else if operation == "highlight-state"@ {
            self.edit_unclear()
        } else if operation == "annotation-update"@ || operation == "annotation-delete"@ {
            self.edit_failed()
        } else if operation == "search"@ {
            DocumentView { search: self.search.restarted(false), ..self }
        } else if operation == "undo"@ {
            DocumentView { undo_in_flight: false, ..self }
        } else if operation == "print"@ {
            DocumentView { print_in_flight: false, ..self }
        } else if operation == "save"@ {
            DocumentView { save_in_flight: false, state: DocumentState::ReadyDirty, ..self }
        } else if operation == "reload"@ {
            DocumentView {
                reload_in_flight: false,
                failed_external_version: match self.external_candidate {
                    None => None,
                    Some(candidate) => Some(candidate.version),
                },
                ..self
            }
        } else if operation == "save-as"@ {
            DocumentView { save_as: SaveAsView::Idle, ..self }
        } else if operation == "rename"@ {
            DocumentView { pending_rebind_path: None, ..self }
        } else if operation == "open"@ || operation == "resume"@ || operation == "document-info"@ {
            DocumentView { state: DocumentState::Error, ..self }
        } else {
            self
        }
    }

    /// A failure ends the restoring of the tab.
    pub open spec fn restore_fails(self, operation: Seq<char>) -> bool {
        operation == "open"@ && self.restoring_from_session
    }

    /// The document after an operation failed.
    #[verifier::opaque]
    pub open spec fn failed(self, visible: bool, operation: Seq<char>, message: Seq<char>) -> DocumentView {
        let still = self.still(visible);
        if self.restore_fails(operation) {
            still
        } else {
            (DocumentView {
                error: Some(failure_message(operation, message)),
                ..still
            }).given_up(operation)
        }
    }
}

/// A rendered tile is what it says it is, and fits its page.
pub open spec fn is_sound(tile: RenderedTile) -> bool {
    &&& tile.spec.byte_count() == tile.pixel_bytes
    &&& tile.page_pixel_width > 0
    &&& tile.page_pixel_height > 0
    &&& tile.bounds_match
}

pub open spec fn bad_tile_message() -> Seq<char> {
    "ページを表示できませんでした。PDFを開き直してください。詳細: 描画データが不正です。"@
}

pub open spec fn undo_order_message() -> Seq<char> {
    "編集を元に戻せませんでした。タブを開き直してください。詳細: 編集履歴の応答順序が一致しません。"@
}

/// The key of a rendered thumbnail.
pub open spec fn thumbnail_key(document_id: u64, thumbnail: RenderedThumbnail) -> ThumbnailCacheKey {
    ThumbnailCacheKey {
        document_id,
        page_index: thumbnail.page_index,
        max_pixel_width: thumbnail.max_pixel_width,
        max_pixel_height: thumbnail.max_pixel_height,
        revision: thumbnail.revision,
    }
}

/// The key of a thumbnail that was asked for.
pub open spec fn thumbnail_request_key(document_id: u64, request: ThumbnailRequest) -> ThumbnailCacheKey {
    ThumbnailCacheKey {
        document_id,
        page_index: request.page_index,
        max_pixel_width: request.max_pixel_width,
        max_pixel_height: request.max_pixel_height,
        revision: request.expected_revision,
    }
}

/// The key of a text that was asked for.
pub open spec fn text_key(request: TextSnapshotRequest) -> TextSnapshotKey {
    TextSnapshotKey { page_index: request.page_index, revision: request.expected_revision }
}

/// The highlights after a report about them.
pub open spec fn highlights_read(index: HighlightIndexView, batch: HighlightIndexBatch) -> HighlightIndexView {
    if batch_counts(index, batch) {
        index.with_batch(batch.pages@)
    } else {
        index
    }
}

/// A batch answers the request that is under way.
pub open spec fn batch_counts(index: HighlightIndexView, batch: HighlightIndexBatch) -> bool {
    index.answers(batch.generation, batch.revision, batch.total_pages, batch.pages@)
}

/// The document after a report, except for the hits of a page, which `search_received` tells.
pub open spec fn after_event(
    document: DocumentView,
    context: EventContext,
    event: DocumentEvent,
) -> DocumentView {
    match event {
        DocumentEvent::Opened { info, .. } => document.opened(info),
        DocumentEvent::DocumentChanged { info, external_reload } => document.still(
            context.visible,
        ).changed(info, external_reload),
        DocumentEvent::PathRebound { info, .. } => document.rebound(info),
        DocumentEvent::SavedAs(path) => document.copy_saved(path@),
        DocumentEvent::TileRendered(tile) => document.tile_rendered(context.visible, tile),
        DocumentEvent::SelectionReady(selection) => document.selected(selection@),
        DocumentEvent::EditActionCreated(action) => document.edited(action),
        DocumentEvent::EditActionUndone(action) => document.undone(action),
        DocumentEvent::TextSnapshotReady(key) => document.text_read(context.visible, key),
        DocumentEvent::TextSnapshotSkipped(request) => document.text_skipped(request),
        DocumentEvent::TextSnapshotFailed { request, message } => document.text_failed(
            context.visible,
            text_key(request),
            message@,
        ),
        DocumentEvent::AnnotationsReady(request) => document.annotations_read(
            context.visible,
            request,
        ),
        DocumentEvent::AnnotationsSkipped(request) => document.annotations_skipped(request),
        DocumentEvent::AnnotationsFailed { request, message } => document.annotations_failed(
            context.visible,
            request,
            message@,
        ),
        DocumentEvent::HighlightIndexReady(batch) => document.highlights_came(batch),
        DocumentEvent::HighlightIndexSkipped(request) => document.highlights_skipped(request),
        DocumentEvent::HighlightIndexFailed { request, message } => document.highlights_failed(
            request,
            message@,
        ),
        DocumentEvent::OutlineReady => document.outlined(),
        DocumentEvent::SearchPageReady(_) => document,
        DocumentEvent::ThumbnailReady(thumbnail) => document.thumbnail_rendered(
            thumbnail_key(document.document_id, thumbnail),
        ),
        DocumentEvent::ThumbnailSkipped(request) => document.thumbnail_skipped(request),
        DocumentEvent::ThumbnailFailed { request, message } => document.thumbnail_failed(
            request,
            message@,
        ),
        DocumentEvent::PrintCompleted => document.printed(),
        DocumentEvent::PrintCancelled => document.printed(),
        DocumentEvent::Status(_) => document.untroubled(),
        DocumentEvent::Failed { operation, message } => document.failed(
            context.visible,
            operation@,
            message@,
        ),
        DocumentEvent::Disconnected => document.orphaned(context.visible),
    }
}

/// The search before and after the hits of a page came: hits of another search or another
/// revision change nothing.
#[verifier::opaque]
pub open spec fn search_received(
    before: DocumentView,
    after: DocumentView,
    result: SearchPageResult,
) -> bool {
    let current = result.generation == before.search.generation && before.revision() == Some(
        result.revision,
    );
    if current {
        &&& after == (DocumentView {
            search: before.search.with_page(
                result,
                before.page_count() as int,
                after.search.pages,
            ),
            ..before
        })
        &&& after.search.wf()
        &&& page_counts(after.search.pages) == (if result.match_count > 0 {
            page_counts(before.search.pages).insert(result.page_index, result.match_count)
        } else {
            page_counts(before.search.pages)
        })
    } else {
        after == before
    }
}

/// The editor after a report. It goes when the document it was opened on is saved, and when
/// the change that it sent was made.
pub open spec fn editor_after_event(
    document: DocumentView,
    editor: Option<EditorView>,
    event: DocumentEvent,
) -> Option<EditorView> {
    let id = document.document_id;
    match event {
        DocumentEvent::DocumentChanged { info, .. } => if !info.dirty && editor is Some
            && editor->0.document_id == id {
            None
        } else {
            editor
        },
        DocumentEvent::EditActionCreated(action) => if editor is Some && editor->0.document_id == id
            && action.target() == Some(editor->0.annotation_id) {
            None
        } else {
            editor
        },
        DocumentEvent::Failed { operation, .. } => if !document.restore_fails(operation@) && (
        operation@ == "annotation-update"@ || operation@ == "annotation-delete"@) {
            editor_after_failure(
                editor,
                id,
                "注釈を変更できませんでした。PDFの編集制限を確認してください。"@,
            )
        } else {
            editor
        },
        DocumentEvent::Disconnected => if document.restoring_from_session {
            editor
        } else {
            editor_after_failure(
                editor,
                id,
                "文書処理が停止したため、注釈の変更を完了できませんでした。"@,
            )
        },
        _ => editor,
    }
}

/// What the index needs once its state is `index` and its generation has to be announced.
pub open spec fn announcing(index: HighlightIndexView) -> HighlightFollowUp {
    if index.started {
        HighlightFollowUp::Announce(index.generation)
    } else {
        HighlightFollowUp::Nothing
    }
}

/// What has to be done after a document was opened.
#[verifier::opaque]
pub open spec fn opened_outcome(
    document: DocumentView,
    active: bool,
    info: DocumentInfo,
    shown_path: Seq<char>,
) -> OutcomeView {
    OutcomeView {
        status: Some("Opened "@ + shown_path),
        highlight: if document.highlights_outdated(info) {
            announcing(document.opened(info).highlight_index)
        } else if document.highlight_index.started {
            HighlightFollowUp::Reconnect(document.highlight_index.generation)
        } else {
            HighlightFollowUp::Nothing
        },
        load_outline: !document.outline_requested,
        begin_search: active && document.searches(),
        restored: document.restoring_from_session,
        ..OutcomeView::nothing()
    }
}

/// What has to be done after a document was described anew.
#[verifier::opaque]
pub open spec fn changed_outcome(
    document: DocumentView,
    context: EventContext,
    info: DocumentInfo,
    external_reload: bool,
) -> OutcomeView {
    OutcomeView {
        cancel_viewport: context.visible,
        highlight: announcing(
            document.still(context.visible).changed(info, external_reload).highlight_index,
        ),
        saved: !info.dirty,
        begin_search: context.active && !context.closing && document.searches(),
        load_outline: external_reload,
        ..OutcomeView::nothing()
    }
}

/// What has to be done after an operation failed.
#[verifier::opaque]
pub open spec fn failed_outcome(
    document: DocumentView,
    context: EventContext,
    operation: Seq<char>,
) -> OutcomeView {
    let base = OutcomeView { cancel_viewport: context.visible, ..OutcomeView::nothing() };
    if document.restore_fails(operation) {
        OutcomeView { drop_restored_tab: true, stop: true, ..base }
    } else if operation == "search"@ {
        OutcomeView { search_generation: Some(document.search.generation.wrapping_add(1)), ..base }
    } else if operation == "save"@ {
        OutcomeView { save_failed: true, ..base }
    } else if operation == "rename"@ {
        OutcomeView { previous_path: document.pending_rebind_path, ..base }
    } else {
        base
    }
}

/// What has to be done outside the document after a report.
pub open spec fn outcome_of(
    document: DocumentView,
    context: EventContext,
    event: DocumentEvent,
) -> OutcomeView {
    let nothing = OutcomeView::nothing();
    match event {
        DocumentEvent::Opened { info, shown_path } => opened_outcome(
            document,
            context.active,
            info,
            shown_path@,
        ),
        DocumentEvent::DocumentChanged { info, external_reload } => changed_outcome(
            document,
            context,
            info,
            external_reload,
        ),
        DocumentEvent::PathRebound { shown_path, .. } => OutcomeView::saying(
            "PDF の名前変更を追跡しました: "@ + shown_path@,
        ),
        DocumentEvent::SavedAs(path) => if document.saves_copy(path@) {
            OutcomeView { saved_copy: Some(path@), ..nothing }
        } else {
            nothing
        },
        DocumentEvent::TileRendered(tile) => OutcomeView {
            keep_tile: document.tile_to_keep(context.visible, tile),
            ..nothing
        },
        DocumentEvent::SelectionReady(selection) => if selection.generation
            == document.selection_generation {
            OutcomeView::saying("Selection Quad baseline updated"@)
        } else {
            nothing
        },
        DocumentEvent::EditActionCreated(_) => OutcomeView {
            save_copy: match document.save_as {
                SaveAsView::WaitingEditorCommit(path) => Some(path),
                _ => None,
            },
            ..nothing
        },
        DocumentEvent::EditActionUndone(action) => if document.made_last(action) {
            OutcomeView::saying("編集を元に戻しました"@)
        } else {
            nothing
        },
        DocumentEvent::HighlightIndexReady(batch) => OutcomeView {
            highlight: if batch_counts(document.highlight_index, batch) {
                HighlightFollowUp::ReadOn
            } else {
                HighlightFollowUp::Nothing
            },
            ..nothing
        },
        DocumentEvent::ThumbnailReady(thumbnail) => OutcomeView {
            keep_thumbnail: document.thumbnail_to_keep(context.active, thumbnail),
            ..nothing
        },
        DocumentEvent::PrintCompleted => OutcomeView::saying(
            "印刷データをプリンターへ送信しました"@,
        ),
        DocumentEvent::PrintCancelled => OutcomeView::saying("印刷をキャンセルしました"@),
        DocumentEvent::Status(status) => OutcomeView::saying(status@),
        DocumentEvent::Failed { operation, .. } => failed_outcome(document, context, operation@),
        DocumentEvent::Disconnected => OutcomeView {
            cancel_viewport: context.visible,
            drop_restored_tab: document.restoring_from_session,
            save_failed: !document.restoring_from_session,
            stop: true,
            ..nothing
        },
        _ => nothing,
    }
}

impl DocumentTab {
    fn come_to_rest(&mut self, visible: bool)
        ensures
            final(self)@ == old(self)@.still(visible),
    {
        let ghost before = self@;
        if visible {
            self.view.stop_autoscroll();
        }
        assert(self@ =~= before.still(visible));
    }

    fn settle_opened(&mut self, info: DocumentInfo)
        ensures
            final(self)@ == (DocumentView {
                highlight_index: old(self)@.highlight_index,
                ..old(self)@.opened(info)
            }),
    {
        proof {
            reveal(DocumentView::opened);
        }
        self.restoring_from_session = false;
        self.view.clamp_to_page_count(info.page_count);
        self.state = if info.dirty {
            DocumentState::ReadyDirty
        } else {
            DocumentState::ReadyClean
        };
        self.error = None;
        self.external_candidate = None;
        self.external_conflict_reported = false;
        self.reload_in_flight = false;
        self.info = Some(info);
    }

    fn reset_highlights(&mut self, info: DocumentInfo) -> (res: Option<u64>)
        ensures
            final(self)@ == (DocumentView {
                highlight_index: old(self)@.highlight_index.reset(info.revision, info.page_count),
                ..old(self)@
            }),
            res == (if old(self)@.highlight_index.started {
                Some(final(self)@.highlight_index.generation)
            } else {
                None
            }),
    {
        self.highlight_index.reset_highlight_index(info.revision, info.page_count)
    }

    fn receive_opened(&mut self, info: DocumentInfo, active: bool, shown_path: &str) -> (res: EventOutcome)
        ensures
            final(self)@ == old(self)@.opened(info),
            res@ == opened_outcome(old(self)@, active, info, shown_path@),
            res.takes_nothing_back(),
    {
        proof {
            reveal(DocumentView::opened);
            reveal(opened_outcome);
        }
        let ghost before = self@;
        let mut res = EventOutcome::nothing();
        res.status = Some(with_text("Opened ", shown_path));
        let outdated = self.highlight_index.started && !is_current_revision(
            info.revision,
            self.highlight_index.revision,
        );
        res.restored = self.restoring_from_session;
        self.settle_opened(info);
        if outdated {
            let generation = self.reset_highlights(info);
            if let Some(generation) = generation {
                res.highlight = HighlightFollowUp::Announce(generation);
            }
        } else {
            let generation = self.highlight_index.reconnect_generation();
            if let Some(generation) = generation {
                res.highlight = HighlightFollowUp::Reconnect(generation);
            }
        }
        res.load_outline = !self.outline_requested;
        res.begin_search = active && self.search.has_query();
        assert(res@ =~= opened_outcome(before, active, info, shown_path@));
        res
    }

    fn take_reread(&mut self, page_count: usize)
        ensures
            final(self)@ == old(self)@.reread(page_count),
    {
        proof {
            reveal(DocumentView::reread);
        }
        let ghost before = self@;
        self.external_candidate = None;
        self.external_conflict_reported = false;
        self.reload_in_flight = false;
        self.failed_external_version = None;
        self.outline_loaded = false;
        self.outline_requested = false;
        self.clear_selection();
        self.search.cancel_search();
        self.view.clamp_to_page_count(page_count);
        assert(self@ =~= before.reread(page_count));
    }

    fn take_highlights(&mut self, info: DocumentInfo) -> (res: Option<u64>)
        ensures
            final(self)@ == (DocumentView {
                pending_highlight_refresh_page: None,
                highlight_index: old(self)@.highlights_after(info),
                ..old(self)@
            }),
            res == (if final(self)@.highlight_index.started {
                Some(final(self)@.highlight_index.generation)
            } else {
                None
            }),
    {
        let ghost before = self@;
        let changed_page = self.pending_highlight_refresh_page;
        self.pending_highlight_refresh_page = None;
        let generation = match changed_page {
            Some(page_index) if info.dirty => self.highlight_index.refresh_highlight_index_page(
                page_index,
                info.revision,
                info.page_count,
            ),
            _ => self.highlight_index.reset_highlight_index(info.revision, info.page_count),
        };
        assert(self@ =~= (DocumentView {
            pending_highlight_refresh_page: None,
            highlight_index: before.highlights_after(info),
            ..before
        }));
        generation
    }

    fn settle_description(&mut self, info: DocumentInfo)
        ensures
            final(self)@ == (DocumentView {
                pending_rebind_path: None,
                save_in_flight: old(self)@.save_in_flight && info.dirty,
                edit_history: if info.dirty {
                    old(self)@.edit_history
                } else {
                    seq![]
                },
                state: state_told(old(self)@.state, info.dirty),
                info: Some(info),
                ..old(self)@
            }),
    {
        self.pending_rebind_path = None;
        if !info.dirty {
            self.save_in_flight = false;
            self.edit_history.clear();
        }
        self.state = state_after_document_info(self.state, info.dirty);
        self.info = Some(info);
    }

    fn drop_page_caches(&mut self) -> (res: (Vec<TileRequest>, Vec<TextSnapshotKey>, Vec<
        ThumbnailCacheKey,
    >))
        ensures
            final(self)@ == old(
                self,
            )@.without_rendering().without_texts().without_annotations().without_thumbnails(),
            lists_pending(res.0@, old(self)@.tiles.pending),
            lists(res.1@, old(self)@.texts.pending),
            lists(res.2@, old(self)@.thumbnails.cached),
    {
        let tiles = self.invalidate_rendering();
        let texts = self.invalidate_text_snapshots();
        self.invalidate_annotation_pages();
        let thumbnails = self.invalidate_thumbnails();
        (tiles, texts, thumbnails)
    }

    fn take_description(&mut self, info: DocumentInfo) -> (res: (
        Option<u64>,
        (Vec<TileRequest>, Vec<TextSnapshotKey>, Vec<ThumbnailCacheKey>),
    ))
        ensures
            final(self)@ == old(self)@.described(info),
            res.0 == (if final(self)@.highlight_index.started {
                Some(final(self)@.highlight_index.generation)
            } else {
                None
            }),
            lists_pending(res.1.0@, old(self)@.tiles.pending),
            lists(res.1.1@, old(self)@.texts.pending),
            lists(res.1.2@, old(self)@.thumbnails.cached),
    {
        proof {
            reveal(DocumentView::described);
        }
        let dropped = self.drop_page_caches();
        let generation = self.take_highlights(info);
        self.settle_description(info);
        (generation, dropped)
    }

    fn receive_changed(
        &mut self,
        info: DocumentInfo,
        external_reload: bool,
        context: EventContext,
    ) -> (res: EventOutcome)
        ensures
            final(self)@ == old(self)@.still(context.visible).changed(info, external_reload),
            res@ == changed_outcome(old(self)@, context, info, external_reload),
            lists_pending(res.cancelled_tiles@, old(self)@.tiles.pending),
            lists(res.cancelled_texts@, old(self)@.texts.pending),
            lists(res.dropped_thumbnails@, old(self)@.thumbnails.cached),
    {
        proof {
            reveal(DocumentView::changed);
            reveal(DocumentView::reread);
            reveal(changed_outcome);
        }
        let ghost before = self@;
        let mut res = EventOutcome::nothing();
        res.cancel_viewport = context.visible;
        res.saved = !info.dirty;
        res.begin_search = context.active && !context.closing && self.search.has_query();
        res.load_outline = external_reload;
        self.come_to_rest(context.visible);
        if external_reload {
            self.take_reread(info.page_count);
        }
        assert(self@.tiles == before.tiles);
        assert(self@.texts == before.texts);
        assert(self@.thumbnails == before.thumbnails);
        let (generation, (tiles, texts, thumbnails)) = self.take_description(info);
        if let Some(generation) = generation {
            res.highlight = HighlightFollowUp::Announce(generation);
        }
        res.cancelled_tiles = tiles;
        res.cancelled_texts = texts;
        res.dropped_thumbnails = thumbnails;
        assert(res@ =~= changed_outcome(before, context, info, external_reload));
        res
    }

    fn receive_saved_as(&mut self, path: DocumentPath) -> (res: EventOutcome)
        ensures
            final(self)@ == old(self)@.copy_saved(path@),
            res@ == (if old(self)@.saves_copy(path@) {
                OutcomeView { saved_copy: Some(path@), ..OutcomeView::nothing() }
            } else {
                OutcomeView::nothing()
            }),
            res.takes_nothing_back(),
    {
        proof {
            reveal(DocumentView::copy_saved);
        }
        let ghost before = self@;
        let mut res = EventOutcome::nothing();
        let expected = match &self.save_as {
            SaveAsState::Saving(expected) => expected.same(&path),
            _ => false,
        };
        if expected {
            self.save_as = SaveAsState::Idle;
            assert(self@ =~= (DocumentView { save_as: SaveAsView::Idle, ..before }));
            res.saved_copy = Some(path);
            assert(res@ =~= (OutcomeView { saved_copy: Some(path@), ..OutcomeView::nothing() }));
        }
        res
    }

    fn answer_tile(&mut self, key: TileCacheKey) -> (res: bool)
        ensures
            final(self)@ == old(self)@.without_tile_request(key),
            res == (old(self)@.tiles.pending.dom().contains(key) && !(old(
                self,
            )@.tiles.pending[key].priority is Visible)),
    {
        match self.tiles.pending.remove(key) {
            None => false,
            Some(request) => match request.priority {
                RenderPriority::Visible => false,
                _ => true,
            },
        }
    }

    fn receive_tile(&mut self, tile: RenderedTile, visible: bool) -> (res: EventOutcome)
        ensures
            final(self)@ == old(self)@.tile_rendered(visible, tile),
            res@ == (OutcomeView {
                keep_tile: old(self)@.tile_to_keep(visible, tile),
                ..OutcomeView::nothing()
            }),
            res.takes_nothing_back(),
    {
        proof {
            reveal(DocumentView::tile_rendered);
            reveal(DocumentView::tile_to_keep);
        }
        let ghost before = self@;
        let mut res = EventOutcome::nothing();
        let key = TileCacheKey::from_tile(self.document_id, &tile);
        assert(key == rendered_key(before.document_id, tile));
        let was_prefetched = self.answer_tile(key);
        let revision = self.revision();
        if !tile_result_is_current(
            visible,
            key,
            tile.generation,
            self.view.generation,
            revision,
            &self.tiles.wanted,
        ) {
            assert(res@ =~= (OutcomeView {
                keep_tile: before.tile_to_keep(visible, tile),
                ..OutcomeView::nothing()
            }));
            return res;
        }
        assert(before.wants_tile(visible, key, tile.generation));
        let bytes_fit = match tile.spec.rgba_bytes() {
            None => false,
            Some(bytes) => bytes == tile.pixel_bytes,
        };
        if bytes_fit && tile.page_pixel_width > 0 && tile.page_pixel_height > 0
            && tile.bounds_match {
            res.keep_tile = Some(TileToKeep { key, weight: tile.pixel_bytes, was_prefetched });
        } else {
            self.fail_with(
                "ページを表示できませんでした。PDFを開き直してください。詳細: 描画データが不正です。".to_owned(),
            );
        }
        assert(res@ =~= (OutcomeView {
            keep_tile: before.tile_to_keep(visible, tile),
            ..OutcomeView::nothing()
        }));
        res
    }

    fn receive_selection(&mut self, selection: Selection) -> (res: EventOutcome)
        ensures
            final(self)@ == old(self)@.selected(selection@),
            res@ == (if selection.generation == old(self)@.selection_generation {
                OutcomeView::saying("Selection Quad baseline updated"@)
            } else {
                OutcomeView::nothing()
            }),
            res.takes_nothing_back(),
    {
        proof {
            reveal(DocumentView::selected);
        }
        let ghost before = self@;
        if selection.generation != self.selection_generation {
            return EventOutcome::nothing();
        }
        let ghost selected = selection@;
        self.selection = Some(selection);
        assert(self@ =~= (DocumentView { selection: Some(selected), ..before }));
        EventOutcome::saying("Selection Quad baseline updated".to_owned())
    }

    fn receive_edit(&mut self, action: EditAction) -> (res: EventOutcome)
        ensures
            final(self)@ == old(self)@.edited(action),
            res@ == (OutcomeView {
                save_copy: match old(self)@.save_as {
                    SaveAsView::WaitingEditorCommit(path) => Some(path),
                    _ => None,
                },
                ..OutcomeView::nothing()
            }),
            res.takes_nothing_back(),
    {
        proof {
            reveal(DocumentView::edited);
        }
        let ghost before = self@;
        let mut res = EventOutcome::nothing();
        self.pending_edits = self.pending_edits.saturating_sub(1);
        self.pending_highlight_refresh_page = Some(action.changed_page());
        self.edit_history.push(action);
        self.state = DocumentState::ReadyDirty;
        if let SaveAsState::WaitingEditorCommit(path) = &self.save_as {
            res.save_copy = Some(path.clone());
        }
        assert(self@ =~= before.edited(action));
        assert(res@ =~= (OutcomeView {
            save_copy: match before.save_as {
                SaveAsView::WaitingEditorCommit(path) => Some(path),
                _ => None,
            },
            ..OutcomeView::nothing()
        }));
        res
    }

    fn drop_last_edit(&mut self, page_index: usize)
        requires
            old(self)@.edit_history.len() > 0,
        ensures
            final(self)@ == (DocumentView {
                edit_history: old(self)@.edit_history.drop_last(),
                pending_highlight_refresh_page: Some(page_index),
                ..old(self)@
            }),
    {
        let _undone = self.edit_history.pop();
        self.pending_highlight_refresh_page = Some(page_index);
    }

    fn receive_undone(&mut self, action: EditAction) -> (res: EventOutcome)
        ensures
            final(self)@ == old(self)@.undone(action),
            res@ == (if old(self)@.made_last(action) {
                OutcomeView::saying("編集を元に戻しました"@)
            } else {
                OutcomeView::nothing()
            }),
            res.takes_nothing_back(),
    {
        proof {
            reveal(DocumentView::undone);
        }
        let ghost before = self@;
        self.end_undo();
        let count: usize = self.edit_history.len();
        if count > 0 && self.edit_history[count - 1] == action {
            self.drop_last_edit(action.changed_page());
            return EventOutcome::saying("編集を元に戻しました".to_owned());
        }
        self.fail_with(
            "編集を元に戻せませんでした。タブを開き直してください。詳細: 編集履歴の応答順序が一致しません。".to_owned(),
        );
        EventOutcome::nothing()
    }

    fn receive_text(&mut self, key: TextSnapshotKey, visible: bool)
        ensures
            final(self)@ == old(self)@.text_read(visible, key),
    {
        proof {
            reveal(DocumentView::text_read);
        }
        let ghost before = self@;
        let revision = self.revision();
        let page_count: usize = self.page_count();
        let current = text_snapshot_result_is_current(
            visible,
            key,
            revision,
            page_count,
            &self.texts.wanted,
        );
        self.texts.receive(key, current);
        assert(self@ =~= before.text_read(visible, key));
    }

    fn receive_text_failure(&mut self, key: TextSnapshotKey, visible: bool, message: &str)
        ensures
            final(self)@ == old(self)@.text_failed(visible, key, message@),
    {
        proof {
            reveal(DocumentView::text_failed);
        }
        let ghost before = self@;
        let revision = self.revision();
        let page_count: usize = self.page_count();
        let current = text_snapshot_result_is_current(
            visible,
            key,
            revision,
            page_count,
            &self.texts.wanted,
        );
        self.texts.receive_failure(key, current);
        if current {
            self.error = Some(
                with_text(
                    "テキスト情報を読み取れませんでした。PDFを開き直してください。詳細: ",
                    message,
                ),
            );
        }
        assert(self@ =~= before.text_failed(visible, key, message@));
    }

    fn receive_annotations(&mut self, request: AnnotationPageRequest, visible: bool)
        ensures
            final(self)@ == old(self)@.annotations_read(visible, request),
    {
        proof {
            reveal(DocumentView::annotations_read);
        }
        let ghost before = self@;
        let revision = self.revision();
        let current = annotation_page_result_is_current(
            visible,
            request,
            revision,
            &self.annotations.wanted,
        );
        self.annotations.receive(request, current);
        assert(self@ =~= before.annotations_read(visible, request));
    }

    fn receive_annotation_failure(
        &mut self,
        request: AnnotationPageRequest,
        visible: bool,
        message: &str,
    )
        ensures
            final(self)@ == old(self)@.annotations_failed(visible, request, message@),
    {
        proof {
            reveal(DocumentView::annotations_failed);
        }
        let ghost before = self@;
        let revision = self.revision();
        let current = annotation_page_result_is_current(
            visible,
            request,
            revision,
            &self.annotations.wanted,
        );
        self.annotations.receive_failure(request, current);
        if current {
            self.error = Some(
                with_text(
                    "注釈情報を読み取れませんでした。PDFを開き直してください。詳細: ",
                    message,
                ),
            );
        }
        assert(self@ =~= before.annotations_failed(visible, request, message@));
    }

    fn receive_thumbnail(&mut self, thumbnail: RenderedThumbnail, active: bool) -> (res: EventOutcome)
        ensures
            final(self)@ == old(self)@.thumbnail_rendered(
                thumbnail_key(old(self)@.document_id, thumbnail),
            ),
            res@ == (OutcomeView {
                keep_thumbnail: old(self)@.thumbnail_to_keep(active, thumbnail),
                ..OutcomeView::nothing()
            }),
            res.takes_nothing_back(),
    {
        proof {
            reveal(DocumentView::thumbnail_rendered);
            reveal(DocumentView::thumbnail_to_keep);
        }
        let ghost before = self@;
        let mut res = EventOutcome::nothing();
        let key = ThumbnailCacheKey::from_thumbnail(self.document_id, &thumbnail);
        self.thumbnails.pending.remove(key);
        self.thumbnails.failed.remove(key);
        let current = active && thumbnail.generation == self.thumbnail_generation
            && is_current_revision(thumbnail.revision, self.revision());
        let bytes_fit = match rgba_byte_count(thumbnail.pixel_width, thumbnail.pixel_height) {
            None => false,
            Some(bytes) => bytes == thumbnail.pixel_bytes,
        };
        if current && bytes_fit {
            res.keep_thumbnail = Some(ThumbnailToKeep { key, weight: thumbnail.pixel_bytes });
        }
        assert(self@ =~= before.thumbnail_rendered(thumbnail_key(before.document_id, thumbnail)));
        assert(res@ =~= (OutcomeView {
            keep_thumbnail: before.thumbnail_to_keep(active, thumbnail),
            ..OutcomeView::nothing()
        }));
        res
    }

    fn receive_thumbnail_failure(&mut self, request: ThumbnailRequest, message: &str)
        ensures
            final(self)@ == old(self)@.thumbnail_failed(request, message@),
    {
        proof {
            reveal(DocumentView::thumbnail_failed);
        }
        let ghost before = self@;
        let key = ThumbnailCacheKey::from_request(self.document_id, &request);
        mark_thumbnail_failed(&mut self.thumbnails.pending, &mut self.thumbnails.failed, key);
        self.error = Some(
            with_text(
                "サムネイルを表示できませんでした。PDFを開き直してください。詳細: ",
                message,
            ),
        );
        assert(self@ =~= (DocumentView {
            thumbnails: before.thumbnails.refused(key),
            error: Some(
                "サムネイルを表示できませんでした。PDFを開き直してください。詳細: "@ + message@,
            ),
            ..before
        }));
    }

    fn receive_rebound(&mut self, info: DocumentInfo)
        ensures
            final(self)@ == old(self)@.rebound(info),
    {
        proof {
            reveal(DocumentView::rebound);
        }
        let ghost before = self@;
        self.info = Some(info);
        self.external_candidate = None;
        self.pending_rebind_path = None;
        assert(self@ =~= before.rebound(info));
    }

    fn skip_text(&mut self, request: TextSnapshotRequest)
        ensures
            final(self)@ == old(self)@.text_skipped(request),
    {
        proof {
            reveal(DocumentView::text_skipped);
        }
        let ghost before = self@;
        self.texts.skip(TextSnapshotKey::from_request(&request));
        assert(self@ =~= (DocumentView {
            texts: before.texts.skipped(text_key(request)),
            ..before
        }));
    }

    fn skip_annotations(&mut self, request: AnnotationPageRequest)
        ensures
            final(self)@ == old(self)@.annotations_skipped(request),
    {
        proof {
            reveal(DocumentView::annotations_skipped);
        }
        let ghost before = self@;
        self.annotations.skip(request);
        assert(self@ =~= (DocumentView {
            annotations: before.annotations.skipped(request),
            ..before
        }));
    }

    fn skip_thumbnail(&mut self, request: ThumbnailRequest)
        ensures
            final(self)@ == old(self)@.thumbnail_skipped(request),
    {
        proof {
            reveal(DocumentView::thumbnail_skipped);
        }
        let ghost before = self@;
        let key = ThumbnailCacheKey::from_request(self.document_id, &request);
        self.thumbnails.skip(key);
        assert(self@ =~= (DocumentView { thumbnails: before.thumbnails.skipped(key), ..before }));
    }

    fn receive_highlights(&mut self, batch: &HighlightIndexBatch) -> (res: EventOutcome)
        ensures
            final(self)@ == old(self)@.highlights_came(*batch),
            res@ == (OutcomeView {
                highlight: if batch_counts(old(self)@.highlight_index, *batch) {
                    HighlightFollowUp::ReadOn
                } else {
                    HighlightFollowUp::Nothing
                },
                ..OutcomeView::nothing()
            }),
            res.takes_nothing_back(),
    {
        proof {
            reveal(DocumentView::highlights_came);
        }
        let ghost before = self@;
        let mut res = EventOutcome::nothing();
        if apply_highlight_index_batch(&mut self.highlight_index, batch) {
            res.highlight = HighlightFollowUp::ReadOn;
        }
        assert(self@ =~= (DocumentView {
            highlight_index: highlights_read(before.highlight_index, *batch),
            ..before
        }));
        assert(res@ =~= (OutcomeView {
            highlight: if batch_counts(before.highlight_index, *batch) {
                HighlightFollowUp::ReadOn
            } else {
                HighlightFollowUp::Nothing
            },
            ..OutcomeView::nothing()
        }));
        res
    }

    fn skip_highlights(&mut self, request: HighlightIndexRequest)
        ensures
            final(self)@ == old(self)@.highlights_skipped(request),
    {
        proof {
            reveal(DocumentView::highlights_skipped);
        }
        let ghost before = self@;
        self.highlight_index.request_skipped(request);
        assert(self@ =~= (DocumentView { highlight_index: self@.highlight_index, ..before }));
    }

    fn receive_highlight_failure(&mut self, request: HighlightIndexRequest, message: &str)
        ensures
            final(self)@ == old(self)@.highlights_failed(request, message@),
    {
        proof {
            reveal(DocumentView::highlights_failed);
        }
        let ghost before = self@;
        self.highlight_index.request_failed(request, message);
        assert(self@ =~= (DocumentView { highlight_index: self@.highlight_index, ..before }));
    }

    fn receive_outline(&mut self)
        ensures
            final(self)@ == old(self)@.outlined(),
    {
        proof {
            reveal(DocumentView::outlined);
        }
        let ghost before = self@;
        self.outline_loaded = true;
        assert(self@ =~= (DocumentView { outline_loaded: true, ..before }));
    }

    fn receive_search(&mut self, result: SearchPageResult)
        requires
            old(self)@.wf(),
        ensures
            search_received(old(self)@, final(self)@, result),
    {
        proof {
            reveal(search_received);
        }
        let ghost before = self@;
        let revision = self.revision();
        let page_count: usize = self.page_count();
        self.search.receive_search_page(result, revision, page_count);
        assert(self@ =~= (DocumentView { search: self@.search, ..before }));
    }

    fn end_print(&mut self)
        ensures
            final(self)@ == old(self)@.printed(),
    {
        proof {
            reveal(DocumentView::printed);
        }
        let ghost before = self@;
        self.print_in_flight = false;
        assert(self@ =~= (DocumentView { print_in_flight: false, ..before }));
    }

    fn forget_error(&mut self)
        ensures
            final(self)@ == old(self)@.untroubled(),
    {
        proof {
            reveal(DocumentView::untroubled);
        }
        let ghost before = self@;
        self.error = None;
        assert(self@ =~= (DocumentView { error: None, ..before }));
    }

    fn fail_with(&mut self, message: String)
        ensures
            final(self)@ == (DocumentView { error: Some(message@), ..old(self)@ }),
    {
        self.error = Some(message);
    }

    fn end_undo(&mut self)
        ensures
            final(self)@ == (DocumentView { undo_in_flight: false, ..old(self)@ }),
    {
        self.undo_in_flight = false;
    }

    fn end_failed_save(&mut self)
        ensures
            final(self)@ == (DocumentView {
                save_in_flight: false,
                state: DocumentState::ReadyDirty,
                ..old(self)@
            }),
    {
        self.save_in_flight = false;
        self.state = DocumentState::ReadyDirty;
    }

    fn end_failed_reload(&mut self)
        ensures
            final(self)@ == (DocumentView {
                reload_in_flight: false,
                failed_external_version: match old(self)@.external_candidate {
                    None => None,
                    Some(candidate) => Some(candidate.version),
                },
                ..old(self)@
            }),
    {
        self.reload_in_flight = false;
        self.failed_external_version = match &self.external_candidate {
            None => None,
            Some(candidate) => Some(candidate.version),
        };
    }

    fn end_save_as(&mut self)
        ensures
            final(self)@ == (DocumentView { save_as: SaveAsView::Idle, ..old(self)@ }),
    {
        self.save_as = SaveAsState::Idle;
    }

    fn end_rename(&mut self)
        ensures
            final(self)@ == (DocumentView { pending_rebind_path: None, ..old(self)@ }),
    {
        self.pending_rebind_path = None;
    }

    fn enter_error_state(&mut self)
        ensures
            final(self)@ == (DocumentView { state: DocumentState::Error, ..old(self)@ }),
    {
        self.state = DocumentState::Error;
    }

    fn cancel_search(&mut self)
        ensures
            final(self)@ == (DocumentView { search: old(self)@.search.restarted(false), ..old(self)@ }),
    {
        self.search.cancel_search();
    }

    fn note_edit_unclear(&mut self)
        ensures
            final(self)@ == old(self)@.edit_unclear(),
    {
        self.pending_edits = self.pending_edits.saturating_sub(1);
        self.state = DocumentState::ReadyDirty;
    }

    fn note_edit_failed(&mut self)
        ensures
            final(self)@ == old(self)@.edit_failed(),
    {
        let ghost before = self@;
        self.pending_edits = self.pending_edits.saturating_sub(1);
        let ghost fewer = DocumentView { pending_edits: one_less(before.pending_edits), ..before };
        assert(self@ =~= fewer);
        if !self.has_unsaved_changes() && !self.is_saving() {
            self.state = DocumentState::ReadyClean;
        }
        assert(self@ =~= before.edit_failed());
    }

    /// Stops waiting for `operation`.
    fn give_up(&mut self, operation: &str)
        ensures
            final(self)@ == old(self)@.given_up(operation@),
    {
        proof {
            reveal(DocumentView::given_up);
            reveal(DocumentView::printed);
        }
        if text_eq(operation, "highlight") {
            self.note_edit_failed();
        } else if text_eq(operation, "highlight-state") {
            // The highlight was made; only what came of it is unknown.
            self.note_edit_unclear();
        } else if text_eq(operation, "annotation-update") || text_eq(
            operation,
            "annotation-delete",
        ) {
            self.note_edit_failed();
        } else if text_eq(operation, "search") {
            // The other pages would fail in the same way.
            self.cancel_search();
        } else if text_eq(operation, "undo") {
            self.end_undo();
        } else if text_eq(operation, "print") {
            self.end_print();
        } else if text_eq(operation, "save") {
            self.end_failed_save();
        } else if text_eq(operation, "reload") {
            self.end_failed_reload();
        } else if text_eq(operation, "save-as") {
            self.end_save_as();
        } else if text_eq(operation, "rename") {
            self.end_rename();
        } else if text_eq(operation, "open") || text_eq(operation, "resume") || text_eq(
            operation,
            "document-info",
        ) {
            self.enter_error_state();
        }
    }

    fn receive_failure(&mut self, operation: &str, message: &str, context: EventContext) -> (res:
        EventOutcome)
        ensures
            final(self)@ == old(self)@.failed(context.visible, operation@, message@),
            res@ == failed_outcome(old(self)@, context, operation@),
            res.takes_nothing_back(),
    {
        proof {
            reveal(DocumentView::failed);
            reveal(failed_outcome);
        }
        let ghost before = self@;
        let mut res = EventOutcome::nothing();
        res.cancel_viewport = context.visible;
        self.come_to_rest(context.visible);
        if text_eq(operation, "open") && self.restoring_from_session {
            res.drop_restored_tab = true;
            res.stop = true;
            assert(res@ =~= failed_outcome(before, context, operation@));
            return res;
        }
        if text_eq(operation, "search") {
            res.search_generation = Some(self.search.generation.wrapping_add(1));
            assert(res@ =~= failed_outcome(before, context, operation@));
        } else if text_eq(operation, "save") {
            res.save_failed = true;
            assert(res@ =~= failed_outcome(before, context, operation@));
        } else if text_eq(operation, "rename") {
            res.previous_path = match &self.pending_rebind_path {
                None => None,
                Some(path) => Some(path.clone()),
            };
            assert(res@ =~= failed_outcome(before, context, operation@));
        } else {
            assert(res@ =~= failed_outcome(before, context, operation@));
        }
        self.fail_with(document_failure_message(operation, message));
        self.give_up(operation);
        res
    }

    fn receive_disconnect(&mut self, visible: bool) -> (res: EventOutcome)
        ensures
            final(self)@ == old(self)@.orphaned(visible),
            res@ == (OutcomeView {
                cancel_viewport: visible,
                drop_restored_tab: old(self)@.restoring_from_session,
                save_failed: !old(self)@.restoring_from_session,
                stop: true,
                ..OutcomeView::nothing()
            }),
            res.takes_nothing_back(),
    {
        proof {
            reveal(DocumentView::orphaned);
        }
        let ghost before = self@;
        let mut res = EventOutcome::nothing();
        res.cancel_viewport = visible;
        res.stop = true;
        res.drop_restored_tab = self.restoring_from_session;
        res.save_failed = !self.restoring_from_session;
        assert(res@ =~= (OutcomeView {
            cancel_viewport: visible,
            drop_restored_tab: before.restoring_from_session,
            save_failed: !before.restoring_from_session,
            stop: true,
            ..OutcomeView::nothing()
        }));
        self.come_to_rest(visible);
        if !self.restoring_from_session {
            self.mark_worker_disconnected();
        }
        res
    }
}

fn close_editor_of_saved(editor: &mut Option<AnnotationEditor>, document_id: u64, dirty: bool)
    ensures
        editor_view(*final(editor)) == (if !dirty && editor_view(*old(editor)) is Some
            && editor_view(*old(editor))->0.document_id == document_id {
            None
        } else {
            editor_view(*old(editor))
        }),
{
    let closes = match &*editor {
        None => false,
        Some(editor) => !dirty && editor.document_id == document_id,
    };
    if closes {
        *editor = None;
    }
}

fn close_editor_of_edit(editor: &mut Option<AnnotationEditor>, document_id: u64, action: &EditAction)
    ensures
        editor_view(*final(editor)) == (if editor_view(*old(editor)) is Some && editor_view(
            *old(editor),
        )->0.document_id == document_id && action.target() == Some(
            editor_view(*old(editor))->0.annotation_id,
        ) {
            None
        } else {
            editor_view(*old(editor))
        }),
{
    let closes = match (&*editor, action.changed_annotation()) {
        (Some(editor), Some(annotation_id)) => editor.document_id == document_id
            && editor.annotation_id == annotation_id,
        _ => false,
    };
    if closes {
        *editor = None;
    }
}

/// The document before and after a report.
pub open spec fn document_received(
    before: DocumentView,
    after: DocumentView,
    context: EventContext,
    event: DocumentEvent,
) -> bool {
    match event {
        DocumentEvent::SearchPageReady(result) => search_received(before, after, result),
        _ => after == after_event(before, context, event),
    }
}

/// What is said to be done after a report is what has to be done.
pub open spec fn outcome_received(
    before: DocumentView,
    outcome: EventOutcome,
    context: EventContext,
    event: DocumentEvent,
) -> bool {
    &&& outcome@ == outcome_of(before, context, event)
    &&& match event {
        DocumentEvent::DocumentChanged { .. } => lists_pending(
            outcome.cancelled_tiles@,
            before.tiles.pending,
        ) && lists(outcome.cancelled_texts@, before.texts.pending) && lists(
            outcome.dropped_thumbnails@,
            before.thumbnails.cached,
        ),
        _ => outcome.takes_nothing_back(),
    }
}

/// The editor before and after a report.
pub open spec fn editor_received(
    document: DocumentView,
    before: Option<EditorView>,
    after: Option<EditorView>,
    event: DocumentEvent,
) -> bool {
    after == editor_after_event(document, before, event)
}

/// Takes one report of a document's worker: changes the document and the editor, and says
/// what has to be done outside them.
#[verifier::rlimit(60)]
pub fn receive_document_event(
    document: &mut DocumentTab,
    editor: &mut Option<AnnotationEditor>,
    context: EventContext,
    event: DocumentEvent,
) -> (res: EventOutcome)
    requires
        old(document)@.wf(),
    ensures
        document_received(old(document)@, final(document)@, context, event),
        editor_received(
            old(document)@,
            editor_view(*old(editor)),
            editor_view(*final(editor)),
            event,
        ),
        outcome_received(old(document)@, res, context, event),
{
    match event {
        DocumentEvent::Opened { info, shown_path } => document.receive_opened(
            info,
            context.active,
            shown_path.as_str(),
        ),
        DocumentEvent::DocumentChanged { info, external_reload } => {
            close_editor_of_saved(editor, document.document_id, info.dirty);
            document.receive_changed(info, external_reload, context)
        },
        DocumentEvent::PathRebound { info, shown_path } => {
            document.receive_rebound(info);
            EventOutcome::saying(
                with_text("PDF の名前変更を追跡しました: ", shown_path.as_str()),
            )
        },
        DocumentEvent::SavedAs(path) => document.receive_saved_as(path),
        DocumentEvent::TileRendered(tile) => document.receive_tile(tile, context.visible),
        DocumentEvent::SelectionReady(selection) => document.receive_selection(selection),
        DocumentEvent::EditActionCreated(action) => {
            close_editor_of_edit(editor, document.document_id, &action);
            document.receive_edit(action)
        },
        DocumentEvent::EditActionUndone(action) => document.receive_undone(action),
        DocumentEvent::TextSnapshotReady(key) => {
            document.receive_text(key, context.visible);
            EventOutcome::nothing()
        },
        DocumentEvent::TextSnapshotSkipped(request) => {
            document.skip_text(request);
            EventOutcome::nothing()
        },
        DocumentEvent::TextSnapshotFailed { request, message } => {
            document.receive_text_failure(
                TextSnapshotKey::from_request(&request),
                context.visible,
                message.as_str(),
            );
            EventOutcome::nothing()
        },
        DocumentEvent::AnnotationsReady(request) => {
            document.receive_annotations(request, context.visible);
            EventOutcome::nothing()
        },
        DocumentEvent::AnnotationsSkipped(request) => {
            document.skip_annotations(request);
            EventOutcome::nothing()
        },
        DocumentEvent::AnnotationsFailed { request, message } => {
            document.receive_annotation_failure(request, context.visible, message.as_str());
            EventOutcome::nothing()
        },
        DocumentEvent::HighlightIndexReady(batch) => document.receive_highlights(&batch),
        DocumentEvent::HighlightIndexSkipped(request) => {
            document.skip_highlights(request);
            EventOutcome::nothing()
        },
        DocumentEvent::HighlightIndexFailed { request, message } => {
            document.receive_highlight_failure(request, message.as_str());
            EventOutcome::nothing()
        },
        DocumentEvent::OutlineReady => {
            document.receive_outline();
            EventOutcome::nothing()
        },
        DocumentEvent::SearchPageReady(result) => {
            document.receive_search(result);
            EventOutcome::nothing()
        },
        DocumentEvent::ThumbnailReady(thumbnail) => document.receive_thumbnail(
            thumbnail,
            context.active,
        ),
        DocumentEvent::ThumbnailSkipped(request) => {
            document.skip_thumbnail(request);
            EventOutcome::nothing()
        },
        DocumentEvent::ThumbnailFailed { request, message } => {
            document.receive_thumbnail_failure(request, message.as_str());
            EventOutcome::nothing()
        },
        DocumentEvent::PrintCompleted => {
            document.end_print();
            EventOutcome::saying("印刷データをプリンターへ送信しました".to_owned())
        },
        DocumentEvent::PrintCancelled => {
            document.end_print();
            EventOutcome::saying("印刷をキャンセルしました".to_owned())
        },
        DocumentEvent::Status(status) => {
            document.forget_error();
            EventOutcome::saying(status)
        },
        DocumentEvent::Failed { operation, message } => {
            let ends_restore = text_eq(operation.as_str(), "open")
                && document.restoring_from_session;
            if !ends_restore && (text_eq(operation.as_str(), "annotation-update") || text_eq(
                operation.as_str(),
                "annotation-delete",
            )) {
                note_editor_failure(
                    editor,
                    document.document_id,
                    "注釈を変更できませんでした。PDFの編集制限を確認してください。",
                );
            }
            document.receive_failure(operation.as_str(), message.as_str(), context)
        },
        DocumentEvent::Disconnected => {
            if !document.restoring_from_session {
                note_editor_failure(
                    editor,
                    document.document_id,
                    "文書処理が停止したため、注釈の変更を完了できませんでした。",
                );
            }
            document.receive_disconnect(context.visible)
        },
    }
}

/// Whether a failure of `operation` is the failure of an edit that changed nothing.
pub open spec fn fails_edit(operation: Seq<char>) -> bool {
    operation == "highlight"@ || operation == "annotation-update"@ || operation
        == "annotation-delete"@
}

/// Whether a document can get a report: an edit of a document that was never opened, and has
/// nothing else to save, cannot fail.
pub open spec fn is_expected(document: DocumentView, event: DocumentEvent) -> bool {
    match event {
        DocumentEvent::Failed { operation, .. } => {
            fails_edit(operation@) ==> document.edit_failed().open_if_clean()
        },
        _ => true,
    }
}

impl DocumentTab {
    /// Whether the document can get a report.
    pub fn expects(&self, event: &DocumentEvent) -> (res: bool)
        ensures
            res == is_expected(self@, *event),
    {
        match event {
            DocumentEvent::Failed { operation, .. } => {
                let operation = operation.as_str();
                let edit = text_eq(operation, "highlight") || text_eq(
                    operation,
                    "annotation-update",
                ) || text_eq(operation, "annotation-delete");
                let edits_left = self.state == DocumentState::ReadyDirty || self.state
                    == DocumentState::Saving || self.pending_edits > 1;
                let turns_clean = !edits_left && !self.save_in_flight;
                !edit || self.info.is_some() || !turns_clean && self.state
                    != DocumentState::ReadyClean
            },
            _ => true,
        }
    }
}

/// `after` is as sound as `before`.
pub open spec fn stays_sound(before: DocumentView, after: DocumentView) -> bool {
    &&& before.wf() ==> after.wf()
    &&& before.open_if_clean() ==> after.open_if_clean()
    &&& after.state is Suspended ==> before.state is Suspended
    &&& before.info is Some ==> after.info is Some
    &&& after.document_id == before.document_id
    &&& after.restoring_from_session == before.restoring_from_session
}

proof fn described_stays_sound(document: DocumentView, info: DocumentInfo)
    ensures
        stays_sound(document, document.described(info)),
{
    reveal(DocumentView::described);
}

proof fn reread_stays_sound(document: DocumentView, page_count: usize)
    ensures
        stays_sound(document, document.reread(page_count)),
{
    reveal(DocumentView::reread);
}

proof fn changed_stays_sound(document: DocumentView, info: DocumentInfo, external_reload: bool)
    ensures
        stays_sound(document, document.changed(info, external_reload)),
{
    reveal(DocumentView::changed);
    reread_stays_sound(document, info.page_count);
    described_stays_sound(document, info);
    described_stays_sound(document.reread(info.page_count), info);
}

proof fn given_up_stays_sound(document: DocumentView, operation: Seq<char>)
    requires
        fails_edit(operation) ==> document.edit_failed().open_if_clean(),
    ensures
        stays_sound(document, document.given_up(operation)),
{
    reveal(DocumentView::given_up);
}

proof fn failed_stays_sound(
    document: DocumentView,
    visible: bool,
    operation: Seq<char>,
    message: Seq<char>,
)
    requires
        fails_edit(operation) ==> document.edit_failed().open_if_clean(),
    ensures
        stays_sound(document, document.failed(visible, operation, message)),
{
    reveal(DocumentView::failed);
    given_up_stays_sound(
        DocumentView {
            error: Some(failure_message(operation, message)),
            ..document.still(visible)
        },
        operation,
    );
}

proof fn edit_reports_stay_sound(document: DocumentView, path: PathView, selection: SelectionView, action: EditAction, info: DocumentInfo)
    ensures
        stays_sound(document, document.rebound(info)),
        stays_sound(document, document.copy_saved(path)),
        stays_sound(document, document.selected(selection)),
        stays_sound(document, document.edited(action)),
        stays_sound(document, document.undone(action)),
{
    reveal(DocumentView::rebound);
    reveal(DocumentView::copy_saved);
    reveal(DocumentView::selected);
    reveal(DocumentView::edited);
    reveal(DocumentView::undone);
}

proof fn text_reports_stay_sound(
    document: DocumentView,
    visible: bool,
    key: TextSnapshotKey,
    request: TextSnapshotRequest,
    message: Seq<char>,
)
    ensures
        stays_sound(document, document.text_read(visible, key)),
        stays_sound(document, document.text_skipped(request)),
        stays_sound(document, document.text_failed(visible, key, message)),
{
    reveal(DocumentView::text_read);
    reveal(DocumentView::text_skipped);
    reveal(DocumentView::text_failed);
}

proof fn annotation_reports_stay_sound(
    document: DocumentView,
    visible: bool,
    request: AnnotationPageRequest,
    message: Seq<char>,
)
    ensures
        stays_sound(document, document.annotations_read(visible, request)),
        stays_sound(document, document.annotations_skipped(request)),
        stays_sound(document, document.annotations_failed(visible, request, message)),
{
    reveal(DocumentView::annotations_read);
    reveal(DocumentView::annotations_skipped);
    reveal(DocumentView::annotations_failed);
}

proof fn highlight_reports_stay_sound(
    document: DocumentView,
    batch: HighlightIndexBatch,
    request: HighlightIndexRequest,
    message: Seq<char>,
)
    ensures
        stays_sound(document, document.highlights_came(batch)),
        stays_sound(document, document.highlights_skipped(request)),
        stays_sound(document, document.highlights_failed(request, message)),
{
    reveal(DocumentView::highlights_came);
    reveal(DocumentView::highlights_skipped);
    reveal(DocumentView::highlights_failed);
}

proof fn image_reports_stay_sound(
    document: DocumentView,
    visible: bool,
    tile: RenderedTile,
    key: ThumbnailCacheKey,
    request: ThumbnailRequest,
    message: Seq<char>,
)
    ensures
        stays_sound(document, document.tile_rendered(visible, tile)),
        stays_sound(document, document.thumbnail_rendered(key)),
        stays_sound(document, document.thumbnail_skipped(request)),
        stays_sound(document, document.thumbnail_failed(request, message)),
{
    reveal(DocumentView::tile_rendered);
    reveal(DocumentView::thumbnail_rendered);
    reveal(DocumentView::thumbnail_skipped);
    reveal(DocumentView::thumbnail_failed);
}

proof fn plain_reports_stay_sound(document: DocumentView, visible: bool)
    ensures
        stays_sound(document, document.outlined()),
        stays_sound(document, document.printed()),
        stays_sound(document, document.untroubled()),
        stays_sound(document, document.orphaned(visible)),
{
    reveal(DocumentView::outlined);
    reveal(DocumentView::printed);
    reveal(DocumentView::untroubled);
    reveal(DocumentView::orphaned);
}

/// A report leaves the document sound: its search in order, its file known where its worker
/// was let go or it has no edits, and its restoring over exactly where it was opened.
pub proof fn reports_keep_documents_sound(
    before: DocumentView,
    after: DocumentView,
    context: EventContext,
    event: DocumentEvent,
)
    requires
        before.wf(),
        before.state is Suspended ==> before.info is Some,
        before.open_if_clean(),
        is_expected(before, event),
        document_received(before, after, context, event),
    ensures
        after.wf(),
        after.state is Suspended ==> after.info is Some,
        after.open_if_clean(),
        after.document_id == before.document_id,
        after.restoring_from_session == (before.restoring_from_session && !(event is Opened)),
{
    match event {
        DocumentEvent::Opened { .. } => {
            reveal(DocumentView::opened);
        },
        DocumentEvent::DocumentChanged { info, external_reload } => {
            changed_stays_sound(before.still(context.visible), info, external_reload);
        },
        DocumentEvent::Failed { operation, message } => {
            failed_stays_sound(before, context.visible, operation@, message@);
        },
        DocumentEvent::SearchPageReady(_) => {
            reveal(search_received);
        },
        DocumentEvent::PathRebound { info, .. } => {
            edit_reports_stay_sound(before, arbitrary(), arbitrary(), arbitrary(), info);
        },
        DocumentEvent::SavedAs(path) => {
            edit_reports_stay_sound(before, path@, arbitrary(), arbitrary(), arbitrary());
        },
        DocumentEvent::SelectionReady(selection) => {
            edit_reports_stay_sound(before, arbitrary(), selection@, arbitrary(), arbitrary());
        },
        DocumentEvent::EditActionCreated(action) => {
            edit_reports_stay_sound(before, arbitrary(), arbitrary(), action, arbitrary());
        },
        DocumentEvent::EditActionUndone(action) => {
            edit_reports_stay_sound(before, arbitrary(), arbitrary(), action, arbitrary());
        },
        DocumentEvent::TextSnapshotReady(key) => {
            text_reports_stay_sound(before, context.visible, key, arbitrary(), arbitrary());
        },
        DocumentEvent::TextSnapshotSkipped(request) => {
            text_reports_stay_sound(before, context.visible, arbitrary(), request, arbitrary());
        },
        DocumentEvent::TextSnapshotFailed { request, message } => {
            text_reports_stay_sound(
                before,
                context.visible,
                text_key(request),
                request,
                message@,
            );
        },
        DocumentEvent::AnnotationsReady(request) => {
            annotation_reports_stay_sound(before, context.visible, request, arbitrary());
        },
        DocumentEvent::AnnotationsSkipped(request) => {
            annotation_reports_stay_sound(before, context.visible, request, arbitrary());
        },
        DocumentEvent::AnnotationsFailed { request, message } => {
            annotation_reports_stay_sound(before, context.visible, request, message@);
        },
        DocumentEvent::HighlightIndexReady(batch) => {
            highlight_reports_stay_sound(before, batch, arbitrary(), arbitrary());
        },
        DocumentEvent::HighlightIndexSkipped(request) => {
            highlight_reports_stay_sound(before, arbitrary(), request, arbitrary());
        },
        DocumentEvent::HighlightIndexFailed { request, message } => {
            highlight_reports_stay_sound(before, arbitrary(), request, message@);
        },
        DocumentEvent::TileRendered(tile) => {
            image_reports_stay_sound(
                before,
                context.visible,
                tile,
                arbitrary(),
                arbitrary(),
                arbitrary(),
            );
        },
        DocumentEvent::ThumbnailReady(thumbnail) => {
            image_reports_stay_sound(
                before,
                context.visible,
                arbitrary(),
                thumbnail_key(before.document_id, thumbnail),
                arbitrary(),
                arbitrary(),
            );
        },
        DocumentEvent::ThumbnailSkipped(request) => {
            image_reports_stay_sound(
                before,
                context.visible,
                arbitrary(),
                arbitrary(),
                request,
                arbitrary(),
            );
        },
        DocumentEvent::ThumbnailFailed { request, message } => {
            image_reports_stay_sound(
                before,
                context.visible,
                arbitrary(),
                arbitrary(),
                request,
                message@,
            );
        },
        _ => {
            plain_reports_stay_sound(before, context.visible);
        },
    }
}

/// Undoing the last edit takes it off the history again, and leaves the earlier ones.
pub proof fn undoing_takes_back_the_last_edit(document: DocumentView, action: EditAction)
    ensures
        document.edited(action).undone(action).edit_history == document.edit_history,
        document.edited(action).undone(action).error == document.error,
{
    reveal(DocumentView::edited);
    reveal(DocumentView::undone);
    assert(document.edit_history.push(action).drop_last() =~= document.edit_history);
}

/// An undo that answers another edit than the last one changes no history.
pub proof fn undo_out_of_order_keeps_the_history(document: DocumentView, action: EditAction)
    requires
        !document.made_last(action),
    ensures
        document.undone(action).edit_history == document.edit_history,
        document.undone(action).error == Some(undo_order_message()),
{
    reveal(DocumentView::undone);
}

/// Nothing is waited for after a worker ended, and the tab can be closed.
pub proof fn nothing_is_awaited_from_a_lost_worker(document: DocumentView, visible: bool)
    requires
        !document.restoring_from_session,
    ensures
        ({
            let after = document.orphaned(visible);
            &&& after.state is Error
            &&& !after.connected
            &&& after.pending_edits == 0
            &&& !after.save_in_flight
            &&& !after.print_in_flight
            &&& !after.undo_in_flight
            &&& after.highlight_index.in_flight is None || !document.highlight_index.started
        }),
{
    reveal(DocumentView::orphaned);
}

/// A saved document has no edits to lose but those that the worker has not answered, and
/// none to undo.
pub proof fn a_saved_document_is_clean(
    document: DocumentView,
    info: DocumentInfo,
    external_reload: bool,
)
    requires
        !info.dirty,
    ensures
        ({
            let after = document.changed(info, external_reload);
            &&& after.state is ReadyClean
            &&& !after.save_in_flight
            &&& after.edit_history.len() == 0
            &&& after.unsaved() == (document.pending_edits > 0)
        }),
{
    reveal(DocumentView::changed);
    reveal(DocumentView::described);
    reveal(DocumentView::reread);
}

/// A description of edits does not end a save that is under way.
pub proof fn edits_do_not_end_a_save(document: DocumentView, info: DocumentInfo)
    requires
        info.dirty,
        document.state is Saving,
        document.save_in_flight,
    ensures
        document.changed(info, false).state is Saving,
        document.changed(info, false).save_in_flight,
{
    reveal(DocumentView::changed);
    reveal(DocumentView::described);
}

/// After another description, nothing that was rendered or read before counts any more.
pub proof fn another_description_outdates_everything(
    document: DocumentView,
    info: DocumentInfo,
    external_reload: bool,
    tile: RenderedTile,
)
    requires
        tile.generation == document.view.generation,
    ensures
        ({
            let after = document.changed(info, external_reload);
            &&& after.view.generation != document.view.generation
            &&& after.tile_to_keep(true, tile) is None
            &&& after.texts == PageBookView::<TextSnapshotKey>::blank()
            &&& after.annotations == PageBookView::<AnnotationPageRequest>::blank()
            &&& after.thumbnail_generation != document.thumbnail_generation
        }),
{
    reveal(DocumentView::changed);
    reveal(DocumentView::described);
    reveal(DocumentView::reread);
    reveal(DocumentView::tile_to_keep);
}

/// A tile is kept only while its page is on the screen and its state is the current one.
pub proof fn only_current_tiles_are_kept(document: DocumentView, visible: bool, tile: RenderedTile)
    ensures
        document.tile_to_keep(visible, tile) is Some ==> visible && tile.generation
            == document.view.generation && document.revision() == Some(tile.revision),
{
    reveal(DocumentView::tile_to_keep);
}

} // verus!

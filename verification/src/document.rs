//! One open document: what is known of it, what is waited for, and what may be done with it.
use crate::controls::{page_for_input, page_index_from_input};
use crate::highlight_index::{message_view, HighlightIndexState, HighlightIndexView};
use crate::page_books::{PageBook, PageBookView};
use crate::path::{DocumentPath, PathView};
use crate::rendering::{
    AnnotationPageRequest, TextSnapshotKey, ThumbnailCacheKey, TileCacheKey, TileRequest,
};
use crate::search::{SearchState, SearchView};
use crate::session::{DisplayMode, SessionView, ZoomMode};
use crate::text::{decimal, decimal_text, text_eq, with_text};
use crate::tiles::{is_dropped, TileBook, TileBookView};
use crate::view::{PageAnchor, PointBits, ViewState};
use vstd::prelude::*;

verus! {

/// Where a document stands.
#[derive(Clone, Copy, Debug, PartialEq, Eq, Structural)]
pub enum DocumentState {
    Opening,
    ReadyClean,
    ReadyDirty,
    Saving,
    Suspended,
    Error,
}

/// Whether highlights can be made, and why not.
#[derive(Clone, Copy, Debug, PartialEq, Eq, Structural)]
pub enum HighlightCapability {
    Allowed,
    ReadOnlyFile,
    AnnotationPermissionDenied,
    SignedDocument,
}

impl HighlightCapability {
    /// Why highlights cannot be made.
    pub open spec fn reason(self) -> Option<Seq<char>> {
        match self {
            HighlightCapability::Allowed => None,
            HighlightCapability::ReadOnlyFile => Some("the PDF file is read-only"@),
            HighlightCapability::AnnotationPermissionDenied => Some(
                "the PDF security permissions do not allow annotations"@,
            ),
            HighlightCapability::SignedDocument => Some(
                "the PDF contains a signed signature field"@,
            ),
        }
    }

    /// Whether a change can be made that the file can keep.
    pub fn is_allowed(self) -> (res: bool)
        ensures
            res == (self is Allowed),
            res == (self.reason() is None),
    {
        match self {
            HighlightCapability::Allowed => true,
            _ => false,
        }
    }

    /// Says why highlights cannot be made.
    pub fn restriction(self) -> (res: Option<&'static str>)
        ensures
            match res {
                None => self.reason() is None,
                Some(text) => self.reason() == Some(text@),
            },
    {
        match self {
            HighlightCapability::Allowed => None,
            HighlightCapability::ReadOnlyFile => Some("the PDF file is read-only"),
            HighlightCapability::AnnotationPermissionDenied => Some(
                "the PDF security permissions do not allow annotations",
            ),
            HighlightCapability::SignedDocument => Some(
                "the PDF contains a signed signature field",
            ),
        }
    }
}

/// Tells one state of a file from another.
#[derive(Clone, Copy, Debug, PartialEq, Eq, Structural)]
pub struct DocumentVersion {
    pub identity_primary: u64,
    pub identity_secondary: u64,
    pub length: u64,
    pub modified_seconds: i64,
    pub modified_nanos: u32,
}

/// What the worker says of an open document.
#[derive(Clone, Copy, Debug, PartialEq, Eq, Structural)]
pub struct DocumentInfo {
    pub page_count: usize,
    pub highlight_capability: HighlightCapability,
    pub dirty: bool,
    pub revision: u64,
    pub version: DocumentVersion,
}

/// Names an annotation within a document.
#[derive(Clone, Copy, Debug, PartialEq, Eq, Structural)]
pub struct AnnotationId {
    pub page_index: usize,
    pub xref: i32,
}

/// One edit that can be undone.
#[derive(Clone, Copy, Debug, PartialEq, Eq, Structural)]
pub enum EditAction {
    CreateHighlight { page_index: usize, annotation_xref: i32 },
    UpdateAnnotation { annotation_id: AnnotationId, revision_after: u64 },
    DeleteAnnotation { annotation_id: AnnotationId, revision_after: u64 },
}

impl EditAction {
    /// The page that the edit changed.
    pub open spec fn page(self) -> usize {
        match self {
            EditAction::CreateHighlight { page_index, .. } => page_index,
            EditAction::UpdateAnnotation { annotation_id, .. } => annotation_id.page_index,
            EditAction::DeleteAnnotation { annotation_id, .. } => annotation_id.page_index,
        }
    }

    /// The annotation that the edit changed or removed; none if it made one.
    pub open spec fn target(self) -> Option<AnnotationId> {
        match self {
            EditAction::CreateHighlight { .. } => None,
            EditAction::UpdateAnnotation { annotation_id, .. } => Some(annotation_id),
            EditAction::DeleteAnnotation { annotation_id, .. } => Some(annotation_id),
        }
    }

    pub fn changed_page(&self) -> (res: usize)
        ensures
            res == self.page(),
    {
        match *self {
            EditAction::CreateHighlight { page_index, .. } => page_index,
            EditAction::UpdateAnnotation { annotation_id, .. } => annotation_id.page_index,
            EditAction::DeleteAnnotation { annotation_id, .. } => annotation_id.page_index,
        }
    }

    pub fn changed_annotation(&self) -> (res: Option<AnnotationId>)
        ensures
            res == self.target(),
    {
        match *self {
            EditAction::CreateHighlight { .. } => None,
            EditAction::UpdateAnnotation { annotation_id, .. } => Some(annotation_id),
            EditAction::DeleteAnnotation { annotation_id, .. } => Some(annotation_id),
        }
    }
}

/// The selected text.
#[derive(Debug)]
pub struct Selection {
    pub page_index: usize,
    pub generation: u64,
    pub text: String,
    /// How many quads a highlight of it would have.
    pub quad_count: usize,
}

/// What a `Selection` stands for in specifications.
#[verifier::ext_equal]
pub struct SelectionView {
    pub page_index: usize,
    pub generation: u64,
    pub text: Seq<char>,
    pub quad_count: usize,
}

impl View for Selection {
    type V = SelectionView;

    open spec fn view(&self) -> SelectionView {
        SelectionView {
            page_index: self.page_index,
            generation: self.generation,
            text: self.text@,
            quad_count: self.quad_count,
        }
    }
}

/// A state of the file that someone else wrote, and how often it was seen in a row.
#[derive(Clone, Copy, Debug, PartialEq, Eq, Structural)]
pub struct ExternalCandidate {
    pub version: DocumentVersion,
    pub seen: u8,
}

/// How far saving under another name has come.
#[derive(Debug)]
pub enum SaveAsState {
    Idle,
    WaitingEditorCommit(DocumentPath),
    Saving(DocumentPath),
}

/// What a `SaveAsState` stands for in specifications.
pub enum SaveAsView {
    Idle,
    WaitingEditorCommit(PathView),
    Saving(PathView),
}

impl View for SaveAsState {
    type V = SaveAsView;

    open spec fn view(&self) -> SaveAsView {
        match self {
            SaveAsState::Idle => SaveAsView::Idle,
            SaveAsState::WaitingEditorCommit(path) => SaveAsView::WaitingEditorCommit(path@),
            SaveAsState::Saving(path) => SaveAsView::Saving(path@),
        }
    }
}

/// One open document.
#[derive(Debug)]
pub struct DocumentTab {
    pub document_id: u64,
    /// There is a worker for the document.
    pub connected: bool,
    pub state: DocumentState,
    pub last_selected_sequence: u64,
    pub info: Option<DocumentInfo>,
    pub error: Option<String>,
    pub outline_loaded: bool,
    pub outline_requested: bool,
    pub tiles: TileBook,
    pub texts: PageBook<TextSnapshotKey>,
    pub annotations: PageBook<AnnotationPageRequest>,
    pub thumbnails: PageBook<ThumbnailCacheKey>,
    pub thumbnail_generation: u64,
    pub highlight_index: HighlightIndexState,
    /// The page of the last edit, until the document that it led to is known.
    pub pending_highlight_refresh_page: Option<usize>,
    pub selection: Option<Selection>,
    pub selection_generation: u64,
    /// Edits that the worker has not answered.
    pub pending_edits: usize,
    pub edit_history: Vec<EditAction>,
    pub undo_in_flight: bool,
    pub save_in_flight: bool,
    pub print_in_flight: bool,
    pub search: SearchState,
    pub page_input: String,
    pub page_input_error: Option<String>,
    pub view: ViewState,
    pub restoring_from_session: bool,
    pub external_candidate: Option<ExternalCandidate>,
    pub external_conflict_reported: bool,
    pub reload_in_flight: bool,
    pub failed_external_version: Option<DocumentVersion>,
    /// The path to go back to if a rename cannot be followed.
    pub pending_rebind_path: Option<DocumentPath>,
    pub save_as: SaveAsState,
}

/// What a `DocumentTab` stands for in specifications.
#[verifier::ext_equal]
pub struct DocumentView {
    pub document_id: u64,
    pub connected: bool,
    pub state: DocumentState,
    pub last_selected_sequence: u64,
    pub info: Option<DocumentInfo>,
    pub error: Option<Seq<char>>,
    pub outline_loaded: bool,
    pub outline_requested: bool,
    pub tiles: TileBookView,
    pub texts: PageBookView<TextSnapshotKey>,
    pub annotations: PageBookView<AnnotationPageRequest>,
    pub thumbnails: PageBookView<ThumbnailCacheKey>,
    pub thumbnail_generation: u64,
    pub highlight_index: HighlightIndexView,
    pub pending_highlight_refresh_page: Option<usize>,
    pub selection: Option<SelectionView>,
    pub selection_generation: u64,
    pub pending_edits: usize,
    pub edit_history: Seq<EditAction>,
    pub undo_in_flight: bool,
    pub save_in_flight: bool,
    pub print_in_flight: bool,
    pub search: SearchView,
    pub page_input: Seq<char>,
    pub page_input_error: Option<Seq<char>>,
    pub view: ViewState,
    pub restoring_from_session: bool,
    pub external_candidate: Option<ExternalCandidate>,
    pub external_conflict_reported: bool,
    pub reload_in_flight: bool,
    pub failed_external_version: Option<DocumentVersion>,
    pub pending_rebind_path: Option<PathView>,
    pub save_as: SaveAsView,
}

/// The view of a selection that may be missing.
pub open spec fn selection_view(selection: Option<Selection>) -> Option<SelectionView> {
    match selection {
        None => None,
        Some(selection) => Some(selection@),
    }
}

/// The view of a path that may be missing.
pub open spec fn path_view(path: Option<DocumentPath>) -> Option<PathView> {
    match path {
        None => None,
        Some(path) => Some(path@),
    }
}

impl View for DocumentTab {
    type V = DocumentView;

    open spec fn view(&self) -> DocumentView {
        DocumentView {
            document_id: self.document_id,
            connected: self.connected,
            state: self.state,
            last_selected_sequence: self.last_selected_sequence,
            info: self.info,
            error: message_view(self.error),
            outline_loaded: self.outline_loaded,
            outline_requested: self.outline_requested,
            tiles: self.tiles@,
            texts: self.texts@,
            annotations: self.annotations@,
            thumbnails: self.thumbnails@,
            thumbnail_generation: self.thumbnail_generation,
            highlight_index: self.highlight_index@,
            pending_highlight_refresh_page: self.pending_highlight_refresh_page,
            selection: selection_view(self.selection),
            selection_generation: self.selection_generation,
            pending_edits: self.pending_edits,
            edit_history: self.edit_history@,
            undo_in_flight: self.undo_in_flight,
            save_in_flight: self.save_in_flight,
            print_in_flight: self.print_in_flight,
            search: self.search@,
            page_input: self.page_input@,
            page_input_error: message_view(self.page_input_error),
            view: self.view,
            restoring_from_session: self.restoring_from_session,
            external_candidate: self.external_candidate,
            external_conflict_reported: self.external_conflict_reported,
            reload_in_flight: self.reload_in_flight,
            failed_external_version: self.failed_external_version,
            pending_rebind_path: path_view(self.pending_rebind_path),
            save_as: self.save_as@,
        }
    }
}

/// What a document says when its worker is gone.
pub open spec fn worker_gone_message() -> Seq<char> {
    "文書処理が予期せず終了しました。タブを閉じ、PDFを開き直してください。"@
}

impl DocumentView {
    /// The results of the search are in order.
    pub open spec fn wf(self) -> bool {
        self.search.wf()
    }

    /// A document that was just asked for.
    pub open spec fn fresh(
        document_id: u64,
        sequence: u64,
        restored_view: Option<SessionView>,
    ) -> DocumentView {
        DocumentView {
            document_id,
            connected: true,
            state: DocumentState::Opening,
            last_selected_sequence: sequence,
            info: None,
            error: None,
            outline_loaded: false,
            outline_requested: false,
            tiles: TileBookView::fresh(document_id),
            texts: PageBookView::blank(),
            annotations: PageBookView::blank(),
            thumbnails: PageBookView::blank(),
            thumbnail_generation: 1,
            highlight_index: HighlightIndexView::fresh(),
            pending_highlight_refresh_page: None,
            selection: None,
            selection_generation: 0,
            pending_edits: 0,
            edit_history: seq![],
            undo_in_flight: false,
            save_in_flight: false,
            print_in_flight: false,
            search: SearchView {
                query: seq![],
                generation: 0,
                pages: seq![],
                selected: None,
                completed_pages: 0,
                truncated: false,
                in_progress: false,
            },
            page_input: "1"@,
            page_input_error: None,
            view: match restored_view {
                None => ViewState::fresh(),
                Some(saved) => ViewState::restored(saved),
            },
            restoring_from_session: restored_view is Some,
            external_candidate: None,
            external_conflict_reported: false,
            reload_in_flight: false,
            failed_external_version: None,
            pending_rebind_path: None,
            save_as: SaveAsView::Idle,
        }
    }

    /// How many pages the document has; none while it is not open.
    pub open spec fn page_count(self) -> usize {
        match self.info {
            None => 0,
            Some(info) => info.page_count,
        }
    }

    /// A document without edits was opened.
    pub open spec fn open_if_clean(self) -> bool {
        self.state is ReadyClean ==> self.info is Some
    }

    /// The revision of the document, if it is open.
    pub open spec fn revision(self) -> Option<u64> {
        match self.info {
            None => None,
            Some(info) => Some(info.revision),
        }
    }

    /// Closing the tab would lose edits.
    pub open spec fn unsaved(self) -> bool {
        ||| self.state is ReadyDirty
        ||| self.state is Saving
        ||| self.pending_edits > 0
        ||| (self.info is Some && self.info->0.dirty)
    }

    /// The worker can be let go without losing anything.
    pub open spec fn suspendable(self) -> bool {
        self.state is ReadyClean && !self.unsaved() && !self.print_in_flight
    }

    /// Nothing that was rendered counts any more.
    pub open spec fn without_rendering(self) -> DocumentView {
        DocumentView {
            view: ViewState { generation: self.view.generation.wrapping_add(1), ..self.view },
            tiles: self.tiles.quiet(),
            ..self
        }
    }

    /// No text of a page is known.
    pub open spec fn without_texts(self) -> DocumentView {
        DocumentView { texts: PageBookView::blank(), ..self }
    }

    /// No annotation of a page is known.
    pub open spec fn without_annotations(self) -> DocumentView {
        DocumentView { annotations: PageBookView::blank(), ..self }
    }

    /// No thumbnail is known.
    pub open spec fn without_thumbnails(self) -> DocumentView {
        DocumentView {
            thumbnail_generation: self.thumbnail_generation.wrapping_add(1),
            thumbnails: PageBookView {
                cached: Set::empty(),
                pending: Set::empty(),
                failed: Set::empty(),
                ..self.thumbnails
            },
            ..self
        }
    }

    /// Nothing is selected, and no selection under way will be.
    pub open spec fn without_selection(self) -> DocumentView {
        DocumentView {
            selection: None,
            selection_generation: self.selection_generation.wrapping_add(1),
            ..self
        }
    }

    /// The document after its worker ended by itself: nothing is waited for.
    pub open spec fn disconnected(self) -> DocumentView {
        DocumentView {
            connected: false,
            highlight_index: self.highlight_index.cancelled(),
            pending_edits: 0,
            annotations: PageBookView { pending: Set::empty(), ..self.annotations },
            undo_in_flight: false,
            save_in_flight: false,
            print_in_flight: false,
            error: if self.state is Error {
                self.error
            } else {
                Some(worker_gone_message())
            },
            state: DocumentState::Error,
            ..self
        }
    }

    /// The document after its worker was let go.
    pub open spec fn suspended(self) -> DocumentView {
        let quiet =
            self.without_rendering().without_texts().without_annotations().without_thumbnails();
        DocumentView {
            connected: false,
            state: DocumentState::Suspended,
            highlight_index: self.highlight_index.cancelled(),
            tiles: TileBookView { cached: Set::empty(), prefetched: Set::empty(), ..quiet.tiles },
            search: self.search.abandoned(),
            ..quiet
        }
    }

    /// The document while a new worker opens it.
    pub open spec fn resumed(self) -> DocumentView {
        DocumentView {
            connected: true,
            state: DocumentState::Opening,
            ..self.without_rendering()
        }
    }

    /// The document with its view on another page.
    pub open spec fn showing(self, view: ViewState) -> DocumentView {
        DocumentView { view, page_input_error: None, ..self }
    }
}

/// Whether `keys` holds each of `set` once and nothing else.
pub open spec fn lists<K>(keys: Seq<K>, set: Set<K>) -> bool {
    keys.no_duplicates() && keys.to_set() == set
}

/// Whether `requests` are those waited for, each once.
pub open spec fn lists_pending(
    requests: Seq<TileRequest>,
    pending: Map<TileCacheKey, TileRequest>,
) -> bool {
    &&& requests.len() == pending.dom().len()
    &&& forall|i: int|
        0 <= i < requests.len() ==> is_dropped(pending, Set::empty(), #[trigger] requests[i])
    &&& forall|key: TileCacheKey| #[trigger]
        pending.dom().contains(key) ==> requests.contains(pending[key])
}

/// What has to be taken back from a worker that is let go.
#[derive(Debug)]
pub struct SuspendPlan {
    /// The generation to announce to the highlight index.
    pub highlight_generation: Option<u64>,
    pub tiles: Vec<TileRequest>,
    pub texts: Vec<TextSnapshotKey>,
    pub search_generation: u64,
}

impl SuspendPlan {
    /// What has to be taken back from the worker of `document`.
    pub open spec fn matches(self, document: DocumentView) -> bool {
        let after = document.suspended();
        &&& self.highlight_generation == (if document.highlight_index.started {
            Some(after.highlight_index.generation)
        } else {
            None
        })
        &&& lists_pending(self.tiles@, document.tiles.pending)
        &&& lists(self.texts@, document.texts.pending)
        &&& self.search_generation == after.search.generation
    }
}

/// Whether a save that was queued keeps a tab from closing.
pub fn document_save_blocks_close(save_in_flight: bool) -> (res: bool)
    ensures
        res == save_in_flight,
{
    save_in_flight
}

/// The state of a document once its worker described it anew.
pub open spec fn state_told(current: DocumentState, dirty: bool) -> DocumentState {
    if !dirty {
        DocumentState::ReadyClean
    } else if current is Saving {
        DocumentState::Saving
    } else {
        DocumentState::ReadyDirty
    }
}

/// The state of a document once its worker described it anew. A description of edits may
/// come before the end of a save that is already queued.
pub fn state_after_document_info(current: DocumentState, dirty: bool) -> (res: DocumentState)
    ensures
        res == state_told(current, dirty),
{
    if !dirty {
        return DocumentState::ReadyClean;
    }
    match current {
        DocumentState::Saving => DocumentState::Saving,
        _ => DocumentState::ReadyDirty,
    }
}

/// What to tell someone of an operation that failed.
pub open spec fn failure_guidance(operation: Seq<char>) -> Seq<char> {
    if operation == "open"@ {
        "PDFを開けませんでした。ファイルが破損していないか確認してください。"@
    } else if operation == "resume"@ || operation == "document-info"@ {
        "PDFを再開できませんでした。ファイルの変更を確認し、タブを開き直してください。"@
    } else if operation == "render"@ {
        "ページを表示できませんでした。PDFを開き直してください。"@
    } else if operation == "selection"@ {
        "テキストを選択できませんでした。選択し直してください。"@
    } else if operation == "highlight"@ || operation == "highlight-state"@ {
        "Highlightを作成できませんでした。PDFの編集制限を確認してください。"@
    } else if operation == "annotation-update"@ || operation == "annotation-update-state"@ {
        "注釈を更新できませんでした。PDFの編集制限と注釈ロックを確認してください。"@
    } else if operation == "annotation-delete"@ || operation == "annotation-delete-state"@ {
        "注釈を削除できませんでした。PDFの編集制限と注釈ロックを確認してください。"@
    } else if operation == "undo"@ || operation == "undo-state"@ {
        "編集を元に戻せませんでした。PDFを開き直して状態を確認してください。"@
    } else if operation == "outline"@ {
        "目次を読み込めませんでした。PDFを開き直してください。"@
    } else if operation == "search"@ {
        "PDF内を検索できませんでした。検索語を確認して再実行してください。"@
    } else if operation == "print"@ {
        "PDFを印刷できませんでした。プリンターの状態と設定を確認してください。"@
    } else if operation == "save"@ {
        "PDFを保存できませんでした。ファイルの書き込み権限と空き容量を確認してください。"@
    } else {
        "PDFの処理に失敗しました。タブを開き直してください。"@
    }
}

/// The message of an operation that failed.
pub open spec fn failure_message(operation: Seq<char>, detail: Seq<char>) -> Seq<char> {
    failure_guidance(operation) + " 詳細: "@ + detail
}

/// The message of an operation that failed: what can be done about it, then what the worker
/// said.
pub fn document_failure_message(operation: &str, detail: &str) -> (res: String)
    ensures
        res@ == failure_message(operation@, detail@),
{
    let guidance = if text_eq(operation, "open") {
        "PDFを開けませんでした。ファイルが破損していないか確認してください。"
    } else if text_eq(operation, "resume") || text_eq(operation, "document-info") {
        "PDFを再開できませんでした。ファイルの変更を確認し、タブを開き直してください。"
    } else if text_eq(operation, "render") {
        "ページを表示できませんでした。PDFを開き直してください。"
    } else if text_eq(operation, "selection") {
        "テキストを選択できませんでした。選択し直してください。"
    } else if text_eq(operation, "highlight") || text_eq(operation, "highlight-state") {
        "Highlightを作成できませんでした。PDFの編集制限を確認してください。"
    } else if text_eq(operation, "annotation-update") || text_eq(
        operation,
        "annotation-update-state",
    ) {
        "注釈を更新できませんでした。PDFの編集制限と注釈ロックを確認してください。"
    } else if text_eq(operation, "annotation-delete") || text_eq(
        operation,
        "annotation-delete-state",
    ) {
        "注釈を削除できませんでした。PDFの編集制限と注釈ロックを確認してください。"
    } else if text_eq(operation, "undo") || text_eq(operation, "undo-state") {
        "編集を元に戻せませんでした。PDFを開き直して状態を確認してください。"
    } else if text_eq(operation, "outline") {
        "目次を読み込めませんでした。PDFを開き直してください。"
    } else if text_eq(operation, "search") {
        "PDF内を検索できませんでした。検索語を確認して再実行してください。"
    } else if text_eq(operation, "print") {
        "PDFを印刷できませんでした。プリンターの状態と設定を確認してください。"
    } else if text_eq(operation, "save") {
        "PDFを保存できませんでした。ファイルの書き込み権限と空き容量を確認してください。"
    } else {
        "PDFの処理に失敗しました。タブを開き直してください。"
    };
    let mut message = with_text(guidance, " 詳細: ");
    message.append(detail);
    message
}

/// What a page number that does not fit is answered.
pub open spec fn page_range_message(page_count: usize) -> Seq<char> {
    "ページ番号は 1 から "@ + decimal(page_count as nat) + " の範囲で入力してください"@
}

fn page_range_text(page_count: usize) -> (res: String)
    ensures
        res@ == page_range_message(page_count),
{
    let count = decimal_text(page_count as u64);
    let mut message = with_text("ページ番号は 1 から ", count.as_str());
    message.append(" の範囲で入力してください");
    message
}

/// The document after a page number was entered.
pub open spec fn page_entered(document: DocumentView, input: Seq<char>) -> DocumentView {
    match page_for_input(input, document.page_count() as int) {
        Some(index) => DocumentView {
            view: document.view.at_page(index as usize),
            page_input: decimal((index + 1) as nat),
            page_input_error: None,
            ..document
        },
        None => DocumentView {
            page_input: decimal((document.view.current_page + 1) as nat),
            page_input_error: Some(page_range_message(document.page_count())),
            ..document
        },
    }
}

impl DocumentTab {
    /// A document that a worker was asked to open.
    pub fn new(document_id: u64, last_selected_sequence: u64, restored_view: Option<SessionView>) -> (res:
        Self)
        ensures
            res@ == DocumentView::fresh(document_id, last_selected_sequence, restored_view),
            res@.wf(),
    {
        let restoring_from_session = restored_view.is_some();
        let view = match restored_view {
            None => ViewState::new(),
            Some(saved) => ViewState::from_session(saved),
        };
        let res = DocumentTab {
            document_id,
            connected: true,
            state: DocumentState::Opening,
            last_selected_sequence,
            info: None,
            error: None,
            outline_loaded: false,
            outline_requested: false,
            tiles: TileBook::new(document_id),
            texts: PageBook::new(),
            annotations: PageBook::new(),
            thumbnails: PageBook::new(),
            thumbnail_generation: 1,
            highlight_index: HighlightIndexState::default(),
            pending_highlight_refresh_page: None,
            selection: None,
            selection_generation: 0,
            pending_edits: 0,
            edit_history: Vec::new(),
            undo_in_flight: false,
            save_in_flight: false,
            print_in_flight: false,
            search: SearchState::new(),
            page_input: "1".to_owned(),
            page_input_error: None,
            view,
            restoring_from_session,
            external_candidate: None,
            external_conflict_reported: false,
            reload_in_flight: false,
            failed_external_version: None,
            pending_rebind_path: None,
            save_as: SaveAsState::Idle,
        };
        assert(res@ =~= DocumentView::fresh(document_id, last_selected_sequence, restored_view));
        res
    }

    pub fn page_count(&self) -> (res: usize)
        ensures
            res == self@.page_count(),
    {
        match &self.info {
            None => 0,
            Some(info) => info.page_count,
        }
    }

    pub fn revision(&self) -> (res: Option<u64>)
        ensures
            res == self@.revision(),
    {
        match &self.info {
            None => None,
            Some(info) => Some(info.revision),
        }
    }

    pub fn is_saving(&self) -> (res: bool)
        ensures
            res == self@.save_in_flight,
    {
        document_save_blocks_close(self.save_in_flight)
    }

    pub fn is_printing(&self) -> (res: bool)
        ensures
            res == self@.print_in_flight,
    {
        self.print_in_flight
    }

    /// Whether closing the tab would lose edits.
    pub fn has_unsaved_changes(&self) -> (res: bool)
        ensures
            res == self@.unsaved(),
    {
        let dirty = match &self.info {
            None => false,
            Some(info) => info.dirty,
        };
        self.state == DocumentState::ReadyDirty || self.state == DocumentState::Saving
            || self.pending_edits > 0 || dirty
    }

    /// Whether the worker can be let go. A print under way needs it to the end.
    pub fn is_suspendable(&self) -> (res: bool)
        ensures
            res == self@.suspendable(),
    {
        self.state == DocumentState::ReadyClean && !self.has_unsaved_changes()
            && !self.is_printing()
    }

    /// Notes that the worker ended by itself: no answer will come.
    pub fn mark_worker_disconnected(&mut self)
        ensures
            final(self)@ == old(self)@.disconnected(),
    {
        let ghost before = self@;
        let _generation = self.highlight_index.cancel_highlight_index_work();
        self.pending_edits = 0;
        self.annotations.pending.clear();
        self.undo_in_flight = false;
        self.save_in_flight = false;
        self.print_in_flight = false;
        if self.state != DocumentState::Error {
            self.error = Some(
                "文書処理が予期せず終了しました。タブを閉じ、PDFを開き直してください。".to_owned(),
            );
            self.state = DocumentState::Error;
        }
        self.connected = false;
        assert(self@ =~= before.disconnected());
    }

    /// Makes everything rendered so far count no more. Returns the requests to cancel.
    pub fn invalidate_rendering(&mut self) -> (res: Vec<TileRequest>)
        ensures
            final(self)@ == old(self)@.without_rendering(),
            lists_pending(res@, old(self)@.tiles.pending),
    {
        let ghost before = self@;
        self.view.generation = self.view.generation.wrapping_add(1);
        let cancelled = self.tiles.cancel_rendering_requests();
        assert(self@ =~= before.without_rendering());
        cancelled
    }

    /// Forgets the texts of pages. Returns the requests to cancel.
    pub fn invalidate_text_snapshots(&mut self) -> (res: Vec<TextSnapshotKey>)
        ensures
            final(self)@ == old(self)@.without_texts(),
            lists(res@, old(self)@.texts.pending),
    {
        let ghost before = self@;
        let cancelled = self.texts.pending.keys();
        self.texts.clear();
        assert(self@ =~= before.without_texts());
        cancelled
    }

    /// Forgets the annotations of pages.
    pub fn invalidate_annotation_pages(&mut self)
        ensures
            final(self)@ == old(self)@.without_annotations(),
    {
        let ghost before = self@;
        self.annotations.clear();
        assert(self@ =~= before.without_annotations());
    }

    /// Forgets the thumbnails. Returns those that were kept.
    pub fn invalidate_thumbnails(&mut self) -> (res: Vec<ThumbnailCacheKey>)
        ensures
            final(self)@ == old(self)@.without_thumbnails(),
            lists(res@, old(self)@.thumbnails.cached),
    {
        let ghost before = self@;
        self.thumbnail_generation = self.thumbnail_generation.wrapping_add(1);
        self.thumbnails.pending.clear();
        self.thumbnails.failed.clear();
        let keys = self.thumbnails.cached.keys();
        self.thumbnails.cached.clear();
        assert(self@ =~= before.without_thumbnails());
        keys
    }

    /// Lets the worker go. Returns what to take back from it first.
    pub fn suspend(&mut self) -> (res: SuspendPlan)
        ensures
            final(self)@ == old(self)@.suspended(),
            res.matches(old(self)@),
    {
        let ghost before = self@;
        let highlight_generation = self.highlight_index.cancel_highlight_index_work();
        let tiles = self.invalidate_rendering();
        let texts = self.invalidate_text_snapshots();
        self.invalidate_annotation_pages();
        self.tiles.cached.clear();
        self.tiles.prefetched.clear();
        let _thumbnails = self.invalidate_thumbnails();
        self.search.abandon();
        self.connected = false;
        self.state = DocumentState::Suspended;
        assert(self@ =~= before.suspended());
        SuspendPlan { highlight_generation, tiles, texts, search_generation: self.search.generation }
    }

    /// Takes a new worker, which must find the file as it was. Returns the requests to
    /// cancel, and the generation of the highlight index to announce to the new worker.
    pub fn resume(&mut self) -> (res: (DocumentVersion, Vec<TileRequest>, Option<u64>))
        requires
            old(self)@.info is Some,
        ensures
            final(self)@ == old(self)@.resumed(),
            res.0 == old(self)@.info->0.version,
            lists_pending(res.1@, old(self)@.tiles.pending),
            res.2 == (if old(self)@.highlight_index.started {
                Some(old(self)@.highlight_index.generation)
            } else {
                None
            }),
    {
        let ghost before = self@;
        let version = match &self.info {
            Some(info) => info.version,
            None => {
                assert(false);
                DocumentVersion {
                    identity_primary: 0,
                    identity_secondary: 0,
                    length: 0,
                    modified_seconds: 0,
                    modified_nanos: 0,
                }
            },
        };
        self.connected = true;
        self.state = DocumentState::Opening;
        let cancelled = self.invalidate_rendering();
        let generation = self.highlight_index.reconnect_generation();
        assert(self@ =~= before.resumed());
        (version, cancelled, generation)
    }

    /// Sets the zoom. Where the scale changed, nothing that was rendered counts any more, and
    /// the requests to cancel are returned.
    pub fn set_zoom(&mut self, zoom_bits: u32, mode: ZoomMode) -> (res: Option<Vec<TileRequest>>)
        ensures
            match res {
                None => old(self)@.view.zoom_bits == zoom_bits && final(self)@ == (DocumentView {
                    view: ViewState { zoom_mode: mode, ..old(self)@.view },
                    ..old(self)@
                }),
                Some(cancelled) => old(self)@.view.zoom_bits != zoom_bits && lists_pending(
                    cancelled@,
                    old(self)@.tiles.pending,
                ) && final(self)@ == (DocumentView {
                    view: ViewState {
                        zoom_bits,
                        zoom_mode: mode,
                        ..old(self)@.view.holding_center()
                    },
                    ..old(self)@
                }).without_rendering(),
            },
    {
        let ghost before = self@;
        if !self.view.set_zoom(zoom_bits, mode) {
            assert(self@ =~= (DocumentView {
                view: ViewState { zoom_mode: mode, ..before.view },
                ..before
            }));
            return None;
        }
        let cancelled = self.invalidate_rendering();
        assert(self@ =~= (DocumentView {
            view: ViewState { zoom_bits, zoom_mode: mode, ..before.view.holding_center() },
            ..before
        }).without_rendering());
        Some(cancelled)
    }

    /// Changes the display mode. Where it changed, nothing that was rendered counts any more,
    /// and the requests to cancel are returned.
    pub fn set_display_mode(&mut self, mode: DisplayMode) -> (res: Option<Vec<TileRequest>>)
        ensures
            match res {
                None => old(self)@.view.display_mode == mode && final(self)@ == old(self)@,
                Some(cancelled) => old(self)@.view.display_mode != mode && lists_pending(
                    cancelled@,
                    old(self)@.tiles.pending,
                ) && final(self)@ == (DocumentView {
                    view: old(self)@.view.switched(mode),
                    ..old(self)@
                }).without_rendering(),
            },
    {
        let ghost before = self@;
        if !self.view.switch_display_mode(mode) {
            return None;
        }
        self.view.stop_autoscroll();
        let cancelled = self.invalidate_rendering();
        assert(self@ =~= (DocumentView { view: before.view.switched(mode), ..before }).without_rendering());
        Some(cancelled)
    }

    /// Prepares the document for another pane.
    pub fn prepare_for_pane_transition(&mut self)
        ensures
            final(self)@ == (DocumentView {
                view: ViewState { autoscroll: None, ..old(self)@.view.holding_center() },
                ..old(self)@
            }),
    {
        let ghost before = self@;
        self.view.prepare_for_pane_transition();
        assert(self@ =~= (DocumentView {
            view: ViewState { autoscroll: None, ..before.view.holding_center() },
            ..before
        }));
    }

    /// Turns to a page, if the document has it.
    pub fn jump_to_page(&mut self, page_index: usize)
        ensures
            final(self)@ == (if page_index < old(self)@.page_count() {
                old(self)@.showing(old(self)@.view.at_page(page_index))
            } else {
                old(self)@
            }),
    {
        let ghost before = self@;
        let page_count: usize = self.page_count();
        if self.view.jump_to_page(page_index, page_count) {
            self.page_input_error = None;
            assert(self@ =~= before.showing(before.view.at_page(page_index)));
        } else {
            assert(self@ =~= before);
        }
    }

    /// Turns to a point of a page, in single page mode.
    pub fn jump_to_single_page_edge(&mut self, page_index: usize, point: PointBits)
        ensures
            final(self)@ == (if page_index < old(self)@.page_count() {
                old(self)@.showing(old(self)@.view.at_page_edge(page_index, point))
            } else {
                old(self)@
            }),
    {
        let ghost before = self@;
        let page_count: usize = self.page_count();
        if self.view.jump_to_single_page_edge(page_index, page_count, point) {
            self.page_input_error = None;
            assert(self@ =~= before.showing(before.view.at_page_edge(page_index, point)));
        } else {
            assert(self@ =~= before);
        }
    }

    /// Brings a search hit to the middle.
    pub fn jump_to_search_match(&mut self, anchor: PageAnchor)
        ensures
            final(self)@ == (if anchor.page_index < old(self)@.page_count() {
                old(self)@.showing(old(self)@.view.at_match(anchor))
            } else {
                old(self)@
            }),
    {
        let ghost before = self@;
        let page_count: usize = self.page_count();
        if self.view.jump_to_search_match(anchor, page_count) {
            self.page_input_error = None;
            assert(self@ =~= before.showing(before.view.at_match(anchor)));
        } else {
            assert(self@ =~= before);
        }
    }

    /// Takes a page number that was entered.
    pub fn submit_page_number(&mut self, input: &str)
        requires
            old(self)@.view.current_page < usize::MAX,
        ensures
            final(self)@ == page_entered(old(self)@, input@),
    {
        let ghost before = self@;
        let page_count: usize = self.page_count();
        match page_index_from_input(input, page_count) {
            Some(page_index) => {
                self.jump_to_page(page_index);
                self.page_input = decimal_text((page_index + 1) as u64);
                self.page_input_error = None;
            },
            None => {
                self.page_input = decimal_text((self.view.current_page + 1) as u64);
                self.page_input_error = Some(page_range_text(page_count));
            },
        }
        assert(self@ =~= page_entered(before, input@));
    }

    /// Starts a new selection; returns the generation that its result has to carry.
    pub fn request_selection(&mut self) -> (res: u64)
        ensures
            res == old(self)@.selection_generation.wrapping_add(1),
            final(self)@ == (DocumentView { selection_generation: res, ..old(self)@ }),
    {
        let ghost before = self@;
        self.selection_generation = self.selection_generation.wrapping_add(1);
        assert(self@ =~= (DocumentView {
            selection_generation: before.selection_generation.wrapping_add(1),
            ..before
        }));
        self.selection_generation
    }

    /// Drops the selection; a result that is still under way does not bring it back.
    pub fn clear_selection(&mut self)
        ensures
            final(self)@ == old(self)@.without_selection(),
    {
        let ghost before = self@;
        self.selection_generation = self.selection_generation.wrapping_add(1);
        self.selection = None;
        assert(self@ =~= before.without_selection());
    }
}

} // verus!

//! What a user does to annotations: in the page, in the list of highlights, in the choice between
//! annotations at one point, and in the editor.
use crate::annotation::{
    delete_decision, editor_after_open, editor_view, open_annotation_editor_from_summary,
    request_annotation_delete_known, AnnotationEditor, DeleteDecision, EditorView,
};
use crate::document::{AnnotationId, DocumentTab, DocumentView};
use vstd::prelude::*;

verus! {

/// An annotation of a page that has been read.
#[derive(Clone, Copy, Debug, PartialEq, Eq, Structural)]
pub struct AnnotationEntry {
    pub id: AnnotationId,
    pub can_delete: bool,
}

/// Whether the entry at `i` is the first of an annotation.
pub open spec fn is_first_entry(
    entries: Seq<AnnotationEntry>,
    annotation_id: AnnotationId,
    i: int,
) -> bool {
    &&& 0 <= i < entries.len()
    &&& entries[i].id == annotation_id
    &&& forall|j: int| 0 <= j < i ==> entries[j].id != annotation_id
}

/// Whether a page lists an annotation.
pub open spec fn lists_annotation(
    entries: Seq<AnnotationEntry>,
    annotation_id: AnnotationId,
) -> bool {
    exists|i: int| 0 <= i < entries.len() && entries[i].id == annotation_id
}

/// Finds an annotation in a page.
pub fn find_annotation(entries: &Vec<AnnotationEntry>, annotation_id: AnnotationId) -> (res: Option<
    AnnotationEntry,
>)
    ensures
        res is Some <==> lists_annotation(entries@, annotation_id),
        res is Some ==> exists|i: int| #[trigger]
            is_first_entry(entries@, annotation_id, i) && entries@[i] == res->0,
{
    let mut i: usize = 0;
    while i < entries.len()
        invariant
            i <= entries.len(),
            forall|j: int| 0 <= j < i ==> entries@[j].id != annotation_id,
        decreases entries.len() - i,
    {
        let entry = entries[i];
        if entry.id == annotation_id {
            assert(is_first_entry(entries@, annotation_id, i as int));
            assert(entries@[i as int].id == annotation_id);
            return Some(entry);
        }
        i += 1;
    }
    None
}

/// What asking for an annotation of a page leads to.
#[derive(Clone, Copy, Debug, PartialEq, Eq, Structural)]
pub enum EditorOpening {
    /// The page does not list the annotation, or has not been read.
    Missing,
    /// The editor was opened anew: a choice between annotations is over.
    Opened,
    /// The editor was open and stays.
    Kept,
}

/// What is said of an annotation that cannot be found.
pub fn missing_annotation_error() -> (res: &'static str)
    ensures
        res@ == "注釈を開けませんでした。ページを再表示してから選択し直してください。"@,
{
    "注釈を開けませんでした。ページを再表示してから選択し直してください。"
}

/// Whether a page that may not have been read lists an annotation.
pub open spec fn page_lists(
    page: Option<Vec<AnnotationEntry>>,
    annotation_id: AnnotationId,
) -> bool {
    page is Some && lists_annotation((page->0)@, annotation_id)
}

/// Opens the editor on an annotation of a page, if the page lists it.
pub fn open_annotation_editor(
    editor: &mut Option<AnnotationEditor>,
    document_id: u64,
    revision: u64,
    page: &Option<Vec<AnnotationEntry>>,
    annotation_id: AnnotationId,
) -> (res: EditorOpening)
    ensures
        res is Missing <==> !page_lists(*page, annotation_id),
        editor_view(*final(editor)) == if page_lists(*page, annotation_id) {
            editor_after_open(editor_view(*old(editor)), document_id, revision, annotation_id)
        } else {
            editor_view(*old(editor))
        },
        res is Opened <==> page_lists(*page, annotation_id) && !stays_open(
            editor_view(*old(editor)),
            document_id,
            revision,
            annotation_id,
        ),
{
    match page {
        None => EditorOpening::Missing,
        Some(entries) => {
            match find_annotation(entries, annotation_id) {
                None => EditorOpening::Missing,
                Some(_) => if open_annotation_editor_from_summary(
                    editor,
                    document_id,
                    revision,
                    annotation_id,
                ) {
                    EditorOpening::Opened
                } else {
                    EditorOpening::Kept
                },
            }
        },
    }
}

/// The editor already works on the annotation, or holds a change of another.
pub open spec fn stays_open(
    editor: Option<EditorView>,
    document_id: u64,
    revision: u64,
    annotation_id: AnnotationId,
) -> bool {
    editor is Some && (editor->0.edits(document_id, revision, annotation_id)
        || editor->0.is_busy())
}

/// Whether the page says that the annotation can be deleted.
pub open spec fn page_lets_delete(
    page: Option<Vec<AnnotationEntry>>,
    annotation_id: AnnotationId,
) -> bool {
    page is Some && exists|i: int| #[trigger]
        is_first_entry((page->0)@, annotation_id, i) && (page->0)@[i].can_delete
}

/// Decides on the deletion of an annotation of a page. What the page does not list cannot be
/// deleted.
pub fn request_annotation_delete(
    editor: &mut Option<AnnotationEditor>,
    document_id: u64,
    revision: u64,
    page: &Option<Vec<AnnotationEntry>>,
    annotation_id: AnnotationId,
) -> (res: DeleteDecision)
    ensures
        res == delete_decision(
            editor_view(*old(editor)),
            document_id,
            revision,
            annotation_id,
            page_lets_delete(*page, annotation_id),
        ),
        editor_view(*final(editor)) == (if res is EditorBusy {
            Some(
                EditorView {
                    notice: Some(
                        "別の注釈を削除する前に、現在の変更を保存または破棄してください。"@,
                    ),
                    ..editor_view(*old(editor))->0
                },
            )
        } else {
            editor_view(*old(editor))
        }),
{
    let can_delete = match page {
        None => false,
        Some(entries) => match find_annotation(entries, annotation_id) {
            None => false,
            Some(entry) => entry.can_delete,
        },
    };
    proof {
        if let Some(entries) = page {
            assert forall|i: int, j: int|
                is_first_entry(entries@, annotation_id, i) && is_first_entry(
                    entries@,
                    annotation_id,
                    j,
                ) implies i == j by {
                if i < j {
                    assert(entries@[i].id != annotation_id);
                }
                if j < i {
                    assert(entries@[j].id != annotation_id);
                }
            }
        }
        assert(can_delete == page_lets_delete(*page, annotation_id));
    }
    request_annotation_delete_known(editor, document_id, revision, annotation_id, can_delete)
}

/// Whether something done in a page still counts: its document is the active one, and has not
/// changed since the page was drawn.
pub fn annotation_action_is_current(
    active_index: Option<usize>,
    index: usize,
    current_revision: Option<u64>,
    revision: u64,
) -> (res: bool)
    ensures
        res == (active_index == Some(index) && current_revision == Some(revision)),
{
    let active = match active_index {
        Some(active) => active == index,
        None => false,
    };
    let current = match current_revision {
        Some(current) => current == revision,
        None => false,
    };
    active && current
}

/// The choice between annotations at one point.
#[derive(Debug)]
pub struct AnnotationPicker {
    pub document_id: u64,
    pub revision: u64,
    pub candidates: Vec<AnnotationId>,
}

/// The choice is about that state of that document.
pub open spec fn offers_choice(
    picker: Option<AnnotationPicker>,
    document_id: u64,
    current_revision: Option<u64>,
) -> bool {
    picker is Some && (picker->0).document_id == document_id && current_revision == Some(
        (picker->0).revision,
    )
}

/// Whether the choice is shown over a document.
pub fn picker_is_shown(
    picker: &Option<AnnotationPicker>,
    document_id: u64,
    current_revision: Option<u64>,
) -> (res: bool)
    ensures
        res == offers_choice(*picker, document_id, current_revision),
{
    match picker {
        None => false,
        Some(picker) => picker.document_id == document_id && match current_revision {
            Some(current) => current == picker.revision,
            None => false,
        },
    }
}

/// Ends the choice when an annotation was chosen or the choice was closed. Hands out the annotation
/// to open, with the state of the document it belongs to.
pub fn answer_picker(
    picker: &mut Option<AnnotationPicker>,
    document_id: u64,
    current_revision: Option<u64>,
    chosen: Option<AnnotationId>,
    closed: bool,
) -> (res: Option<(u64, AnnotationId)>)
    ensures
        res == if offers_choice(*old(picker), document_id, current_revision) && chosen is Some {
            Some((((*old(picker))->0).revision, chosen->0))
        } else {
            None
        },
        *final(picker) == if offers_choice(*old(picker), document_id, current_revision) && (
        chosen is Some || closed) {
            None
        } else {
            *old(picker)
        },
{
    if !picker_is_shown(picker, document_id, current_revision) {
        return None;
    }
    let revision: u64 = match picker {
        Some(picker) => picker.revision,
        None => 0,
    };
    match chosen {
        Some(annotation_id) => {
            *picker = None;
            Some((revision, annotation_id))
        },
        None => {
            if closed {
                *picker = None;
            }
            None
        },
    }
}

/// What the editor looks like over a document.
#[derive(Clone, Copy, Debug, PartialEq, Eq, Structural)]
pub enum EditorShown {
    /// The editor works on another document, or is not open.
    Hidden,
    /// The annotation can be changed.
    Current,
    /// The document has changed under the editor: what was typed can only be given up.
    Stale,
}

/// How the editor stands to a document.
pub open spec fn editor_shown(
    editor: Option<EditorView>,
    document_id: u64,
    current_revision: Option<u64>,
) -> EditorShown {
    if editor is None || editor->0.document_id != document_id {
        EditorShown::Hidden
    } else if current_revision == Some(editor->0.revision) {
        EditorShown::Current
    } else {
        EditorShown::Stale
    }
}

/// Shows the editor over a document. One whose document has changed says so.
pub fn show_editor(
    editor: &mut Option<AnnotationEditor>,
    document_id: u64,
    current_revision: Option<u64>,
) -> (res: EditorShown)
    ensures
        res == editor_shown(editor_view(*old(editor)), document_id, current_revision),
        editor_view(*final(editor)) == if res is Stale {
            Some(
                EditorView {
                    notice: Some(
                        "PDFが変更されたため、この編集内容は保存できません。変更を破棄してください。"@,
                    ),
                    ..editor_view(*old(editor))->0
                },
            )
        } else {
            editor_view(*old(editor))
        },
{
    match editor {
        None => EditorShown::Hidden,
        Some(editor) => {
            if editor.document_id != document_id {
                return EditorShown::Hidden;
            }
            let current = match current_revision {
                Some(current) => current == editor.revision,
                None => false,
            };
            if current {
                EditorShown::Current
            } else {
                editor.notice = Some(
                    "PDFが変更されたため、この編集内容は保存できません。変更を破棄してください。".to_owned(),
                );
                EditorShown::Stale
            }
        },
    }
}

/// What a user does in the editor.
#[derive(Clone, Copy, Debug, PartialEq, Eq, Structural)]
pub enum AnnotationEditorAction {
    Close,
    Discard,
    Save,
    Delete,
}

/// What follows from something done in the editor.
#[derive(Clone, Copy, Debug, PartialEq, Eq, Structural)]
pub enum EditorStep {
    /// The editor is closed.
    Closed,
    /// The change has to go to the worker, where it can.
    Update,
    /// The annotation has to be deleted, as of that state of the document.
    Delete(u64, AnnotationId),
}

/// Closes the editor, or says what to do about the annotation in it.
pub fn editor_action(
    editor: &mut Option<AnnotationEditor>,
    action: AnnotationEditorAction,
) -> (res: EditorStep)
    requires
        *old(editor) is Some,
    ensures
        res == match action {
            AnnotationEditorAction::Close => EditorStep::Closed,
            AnnotationEditorAction::Discard => EditorStep::Closed,
            AnnotationEditorAction::Save => EditorStep::Update,
            AnnotationEditorAction::Delete => EditorStep::Delete(
                ((*old(editor))->0).revision,
                ((*old(editor))->0).annotation_id,
            ),
        },
        *final(editor) == if res is Closed {
            None
        } else {
            *old(editor)
        },
{
    match action {
        AnnotationEditorAction::Close | AnnotationEditorAction::Discard => {
            *editor = None;
            EditorStep::Closed
        },
        AnnotationEditorAction::Save => EditorStep::Update,
        AnnotationEditorAction::Delete => match editor {
            Some(editor) => EditorStep::Delete(editor.revision, editor.annotation_id),
            None => EditorStep::Closed,
        },
    }
}

/// What a user does in the list of highlights.
#[derive(Clone, Copy, Debug, PartialEq, Eq, Structural)]
pub enum HighlightSidebarAction {
    Jump(usize),
    Edit(AnnotationEntry),
    Delete(AnnotationEntry),
}

/// What follows from something done in the list of highlights.
#[derive(Clone, Copy, Debug, PartialEq, Eq, Structural)]
pub enum SidebarStep {
    /// The document shows the page.
    Shown,
    /// The editor was asked for; it was opened anew or not.
    Edited(bool),
    /// A deletion was decided on.
    Deleted(DeleteDecision),
}

/// The document once a page was asked for.
pub open spec fn jumped(document: DocumentView, page_index: usize) -> DocumentView {
    if page_index < document.page_count() {
        document.showing(document.view.at_page(page_index))
    } else {
        document
    }
}

impl DocumentTab {
    /// Does what was asked for in the list of highlights. The list belongs to one state of the
    /// document.
    pub fn handle_highlight_sidebar_action(
        &mut self,
        editor: &mut Option<AnnotationEditor>,
        revision: u64,
        action: HighlightSidebarAction,
    ) -> (res: SidebarStep)
        ensures
            final(self)@ == match action {
                HighlightSidebarAction::Jump(page_index) => jumped(old(self)@, page_index),
                HighlightSidebarAction::Edit(entry) => jumped(old(self)@, entry.id.page_index),
                HighlightSidebarAction::Delete(_) => old(self)@,
            },
            ({
                let before = editor_view(*old(editor));
                let after = editor_view(*final(editor));
                let id = old(self)@.document_id;
                match action {
                    HighlightSidebarAction::Jump(_) => res == SidebarStep::Shown && after == before,
                    HighlightSidebarAction::Edit(entry) => {
                        &&& res == SidebarStep::Edited(!stays_open(before, id, revision, entry.id))
                        &&& after == editor_after_open(before, id, revision, entry.id)
                    },
                    HighlightSidebarAction::Delete(entry) => {
                        let decision = delete_decision(
                            before,
                            id,
                            revision,
                            entry.id,
                            entry.can_delete,
                        );
                        &&& res == SidebarStep::Deleted(decision)
                        &&& after == if decision is EditorBusy {
                            Some(
                                EditorView {
                                    notice: Some(
                                        "別の注釈を削除する前に、現在の変更を保存または破棄してください。"@,
                                    ),
                                    ..before->0
                                },
                            )
                        } else {
                            before
                        }
                    },
                }
            }),
    {
        match action {
            HighlightSidebarAction::Jump(page_index) => {
                self.jump_to_page(page_index);
                SidebarStep::Shown
            },
            HighlightSidebarAction::Edit(entry) => {
                self.jump_to_page(entry.id.page_index);
                SidebarStep::Edited(
                    open_annotation_editor_from_summary(
                        editor,
                        self.document_id,
                        revision,
                        entry.id,
                    ),
                )
            },
            HighlightSidebarAction::Delete(entry) => SidebarStep::Deleted(
                request_annotation_delete_known(
                    editor,
                    self.document_id,
                    revision,
                    entry.id,
                    entry.can_delete,
                ),
            ),
        }
    }
}

/// Nothing is deleted over a change that is not saved, unless it is a change of the same
/// annotation.
pub proof fn deletions_spare_other_changes(
    editor: Option<EditorView>,
    document_id: u64,
    revision: u64,
    annotation_id: AnnotationId,
    can_delete: bool,
)
    requires
        editor is Some,
        editor->0.is_busy(),
        !editor->0.edits(document_id, revision, annotation_id),
    ensures
        delete_decision(editor, document_id, revision, annotation_id, can_delete)
            != DeleteDecision::Send,
{
}

} // verus!

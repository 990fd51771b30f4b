//! Annotations: which one a click means, and the editor that works on one of them.
use crate::document::{AnnotationId, DocumentState, DocumentTab, DocumentView};
use crate::highlight_index::message_view;
use vstd::prelude::*;

verus! {

/// What a click on annotations leads to.
#[derive(Clone, Copy, Debug, PartialEq, Eq, Structural)]
pub enum AnnotationCandidateDecision {
    Nothing,
    Open(AnnotationId),
    Choose,
}

/// What a click on `candidates` leads to: nothing, the only one, or a choice.
pub open spec fn decision(candidates: Seq<AnnotationId>) -> AnnotationCandidateDecision {
    if candidates.len() == 0 {
        AnnotationCandidateDecision::Nothing
    } else if candidates.len() == 1 {
        AnnotationCandidateDecision::Open(candidates[0])
    } else {
        AnnotationCandidateDecision::Choose
    }
}

/// Decides what a click leads to; it never picks one of several annotations by itself.
pub fn decide_annotation_candidates(candidates: &Vec<AnnotationId>) -> (res:
    AnnotationCandidateDecision)
    ensures
        res == decision(candidates@),
{
    if candidates.len() == 0 {
        AnnotationCandidateDecision::Nothing
    } else if candidates.len() == 1 {
        AnnotationCandidateDecision::Open(candidates[0])
    } else {
        AnnotationCandidateDecision::Choose
    }
}

/// An annotation of a page, and which of its quads hold the point asked about.
#[derive(Debug)]
pub struct AnnotationHit {
    pub id: AnnotationId,
    pub quads_hit: Vec<bool>,
}

/// Whether one of the quads was hit.
pub open spec fn is_hit(hit: AnnotationHit) -> bool {
    hit.quads_hit@.contains(true)
}

/// The annotations among the first `count` that were hit, in their order.
pub open spec fn hit_ids(hits: Seq<AnnotationHit>, count: int) -> Seq<AnnotationId>
    decreases count,
{
    if count <= 0 {
        seq![]
    } else if is_hit(hits[count - 1]) {
        hit_ids(hits, count - 1).push(hits[count - 1].id)
    } else {
        hit_ids(hits, count - 1)
    }
}

pub(crate) fn any_quad(quads: &Vec<bool>) -> (res: bool)
    ensures
        res == quads@.contains(true),
{
    let mut i: usize = 0;
    while i < quads.len()
        invariant
            i <= quads.len(),
            !quads@.take(i as int).contains(true),
        decreases quads.len() - i,
    {
        if quads[i] {
            assert(quads@[i as int] == true);
            return true;
        }
        proof {
            let longer = quads@.take(i + 1);
            if longer.contains(true) {
                let k = choose|k: int| 0 <= k < longer.len() && longer[k] == true;
                assert(k != i);
                assert(quads@.take(i as int)[k] == true);
            }
        }
        i += 1;
    }
    assert(quads@.take(i as int) =~= quads@);
    false
}

/// The annotations that hold a point, in the order of the page.
pub fn annotations_at_point(annotations: &Vec<AnnotationHit>) -> (res: Vec<AnnotationId>)
    ensures
        res@ == hit_ids(annotations@, annotations@.len() as int),
{
    let mut res: Vec<AnnotationId> = Vec::new();
    let mut i: usize = 0;
    while i < annotations.len()
        invariant
            i <= annotations.len(),
            res@ == hit_ids(annotations@, i as int),
        decreases annotations.len() - i,
    {
        if any_quad(&annotations[i].quads_hit) {
            res.push(annotations[i].id);
        }
        i += 1;
    }
    res
}

/// An annotation is among the hits exactly if one of its quads was hit.
pub proof fn hits_are_exact(hits: Seq<AnnotationHit>, count: int, id: AnnotationId)
    requires
        0 <= count <= hits.len(),
    ensures
        hit_ids(hits, count).contains(id) == exists|i: int|
            0 <= i < count && is_hit(#[trigger] hits[i]) && hits[i].id == id,
    decreases count,
{
    if count > 0 {
        hits_are_exact(hits, count - 1, id);
        let shorter = hit_ids(hits, count - 1);
        let longer = hit_ids(hits, count);
        let last = hits[count - 1];
        if shorter.contains(id) {
            let k = choose|k: int| 0 <= k < shorter.len() && shorter[k] == id;
            assert(longer[k] == id);
        }
        if is_hit(last) {
            assert(longer[shorter.len() as int] == last.id);
            if longer.contains(id) && !shorter.contains(id) {
                let k = choose|k: int| 0 <= k < longer.len() && longer[k] == id;
                if k < shorter.len() {
                    assert(shorter[k] == id);
                }
                assert(last.id == id);
                assert(is_hit(hits[count - 1]));
            }
        }
        if exists|i: int| 0 <= i < count && is_hit(#[trigger] hits[i]) && hits[i].id == id {
            let i = choose|i: int| 0 <= i < count && is_hit(#[trigger] hits[i]) && hits[i].id == id;
            if i < count - 1 {
                assert(is_hit(hits[i]) && hits[i].id == id);
            }
        }
    }
}

/// The editor of one annotation.
#[derive(Debug)]
pub struct AnnotationEditor {
    pub document_id: u64,
    pub revision: u64,
    pub annotation_id: AnnotationId,
    /// Something was changed and not saved.
    pub dirty: bool,
    /// The change can be saved.
    pub can_save: bool,
    /// A change was sent and not answered.
    pub mutation_in_flight: bool,
    pub notice: Option<String>,
}

/// What an `AnnotationEditor` stands for in specifications.
#[verifier::ext_equal]
pub struct EditorView {
    pub document_id: u64,
    pub revision: u64,
    pub annotation_id: AnnotationId,
    pub dirty: bool,
    pub can_save: bool,
    pub mutation_in_flight: bool,
    pub notice: Option<Seq<char>>,
}

impl View for AnnotationEditor {
    type V = EditorView;

    open spec fn view(&self) -> EditorView {
        EditorView {
            document_id: self.document_id,
            revision: self.revision,
            annotation_id: self.annotation_id,
            dirty: self.dirty,
            can_save: self.can_save,
            mutation_in_flight: self.mutation_in_flight,
            notice: message_view(self.notice),
        }
    }
}

/// The view of an editor that may not be open.
pub open spec fn editor_view(editor: Option<AnnotationEditor>) -> Option<EditorView> {
    match editor {
        None => None,
        Some(editor) => Some(editor@),
    }
}

impl EditorView {
    /// The editor must not be left: it holds a change, or one is under way.
    pub open spec fn is_busy(self) -> bool {
        self.dirty || self.mutation_in_flight
    }

    /// The editor works on that annotation of that state of the document.
    pub open spec fn edits(self, document_id: u64, revision: u64, annotation_id: AnnotationId) -> bool {
        self.document_id == document_id && self.revision == revision && self.annotation_id
            == annotation_id
    }
}

/// Whether the editor works on a document and must not be left.
pub open spec fn blocks_document(editor: Option<EditorView>, document_id: u64) -> bool {
    editor is Some && editor->0.document_id == document_id && editor->0.is_busy()
}

/// An editor with nothing changed yet.
pub open spec fn fresh_editor(document_id: u64, revision: u64, annotation_id: AnnotationId) -> EditorView {
    EditorView {
        document_id,
        revision,
        annotation_id,
        dirty: false,
        can_save: false,
        mutation_in_flight: false,
        notice: None,
    }
}

/// The editor after a change to the document of `document_id` failed.
pub open spec fn editor_after_failure(
    editor: Option<EditorView>,
    document_id: u64,
    message: Seq<char>,
) -> Option<EditorView> {
    if editor is Some && editor->0.document_id == document_id {
        Some(EditorView { mutation_in_flight: false, notice: Some(message), ..editor->0 })
    } else {
        editor
    }
}

/// The editor after an annotation was asked for: one that holds a change of another
/// annotation stays.
pub open spec fn editor_after_open(
    editor: Option<EditorView>,
    document_id: u64,
    revision: u64,
    annotation_id: AnnotationId,
) -> Option<EditorView> {
    if editor is Some && editor->0.edits(document_id, revision, annotation_id) {
        Some(EditorView { notice: None, ..editor->0 })
    } else if editor is Some && editor->0.is_busy() {
        Some(
            EditorView {
                notice: Some("別の注釈を開く前に、現在の変更を保存または破棄してください。"@),
                ..editor->0
            },
        )
    } else {
        Some(fresh_editor(document_id, revision, annotation_id))
    }
}

/// Whether the editor works on a document and must not be left.
pub fn editor_blocks_document(editor: &Option<AnnotationEditor>, document_id: u64) -> (res: bool)
    ensures
        res == blocks_document(editor_view(*editor), document_id),
{
    match editor {
        None => false,
        Some(editor) => editor.document_id == document_id && (editor.dirty
            || editor.mutation_in_flight),
    }
}

/// Notes in the editor of a document that a change failed.
pub fn note_editor_failure(editor: &mut Option<AnnotationEditor>, document_id: u64, message: &str)
    ensures
        editor_view(*final(editor)) == editor_after_failure(
            editor_view(*old(editor)),
            document_id,
            message@,
        ),
{
    match editor {
        None => {},
        Some(editor) => {
            if editor.document_id == document_id {
                editor.mutation_in_flight = false;
                editor.notice = Some(message.to_owned());
            }
        },
    }
}

/// Opens the editor on an annotation. Says whether it was opened anew, so that a choice of
/// annotations is over. A change that is not saved is neither lost nor carried over.
pub fn open_annotation_editor_from_summary(
    editor: &mut Option<AnnotationEditor>,
    document_id: u64,
    revision: u64,
    annotation_id: AnnotationId,
) -> (res: bool)
    ensures
        editor_view(*final(editor)) == editor_after_open(
            editor_view(*old(editor)),
            document_id,
            revision,
            annotation_id,
        ),
        ({
            let before = editor_view(*old(editor));
            res == (before is None || (!before->0.edits(document_id, revision, annotation_id)
                && !before->0.is_busy()))
        }),
{
    match editor {
        None => {},
        Some(editor) => {
            if editor.document_id == document_id && editor.revision == revision
                && editor.annotation_id == annotation_id {
                editor.notice = None;
                return false;
            }
            if editor.dirty || editor.mutation_in_flight {
                editor.notice = Some(
                    "別の注釈を開く前に、現在の変更を保存または破棄してください。".to_owned(),
                );
                return false;
            }
        },
    }
    *editor = Some(
        AnnotationEditor {
            document_id,
            revision,
            annotation_id,
            dirty: false,
            can_save: false,
            mutation_in_flight: false,
            notice: None,
        },
    );
    true
}

/// Whether the change in the editor has to go to the worker of a document.
pub fn update_to_send(editor: &Option<AnnotationEditor>, document_id: u64) -> (res: bool)
    ensures
        ({
            let before = editor_view(*editor);
            res == (before is Some && before->0.document_id == document_id && before->0.can_save)
        }),
{
    match editor {
        None => false,
        Some(editor) => editor.document_id == document_id && editor.can_save,
    }
}

/// What a deletion leads to.
#[derive(Clone, Copy, Debug, PartialEq, Eq, Structural)]
pub enum DeleteDecision {
    /// The editor holds a change of another annotation.
    EditorBusy,
    /// The annotation must not be deleted.
    Forbidden,
    /// The worker has to be asked.
    Send,
}

impl DeleteDecision {
    /// The error to show for it.
    pub fn error(self) -> (res: Option<&'static str>)
        ensures
            match self {
                DeleteDecision::Forbidden => res is Some && res->0@
                    == "注釈を削除できません。PDFの編集制限または注釈ロックを確認してください。"@,
                _ => res is None,
            },
    {
        match self {
            DeleteDecision::Forbidden => Some(
                "注釈を削除できません。PDFの編集制限または注釈ロックを確認してください。",
            ),
            _ => None,
        }
    }
}

/// The error to show when the worker does not take the change in the editor.
pub fn update_refused_error() -> (res: &'static str)
    ensures
        res@ == "注釈を更新できません。文書処理が停止しているため、タブを開き直してください。"@,
{
    "注釈を更新できません。文書処理が停止しているため、タブを開き直してください。"
}

/// The error to show when the worker does not take the deletion of an annotation.
pub fn delete_refused_error() -> (res: &'static str)
    ensures
        res@ == "注釈を削除できません。文書処理が停止しているため、タブを開き直してください。"@,
{
    "注釈を削除できません。文書処理が停止しているため、タブを開き直してください。"
}

/// What deleting an annotation leads to.
pub open spec fn delete_decision(
    editor: Option<EditorView>,
    document_id: u64,
    revision: u64,
    annotation_id: AnnotationId,
    can_delete: bool,
) -> DeleteDecision {
    if editor is Some && !editor->0.edits(document_id, revision, annotation_id)
        && editor->0.is_busy() {
        DeleteDecision::EditorBusy
    } else if !can_delete {
        DeleteDecision::Forbidden
    } else {
        DeleteDecision::Send
    }
}

/// Decides on the deletion of an annotation; an unrelated change in the editor is kept.
pub fn request_annotation_delete_known(
    editor: &mut Option<AnnotationEditor>,
    document_id: u64,
    revision: u64,
    annotation_id: AnnotationId,
    can_delete: bool,
) -> (res: DeleteDecision)
    ensures
        res == delete_decision(
            editor_view(*old(editor)),
            document_id,
            revision,
            annotation_id,
            can_delete,
        ),
        editor_view(*final(editor)) == (if res is EditorBusy {
            Some(
                EditorView {
                    notice: Some(
                        "別の注釈を削除する前に、現在の変更を保存または破棄してください。"@,
                    ),
                    ..editor_view(*old(editor))->0
                },
            )
        } else {
            editor_view(*old(editor))
        }),
{
    match editor {
        None => {},
        Some(editor) => {
            let same_target = editor.document_id == document_id && editor.revision == revision
                && editor.annotation_id == annotation_id;
            if !same_target && (editor.dirty || editor.mutation_in_flight) {
                editor.notice = Some(
                    "別の注釈を削除する前に、現在の変更を保存または破棄してください。".to_owned(),
                );
                return DeleteDecision::EditorBusy;
            }
        },
    }
    if can_delete {
        DeleteDecision::Send
    } else {
        DeleteDecision::Forbidden
    }
}

/// The document once an edit was sent to its worker.
pub open spec fn with_edit_pending(document: DocumentView) -> DocumentView {
    DocumentView {
        pending_edits: (document.pending_edits + 1) as usize,
        state: DocumentState::ReadyDirty,
        ..document
    }
}

/// The editor once a change was sent, if it works on that annotation of the document.
pub open spec fn editor_while_sending(
    editor: Option<EditorView>,
    document_id: u64,
    annotation_id: AnnotationId,
    message: Seq<char>,
) -> Option<EditorView> {
    if editor is Some && editor->0.document_id == document_id && editor->0.annotation_id
        == annotation_id {
        Some(EditorView { mutation_in_flight: true, notice: Some(message), ..editor->0 })
    } else {
        editor
    }
}

fn note_sending(
    editor: &mut Option<AnnotationEditor>,
    document_id: u64,
    annotation_id: AnnotationId,
    message: &str,
)
    ensures
        editor_view(*final(editor)) == editor_while_sending(
            editor_view(*old(editor)),
            document_id,
            annotation_id,
            message@,
        ),
{
    match editor {
        None => {},
        Some(editor) => {
            if editor.document_id == document_id && editor.annotation_id == annotation_id {
                editor.mutation_in_flight = true;
                editor.notice = Some(message.to_owned());
            }
        },
    }
}

impl DocumentTab {
    /// Notes an edit that the worker took: the document counts as changed from here on.
    pub fn edit_sent(&mut self)
        requires
            old(self)@.pending_edits < usize::MAX,
        ensures
            final(self)@ == with_edit_pending(old(self)@),
    {
        let ghost before = self@;
        self.pending_edits = self.pending_edits + 1;
        self.state = DocumentState::ReadyDirty;
        assert(self@ =~= with_edit_pending(before));
    }

    /// Notes that the worker took the change in the editor. Returns what to say.
    pub fn annotation_update_sent(
        &mut self,
        editor: &mut Option<AnnotationEditor>,
        annotation_id: AnnotationId,
    ) -> (res: &'static str)
        requires
            old(self)@.pending_edits < usize::MAX,
        ensures
            final(self)@ == with_edit_pending(old(self)@),
            editor_view(*final(editor)) == editor_while_sending(
                editor_view(*old(editor)),
                old(self)@.document_id,
                annotation_id,
                "注釈の変更を反映しています…"@,
            ),
            res@ == "注釈の変更を反映しています…"@,
    {
        self.edit_sent();
        note_sending(
            editor,
            self.document_id,
            annotation_id,
            "注釈の変更を反映しています…",
        );
        "注釈の変更を反映しています…"
    }

    /// Notes that the worker took the deletion of an annotation. Returns what to say.
    pub fn annotation_delete_sent(
        &mut self,
        editor: &mut Option<AnnotationEditor>,
        annotation_id: AnnotationId,
    ) -> (res: &'static str)
        requires
            old(self)@.pending_edits < usize::MAX,
        ensures
            final(self)@ == with_edit_pending(old(self)@),
            editor_view(*final(editor)) == editor_while_sending(
                editor_view(*old(editor)),
                old(self)@.document_id,
                annotation_id,
                "注釈を削除しています…"@,
            ),
            res@ == "注釈を削除しています…"@,
    {
        self.edit_sent();
        note_sending(editor, self.document_id, annotation_id, "注釈を削除しています…");
        "注釈を削除しています…"
    }
}

/// An editor that must not be left keeps its target and its change, whatever annotation is
/// asked for.
pub proof fn a_busy_editor_is_kept(
    editor: EditorView,
    document_id: u64,
    revision: u64,
    annotation_id: AnnotationId,
)
    requires
        editor.is_busy(),
    ensures
        ({
            let after = editor_after_open(Some(editor), document_id, revision, annotation_id);
            &&& after is Some
            &&& after->0 == (EditorView { notice: after->0.notice, ..editor })
        }),
{
}

} // verus!

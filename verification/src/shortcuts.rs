//! Keys, and the steps through search hits.
use crate::annotation::{editor_view, AnnotationEditor, EditorView};
use crate::document::{DocumentTab, DocumentView};
use crate::search::{
    all_matches, next_match, next_search_match, search_match_ordinal, SearchCursor, SearchStart,
    SearchState, SearchView,
};
use crate::text::{decimal, decimal_text, is_blank, with_text};
use crate::view::{page_reached, PageAnchor};
use vstd::prelude::*;

verus! {

/// Which text field has the focus.
#[derive(Clone, Copy, Debug, PartialEq, Eq, Structural)]
pub enum FocusedField {
    Nothing,
    Comment,
    PageNumber,
    Query,
}

/// What a press of Escape leads to.
#[derive(Clone, Copy, Debug, PartialEq, Eq, Structural)]
pub enum EscapeOutcome {
    /// The field loses the focus.
    LeaveField,
    /// The editor stays or goes, as it says.
    Editor,
    /// The search ended, and its generation has to be announced.
    EndSearch(u64),
    Nothing,
}

/// The editor after Escape: it goes unless it must not be left.
pub open spec fn editor_after_escape(editor: EditorView) -> Option<EditorView> {
    if editor.mutation_in_flight {
        Some(EditorView { notice: Some("注釈処理の完了を待っています。"@), ..editor })
    } else if editor.dirty {
        Some(
            EditorView {
                notice: Some("未保存の変更があります。保存または変更を破棄してください。"@),
                ..editor
            },
        )
    } else {
        None
    }
}

/// The editor works on the document.
pub open spec fn is_editing(editor: Option<EditorView>, document_id: u64) -> bool {
    editor is Some && editor->0.document_id == document_id
}

/// There is a search to end.
pub open spec fn has_search(search: SearchView) -> bool {
    search.query.len() > 0 || search.pages.len() > 0
}

/// What Escape leads to.
pub open spec fn escape_outcome(
    document: DocumentView,
    editor: Option<EditorView>,
    focus: FocusedField,
) -> EscapeOutcome {
    if is_editing(editor, document.document_id) {
        if focus is Comment {
            EscapeOutcome::LeaveField
        } else {
            EscapeOutcome::Editor
        }
    } else if focus is PageNumber || focus is Query {
        EscapeOutcome::LeaveField
    } else if has_search(document.search) {
        EscapeOutcome::EndSearch(document.search.generation.wrapping_add(1))
    } else {
        EscapeOutcome::Nothing
    }
}

/// The document after Escape.
pub open spec fn document_after_escape(
    document: DocumentView,
    editor: Option<EditorView>,
    focus: FocusedField,
) -> DocumentView {
    let still = document.still(true);
    if is_editing(editor, document.document_id) {
        still
    } else if focus is PageNumber {
        DocumentView {
            page_input: decimal((document.view.current_page + 1) as nat),
            page_input_error: None,
            ..still
        }
    } else if !(focus is Query) && has_search(document.search) {
        DocumentView {
            search: (SearchView { query: seq![], ..document.search }).restarted(false),
            ..still
        }
    } else {
        still
    }
}

/// What Ctrl+S leads to.
#[derive(Clone, Copy, Debug, PartialEq, Eq, Structural)]
pub enum SaveShortcut {
    Nothing,
    /// The change in the editor is sent.
    UpdateAnnotation,
    /// The document is saved.
    Save,
}

fn leave_editor(editor: &mut Option<AnnotationEditor>)
    requires
        editor_view(*old(editor)) is Some,
    ensures
        editor_view(*final(editor)) == editor_after_escape(editor_view(*old(editor))->0),
{
    let goes = match &*editor {
        None => false,
        Some(editor) => !editor.mutation_in_flight && !editor.dirty,
    };
    if goes {
        *editor = None;
        return;
    }
    match editor {
        None => {},
        Some(editor) => {
            if editor.mutation_in_flight {
                editor.notice = Some("注釈処理の完了を待っています。".to_owned());
            } else {
                editor.notice = Some(
                    "未保存の変更があります。保存または変更を破棄してください。".to_owned(),
                );
            }
        },
    }
}

fn edits_document(editor: &Option<AnnotationEditor>, document_id: u64) -> (res: bool)
    ensures
        res == is_editing(editor_view(*editor), document_id),
{
    match editor {
        None => false,
        Some(editor) => editor.document_id == document_id,
    }
}

impl DocumentTab {
    fn come_to_stop(&mut self)
        ensures
            final(self)@ == old(self)@.still(true),
    {
        self.view.stop_autoscroll();
    }

    fn reset_page_input(&mut self)
        requires
            old(self)@.view.current_page < usize::MAX,
        ensures
            final(self)@ == (DocumentView {
                page_input: decimal((old(self)@.view.current_page + 1) as nat),
                page_input_error: None,
                ..old(self)@
            }),
    {
        self.page_input = decimal_text((self.view.current_page + 1) as u64);
        self.page_input_error = None;
    }

    fn end_search(&mut self) -> (res: u64)
        ensures
            final(self)@ == (DocumentView {
                search: (SearchView { query: seq![], ..old(self)@.search }).restarted(false),
                ..old(self)@
            }),
            res == old(self)@.search.generation.wrapping_add(1),
    {
        let ghost before = self@;
        self.search.query = String::new();
        assert(self.search@ =~= (SearchView { query: seq![], ..before.search }));
        self.search.cancel_search();
        self.search.generation
    }

    /// Takes a press of Escape in the active document. The field with the focus is left
    /// first; an editor with a change stays.
    pub fn press_escape(&mut self, editor: &mut Option<AnnotationEditor>, focus: FocusedField) -> (res:
        EscapeOutcome)
        requires
            old(self)@.view.current_page < usize::MAX,
        ensures
            res == escape_outcome(old(self)@, editor_view(*old(editor)), focus),
            final(self)@ == document_after_escape(old(self)@, editor_view(*old(editor)), focus),
            editor_view(*final(editor)) == (if res is Editor {
                editor_after_escape(editor_view(*old(editor))->0)
            } else {
                editor_view(*old(editor))
            }),
    {
        self.come_to_stop();
        if edits_document(editor, self.document_id) {
            if focus == FocusedField::Comment {
                return EscapeOutcome::LeaveField;
            }
            leave_editor(editor);
            return EscapeOutcome::Editor;
        }
        if focus == FocusedField::PageNumber {
            self.reset_page_input();
            return EscapeOutcome::LeaveField;
        }
        if focus == FocusedField::Query {
            return EscapeOutcome::LeaveField;
        }
        if self.search.query.as_str().unicode_len() > 0 || self.search.pages.len() > 0 {
            return EscapeOutcome::EndSearch(self.end_search());
        }
        EscapeOutcome::Nothing
    }

    /// Whether Ctrl+F starts a search: there is a query, and nothing was found or is being
    /// looked for.
    pub fn find_starts_search(&self) -> (res: bool)
        ensures
            res == (!is_blank(self@.search.query) && !self@.search.in_progress
                && self@.search.pages.len() == 0),
    {
        self.search.has_query() && !self.search.in_progress && self.search.pages.len() == 0
    }

    /// Decides on Ctrl+S: the change in the editor of the document comes first.
    pub fn press_save(&self, editor: &Option<AnnotationEditor>, closing: bool) -> (res: SaveShortcut)
        ensures
            res == (if closing {
                SaveShortcut::Nothing
            } else if is_editing(editor_view(*editor), self@.document_id) && editor_view(
                *editor,
            )->0.can_save {
                SaveShortcut::UpdateAnnotation
            } else {
                SaveShortcut::Save
            }),
            closing ==> res is Nothing,
            res is Nothing ==> closing,
            res is UpdateAnnotation ==> editor_view(*editor) is Some
                && editor_view(*editor)->0.document_id == self@.document_id,
    {
        if closing {
            return SaveShortcut::Nothing;
        }
        let updates = match editor {
            None => false,
            Some(editor) => editor.document_id == self.document_id && editor.can_save,
        };
        if updates {
            SaveShortcut::UpdateAnnotation
        } else {
            SaveShortcut::Save
        }
    }

    /// Turns `delta` pages, as far as the document goes.
    pub fn move_page(&mut self, delta: isize)
        ensures
            ({
                let before = old(self)@;
                let target = page_reached(
                    before.view.current_page as int,
                    before.page_count() as int,
                    delta as int,
                );
                final(self)@ == (if before.info is Some && target != before.view.current_page
                    && target < before.page_count() {
                    before.showing(before.view.at_page(target as usize))
                } else {
                    before
                })
            }),
    {
        let ghost before = self@;
        if self.info.is_none() {
            return;
        }
        let page_count: usize = self.page_count();
        if self.view.move_page(page_count, delta) {
            self.page_input_error = None;
        }
    }

    /// Starts a search for the query from the current page on. Returns the pages to search in
    /// order; the generation has to be announced first, also where there is nothing to
    /// search for.
    pub fn begin_search(&mut self) -> (res: SearchStart)
        requires
            old(self)@.wf(),
        ensures
            final(self)@.wf(),
            final(self)@ == (DocumentView { search: final(self)@.search, ..old(self)@ }),
            match res {
                SearchStart::Cancelled => is_blank(old(self)@.search.query) && final(self)@.search
                    == old(self)@.search.restarted(false),
                SearchStart::NoDocument => !is_blank(old(self)@.search.query)
                    && old(self)@.info is None && final(self)@.search == old(self)@.search,
                SearchStart::Started { pages } => {
                    let order = crate::search::search_order(
                        old(self)@.view.current_page as int,
                        old(self)@.page_count() as int,
                    );
                    &&& !is_blank(old(self)@.search.query)
                    &&& old(self)@.info is Some
                    &&& final(self)@.search == old(self)@.search.restarted(true)
                    &&& pages@.len() == order.len()
                    &&& forall|i: int|
                        0 <= i < pages@.len() ==> (#[trigger] pages@[i]) == order[i]
                },
            },
    {
        let page_count = match &self.info {
            None => None,
            Some(info) => Some(info.page_count),
        };
        self.search.begin_search(page_count, self.view.current_page)
    }

    /// Notes that the worker did not take a search.
    pub fn search_refused(&mut self)
        ensures
            final(self)@ == (DocumentView {
                search: SearchView { in_progress: false, ..old(self)@.search },
                error: Some(
                    "検索を開始できません。文書処理が停止しているため、タブを開き直してください。"@,
                ),
                ..old(self)@
            }),
    {
        self.search.start_refused();
        self.error = Some(
            "検索を開始できません。文書処理が停止しているため、タブを開き直してください。".to_owned(),
        );
    }

    /// The hit to go to.
    pub fn hit_to_show(&self, forward: bool) -> (res: Option<SearchCursor>)
        requires
            self@.wf(),
        ensures
            res == next_match(
                all_matches(self@.search.pages),
                self@.search.selected,
                self@.view.current_page,
                forward,
            ),
    {
        next_search_match(
            &self.search.pages,
            self.search.selected,
            self.view.current_page,
            forward,
        )
    }

    /// Goes to a hit: to its middle, where that is known, or to its page. Returns what to say.
    pub fn show_hit(&mut self, cursor: SearchCursor, anchor: Option<PageAnchor>) -> (res: String)
        requires
            old(self)@.wf(),
            cursor.page_index < usize::MAX,
        ensures
            ({
                let chosen = DocumentView {
                    search: SearchView { selected: Some(cursor), ..old(self)@.search },
                    ..old(self)@
                };
                final(self)@ == (match anchor {
                    Some(anchor) => if anchor.page_index < chosen.page_count() {
                        chosen.showing(chosen.view.at_match(anchor))
                    } else {
                        chosen
                    },
                    None => if cursor.page_index < chosen.page_count() {
                        chosen.showing(chosen.view.at_page(cursor.page_index))
                    } else {
                        chosen
                    },
                })
            }),
            res@ == hit_message(old(self)@.search, cursor),
    {
        let status = hit_text(&self.search, cursor);
        self.select_hit(cursor);
        match anchor {
            Some(anchor) => {
                self.jump_to_search_match(anchor);
            },
            None => {
                self.jump_to_page(cursor.page_index);
            },
        }
        status
    }

    fn select_hit(&mut self, cursor: SearchCursor)
        ensures
            final(self)@ == (DocumentView {
                search: SearchView { selected: Some(cursor), ..old(self)@.search },
                ..old(self)@
            }),
    {
        let ghost before = self@;
        self.search.selected = Some(cursor);
        assert(self.search@ =~= (SearchView { selected: Some(cursor), ..before.search }));
    }
}

/// What to say of a hit.
pub open spec fn hit_message(search: SearchView, cursor: SearchCursor) -> Seq<char> {
    let matches = all_matches(search.pages);
    let page = decimal((cursor.page_index + 1) as nat);
    if matches.contains(cursor) {
        "Search result "@ + decimal((matches.index_of(cursor) + 1) as nat) + " on page "@ + page
    } else {
        "Search result on page "@ + page
    }
}

fn hit_text(search: &SearchState, cursor: SearchCursor) -> (res: String)
    requires
        search@.wf(),
        cursor.page_index < usize::MAX,
    ensures
        res@ == hit_message(search@, cursor),
{
    let page = decimal_text((cursor.page_index + 1) as u64);
    match search_match_ordinal(&search.pages, cursor) {
        None => with_text("Search result on page ", page.as_str()),
        Some(ordinal) => {
            let number = decimal_text(ordinal as u64);
            let mut text = with_text("Search result ", number.as_str());
            text.append(" on page ");
            text.append(page.as_str());
            text
        },
    }
}

/// Whether Ctrl+Z undoes an edit; an editor that must not be left says so instead.
pub fn press_undo(editor: &mut Option<AnnotationEditor>, closing: bool) -> (res: bool)
    ensures
        ({
            let before = editor_view(*old(editor));
            let blocked = before is Some && before->0.is_busy();
            &&& res == (!closing && !blocked)
            &&& editor_view(*final(editor)) == (if !closing && blocked {
                Some(
                    EditorView {
                        notice: Some(
                            "PDFの編集を元に戻す前に、注釈の変更を保存または破棄してください。"@,
                        ),
                        ..before->0
                    },
                )
            } else {
                before
            })
        }),
        closing ==> !res && editor_view(*final(editor)) == editor_view(*old(editor)),
        res ==> editor_view(*final(editor)) == editor_view(*old(editor)),
        editor_view(*old(editor)) is Some && editor_view(*old(editor))->0.dirty ==> !res,
{
    if closing {
        return false;
    }
    match editor {
        None => true,
        Some(editor) => {
            if !editor.dirty && !editor.mutation_in_flight {
                return true;
            }
            editor.notice = Some(
                "PDFの編集を元に戻す前に、注釈の変更を保存または破棄してください。".to_owned(),
            );
            false
        },
    }
}

} // verus!

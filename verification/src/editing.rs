//! What may be done with the active document: highlight, undo, save and print.
use crate::annotation::{
    blocks_document, editor_blocks_document, editor_view, with_edit_pending, AnnotationEditor,
};
use crate::document::{
    DocumentState, DocumentTab, DocumentView, EditAction, SaveAsState, SaveAsView,
};
use crate::path::DocumentPath;
use crate::rendering::{ThumbnailCacheKey, TileCacheKey};
use crate::text::with_text;
use crate::tiles::TileBookView;
use crate::page_books::PageBookView;
use vstd::prelude::*;

verus! {

/// What asking for a highlight leads to.
#[derive(Debug)]
pub enum HighlightDecision {
    /// Nothing is done.
    Ignored,
    /// It cannot be made, and why.
    Refused(String),
    /// The worker has to make it on this page.
    Send { page_index: usize },
}

/// What a `HighlightDecision` stands for in specifications.
pub enum HighlightDecisionView {
    Ignored,
    Refused(Seq<char>),
    Send { page_index: usize },
}

impl View for HighlightDecision {
    type V = HighlightDecisionView;

    open spec fn view(&self) -> HighlightDecisionView {
        match self {
            HighlightDecision::Ignored => HighlightDecisionView::Ignored,
            HighlightDecision::Refused(message) => HighlightDecisionView::Refused(message@),
            HighlightDecision::Send { page_index } => HighlightDecisionView::Send {
                page_index: *page_index,
            },
        }
    }
}

/// What asking for a highlight leads to.
pub open spec fn highlight_decision(document: DocumentView, closing: bool) -> HighlightDecisionView {
    if closing || document.print_in_flight || document.info is None {
        HighlightDecisionView::Ignored
    } else if document.info->0.highlight_capability.reason() is Some {
        HighlightDecisionView::Refused(
            "Highlightを作成できません。PDFの編集制限を確認してください。詳細: "@
                + document.info->0.highlight_capability.reason()->0,
        )
    } else {
        match document.selection {
            None => HighlightDecisionView::Refused(
                "Highlightを作成できません。先に本文テキストを選択してください。"@,
            ),
            Some(selection) => if selection.quad_count == 0 {
                HighlightDecisionView::Refused(
                    "Highlightを作成できません。テキストを選択し直してください。"@,
                )
            } else {
                HighlightDecisionView::Send { page_index: selection.page_index }
            },
        }
    }
}

/// What asking for a save leads to.
#[derive(Clone, Copy, Debug, PartialEq, Eq, Structural)]
pub enum SaveDecision {
    /// Nothing is done.
    Ignored,
    AlreadySaving,
    Printing,
    NothingToSave,
    /// The worker has to save.
    Send,
}

/// What asking for a save leads to.
pub open spec fn save_decision(document: DocumentView, closing: bool) -> SaveDecision {
    if closing {
        SaveDecision::Ignored
    } else if document.save_in_flight {
        SaveDecision::AlreadySaving
    } else if document.print_in_flight {
        SaveDecision::Printing
    } else if document.info is None {
        SaveDecision::Ignored
    } else if !document.info->0.dirty && document.pending_edits == 0 {
        SaveDecision::NothingToSave
    } else {
        SaveDecision::Send
    }
}

impl SaveDecision {
    /// What to say about it.
    pub fn status(self) -> (res: Option<&'static str>)
        ensures
            match res {
                None => self is Ignored || self is Send,
                Some(text) => text@ == (match self {
                    SaveDecision::AlreadySaving => "A save is already in progress"@,
                    SaveDecision::Printing => "印刷処理の完了後に保存してください"@,
                    _ => "保存されていないPDF編集はありません"@,
                }) && !(self is Ignored) && !(self is Send),
            },
    {
        match self {
            SaveDecision::AlreadySaving => Some("A save is already in progress"),
            SaveDecision::Printing => Some("印刷処理の完了後に保存してください"),
            SaveDecision::NothingToSave => Some("保存されていないPDF編集はありません"),
            _ => None,
        }
    }
}

impl DocumentView {
    /// The last edit can be undone, as far as the document goes.
    pub open spec fn undoable(self) -> bool {
        self.edit_history.len() > 0 && !self.undo_in_flight && !self.save_in_flight
            && !self.print_in_flight && self.connected
    }

    /// The document can be printed.
    pub open spec fn printable(self) -> bool {
        &&& !(self.state is Opening)
        &&& !(self.state is Suspended)
        &&& !(self.state is Error)
        &&& !self.save_in_flight
        &&& !self.print_in_flight
        &&& self.connected
        &&& self.info is Some
    }

    /// The document while a save is under way.
    pub open spec fn saving(self) -> DocumentView {
        DocumentView { save_in_flight: true, state: DocumentState::Saving, ..self }
    }

    /// The document with a tile that came to be kept, or not to be.
    pub open spec fn with_tile(self, key: TileCacheKey, was_prefetched: bool, kept: bool) -> DocumentView {
        DocumentView {
            tiles: if kept {
                TileBookView {
                    cached: self.tiles.cached.insert(key),
                    prefetched: if was_prefetched {
                        self.tiles.prefetched.insert(key)
                    } else {
                        self.tiles.prefetched.remove(key)
                    },
                    ..self.tiles
                }
            } else {
                TileBookView {
                    cached: self.tiles.cached.remove(key),
                    prefetched: self.tiles.prefetched.remove(key),
                    ..self.tiles
                }
            },
            ..self
        }
    }

    /// The document with a thumbnail that came to be kept, or not to be.
    pub open spec fn with_thumbnail(self, key: ThumbnailCacheKey, kept: bool) -> DocumentView {
        DocumentView {
            thumbnails: PageBookView {
                cached: if kept {
                    self.thumbnails.cached.insert(key)
                } else {
                    self.thumbnails.cached.remove(key)
                },
                ..self.thumbnails
            },
            ..self
        }
    }
}

impl DocumentTab {
    /// Decides on a highlight of the selection.
    pub fn create_highlight(&self, closing: bool) -> (res: HighlightDecision)
        ensures
            res@ == highlight_decision(self@, closing),
    {
        if closing || self.print_in_flight {
            return HighlightDecision::Ignored;
        }
        let capability = match &self.info {
            None => {
                return HighlightDecision::Ignored;
            },
            Some(info) => info.highlight_capability,
        };
        if let Some(restriction) = capability.restriction() {
            return HighlightDecision::Refused(
                with_text(
                    "Highlightを作成できません。PDFの編集制限を確認してください。詳細: ",
                    restriction,
                ),
            );
        }
        match &self.selection {
            None => HighlightDecision::Refused(
                "Highlightを作成できません。先に本文テキストを選択してください。".to_owned(),
            ),
            Some(selection) => if selection.quad_count == 0 {
                HighlightDecision::Refused(
                    "Highlightを作成できません。テキストを選択し直してください。".to_owned(),
                )
            } else {
                HighlightDecision::Send { page_index: selection.page_index }
            },
        }
    }

    /// Notes whether the worker took a highlight. Returns what to say, or the error.
    pub fn highlight_sent(&mut self, accepted: bool) -> (res: Result<&'static str, &'static str>)
        requires
            old(self)@.pending_edits < usize::MAX,
        ensures
            final(self)@ == (if accepted {
                with_edit_pending(old(self)@)
            } else {
                old(self)@
            }),
            match res {
                Ok(status) => accepted && status@ == "Creating PDF Highlight annotation…"@,
                Err(error) => !accepted && error@
                    == "Highlightを作成できません。文書処理が停止しているため、タブを開き直してください。"@,
            },
    {
        if accepted {
            self.edit_sent();
            Ok("Creating PDF Highlight annotation…")
        } else {
            Err("Highlightを作成できません。文書処理が停止しているため、タブを開き直してください。")
        }
    }

    /// The text to put on the clipboard, and what to say of it, where something is selected.
    pub fn copy_selection(&self) -> (res: Option<(&str, &'static str)>)
        ensures
            res is Some <==> self@.selection is Some,
            match (res, self.selection) {
                (Some((text, status)), Some(selection)) => text@ == selection.text@ && status@
                    == "Selected text copied"@,
                _ => true,
            },
    {
        match &self.selection {
            None => None,
            Some(selection) => Some((selection.text.as_str(), "Selected text copied")),
        }
    }

    pub fn can_copy_selection(&self) -> (res: bool)
        ensures
            res == (self@.selection is Some),
    {
        self.selection.is_some()
    }

    /// Whether a highlight of the selection can be made.
    pub fn can_create_highlight(&self) -> (res: bool)
        ensures
            res == (self@.info is Some && self@.info->0.highlight_capability is Allowed
                && !self@.print_in_flight && self@.selection is Some
                && self@.selection->0.quad_count > 0),
    {
        let allowed = match &self.info {
            None => false,
            Some(info) => info.highlight_capability.is_allowed(),
        };
        let selected = match &self.selection {
            None => false,
            Some(selection) => selection.quad_count > 0,
        };
        allowed && !self.print_in_flight && selected
    }

    /// Whether the last edit can be undone. An editor with a change comes first.
    pub fn can_undo(&self, editor: &Option<AnnotationEditor>, closing: bool) -> (res: bool)
        ensures
            res == (!closing && !blocks_document(editor_view(*editor), self@.document_id)
                && self@.undoable()),
    {
        !closing && !editor_blocks_document(editor, self.document_id) && self.edit_history.len() > 0
            && !self.undo_in_flight && !self.save_in_flight && !self.print_in_flight
            && self.connected
    }

    /// The edit that the worker has to undo, if one can be.
    pub fn undo(&self, editor: &Option<AnnotationEditor>, closing: bool) -> (res: Option<EditAction>)
        ensures
            res == (if !closing && !blocks_document(editor_view(*editor), self@.document_id)
                && self@.undoable() {
                Some(self@.edit_history.last())
            } else {
                None
            }),
    {
        if !self.can_undo(editor, closing) {
            return None;
        }
        Some(self.edit_history[self.edit_history.len() - 1])
    }

    /// Notes whether the worker took an undo. The edit stays in the history until it is
    /// undone. Returns what to say, or the error.
    pub fn undo_sent(&mut self, accepted: bool) -> (res: Result<&'static str, &'static str>)
        ensures
            final(self)@ == (DocumentView {
                undo_in_flight: accepted || old(self)@.undo_in_flight,
                ..old(self)@
            }),
            match res {
                Ok(status) => accepted && status@ == "編集を元に戻しています…"@,
                Err(error) => !accepted && error@
                    == "編集を元に戻せません。文書処理が停止しているため、タブを開き直してください。"@,
            },
    {
        if accepted {
            self.undo_in_flight = true;
            Ok("編集を元に戻しています…")
        } else {
            Err("編集を元に戻せません。文書処理が停止しているため、タブを開き直してください。")
        }
    }

    /// Decides on a save.
    pub fn save(&self, closing: bool) -> (res: SaveDecision)
        ensures
            res == save_decision(self@, closing),
    {
        if closing {
            return SaveDecision::Ignored;
        }
        if self.is_saving() {
            return SaveDecision::AlreadySaving;
        }
        if self.is_printing() {
            return SaveDecision::Printing;
        }
        match &self.info {
            None => SaveDecision::Ignored,
            Some(info) => if !info.dirty && self.pending_edits == 0 {
                SaveDecision::NothingToSave
            } else {
                SaveDecision::Send
            },
        }
    }

    /// Notes whether the worker took a save. Returns what to say, or the error.
    pub fn save_sent(&mut self, accepted: bool) -> (res: Result<&'static str, &'static str>)
        ensures
            final(self)@ == (if accepted {
                old(self)@.saving()
            } else {
                old(self)@
            }),
            match res {
                Ok(status) => accepted && status@ == "Saving PDF and reopening for verification…"@,
                Err(error) => !accepted && error@
                    == "PDFを保存できませんでした。文書処理が停止しているため、タブを開き直してください。"@,
            },
    {
        if accepted {
            self.save_in_flight = true;
            self.state = DocumentState::Saving;
            Ok("Saving PDF and reopening for verification…")
        } else {
            Err("PDFを保存できませんでした。文書処理が停止しているため、タブを開き直してください。")
        }
    }

    /// Whether the document can be printed.
    pub fn can_print(&self, closing: bool) -> (res: bool)
        ensures
            res == (self@.printable() && !closing),
    {
        self.state != DocumentState::Opening && self.state != DocumentState::Suspended
            && self.state != DocumentState::Error && !self.save_in_flight && !self.print_in_flight
            && self.connected && self.info.is_some() && !closing
    }

    /// Notes whether the worker took a print. Returns what to say, or the error.
    pub fn print_sent(&mut self, accepted: bool) -> (res: Result<&'static str, &'static str>)
        ensures
            final(self)@ == (DocumentView {
                print_in_flight: accepted || old(self)@.print_in_flight,
                ..old(self)@
            }),
            match res {
                Ok(status) => accepted && status@ == "印刷ダイアログを準備しています…"@,
                Err(error) => !accepted && error@ == "印刷: 文書ワーカーを利用できません"@,
            },
    {
        if accepted {
            self.print_in_flight = true;
            Ok("印刷ダイアログを準備しています…")
        } else {
            Err("印刷: 文書ワーカーを利用できません")
        }
    }

    /// Notes whether the worker took the request for the outline.
    pub fn outline_sent(&mut self, accepted: bool)
        ensures
            final(self)@ == (DocumentView {
                outline_requested: accepted || old(self)@.outline_requested,
                ..old(self)@
            }),
    {
        if accepted {
            self.outline_requested = true;
        }
    }

    /// Notes whether the worker took the request to save a copy, once the edits are in.
    /// Returns what to say.
    pub fn save_copy_sent(&mut self, path: DocumentPath, accepted: bool) -> (res: Option<
        &'static str,
    >)
        ensures
            final(self)@ == (DocumentView {
                save_as: if accepted {
                    SaveAsView::Saving(path@)
                } else {
                    SaveAsView::Idle
                },
                ..old(self)@
            }),
            match res {
                None => !accepted,
                Some(status) => accepted && status@
                    == "未確定の注釈を反映し、編集版を別名保存しています…"@,
            },
    {
        if accepted {
            self.save_as = SaveAsState::Saving(path);
            Some("未確定の注釈を反映し、編集版を別名保存しています…")
        } else {
            self.save_as = SaveAsState::Idle;
            None
        }
    }

    /// Notes whether the worker took the request to save the edits to another file, because
    /// someone else wrote this one. Returns what to say.
    pub fn conflict_copy_sent(&mut self, path: DocumentPath, accepted: bool) -> (res: Option<
        &'static str,
    >)
        ensures
            final(self)@ == (if accepted {
                DocumentView { save_as: SaveAsView::Saving(path@), ..old(self)@ }
            } else {
                old(self)@
            }),
            match res {
                None => !accepted,
                Some(status) => accepted && status@ == "編集版を別名保存しています…"@,
            },
    {
        if accepted {
            self.save_as = SaveAsState::Saving(path);
            Some("編集版を別名保存しています…")
        } else {
            None
        }
    }

    /// Notes whether the worker took the request to read the original again, once the edits
    /// are saved elsewhere. Returns what to say.
    pub fn original_reload_sent(&mut self, accepted: bool) -> (res: Option<&'static str>)
        ensures
            final(self)@ == (DocumentView { reload_in_flight: accepted, ..old(self)@ }),
            match res {
                None => !accepted,
                Some(status) => accepted && status@
                    == "編集版を保存しました。外部版を再読み込みしています…"@,
            },
    {
        self.reload_in_flight = accepted;
        if accepted {
            Some("編集版を保存しました。外部版を再読み込みしています…")
        } else {
            None
        }
    }

    /// Notes whether a rendered tile came to be kept.
    pub fn tile_kept(&mut self, key: TileCacheKey, was_prefetched: bool, kept: bool)
        ensures
            final(self)@ == old(self)@.with_tile(key, was_prefetched, kept),
    {
        let ghost before = self@;
        if kept {
            self.tiles.cached.insert(key);
            if was_prefetched {
                self.tiles.prefetched.insert(key);
            } else {
                self.tiles.prefetched.remove(key);
            }
        } else {
            self.tiles.cached.remove(key);
            self.tiles.prefetched.remove(key);
        }
        assert(self@ =~= before.with_tile(key, was_prefetched, kept));
    }

    /// Notes whether a thumbnail came to be kept.
    pub fn thumbnail_kept(&mut self, key: ThumbnailCacheKey, kept: bool)
        ensures
            final(self)@ == old(self)@.with_thumbnail(key, kept),
    {
        if kept {
            self.thumbnails.cached.insert(key);
        } else {
            self.thumbnails.cached.remove(key);
        }
    }
}

/// A highlight is asked of the worker exactly where it is offered, unless something is about
/// to close.
pub proof fn highlights_are_offered_where_they_work(document: DocumentView, closing: bool)
    ensures
        (highlight_decision(document, closing) is Send) == (!closing && document.info is Some
            && document.info->0.highlight_capability is Allowed && !document.print_in_flight
            && document.selection is Some && document.selection->0.quad_count > 0),
{
}

/// While a save or a print is under way, no other of save, print and undo can start.
pub proof fn one_operation_at_a_time(document: DocumentView, closing: bool)
    requires
        document.save_in_flight || document.print_in_flight,
    ensures
        !(save_decision(document, closing) is Send),
        !document.printable(),
        !document.undoable(),
{
}

/// A document with edits that its worker has not answered, or has not written to the file, can
/// be saved once neither a save nor a print is under way.
pub proof fn edits_can_be_saved(document: DocumentView)
    requires
        document.info is Some,
        document.pending_edits > 0 || document.info->0.dirty,
        !document.save_in_flight,
        !document.print_in_flight,
    ensures
        save_decision(document, false) is Send,
{
}

} // verus!

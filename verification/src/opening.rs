//! Selecting and opening tabs, and what a report of a worker means among them.
use crate::document::{DocumentTab, DocumentView};
use crate::events::{
    changed_outcome, document_received, editor_received, failed_outcome, is_expected, opened_outcome,
    outcome_of, outcome_received, receive_document_event, reports_keep_documents_sound,
    DocumentEvent, EventContext, EventOutcome,
};
use crate::path::{DocumentPath, PathView};
use crate::session::SessionView;
use crate::tabs::{entry_of, OpenTabResult, SplitSide, TabsView};
use crate::text::with_text;
use crate::workspace::{
    active_word, can_be_shown, restoring_count, restoring_count_of_same, Activation, Workspace,
    WorkspaceView,
};
use vstd::prelude::*;

verus! {

impl WorkspaceView {
    pub open spec fn with_tabs(self, tabs: TabsView) -> WorkspaceView {
        WorkspaceView { tabs, ..self }
    }

    /// The workspace once its tabs changed and the one at `index` is active.
    pub open spec fn turned_to(self, tabs: TabsView, index: int) -> WorkspaceView {
        self.with_tabs(tabs).activate(index, active_word(self.tabs), self.tabs.visible_words())
    }

    /// The workspace with the tab at `index` active.
    pub open spec fn select(self, index: int) -> WorkspaceView {
        self.turned_to(self.tabs.select_tab(self.tabs.tabs[index].id), index)
    }

    /// The workspace before the tab of a document that is opened becomes active.
    pub open spec fn opening(self, path: PathView, restored_view: Option<SessionView>) -> WorkspaceView {
        if self.tabs.has_path(path) {
            self.with_tabs(self.tabs.open(path))
        } else {
            self.with_document(self.tabs.open(path), restored_view)
        }
    }

    /// Where the tab of a document is once it is open.
    pub open spec fn opened_at(self, path: PathView) -> int {
        if self.tabs.has_path(path) {
            self.tabs.path_of(path)
        } else {
            self.documents.len() as int
        }
    }

    /// The workspace with a document open and active: the tab that shows it already, or a
    /// new one.
    pub open spec fn open(self, path: PathView, restored_view: Option<SessionView>) -> WorkspaceView {
        self.opening(path, restored_view).activate(
            self.opened_at(path),
            active_word(self.tabs),
            self.tabs.visible_words(),
        )
    }

    /// Where the document at `index` stands among the others.
    pub open spec fn context_of(self, index: int, closing: bool) -> EventContext {
        EventContext {
            visible: self.tabs.shows_index(index),
            active: self.tabs.active_index() == Some(index),
            closing,
        }
    }

    /// The workspace once one more restored tab reported.
    pub open spec fn finish_restore(self, opened: bool) -> WorkspaceView {
        let progress = self.restore->0.finished_one(opened);
        WorkspaceView {
            restore: if progress.pending == 0 {
                None
            } else {
                Some(progress)
            },
            ..self
        }
    }
}

/// What opening a document led to.
#[derive(Debug)]
pub struct OpenOutcome {
    pub index: usize,
    /// There was no tab for the document: a worker has to open it.
    pub is_new: bool,
    pub activation: Activation,
}

impl OpenOutcome {
    /// What opening `path` in `workspace` leads to.
    pub open spec fn fits(
        self,
        workspace: WorkspaceView,
        path: PathView,
        restored_view: Option<SessionView>,
    ) -> bool {
        &&& self.is_new == !workspace.tabs.has_path(path)
        &&& self.index == workspace.opened_at(path)
        &&& self.activation.fits(
            workspace.opening(path, restored_view),
            self.index,
            active_word(workspace.tabs),
            workspace.tabs.visible_words(),
        )
    }
}

pub open spec fn opened_status(is_new: bool, shown_path: Seq<char>) -> Seq<char> {
    if is_new {
        "Opening "@ + shown_path + "…"@
    } else {
        "Selected existing tab: "@ + shown_path
    }
}

/// What to say once a document was asked for.
pub fn open_status(is_new: bool, shown_path: &str) -> (res: String)
    ensures
        res@ == opened_status(is_new, shown_path@),
{
    if is_new {
        let mut text = with_text("Opening ", shown_path);
        text.append("…");
        text
    } else {
        with_text("Selected existing tab: ", shown_path)
    }
}

/// What to say of a file that is no PDF.
pub fn not_a_pdf_error(shown_path: &str) -> (res: String)
    ensures
        res@
            == "PDFファイルではないため開けません。拡張子が.pdfのファイルを選択してください。対象: "@ + shown_path@,
{
    with_text(
        "PDFファイルではないため開けません。拡張子が.pdfのファイルを選択してください。対象: ",
        shown_path,
    )
}

/// What to say of a file that cannot be opened.
pub fn cannot_open_error(shown_path: &str, detail: &str) -> (res: String)
    ensures
        res@
            == "PDFを開けませんでした。ファイルの場所とアクセス権限を確認してください。対象: "@ + shown_path@
            + "。詳細: "@ + detail@,
{
    let mut text = with_text(
        "PDFを開けませんでした。ファイルの場所とアクセス権限を確認してください。対象: ",
        shown_path,
    );
    text.append("。詳細: ");
    text.append(detail);
    text
}

/// One more document is one more being restored, if it is.
pub proof fn restoring_count_of_push(documents: Seq<DocumentView>, document: DocumentView)
    ensures
        ({
            let longer = documents.push(document);
            restoring_count(longer, longer.len() as int) == restoring_count(
                documents,
                documents.len() as int,
            ) + (if document.restoring_from_session {
                1int
            } else {
                0
            })
        }),
{
    let longer = documents.push(document);
    restoring_count_of_same(documents, longer, documents.len() as int);
}

/// With one document changed, one more or one less is being restored, if that changed.
pub proof fn restoring_count_of_update(
    documents: Seq<DocumentView>,
    index: int,
    document: DocumentView,
    count: int,
)
    requires
        0 <= count <= documents.len(),
        0 <= index < documents.len(),
    ensures
        ({
            let before = if documents[index].restoring_from_session {
                1int
            } else {
                0
            };
            let after = if document.restoring_from_session {
                1int
            } else {
                0
            };
            restoring_count(documents.update(index, document), count) == restoring_count(
                documents,
                count,
            ) + (if index < count {
                after - before
            } else {
                0
            })
        }),
    decreases count,
{
    if count > 0 {
        restoring_count_of_update(documents, index, document, count - 1);
    }
}

/// A document that is being restored is counted.
pub proof fn restoring_is_counted(documents: Seq<DocumentView>, index: int, count: int)
    requires
        0 <= count <= documents.len(),
    ensures
        restoring_count(documents, count) >= 0,
        0 <= index < count && documents[index].restoring_from_session ==> restoring_count(
            documents,
            count,
        ) >= 1,
    decreases count,
{
    if count > 0 {
        restoring_is_counted(documents, index, count - 1);
    }
}

/// A restored tab is counted exactly when its document was opened.
proof fn restored_means_opened(document: DocumentView, context: EventContext, event: DocumentEvent)
    ensures
        outcome_of(document, context, event).restored == (event is Opened
            && document.restoring_from_session),
{
    reveal(opened_outcome);
    reveal(changed_outcome);
    reveal(failed_outcome);
}

impl Workspace {
    pub fn active_index(&self) -> (res: Option<usize>)
        requires
            self.tabs.wf(),
        ensures
            res == active_word(self@.tabs),
    {
        self.tabs.selected_index()
    }

    /// Makes the tab at `index` active.
    pub fn select_tab(&mut self, index: usize) -> (res: Option<Activation>)
        requires
            old(self).wf(),
        ensures
            final(self).wf(),
            match res {
                None => index >= old(self)@.documents.len() && final(self)@ == old(self)@,
                Some(activation) => index < old(self)@.documents.len() && final(self)@
                    == old(self)@.select(index as int) && activation.fits(
                    old(self)@.with_tabs(
                        old(self)@.tabs.select_tab(old(self)@.tabs.tabs[index as int].id),
                    ),
                    index,
                    active_word(old(self)@.tabs),
                    old(self)@.tabs.visible_words(),
                ),
            },
    {
        let ghost before = self@;
        let previous = self.active_index();
        let previously_visible = self.tabs.visible_indices();
        if !self.tabs.select(index) {
            assert(self@ =~= before);
            return None;
        }
        assert(self@ =~= before.with_tabs(
            before.tabs.select_tab(before.tabs.tabs[index as int].id),
        ));
        assert(self@.paired());
        Some(self.activate_document(index, previous, &previously_visible))
    }

    /// Moves the focus to a pane, if it is there.
    pub fn focus_side(&mut self, side: SplitSide) -> (res: Option<Activation>)
        requires
            old(self).wf(),
        ensures
            final(self).wf(),
            ({
                let visible = old(self)@.tabs.visible();
                let at = if side is First {
                    0
                } else {
                    1int
                };
                let tabs = old(self)@.tabs.select_tab(visible[at]);
                match res {
                    None => at >= visible.len() && final(self)@ == old(self)@,
                    Some(activation) => at < visible.len() && tabs.active_index() is Some
                        && final(self)@ == old(self)@.turned_to(tabs, tabs.active_index()->0)
                        && activation.fits(
                        old(self)@.with_tabs(tabs),
                        tabs.active_index()->0 as usize,
                        active_word(old(self)@.tabs),
                        old(self)@.tabs.visible_words(),
                    ),
                }
            }),
    {
        let ghost before = self@;
        let previous = self.active_index();
        let previously_visible = self.tabs.visible_indices();
        if !self.tabs.focus_side(side) {
            assert(self@ =~= before);
            return None;
        }
        proof {
            crate::panes::panes_show_the_active_tab(before.tabs);
            let visible = before.tabs.visible();
            let at = if side is First {
                0
            } else {
                1int
            };
            crate::tab_laws::registered_is_shown(before.tabs, visible[at]);
            assert(self@ =~= before.with_tabs(before.tabs.select_tab(visible[at])));
        }
        let index = self.active_index();
        match index {
            None => {
                assert(false);
                None
            },
            Some(index) => {
                proof {
                    let tab = self@.tabs.active->0;
                    assert(self@.tabs.registered(tab));
                    assert(self@.tabs.tabs[self@.tabs.registry_of(tab)].id == tab);
                }
                let count: usize = self.documents.len();
                assert(self@.paired());
                Some(self.activate_document(index, previous, &previously_visible))
            },
        }
    }

    /// Makes the tab of the next entry active, round and round.
    pub fn select_next_tab(&mut self) -> (res: Option<Activation>)
        requires
            old(self).wf(),
        ensures
            final(self).wf(),
            match res {
                None => old(self)@.documents.len() == 0 && final(self)@ == old(self)@,
                Some(activation) => {
                    let tabs = old(self)@.tabs;
                    let next = tabs.entries[(entry_of(tabs.entries, tabs.active->0) + 1) % (
                    tabs.entries.len() as int)].focus();
                    &&& tabs.active is Some
                    &&& final(self)@ == old(self)@.select(tabs.registry_of(next))
                    &&& activation.fits(
                        old(self)@.with_tabs(tabs.select_tab(next)),
                        tabs.registry_of(next) as usize,
                        active_word(tabs),
                        tabs.visible_words(),
                    )
                },
            },
    {
        let ghost tabs = self@.tabs;
        let next = self.tabs.next_entry_tab();
        let tab = match next {
            None => {
                proof {
                    if tabs.tabs.len() > 0 {
                        assert(crate::tabs::shown(tabs.entries, tabs.tabs[0].id));
                    }
                }
                return None;
            },
            Some(tab) => tab,
        };
        proof {
            let active = tabs.active->0;
            crate::tab_laws::registered_is_shown(tabs, active);
            let at = (entry_of(tabs.entries, active) + 1) % (tabs.entries.len() as int);
            assert(0 <= at < tabs.entries.len()) by (nonlinear_arith)
                requires
                    tabs.entries.len() > 0,
                    at == (entry_of(tabs.entries, active) + 1) % (tabs.entries.len() as int),
            ;
            assert(tabs.entries[at].has(tab));
            assert(tabs.registered(tab));
        }
        match self.tabs.tab_registry_index(tab) {
            None => {
                assert(false);
                None
            },
            Some(index) => self.select_tab(index),
        }
    }

    fn push_document(&mut self, restored_view: Option<SessionView>)
        requires
            old(self)@.next_document_id < u64::MAX,
        ensures
            final(self).tabs == old(self).tabs,
            final(self)@ == old(self)@.with_document(old(self)@.tabs, restored_view),
            final(self)@.documents.last().wf(),
    {
        let ghost before = self@;
        let document_id: u64 = self.next_document_id;
        self.next_document_id = self.next_document_id + 1;
        self.activity_sequence = self.activity_sequence.wrapping_add(1);
        let document = DocumentTab::new(document_id, self.activity_sequence, restored_view);
        self.documents.push(document);
        assert(self@.documents =~= before.documents.push(document@));
        assert(self@ =~= before.with_document(before.tabs, restored_view));
    }

    /// Opens a document, or selects the tab that shows it already. `restored_view` is where
    /// the last session left it. The tab that is being restored must be counted by the
    /// caller.
    pub fn open_document(&mut self, path: DocumentPath, restored_view: Option<SessionView>) -> (res:
        OpenOutcome)
        requires
            old(self).tabs.wf(),
            old(self)@.paired(),
            !old(self)@.tabs.has_path(path@) ==> old(self)@.tabs.next_tab_id < u64::MAX,
            !old(self)@.tabs.has_path(path@) ==> old(self)@.next_document_id < u64::MAX,
        ensures
            final(self).tabs.wf(),
            final(self)@.paired(),
            final(self)@ == old(self)@.open(path@, restored_view),
            res.fits(old(self)@, path@, restored_view),
            res.index < final(self)@.documents.len(),
            final(self)@.restoring() == old(self)@.restoring() + (if res.is_new && restored_view is Some {
                1int
            } else {
                0
            }),
    {
        let ghost before = self@;
        let ghost asked = path@;
        let previous = self.active_index();
        let previously_visible = self.tabs.visible_indices();
        let result = self.tabs.open(path);
        assert(self@ =~= before.with_tabs(before.tabs.open(asked)));
        match result {
            OpenTabResult::SelectedExisting(index) => {
                proof {
                    let at = before.tabs.path_of(asked);
                    assert(0 <= at < before.tabs.tabs.len());
                    assert(self@.paired());
                }
                let activation = self.activate_document(index, previous, &previously_visible);
                OpenOutcome { index, is_new: false, activation }
            },
            OpenTabResult::Opened(index) => {
                self.push_document(restored_view);
                proof {
                    restoring_count_of_push(before.documents, self@.documents.last());
                    assert(self@ =~= before.opening(asked, restored_view));
                    assert forall|i: int| 0 <= i < self@.documents.len() implies (
                    #[trigger] self@.documents[i]).wf() && can_be_shown(self@.documents[i])
                        && self@.documents[i].open_if_clean() by {
                        if i < before.documents.len() {
                            assert(self@.documents[i] == before.documents[i]);
                        }
                    }
                    assert(self@.paired());
                }
                let activation = self.activate_document(index, previous, &previously_visible);
                OpenOutcome { index, is_new: true, activation }
            },
        }
    }

    /// Takes a report of the worker of the document at `index`, and counts a restored tab.
    /// A document that was never opened has no edits that could fail; `DocumentTab::expects`
    /// tells such a report.
    /// Returns what has to be done, and what to say of the restoring.
    pub fn receive_event(&mut self, index: usize, closing: bool, event: DocumentEvent) -> (res: (
        EventOutcome,
        Option<String>,
    ))
        requires
            old(self).wf(),
            index < old(self)@.documents.len(),
            is_expected(old(self)@.documents[index as int], event),
        ensures
            final(self).wf(),
            ({
                let before = old(self)@;
                let context = before.context_of(index as int, closing);
                let document = before.documents[index as int];
                let after = final(self)@.documents[index as int];
                let received = WorkspaceView {
                    documents: before.documents.update(index as int, after),
                    editor: final(self)@.editor,
                    ..before
                };
                &&& document_received(document, after, context, event)
                &&& editor_received(document, before.editor, final(self)@.editor, event)
                &&& outcome_received(document, res.0, context, event)
                &&& final(self)@ == (if res.0.restored {
                    received.finish_restore(true)
                } else {
                    received
                })
                &&& match res.1 {
                    None => !res.0.restored,
                    Some(status) => res.0.restored && status@
                        == before.restore->0.finished_one(true).shown(),
                }
            }),
    {
        let ghost before = self@;
        let visible = self.tabs.is_visible_index(index);
        let active = match self.active_index() {
            None => false,
            Some(active) => active == index,
        };
        let context = EventContext { visible, active, closing };
        let count: usize = self.documents.len();
        proof {
            if before.tabs.active is Some {
                let tab = before.tabs.active->0;
                assert(before.tabs.registered(tab));
                assert(before.tabs.tabs[before.tabs.registry_of(tab)].id == tab);
                assert(before.tabs.registry_of(tab) < count);
            }
        }
        assert(context == before.context_of(index as int, closing));
        assert(before.documents[index as int] == self.documents@[index as int]@);
        let ghost earlier = self.documents@;
        let outcome = receive_document_event(
            &mut self.documents[index],
            &mut self.editor,
            context,
            event,
        );
        let ghost after = self.documents@[index as int]@;
        proof {
            assert(self.documents@ =~= earlier.update(index as int, self.documents@[index as int]));
            let received = WorkspaceView {
                documents: before.documents.update(index as int, after),
                editor: self@.editor,
                ..before
            };
            assert(self@.documents =~= received.documents);
            assert(self@ =~= received);
            let document = before.documents[index as int];
            assert(document.wf() && can_be_shown(document));
            reports_keep_documents_sound(document, after, context, event);
            restoring_count_of_update(
                before.documents,
                index as int,
                after,
                before.documents.len() as int,
            );
            restoring_is_counted(
                before.documents,
                index as int,
                before.documents.len() as int,
            );
            assert forall|i: int| 0 <= i < self@.documents.len() implies (
            #[trigger] self@.documents[i]).wf() && can_be_shown(self@.documents[i])
                && self@.documents[i].open_if_clean() by {
                if i != index {
                    assert(self@.documents[i] == before.documents[i]);
                }
            }
            restored_means_opened(document, context, event);
        }
        if outcome.restored {
            let status = self.finish_session_restore(true);
            (outcome, Some(status))
        } else {
            (outcome, None)
        }
    }

    /// Notes that one more restored tab was opened, or could not be. Returns what to say.
    pub fn finish_session_restore(&mut self, opened: bool) -> (res: String)
        requires
            old(self).tabs.wf(),
            old(self)@.paired(),
            old(self)@.restore is Some,
            old(self)@.restore->0.wf(),
            old(self)@.restore->0.pending > 0,
            old(self)@.restoring() < old(self)@.restore->0.pending,
        ensures
            final(self).wf(),
            final(self)@ == old(self)@.finish_restore(opened),
            res@ == old(self)@.restore->0.finished_one(opened).shown(),
    {
        let ghost before = self@;
        match self.restore {
            None => {
                assert(false);
                String::new()
            },
            Some(progress) => {
                let mut progress = progress;
                progress.finish_one(opened);
                let status = progress.status();
                self.restore = if progress.pending == 0 {
                    None
                } else {
                    Some(progress)
                };
                assert(self@ =~= before.finish_restore(opened));
                proof {
                    restoring_is_counted(before.documents, 0, before.documents.len() as int);
                }
                status
            },
        }
    }
}

} // verus!

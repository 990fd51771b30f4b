//! Closing a tab, all tabs or the window without losing edits.
use crate::annotation::{editor_view, AnnotationEditor, EditorView};
use crate::document::{path_view, DocumentTab, DocumentView};
use crate::highlight_index::message_view;
use crate::path::{same_path, DocumentPath, PathView};
use crate::tabs::{TabState, TabView};
use crate::text::with_text;
use vstd::prelude::*;

verus! {

/// What is about to close.
#[derive(Clone, Copy, Debug, PartialEq, Eq, Structural)]
pub enum CloseScope {
    Tab,
    AllTabs,
    Window,
}

/// The answer to the question what to do with edits.
#[derive(Clone, Copy, Debug, PartialEq, Eq, Structural)]
pub enum CloseDecision {
    Save,
    Discard,
    Cancel,
}

/// The answer to the question what to do when the session cannot be kept.
#[derive(Clone, Copy, Debug, PartialEq, Eq, Structural)]
pub enum SessionCloseDecision {
    Retry,
    ExitWithoutSession,
    Cancel,
}

/// A question about the edits of one document.
#[derive(Debug)]
pub struct CloseConfirmation {
    pub scope: CloseScope,
    pub path: DocumentPath,
    /// The answer was to save, and the save is not over.
    pub save_in_flight: bool,
}

/// What a `CloseConfirmation` stands for in specifications.
#[verifier::ext_equal]
pub struct ConfirmationView {
    pub scope: CloseScope,
    pub path: PathView,
    pub save_in_flight: bool,
}

impl View for CloseConfirmation {
    type V = ConfirmationView;

    open spec fn view(&self) -> ConfirmationView {
        ConfirmationView {
            scope: self.scope,
            path: self.path@,
            save_in_flight: self.save_in_flight,
        }
    }
}

/// The view of a question that may not be open.
pub open spec fn confirmation_view(confirmation: Option<CloseConfirmation>) -> Option<
    ConfirmationView,
> {
    match confirmation {
        None => None,
        Some(confirmation) => Some(confirmation@),
    }
}

/// What is under way towards closing.
#[derive(Debug)]
pub struct CloseFlow {
    pub confirmation: Option<CloseConfirmation>,
    /// Documents whose edits may be lost, or were just saved.
    pub approved: Vec<DocumentPath>,
    pub allow_window_close: bool,
    pub window_close_pending: bool,
    pub close_all_pending: bool,
    /// Why the session could not be kept.
    pub session_failure: Option<String>,
    /// A tab that closes once every report was read.
    pub saved_tab_to_close: Option<DocumentPath>,
}

/// What a `CloseFlow` stands for in specifications.
#[verifier::ext_equal]
pub struct CloseView {
    pub confirmation: Option<ConfirmationView>,
    pub approved: Seq<PathView>,
    pub allow_window_close: bool,
    pub window_close_pending: bool,
    pub close_all_pending: bool,
    pub session_failure: Option<Seq<char>>,
    pub saved_tab_to_close: Option<PathView>,
}

/// The views of paths.
pub open spec fn path_views(paths: Seq<DocumentPath>) -> Seq<PathView> {
    Seq::new(paths.len(), |i: int| paths[i]@)
}

impl View for CloseFlow {
    type V = CloseView;

    open spec fn view(&self) -> CloseView {
        CloseView {
            confirmation: confirmation_view(self.confirmation),
            approved: path_views(self.approved@),
            allow_window_close: self.allow_window_close,
            window_close_pending: self.window_close_pending,
            close_all_pending: self.close_all_pending,
            session_failure: message_view(self.session_failure),
            saved_tab_to_close: path_view(self.saved_tab_to_close),
        }
    }
}

/// The views of documents.
pub open spec fn document_views(documents: Seq<DocumentTab>) -> Seq<DocumentView> {
    Seq::new(documents.len(), |i: int| documents[i]@)
}

/// A save or a print of the document is under way.
pub open spec fn is_busy(document: DocumentView) -> bool {
    document.save_in_flight || document.print_in_flight
}

/// A save or a print of some document is under way.
pub open spec fn any_busy(documents: Seq<DocumentView>) -> bool {
    exists|i: int| 0 <= i < documents.len() && is_busy(#[trigger] documents[i])
}

/// The edits of a document may be lost.
pub open spec fn is_approved(approved: Seq<PathView>, path: PathView) -> bool {
    exists|k: int| 0 <= k < approved.len() && same_path(#[trigger] approved[k], path)
}

/// The document at `index` has edits that nobody decided about.
pub open spec fn must_ask(
    tabs: Seq<TabView>,
    documents: Seq<DocumentView>,
    approved: Seq<PathView>,
    index: int,
) -> bool {
    documents[index].unsaved() && !is_approved(approved, tabs[index].path)
}

/// The first document, counted from `from`, with edits that nobody decided about.
pub open spec fn first_to_ask(
    tabs: Seq<TabView>,
    documents: Seq<DocumentView>,
    approved: Seq<PathView>,
    from: int,
) -> Option<int>
    decreases documents.len() - from,
{
    if from < 0 || from >= documents.len() {
        None
    } else if must_ask(tabs, documents, approved, from) {
        Some(from)
    } else {
        first_to_ask(tabs, documents, approved, from + 1)
    }
}

/// A question about the document of a tab.
pub open spec fn question(scope: CloseScope, path: PathView) -> Option<ConfirmationView> {
    Some(ConfirmationView { scope, path, save_in_flight: false })
}

impl CloseView {
    /// A tab, all tabs or the window is about to close.
    pub open spec fn closing(self) -> bool {
        self.window_close_pending || self.close_all_pending || self.confirmation is Some
    }

    /// Nothing is under way.
    pub open spec fn idle() -> CloseView {
        CloseView {
            confirmation: None,
            approved: seq![],
            allow_window_close: false,
            window_close_pending: false,
            close_all_pending: false,
            session_failure: None,
            saved_tab_to_close: None,
        }
    }

    /// More than one tab is about to close.
    pub open spec fn bulk(self) -> bool {
        ||| self.window_close_pending
        ||| self.close_all_pending
        ||| self.asks_in_bulk()
        ||| self.allow_window_close
        ||| self.session_failure is Some
    }

    /// The open question belongs to closing more than one tab.
    pub open spec fn asks_in_bulk(self) -> bool {
        self.confirmation is Some && !(self.confirmation->0.scope is Tab)
    }

    /// Closing more than one tab was called off.
    pub open spec fn without_bulk(self) -> CloseView {
        if self.bulk() {
            CloseView {
                confirmation: if self.asks_in_bulk() {
                    None
                } else {
                    self.confirmation
                },
                approved: seq![],
                allow_window_close: false,
                window_close_pending: false,
                close_all_pending: false,
                session_failure: None,
                ..self
            }
        } else {
            self
        }
    }

    /// Everything was called off.
    pub open spec fn cancelled(self) -> CloseView {
        CloseView {
            confirmation: None,
            approved: seq![],
            allow_window_close: false,
            window_close_pending: false,
            close_all_pending: false,
            ..self
        }
    }

    /// The window closes with the next frame.
    pub open spec fn leaving(self) -> CloseView {
        CloseView {
            allow_window_close: true,
            window_close_pending: false,
            confirmation: None,
            ..self
        }
    }

    /// The question is answered, and the document's edits may be lost.
    pub open spec fn approving(self, path: PathView) -> CloseView {
        CloseView {
            confirmation: None,
            approved: if is_approved(self.approved, path) {
                self.approved
            } else {
                self.approved.push(path)
            },
            ..self
        }
    }
}

/// What has to be done next.
#[derive(Debug)]
pub enum CloseStep {
    /// Nothing.
    Rest,
    /// Close the tab of this document.
    CloseTab(DocumentPath),
    /// Go on closing all tabs.
    PromptAll,
    /// Go on closing the window.
    PromptWindow,
    /// Have the document at this index saved.
    Save(usize),
    /// Wait for the save under way.
    WaitForSave,
    /// The closing was called off.
    Cancelled,
}

/// What a `CloseStep` stands for in specifications.
pub enum CloseStepView {
    Rest,
    CloseTab(PathView),
    PromptAll,
    PromptWindow,
    Save(int),
    WaitForSave,
    Cancelled,
}

impl View for CloseStep {
    type V = CloseStepView;

    open spec fn view(&self) -> CloseStepView {
        match self {
            CloseStep::Rest => CloseStepView::Rest,
            CloseStep::CloseTab(path) => CloseStepView::CloseTab(path@),
            CloseStep::PromptAll => CloseStepView::PromptAll,
            CloseStep::PromptWindow => CloseStepView::PromptWindow,
            CloseStep::Save(index) => CloseStepView::Save(*index as int),
            CloseStep::WaitForSave => CloseStepView::WaitForSave,
            CloseStep::Cancelled => CloseStepView::Cancelled,
        }
    }
}

/// How far closing all tabs has come.
#[derive(Clone, Copy, Debug, PartialEq, Eq, Structural)]
pub enum AllTabsPrompt {
    /// A save or a print is under way.
    Wait,
    /// Someone has to decide about a document.
    Ask,
    /// Every tab can close now.
    CloseAll,
}

/// How far closing the window has come.
#[derive(Clone, Copy, Debug, PartialEq, Eq, Structural)]
pub enum WindowPrompt {
    /// Someone has to decide about the session first.
    SessionFailed,
    /// A save or a print is under way.
    Wait,
    /// Tabs of the last session are still opening.
    WaitForRestore,
    /// Someone has to decide about a document.
    Ask,
    /// The session has to be kept, and then the window closes.
    SaveSession,
}

/// How far closing all tabs has come.
pub open spec fn all_tabs_prompt(
    flow: CloseView,
    tabs: Seq<TabView>,
    documents: Seq<DocumentView>,
) -> AllTabsPrompt {
    if any_busy(documents) {
        AllTabsPrompt::Wait
    } else if first_to_ask(tabs, documents, flow.approved, 0) is Some {
        AllTabsPrompt::Ask
    } else {
        AllTabsPrompt::CloseAll
    }
}

/// How far closing the window has come.
pub open spec fn window_prompt(
    flow: CloseView,
    tabs: Seq<TabView>,
    documents: Seq<DocumentView>,
    restoring: bool,
) -> WindowPrompt {
    if flow.session_failure is Some {
        WindowPrompt::SessionFailed
    } else if any_busy(documents) {
        WindowPrompt::Wait
    } else if restoring {
        WindowPrompt::WaitForRestore
    } else if first_to_ask(tabs, documents, flow.approved, 0) is Some {
        WindowPrompt::Ask
    } else {
        WindowPrompt::SaveSession
    }
}

/// What closing one tab leads to.
#[derive(Clone, Copy, Debug, PartialEq, Eq, Structural)]
pub enum TabCloseDecision {
    WaitForSave,
    WaitForPrint,
    /// The editor holds a change of this document.
    EditorFirst,
    /// Someone has to decide about the edits.
    Ask,
    Close,
}

/// What closing the tab of a document leads to.
pub open spec fn tab_close_decision(document: DocumentView, editor: Option<EditorView>) -> TabCloseDecision {
    if document.save_in_flight {
        TabCloseDecision::WaitForSave
    } else if document.print_in_flight {
        TabCloseDecision::WaitForPrint
    } else if crate::annotation::blocks_document(editor, document.document_id) {
        TabCloseDecision::EditorFirst
    } else if document.unsaved() {
        TabCloseDecision::Ask
    } else {
        TabCloseDecision::Close
    }
}

impl TabCloseDecision {
    /// What to say about it.
    pub fn status(self) -> (res: Option<&'static str>)
        ensures
            match res {
                None => !(self is WaitForSave || self is WaitForPrint || self is EditorFirst),
                Some(text) => match self {
                    TabCloseDecision::WaitForSave => text@
                        == "Waiting for the current save before closing…"@,
                    TabCloseDecision::WaitForPrint => text@
                        == "印刷処理の完了を待ってからタブを閉じます…"@,
                    TabCloseDecision::EditorFirst => text@
                        == "注釈編集オーバーレイで変更を確定してください"@,
                    _ => false,
                },
            },
    {
        match self {
            TabCloseDecision::WaitForSave => Some("Waiting for the current save before closing…"),
            TabCloseDecision::WaitForPrint => Some("印刷処理の完了を待ってからタブを閉じます…"),
            TabCloseDecision::EditorFirst => Some(
                "注釈編集オーバーレイで変更を確定してください",
            ),
            _ => None,
        }
    }
}

impl AllTabsPrompt {
    /// What to say about it.
    pub fn status(self) -> (res: Option<&'static str>)
        ensures
            match self {
                AllTabsPrompt::Ask => res is None,
                AllTabsPrompt::Wait => res is Some && res->0@
                    == "保存または印刷の完了を待ってからすべて閉じます…"@,
                AllTabsPrompt::CloseAll => res is Some && res->0@ == "すべてのタブを閉じました"@,
            },
    {
        match self {
            AllTabsPrompt::Ask => None,
            AllTabsPrompt::Wait => Some("保存または印刷の完了を待ってからすべて閉じます…"),
            AllTabsPrompt::CloseAll => Some("すべてのタブを閉じました"),
        }
    }
}

impl WindowPrompt {
    /// What to say about it.
    pub fn status(self) -> (res: Option<&'static str>)
        ensures
            match self {
                WindowPrompt::Wait => res is Some && res->0@
                    == "保存または印刷の完了を待ってから終了します…"@,
                WindowPrompt::WaitForRestore => res is Some && res->0@
                    == "Waiting for session restore before closing…"@,
                _ => res is None,
            },
    {
        match self {
            WindowPrompt::Wait => Some("保存または印刷の完了を待ってから終了します…"),
            WindowPrompt::WaitForRestore => Some("Waiting for session restore before closing…"),
            _ => None,
        }
    }
}

impl CloseStep {
    /// What to say after an answer about a document.
    pub fn status(&self) -> (res: Option<&'static str>)
        ensures
            match self@ {
                CloseStepView::WaitForSave => res is Some && res->0@
                    == "Waiting for the current save before closing…"@,
                CloseStepView::Cancelled => res is Some && res->0@
                    == "閉じる操作をキャンセルしました"@,
                _ => res is None,
            },
    {
        match self {
            CloseStep::WaitForSave => Some("Waiting for the current save before closing…"),
            CloseStep::Cancelled => Some("閉じる操作をキャンセルしました"),
            _ => None,
        }
    }
}

impl SessionCloseDecision {
    /// What to say after it.
    pub fn status(self) -> (res: Option<&'static str>)
        ensures
            match self {
                SessionCloseDecision::Cancel => res is Some && res->0@ == "Close canceled"@,
                _ => res is None,
            },
    {
        match self {
            SessionCloseDecision::Cancel => Some("Close canceled"),
            _ => None,
        }
    }
}

fn any_document_busy(documents: &Vec<DocumentTab>) -> (res: bool)
    ensures
        res == any_busy(document_views(documents@)),
{
    let ghost views = document_views(documents@);
    let mut i: usize = 0;
    while i < documents.len()
        invariant
            i <= documents.len(),
            views == document_views(documents@),
            forall|k: int| 0 <= k < i ==> !is_busy(#[trigger] views[k]),
        decreases documents.len() - i,
    {
        assert(views[i as int] == documents@[i as int]@);
        if documents[i].is_saving() || documents[i].is_printing() {
            assert(is_busy(views[i as int]));
            return true;
        }
        i += 1;
    }
    false
}

fn approved_has(approved: &Vec<DocumentPath>, path: &DocumentPath) -> (res: bool)
    ensures
        res == is_approved(path_views(approved@), path@),
{
    let ghost views = path_views(approved@);
    let mut k: usize = 0;
    while k < approved.len()
        invariant
            k <= approved.len(),
            views == path_views(approved@),
            forall|j: int| 0 <= j < k ==> !same_path(#[trigger] views[j], path@),
        decreases approved.len() - k,
    {
        assert(views[k as int] == approved@[k as int]@);
        if approved[k].same(path) {
            assert(same_path(views[k as int], path@));
            return true;
        }
        k += 1;
    }
    false
}

fn find_to_ask(tabs: &TabState, documents: &Vec<DocumentTab>, approved: &Vec<DocumentPath>) -> (res:
    Option<usize>)
    requires
        tabs.wf(),
        documents@.len() == tabs@.tabs.len(),
    ensures
        match first_to_ask(
            tabs@.tabs,
            document_views(documents@),
            path_views(approved@),
            0,
        ) {
            None => res is None,
            Some(index) => res is Some && res->0 == index && index < documents@.len(),
        },
{
    let ghost views = document_views(documents@);
    let ghost allowed = path_views(approved@);
    let mut i: usize = 0;
    while i < documents.len()
        invariant
            i <= documents.len(),
            tabs.wf(),
            documents@.len() == tabs@.tabs.len(),
            views == document_views(documents@),
            allowed == path_views(approved@),
            first_to_ask(tabs@.tabs, views, allowed, 0) == first_to_ask(
                tabs@.tabs,
                views,
                allowed,
                i as int,
            ),
        decreases documents.len() - i,
    {
        assert(views[i as int] == documents@[i as int]@);
        let all = tabs.tabs();
        if documents[i].has_unsaved_changes() && !approved_has(approved, all[i].path()) {
            return Some(i);
        }
        i += 1;
    }
    None
}

impl CloseFlow {
    pub fn new() -> (res: Self)
        ensures
            res@ == CloseView::idle(),
    {
        let res = CloseFlow {
            confirmation: None,
            approved: Vec::new(),
            allow_window_close: false,
            window_close_pending: false,
            close_all_pending: false,
            session_failure: None,
            saved_tab_to_close: None,
        };
        assert(res@ =~= CloseView::idle());
        res
    }

    /// Whether a tab, all tabs or the window is about to close.
    pub fn is_closing(&self) -> (res: bool)
        ensures
            res == self@.closing(),
    {
        self.window_close_pending || self.close_all_pending || self.confirmation.is_some()
    }

    fn ask(&mut self, scope: CloseScope, path: DocumentPath)
        ensures
            final(self)@ == (CloseView { confirmation: question(scope, path@), ..old(self)@ }),
    {
        let ghost before = self@;
        let ghost asked = path@;
        self.confirmation = Some(CloseConfirmation { scope, path, save_in_flight: false });
        assert(self@ =~= (CloseView { confirmation: question(scope, asked), ..before }));
    }

    /// Decides on closing one tab.
    pub fn close_tab(
        &mut self,
        document: &DocumentTab,
        path: &DocumentPath,
        editor: &Option<AnnotationEditor>,
    ) -> (res: TabCloseDecision)
        ensures
            res == tab_close_decision(document@, editor_view(*editor)),
            final(self)@ == (if res is Ask {
                CloseView { confirmation: question(CloseScope::Tab, path@), ..old(self)@ }
            } else {
                old(self)@
            }),
    {
        // A queued save cannot be taken back.
        if document.is_saving() {
            return TabCloseDecision::WaitForSave;
        }
        if document.is_printing() {
            return TabCloseDecision::WaitForPrint;
        }
        if crate::annotation::editor_blocks_document(editor, document.document_id) {
            return TabCloseDecision::EditorFirst;
        }
        if document.has_unsaved_changes() {
            self.ask(CloseScope::Tab, path.clone());
            return TabCloseDecision::Ask;
        }
        TabCloseDecision::Close
    }

    /// Starts closing all tabs. `editor_blocks` says that an editor holds a change. Says
    /// whether to go on.
    pub fn request_close_all(&mut self, editor_blocks: bool) -> (res: bool)
        ensures
            res == (!old(self)@.window_close_pending && old(self)@.confirmation is None
                && !editor_blocks),
            final(self)@ == (if res {
                CloseView { close_all_pending: true, ..old(self)@ }
            } else {
                old(self)@
            }),
            res ==> final(self)@.close_all_pending && final(self)@.closing(),
            editor_blocks || old(self)@.window_close_pending || old(self)@.confirmation is Some
                ==> !res && final(self)@ == old(self)@,
            final(self)@.approved == old(self)@.approved,
            final(self)@.allow_window_close == old(self)@.allow_window_close,
    {
        let ghost before = self@;
        if self.window_close_pending || self.confirmation.is_some() || editor_blocks {
            return false;
        }
        self.close_all_pending = true;
        assert(self@ =~= (CloseView { close_all_pending: true, ..before }));
        true
    }

    fn forget_approvals(&mut self)
        ensures
            final(self)@ == (CloseView { approved: seq![], ..old(self)@ }),
    {
        let ghost before = self@;
        self.approved.clear();
        assert(self@ =~= (CloseView { approved: seq![], ..before }));
    }

    /// Goes on closing all tabs: waits, asks about the next document, or closes.
    pub fn prompt_next_close_all_document(&mut self, tabs: &TabState, documents: &Vec<DocumentTab>) -> (res:
        AllTabsPrompt)
        requires
            tabs.wf(),
            documents@.len() == tabs@.tabs.len(),
        ensures
            res == all_tabs_prompt(old(self)@, tabs@.tabs, document_views(documents@)),
            final(self)@ == (match res {
                AllTabsPrompt::Wait => old(self)@,
                AllTabsPrompt::Ask => {
                    let index = first_to_ask(
                        tabs@.tabs,
                        document_views(documents@),
                        old(self)@.approved,
                        0,
                    )->0;
                    CloseView {
                        confirmation: question(CloseScope::AllTabs, tabs@.tabs[index].path),
                        ..old(self)@
                    }
                },
                AllTabsPrompt::CloseAll => CloseView {
                    approved: seq![],
                    close_all_pending: false,
                    ..old(self)@
                },
            }),
    {
        let ghost before = self@;
        if any_document_busy(documents) {
            return AllTabsPrompt::Wait;
        }
        if let Some(index) = find_to_ask(tabs, documents, &self.approved) {
            let all = tabs.tabs();
            self.ask(CloseScope::AllTabs, all[index].path().clone());
            return AllTabsPrompt::Ask;
        }
        self.forget_approvals();
        self.close_all_pending = false;
        assert(self@ =~= (CloseView { approved: seq![], close_all_pending: false, ..before }));
        AllTabsPrompt::CloseAll
    }

    /// Goes on closing the window: waits, asks about the next document, or has the session
    /// kept.
    pub fn prompt_next_window_document(
        &mut self,
        tabs: &TabState,
        documents: &Vec<DocumentTab>,
        restoring: bool,
    ) -> (res: WindowPrompt)
        requires
            tabs.wf(),
            documents@.len() == tabs@.tabs.len(),
        ensures
            res == window_prompt(old(self)@, tabs@.tabs, document_views(documents@), restoring),
            final(self)@ == (match res {
                WindowPrompt::Ask => {
                    let index = first_to_ask(
                        tabs@.tabs,
                        document_views(documents@),
                        old(self)@.approved,
                        0,
                    )->0;
                    CloseView {
                        confirmation: question(CloseScope::Window, tabs@.tabs[index].path),
                        ..old(self)@
                    }
                },
                _ => old(self)@,
            }),
    {
        if self.session_failure.is_some() {
            return WindowPrompt::SessionFailed;
        }
        if any_document_busy(documents) {
            return WindowPrompt::Wait;
        }
        // The session is not known before every tab of the last one reported.
        if restoring {
            return WindowPrompt::WaitForRestore;
        }
        if let Some(index) = find_to_ask(tabs, documents, &self.approved) {
            let all = tabs.tabs();
            self.ask(CloseScope::Window, all[index].path().clone());
            return WindowPrompt::Ask;
        }
        WindowPrompt::SaveSession
    }

    /// Notes that the session was kept: the window closes.
    pub fn session_saved(&mut self)
        ensures
            final(self)@ == old(self)@.leaving(),
    {
        let ghost before = self@;
        self.allow_window_close = true;
        self.window_close_pending = false;
        self.confirmation = None;
        assert(self@ =~= before.leaving());
    }

    /// Notes that the session could not be kept: someone has to decide. Returns what to say.
    pub fn session_not_saved(&mut self, detail: &str) -> (res: &'static str)
        ensures
            res@ == "セッションを保存できませんでした。終了方法を選択してください"@,
            final(self)@ == (CloseView {
                session_failure: Some(
                    "セッションを保存できませんでした。保存先の書き込み権限を確認してください。詳細: "@ + detail@,
                ),
                ..old(self)@
            }),
    {
        let ghost before = self@;
        self.session_failure = Some(
            with_text(
                "セッションを保存できませんでした。保存先の書き込み権限を確認してください。詳細: ",
                detail,
            ),
        );
        assert(self@ =~= (CloseView { session_failure: self@.session_failure, ..before }));
        "セッションを保存できませんでした。終了方法を選択してください"
    }

    fn approve(&mut self, path: DocumentPath)
        ensures
            final(self)@ == old(self)@.approving(path@),
            is_approved(final(self)@.approved, path@),
    {
        let ghost before = self@;
        let ghost approved = path@;
        self.confirmation = None;
        if !approved_has(&self.approved, &path) {
            self.approved.push(path);
            assert(self@.approved =~= before.approved.push(approved));
            assert(same_path(self@.approved.last(), approved));
        }
        assert(self@ =~= before.approving(approved));
    }

    /// Notes that a document was saved; a close that waited for it goes on.
    pub fn finish_save_for_close(&mut self, path: &DocumentPath) -> (res: CloseStep)
        ensures
            ({
                let before = old(self)@;
                let matches = before.confirmation is Some && before.confirmation->0.save_in_flight
                    && same_path(before.confirmation->0.path, path@);
                if !matches {
                    final(self)@ == before && res@ is Rest
                } else {
                    match before.confirmation->0.scope {
                        CloseScope::Tab => res@ is Rest && final(self)@ == (CloseView {
                            confirmation: None,
                            saved_tab_to_close: Some(path@),
                            ..before
                        }),
                        CloseScope::AllTabs => res@ is PromptAll && final(self)@
                            == before.approving(path@),
                        CloseScope::Window => res@ is PromptWindow && final(self)@
                            == before.approving(path@),
                    }
                }
            }),
            old(self)@.confirmation is None ==> final(self)@ == old(self)@ && res@ is Rest,
            old(self)@.confirmation is Some && !old(self)@.confirmation->0.save_in_flight
                ==> final(self)@ == old(self)@,
            res@ is PromptAll || res@ is PromptWindow ==> is_approved(final(self)@.approved, path@),
            res@ is PromptAll ==> old(self)@.confirmation->0.scope is AllTabs,
            res@ is PromptWindow ==> old(self)@.confirmation->0.scope is Window,
            final(self)@.saved_tab_to_close != old(self)@.saved_tab_to_close
                ==> final(self)@.saved_tab_to_close == Some(path@)
                && old(self)@.confirmation->0.scope is Tab,
            final(self)@.allow_window_close == old(self)@.allow_window_close,
            !(res@ is CloseTab || res@ is Save || res@ is WaitForSave || res@ is Cancelled),
    {
        let ghost before = self@;
        let scope = match &self.confirmation {
            None => {
                return CloseStep::Rest;
            },
            Some(confirmation) => {
                if !confirmation.save_in_flight || !confirmation.path.same(path) {
                    return CloseStep::Rest;
                }
                confirmation.scope
            },
        };
        match scope {
            CloseScope::Tab => {
                self.confirmation = None;
                self.saved_tab_to_close = Some(path.clone());
                assert(self@ =~= (CloseView {
                    confirmation: None,
                    saved_tab_to_close: Some(path@),
                    ..before
                }));
                CloseStep::Rest
            },
            CloseScope::AllTabs => {
                self.approve(path.clone());
                CloseStep::PromptAll
            },
            CloseScope::Window => {
                self.approve(path.clone());
                CloseStep::PromptWindow
            },
        }
    }

    /// Notes that a document could not be saved; a question about it can be answered again.
    pub fn save_failed(&mut self, path: &DocumentPath)
        ensures
            final(self)@ == (if old(self)@.confirmation is Some && same_path(
                old(self)@.confirmation->0.path,
                path@,
            ) {
                CloseView {
                    confirmation: Some(
                        ConfirmationView { save_in_flight: false, ..old(self)@.confirmation->0 },
                    ),
                    ..old(self)@
                }
            } else {
                old(self)@
            }),
            final(self)@.confirmation is Some == old(self)@.confirmation is Some,
            final(self)@.approved == old(self)@.approved,
            final(self)@.saved_tab_to_close == old(self)@.saved_tab_to_close,
            old(self)@.confirmation is Some && same_path(old(self)@.confirmation->0.path, path@)
                ==> !final(self)@.confirmation->0.save_in_flight,
            old(self)@.confirmation is Some
                ==> final(self)@.confirmation->0.scope == old(self)@.confirmation->0.scope
                && final(self)@.confirmation->0.path == old(self)@.confirmation->0.path,
    {
        let ghost before = self@;
        let ends = match &self.confirmation {
            None => false,
            Some(confirmation) => confirmation.path.same(path),
        };
        if ends {
            self.set_save_in_flight(false);
        }
    }

    fn set_save_in_flight(&mut self, in_flight: bool)
        ensures
            final(self)@ == (CloseView {
                confirmation: match old(self)@.confirmation {
                    None => None,
                    Some(confirmation) => Some(
                        ConfirmationView { save_in_flight: in_flight, ..confirmation },
                    ),
                },
                ..old(self)@
            }),
    {
        let ghost before = self@;
        match &mut self.confirmation {
            None => {},
            Some(confirmation) => {
                confirmation.save_in_flight = in_flight;
            },
        }
        assert(self@ =~= (CloseView { confirmation: self@.confirmation, ..before }));
    }

    /// Takes the answer to the open question. `index` and `saving` tell of the tab that it is
    /// about, if it is still there.
    pub fn apply_close_decision(
        &mut self,
        decision: CloseDecision,
        index: Option<usize>,
        saving: bool,
    ) -> (res: CloseStep)
        ensures
            ({
                let before = old(self)@;
                if before.confirmation is None {
                    final(self)@ == before && res@ is Rest
                } else {
                    let asked = before.confirmation->0;
                    match decision {
                        CloseDecision::Save => match index {
                            None => res@ is Rest && final(self)@ == (CloseView {
                                confirmation: None,
                                ..before
                            }),
                            Some(index) => final(self)@ == before && res@ == (if saving {
                                CloseStepView::WaitForSave
                            } else {
                                CloseStepView::Save(index as int)
                            }),
                        },
                        CloseDecision::Discard => match asked.scope {
                            CloseScope::Tab => res@ == CloseStepView::CloseTab(asked.path)
                                && final(self)@ == (CloseView { confirmation: None, ..before }),
                            CloseScope::AllTabs => res@ is PromptAll && final(self)@
                                == before.approving(asked.path),
                            CloseScope::Window => res@ is PromptWindow && final(self)@
                                == before.approving(asked.path),
                        },
                        CloseDecision::Cancel => res@ is Cancelled && final(self)@
                            == before.cancelled(),
                    }
                }
            }),
            old(self)@.confirmation is None ==> final(self)@ == old(self)@ && res@ is Rest,
            old(self)@.confirmation is Some && decision is Cancel ==> !final(self)@.closing()
                && !final(self)@.allow_window_close && final(self)@.approved.len() == 0
                && res@ is Cancelled,
            decision is Save ==> final(self)@.approved == old(self)@.approved,
            decision is Save && old(self)@.confirmation is Some && index is Some
                ==> final(self)@ == old(self)@ && (res@ is WaitForSave) == saving
                && (res@ is Save) == !saving,
            old(self)@.confirmation is Some && decision is Discard
                ==> final(self)@.confirmation is None,
            old(self)@.confirmation is Some && decision is Discard
                && !(old(self)@.confirmation->0.scope is Tab)
                ==> is_approved(final(self)@.approved, old(self)@.confirmation->0.path),
            res@ is CloseTab ==> decision is Discard && old(self)@.confirmation->0.scope is Tab
                && final(self)@.approved == old(self)@.approved,
            final(self)@.allow_window_close ==> old(self)@.allow_window_close,
            final(self)@.saved_tab_to_close == old(self)@.saved_tab_to_close,
    {
        let ghost before = self@;
        let (scope, path) = match &self.confirmation {
            None => {
                return CloseStep::Rest;
            },
            Some(confirmation) => (confirmation.scope, confirmation.path.clone()),
        };
        match decision {
            CloseDecision::Save => match index {
                None => {
                    self.confirmation = None;
                    assert(self@ =~= (CloseView { confirmation: None, ..before }));
                    CloseStep::Rest
                },
                Some(index) => if saving {
                    CloseStep::WaitForSave
                } else {
                    CloseStep::Save(index)
                },
            },
            CloseDecision::Discard => match scope {
                CloseScope::Tab => {
                    self.confirmation = None;
                    assert(self@ =~= (CloseView { confirmation: None, ..before }));
                    CloseStep::CloseTab(path)
                },
                CloseScope::AllTabs => {
                    self.approve(path);
                    CloseStep::PromptAll
                },
                CloseScope::Window => {
                    self.approve(path);
                    CloseStep::PromptWindow
                },
            },
            CloseDecision::Cancel => {
                self.forget_approvals();
                self.confirmation = None;
                self.allow_window_close = false;
                self.window_close_pending = false;
                self.close_all_pending = false;
                assert(self@ =~= before.cancelled());
                CloseStep::Cancelled
            },
        }
    }

    /// Notes that the worker took the save that the open question was answered with.
    /// Returns what to say.
    pub fn save_for_close_sent(&mut self) -> (res: &'static str)
        ensures
            res@ == "Saving PDF before close…"@,
            final(self)@ == (CloseView {
                confirmation: match old(self)@.confirmation {
                    None => None,
                    Some(confirmation) => Some(
                        ConfirmationView { save_in_flight: true, ..confirmation },
                    ),
                },
                ..old(self)@
            }),
            final(self)@.confirmation is Some == old(self)@.confirmation is Some,
            final(self)@.confirmation is Some ==> final(self)@.confirmation->0.save_in_flight
                && final(self)@.confirmation->0.path == old(self)@.confirmation->0.path,
            final(self)@.approved == old(self)@.approved,
    {
        self.set_save_in_flight(true);
        "Saving PDF before close…"
    }

    /// Takes the answer to the question about the session. Returns what has to be done, and
    /// whether the window closes now.
    pub fn apply_session_close_decision(&mut self, decision: SessionCloseDecision) -> (res: (
        CloseStep,
        bool,
    ))
        ensures
            ({
                let decided = CloseView { session_failure: None, ..old(self)@ };
                match decision {
                    SessionCloseDecision::Retry => res.0@ is PromptWindow && !res.1 && final(self)@
                        == decided,
                    SessionCloseDecision::ExitWithoutSession => res.0@ is Rest && res.1
                        && final(self)@ == decided.leaving(),
                    SessionCloseDecision::Cancel => res.0@ is Cancelled && !res.1 && final(self)@
                        == (CloseView {
                        approved: seq![],
                        allow_window_close: false,
                        window_close_pending: false,
                        ..decided
                    }),
                }
            }),
            res.1 == (decision is ExitWithoutSession),
            final(self)@.session_failure is None,
            decision is ExitWithoutSession ==> final(self)@.allow_window_close,
            decision is Cancel ==> !final(self)@.allow_window_close
                && !final(self)@.window_close_pending && final(self)@.approved.len() == 0,
            decision is Retry
                ==> final(self)@.window_close_pending == old(self)@.window_close_pending
                && final(self)@.approved == old(self)@.approved,
    {
        let ghost before = self@;
        self.session_failure = None;
        let ghost decided = CloseView { session_failure: None, ..before };
        assert(self@ =~= decided);
        match decision {
            SessionCloseDecision::Retry => (CloseStep::PromptWindow, false),
            SessionCloseDecision::ExitWithoutSession => {
                self.session_saved();
                (CloseStep::Rest, true)
            },
            SessionCloseDecision::Cancel => {
                self.forget_approvals();
                self.allow_window_close = false;
                self.window_close_pending = false;
                assert(self@ =~= (CloseView {
                    approved: seq![],
                    allow_window_close: false,
                    window_close_pending: false,
                    ..decided
                }));
                (CloseStep::Cancelled, false)
            },
        }
    }

    /// Takes a request to close the window. Returns whether it has to be refused, and whether
    /// to go on asking.
    pub fn handle_window_close(&mut self, suppress: bool, editor_blocks: bool) -> (res: (bool, bool))
        ensures
            ({
                let before = old(self)@;
                let passed = !suppress && before.allow_window_close;
                let started = !suppress && !before.allow_window_close && !editor_blocks;
                &&& res.0 == !passed
                &&& res.1 == (started && before.confirmation is None)
                &&& final(self)@ == (if started {
                    CloseView { window_close_pending: true, ..before }
                } else if !suppress && !before.allow_window_close {
                    CloseView { window_close_pending: false, ..before }
                } else {
                    before
                })
            }),
            !res.0 ==> old(self)@.allow_window_close && !suppress,
            suppress ==> res.0 && !res.1 && final(self)@ == old(self)@,
            old(self)@.allow_window_close ==> final(self)@ == old(self)@,
            res.1 ==> final(self)@.window_close_pending && final(self)@.confirmation is None,
            !suppress && !old(self)@.allow_window_close
                ==> final(self)@.window_close_pending == !editor_blocks,
            final(self)@.approved == old(self)@.approved,
            final(self)@.confirmation == old(self)@.confirmation,
    {
        let ghost before = self@;
        if suppress {
            return (true, false);
        }
        if self.allow_window_close {
            return (false, false);
        }
        self.window_close_pending = !editor_blocks;
        assert(self@ =~= (CloseView { window_close_pending: !editor_blocks, ..before }));
        (true, !editor_blocks && self.confirmation.is_none())
    }

    /// Calls off closing more than one tab, because another document was asked for.
    pub fn cancel_bulk_close_for_external_open(&mut self)
        ensures
            final(self)@ == old(self)@.without_bulk(),
    {
        let ghost before = self@;
        let asks_in_bulk = match &self.confirmation {
            None => false,
            Some(confirmation) => confirmation.scope != CloseScope::Tab,
        };
        let bulk = self.window_close_pending || self.close_all_pending || asks_in_bulk
            || self.allow_window_close || self.session_failure.is_some();
        if !bulk {
            return;
        }
        self.forget_approvals();
        if asks_in_bulk {
            self.confirmation = None;
        }
        self.allow_window_close = false;
        self.window_close_pending = false;
        self.close_all_pending = false;
        self.session_failure = None;
        assert(self@ =~= before.without_bulk());
    }

    /// Whether closing the window goes on once every report was read.
    pub fn should_prompt_window(&self, documents: &Vec<DocumentTab>) -> (res: bool)
        ensures
            res == (self@.window_close_pending && self@.confirmation is None
                && self@.session_failure is None && !any_busy(document_views(documents@))),
    {
        self.window_close_pending && self.confirmation.is_none() && self.session_failure.is_none()
            && !any_document_busy(documents)
    }

    /// Whether closing all tabs goes on once every report was read.
    pub fn should_prompt_all(&self, documents: &Vec<DocumentTab>) -> (res: bool)
        ensures
            res == (self@.close_all_pending && self@.confirmation is None && !any_busy(
                document_views(documents@),
            )),
    {
        self.close_all_pending && self.confirmation.is_none() && !any_document_busy(documents)
    }
}

proof fn none_to_ask_before(
    tabs: Seq<TabView>,
    documents: Seq<DocumentView>,
    approved: Seq<PathView>,
    from: int,
)
    requires
        0 <= from <= documents.len(),
    ensures
        match first_to_ask(tabs, documents, approved, from) {
            None => forall|i: int|
                from <= i < documents.len() ==> !#[trigger] must_ask(tabs, documents, approved, i),
            Some(index) => from <= index < documents.len() && must_ask(
                tabs,
                documents,
                approved,
                index,
            ) && forall|i: int|
                from <= i < index ==> !#[trigger] must_ask(tabs, documents, approved, i),
        },
    decreases documents.len() - from,
{
    if from < documents.len() && !must_ask(tabs, documents, approved, from) {
        none_to_ask_before(tabs, documents, approved, from + 1);
    }
}

/// No edit is lost unless someone said so: the window closes, or all tabs do, only when
/// nothing is being saved and every document with edits was decided about.
pub proof fn nothing_closes_over_undecided_edits(
    flow: CloseView,
    tabs: Seq<TabView>,
    documents: Seq<DocumentView>,
    restoring: bool,
    index: int,
)
    requires
        tabs.len() == documents.len(),
        0 <= index < documents.len(),
        window_prompt(flow, tabs, documents, restoring) is SaveSession || all_tabs_prompt(
            flow,
            tabs,
            documents,
        ) is CloseAll,
    ensures
        !is_busy(documents[index]),
        documents[index].unsaved() ==> is_approved(flow.approved, tabs[index].path),
{
    none_to_ask_before(tabs, documents, flow.approved, 0);
    assert(!must_ask(tabs, documents, flow.approved, index));
    if is_busy(documents[index]) {
        assert(any_busy(documents));
    }
}

/// Only documents with edits that nobody decided about are asked about, and the first such
/// document comes first.
pub proof fn questions_are_about_undecided_edits(
    tabs: Seq<TabView>,
    documents: Seq<DocumentView>,
    approved: Seq<PathView>,
)
    requires
        first_to_ask(tabs, documents, approved, 0) is Some,
    ensures
        ({
            let index = first_to_ask(tabs, documents, approved, 0)->0;
            &&& 0 <= index < documents.len()
            &&& documents[index].unsaved()
            &&& !is_approved(approved, tabs[index].path)
            &&& forall|i: int|
                0 <= i < index ==> !#[trigger] must_ask(tabs, documents, approved, i)
        }),
{
    none_to_ask_before(tabs, documents, approved, 0);
}

/// Nobody is asked twice: what was decided about stays decided, and the same document is not
/// asked about again.
pub proof fn nobody_is_asked_twice(
    flow: CloseView,
    tabs: Seq<TabView>,
    documents: Seq<DocumentView>,
    path: PathView,
    index: int,
)
    requires
        0 <= index < documents.len(),
        same_path(path, tabs[index].path) || is_approved(flow.approved, tabs[index].path),
    ensures
        !must_ask(tabs, documents, flow.approving(path).approved, index),
{
    let after = flow.approving(path).approved;
    if is_approved(flow.approved, tabs[index].path) {
        let k = choose|k: int|
            0 <= k < flow.approved.len() && same_path(
                #[trigger] flow.approved[k],
                tabs[index].path,
            );
        assert(after[k] == flow.approved[k]);
    } else if is_approved(flow.approved, path) {
        let k = choose|k: int|
            0 <= k < flow.approved.len() && same_path(#[trigger] flow.approved[k], path);
        assert(same_path(flow.approved[k], tabs[index].path));
    } else {
        assert(after[flow.approved.len() as int] == path);
    }
}

/// Calling off leaves nothing under way.
pub proof fn calling_off_ends_it(flow: CloseView)
    ensures
        !flow.cancelled().closing(),
        !flow.cancelled().allow_window_close,
        !flow.without_bulk().bulk(),
        flow.without_bulk().confirmation is Some ==> flow.confirmation
            == flow.without_bulk().confirmation,
{
}

} // verus!

//! The open documents with their tabs: opening, selecting, suspending and removing them.
use crate::annotation::{editor_view, AnnotationEditor, EditorView};
use crate::close_flow::document_views;
use crate::controls::{contains_index, tab_reveal_for_selection_change};
use crate::document::{
    lists, lists_pending, DocumentState, DocumentTab, DocumentVersion, DocumentView,
};
use crate::rendering::{TextSnapshotKey, TileRequest};
use crate::session::SessionView;
use crate::tabs::{TabState, TabsView};
use crate::text::{decimal, decimal_text, is_blank, with_text};
use crate::view::ViewState;
use vstd::prelude::*;

verus! {

/// How far the tabs of the last session have come.
#[derive(Clone, Copy, Debug, PartialEq, Eq, Structural)]
pub struct SessionRestoreProgress {
    pub requested: usize,
    pub pending: usize,
    pub restored: usize,
    pub skipped: usize,
}

impl SessionRestoreProgress {
    /// Every tab is pending, restored or skipped.
    pub open spec fn wf(self) -> bool {
        self.pending + self.restored + self.skipped == self.requested
    }

    /// The progress once one more tab reported.
    pub open spec fn finished_one(self, opened: bool) -> SessionRestoreProgress {
        SessionRestoreProgress {
            pending: (self.pending - 1) as usize,
            restored: if opened {
                (self.restored + 1) as usize
            } else {
                self.restored
            },
            skipped: if opened {
                self.skipped
            } else {
                (self.skipped + 1) as usize
            },
            ..self
        }
    }

    /// What to say about the progress.
    pub open spec fn shown(self) -> Seq<char> {
        if self.pending > 0 {
            "Restoring session: "@ + decimal((self.restored + self.skipped) as nat) + "/"@
                + decimal(self.requested as nat) + " checked"@
        } else {
            "Restored "@ + decimal(self.restored as nat) + " tabs; skipped "@ + decimal(
                self.skipped as nat,
            ) + " unavailable files"@
        }
    }

    /// Notes that one more tab was opened, or could not be.
    pub fn finish_one(&mut self, opened: bool)
        requires
            old(self).wf(),
            old(self).pending > 0,
        ensures
            final(self).wf(),
            *final(self) == old(self).finished_one(opened),
    {
        self.pending = self.pending - 1;
        if opened {
            self.restored = self.restored + 1;
        } else {
            self.skipped = self.skipped + 1;
        }
    }

    /// Says how far the tabs have come.
    pub fn status(&self) -> (res: String)
        requires
            self.wf(),
        ensures
            res@ == self.shown(),
    {
        if self.pending > 0 {
            let completed = decimal_text((self.restored + self.skipped) as u64);
            let requested = decimal_text(self.requested as u64);
            let mut text = with_text("Restoring session: ", completed.as_str());
            text.append("/");
            text.append(requested.as_str());
            text.append(" checked");
            text
        } else {
            let restored = decimal_text(self.restored as u64);
            let skipped = decimal_text(self.skipped as u64);
            let mut text = with_text("Restored ", restored.as_str());
            text.append(" tabs; skipped ");
            text.append(skipped.as_str());
            text.append(" unavailable files");
            text
        }
    }
}

impl DocumentView {
    /// The document once it is in no pane: nothing for the screen is waited for.
    pub open spec fn hidden(self) -> DocumentView {
        DocumentView {
            tiles: self.tiles.quiet(),
            search: self.search.abandoned(),
            ..self.without_texts().without_annotations()
        }
    }

    /// The document in a pane: with a worker.
    pub open spec fn shown(self) -> DocumentView {
        if self.state is Suspended {
            self.resumed()
        } else {
            self
        }
    }

    /// The document that was selected last.
    pub open spec fn selected_at(self, sequence: u64) -> DocumentView {
        DocumentView { last_selected_sequence: sequence, ..self }
    }

    /// The document ready for another pane.
    pub open spec fn moved_to_pane(self) -> DocumentView {
        DocumentView {
            view: ViewState { autoscroll: None, ..self.view.holding_center() },
            ..self
        }
    }
}

/// What has to be taken back from the worker of a document that left the screen.
#[derive(Debug)]
pub struct LeftScreen {
    pub index: usize,
    pub tiles: Vec<TileRequest>,
    pub texts: Vec<TextSnapshotKey>,
    pub search_generation: u64,
}

/// A document that needs a new worker, which must find this state of the file.
#[derive(Debug)]
pub struct Resumed {
    pub index: usize,
    pub version: DocumentVersion,
    pub tiles: Vec<TileRequest>,
    /// The generation of the highlight index to announce to the new worker, if it was started.
    pub highlight_generation: Option<u64>,
}

impl LeftScreen {
    /// What has to be taken back for `document`.
    pub open spec fn matches(self, document: DocumentView) -> bool {
        &&& lists_pending(self.tiles@, document.tiles.pending)
        &&& lists(self.texts@, document.texts.pending)
        &&& self.search_generation == document.search.generation.wrapping_add(1)
    }
}

impl Resumed {
    /// The new worker for `document`.
    pub open spec fn matches(self, document: DocumentView) -> bool {
        &&& document.info is Some
        &&& self.version == document.info->0.version
        &&& lists_pending(self.tiles@, document.tiles.pending)
        &&& self.highlight_generation == (if document.highlight_index.started {
            Some(document.highlight_index.generation)
        } else {
            None
        })
    }
}

/// Documents without edits were opened.
pub open spec fn clean_documents_are_open(documents: Seq<DocumentView>) -> bool {
    forall|i: int| 0 <= i < documents.len() ==> (#[trigger] documents[i]).open_if_clean()
}

/// A suspended document was open before.
pub open spec fn can_be_shown(document: DocumentView) -> bool {
    document.state is Suspended ==> document.info is Some
}

impl DocumentTab {
    /// Notes that the document is in no pane any more.
    pub fn leave_screen(&mut self, index: usize) -> (res: LeftScreen)
        ensures
            final(self)@ == old(self)@.hidden(),
            res.index == index,
            res.matches(old(self)@),
    {
        let tiles = self.tiles.cancel_rendering_requests();
        let texts = self.invalidate_text_snapshots();
        self.invalidate_annotation_pages();
        self.search.abandon();
        LeftScreen { index, tiles, texts, search_generation: self.search.generation }
    }

    /// Puts the document in a pane. A suspended one needs a new worker.
    pub fn enter_screen(&mut self, index: usize) -> (res: Option<Resumed>)
        requires
            can_be_shown(old(self)@),
        ensures
            final(self)@ == old(self)@.shown(),
            match res {
                None => !(old(self)@.state is Suspended),
                Some(resumed) => old(self)@.state is Suspended && resumed.index == index
                    && resumed.matches(old(self)@),
            },
    {
        if self.state != DocumentState::Suspended {
            return None;
        }
        let (version, tiles, highlight_generation) = self.resume();
        Some(Resumed { index, version, tiles, highlight_generation })
    }

    /// Whether a search has to be started once the document is active.
    pub fn wants_search(&self) -> (res: bool)
        ensures
            res == (!is_blank(self@.search.query) && !self@.search.in_progress),
    {
        self.search.has_query() && !self.search.in_progress
    }
}

/// The open documents with their tabs.
#[derive(Debug)]
pub struct Workspace {
    pub tabs: TabState,
    /// One for each tab, in the order of the registry.
    pub documents: Vec<DocumentTab>,
    pub next_document_id: u64,
    pub activity_sequence: u64,
    pub tab_to_reveal: Option<usize>,
    pub editor: Option<AnnotationEditor>,
    /// The document whose annotations are offered for a choice.
    pub picker_document: Option<u64>,
    pub restore: Option<SessionRestoreProgress>,
}

/// What a `Workspace` stands for in specifications.
#[verifier::ext_equal]
pub struct WorkspaceView {
    pub tabs: TabsView,
    pub documents: Seq<DocumentView>,
    pub next_document_id: u64,
    pub activity_sequence: u64,
    pub tab_to_reveal: Option<usize>,
    pub editor: Option<EditorView>,
    pub picker_document: Option<u64>,
    pub restore: Option<SessionRestoreProgress>,
}

impl View for Workspace {
    type V = WorkspaceView;

    open spec fn view(&self) -> WorkspaceView {
        WorkspaceView {
            tabs: self.tabs@,
            documents: document_views(self.documents@),
            next_document_id: self.next_document_id,
            activity_sequence: self.activity_sequence,
            tab_to_reveal: self.tab_to_reveal,
            editor: editor_view(self.editor),
            picker_document: self.picker_document,
            restore: self.restore,
        }
    }
}

/// How many of the first `count` documents are being restored.
pub open spec fn restoring_count(documents: Seq<DocumentView>, count: int) -> int
    decreases count,
{
    if count <= 0 {
        0
    } else if documents[count - 1].restoring_from_session {
        restoring_count(documents, count - 1) + 1
    } else {
        restoring_count(documents, count - 1)
    }
}

/// How many tabs of the last session have not reported.
pub open spec fn restores_pending(restore: Option<SessionRestoreProgress>) -> int {
    match restore {
        None => 0,
        Some(progress) => progress.pending as int,
    }
}

/// The index of the active tab as a machine word.
pub open spec fn active_word(tabs: TabsView) -> Option<usize> {
    match tabs.active_index() {
        None => None,
        Some(index) => Some(index as usize),
    }
}

/// What becomes of one document when the active tab changes: it comes to rest, leaves the
/// screen, comes to it, and is the one selected last, as the arguments say.
#[verifier::opaque]
pub open spec fn activated(
    document: DocumentView,
    stops: bool,
    leaves: bool,
    shows: bool,
    sequence: Option<u64>,
) -> DocumentView {
    selected_if(shown_if(hidden_if(document.still(stops), leaves), shows), sequence)
}

pub open spec fn hidden_if(document: DocumentView, leaves: bool) -> DocumentView {
    if leaves {
        document.hidden()
    } else {
        document
    }
}

pub open spec fn shown_if(document: DocumentView, shows: bool) -> DocumentView {
    if shows {
        document.shown()
    } else {
        document
    }
}

pub open spec fn selected_if(document: DocumentView, sequence: Option<u64>) -> DocumentView {
    match sequence {
        None => document,
        Some(sequence) => document.selected_at(sequence),
    }
}

proof fn activation_keeps(
    document: DocumentView,
    stops: bool,
    leaves: bool,
    shows: bool,
    sequence: Option<u64>,
)
    requires
        document.wf(),
        can_be_shown(document),
        document.open_if_clean(),
    ensures
        ({
            let after = activated(document, stops, leaves, shows, sequence);
            &&& after.wf()
            &&& can_be_shown(after)
            &&& after.open_if_clean()
            &&& after.restoring_from_session == document.restoring_from_session
        }),
{
    reveal(activated);
}

impl WorkspaceView {
    /// A workspace without documents.
    pub open spec fn fresh() -> WorkspaceView {
        WorkspaceView {
            tabs: TabsView {
                tabs: seq![],
                entries: seq![],
                active: None,
                next_tab_id: 0,
                next_split_group_id: 0,
            },
            documents: seq![],
            next_document_id: 1,
            activity_sequence: 0,
            tab_to_reveal: None,
            editor: None,
            picker_document: None,
            restore: None,
        }
    }

    /// There is one document for each tab, each of which can be shown, and was opened if it is
    /// clean.
    pub open spec fn paired(self) -> bool {
        &&& self.tabs.wf()
        &&& clean_documents_are_open(self.documents)
        &&& self.documents.len() == self.tabs.tabs.len()
        &&& forall|i: int|
            0 <= i < self.documents.len() ==> (#[trigger] self.documents[i]).wf() && can_be_shown(
                self.documents[i],
            )
    }

    /// How many documents are being restored.
    pub open spec fn restoring(self) -> int {
        restoring_count(self.documents, self.documents.len() as int)
    }

    /// The invariant: one document for each tab, each of which can be shown and was opened if it
    /// is clean, and a report awaited for each tab that is being restored.
    pub open spec fn wf(self) -> bool {
        &&& self.paired()
        &&& self.restore is Some ==> self.restore->0.wf()
        &&& self.restoring() <= restores_pending(self.restore)
    }

    /// What becomes of the document at `i` when the tab at `index` becomes active.
    pub open spec fn document_activated(
        self,
        index: int,
        previous: Option<usize>,
        was_visible: Seq<usize>,
        i: int,
    ) -> DocumentView {
        activated(
            self.documents[i],
            i != index && previous == Some(i as usize),
            was_visible.contains(i as usize) && !self.tabs.shows_index(i),
            self.tabs.shows_index(i),
            if i == index {
                Some(self.activity_sequence.wrapping_add(1))
            } else {
                None
            },
        )
    }

    /// The workspace once the tab at `index` is active. Documents that left the screen stop
    /// waiting for what it needs, and those that came to it have a worker.
    pub open spec fn activate(
        self,
        index: int,
        previous: Option<usize>,
        was_visible: Seq<usize>,
    ) -> WorkspaceView {
        WorkspaceView {
            documents: Seq::new(
                self.documents.len(),
                |i: int| self.document_activated(index, previous, was_visible, i),
            ),
            activity_sequence: self.activity_sequence.wrapping_add(1),
            tab_to_reveal: if previous == Some(index as usize) {
                self.tab_to_reveal
            } else {
                Some(index as usize)
            },
            ..self
        }
    }

    /// Which documents left the screen.
    pub open spec fn leaves_screen(self, was_visible: Seq<usize>) -> spec_fn(int) -> bool {
        |i: int| was_visible.contains(i as usize) && !self.tabs.shows_index(i)
    }

    /// Which documents are on the screen.
    pub open spec fn on_screen(self) -> spec_fn(int) -> bool {
        |i: int| self.tabs.shows_index(i)
    }

    /// The workspace with other tabs and one more document.
    pub open spec fn with_document(self, tabs: TabsView, restored_view: Option<SessionView>) -> WorkspaceView {
        WorkspaceView {
            tabs,
            documents: self.documents.push(
                DocumentView::fresh(
                    self.next_document_id,
                    self.activity_sequence.wrapping_add(1),
                    restored_view,
                ),
            ),
            next_document_id: (self.next_document_id + 1) as u64,
            activity_sequence: self.activity_sequence.wrapping_add(1),
            ..self
        }
    }
}

/// Which documents left the screen: each once, in order, with what to take back.
pub open spec fn lists_left(
    left: Seq<LeftScreen>,
    before: Seq<DocumentView>,
    count: int,
    leaves: spec_fn(int) -> bool,
) -> bool {
    &&& forall|k: int|
        0 <= k < left.len() ==> (#[trigger] left[k]).index < count && leaves(left[k].index as int)
            && left[k].matches(before[left[k].index as int])
    &&& forall|k: int, j: int|
        0 <= k < j < left.len() ==> (#[trigger] left[k]).index < (#[trigger] left[j]).index
    &&& forall|i: int| 0 <= i < count && #[trigger] leaves(i) ==> has_left(left, i)
}

pub open spec fn has_left(left: Seq<LeftScreen>, index: int) -> bool {
    exists|k: int| 0 <= k < left.len() && (#[trigger] left[k]).index == index
}

/// Which documents need a new worker: each once, in order, with what it takes.
pub open spec fn lists_resumed(
    resumed: Seq<Resumed>,
    before: Seq<DocumentView>,
    count: int,
    shows: spec_fn(int) -> bool,
) -> bool {
    &&& forall|k: int|
        0 <= k < resumed.len() ==> (#[trigger] resumed[k]).index < count && shows(
            resumed[k].index as int,
        ) && before[resumed[k].index as int].state is Suspended && resumed[k].matches(
            before[resumed[k].index as int],
        )
    &&& forall|k: int, j: int|
        0 <= k < j < resumed.len() ==> (#[trigger] resumed[k]).index < (
        #[trigger] resumed[j]).index
    &&& forall|i: int|
        0 <= i < count && #[trigger] shows(i) && before[i].state is Suspended ==> has_resumed(
            resumed,
            i,
        )
}

pub open spec fn has_resumed(resumed: Seq<Resumed>, index: int) -> bool {
    exists|k: int| 0 <= k < resumed.len() && (#[trigger] resumed[k]).index == index
}

/// What has to be done once another tab is active.
#[derive(Debug)]
pub struct Activation {
    /// The panes must give up what the pointer was doing.
    pub cancel_viewports: bool,
    pub left: Vec<LeftScreen>,
    pub resumed: Vec<Resumed>,
    pub begin_search: bool,
}

impl Activation {
    /// What has to be done once the tab at `index` of `workspace` is active.
    pub open spec fn fits(
        self,
        workspace: WorkspaceView,
        index: usize,
        previous: Option<usize>,
        was_visible: Seq<usize>,
    ) -> bool {
        let after = workspace.activate(index as int, previous, was_visible);
        &&& self.cancel_viewports == (previous is Some && previous != Some(index))
        &&& lists_left(
            self.left@,
            workspace.documents,
            workspace.documents.len() as int,
            workspace.leaves_screen(was_visible),
        )
        &&& lists_resumed(
            self.resumed@,
            workspace.documents,
            workspace.documents.len() as int,
            workspace.on_screen(),
        )
        &&& self.begin_search == (!is_blank(after.documents[index as int].search.query)
            && !after.documents[index as int].search.in_progress)
    }
}

impl Activation {
    /// What to say of it, if a suspended document came to the screen.
    pub fn status(&self) -> (res: Option<&'static str>)
        ensures
            match res {
                None => self.resumed@.len() == 0,
                Some(status) => self.resumed@.len() > 0 && status@
                    == "Reopening suspended PDF after external-change check…"@,
            },
    {
        if self.resumed.len() > 0 {
            Some("Reopening suspended PDF after external-change check…")
        } else {
            None
        }
    }
}

/// Documents that agree on which of them are being restored have as many of those.
pub proof fn restoring_count_of_same(a: Seq<DocumentView>, b: Seq<DocumentView>, count: int)
    requires
        0 <= count <= a.len(),
        count <= b.len(),
        forall|i: int|
            0 <= i < count ==> (#[trigger] a[i]).restoring_from_session
                == b[i].restoring_from_session,
    ensures
        restoring_count(a, count) == restoring_count(b, count),
    decreases count,
{
    if count > 0 {
        restoring_count_of_same(a, b, count - 1);
    }
}

fn stop_one(document: &mut DocumentTab, stops: bool)
    ensures
        final(document)@ == old(document)@.still(stops),
{
    if stops {
        document.view.stop_autoscroll();
    }
}

fn hide_one(document: &mut DocumentTab, index: usize, leaves: bool) -> (res: Option<LeftScreen>)
    ensures
        final(document)@ == hidden_if(old(document)@, leaves),
        match res {
            None => !leaves,
            Some(left) => leaves && left.index == index && left.matches(old(document)@),
        },
{
    if leaves {
        Some(document.leave_screen(index))
    } else {
        None
    }
}

pub(crate) fn show_one(document: &mut DocumentTab, index: usize, shows: bool) -> (res: Option<Resumed>)
    requires
        can_be_shown(old(document)@),
    ensures
        final(document)@ == shown_if(old(document)@, shows),
        match res {
            None => !(shows && old(document)@.state is Suspended),
            Some(resumed) => shows && old(document)@.state is Suspended && resumed.index == index
                && resumed.matches(old(document)@),
        },
{
    if shows {
        document.enter_screen(index)
    } else {
        None
    }
}

pub(crate) fn select_one(document: &mut DocumentTab, sequence: Option<u64>)
    ensures
        final(document)@ == selected_if(old(document)@, sequence),
{
    if let Some(sequence) = sequence {
        document.last_selected_sequence = sequence;
    }
}

fn activate_one(
    document: &mut DocumentTab,
    index: usize,
    stops: bool,
    leaves: bool,
    shows: bool,
    sequence: Option<u64>,
) -> (res: (Option<LeftScreen>, Option<Resumed>))
    requires
        can_be_shown(old(document)@),
        !(leaves && shows),
    ensures
        final(document)@ == activated(old(document)@, stops, leaves, shows, sequence),
        match res.0 {
            None => !leaves,
            Some(left) => leaves && left.index == index && left.matches(old(document)@),
        },
        match res.1 {
            None => !(shows && old(document)@.state is Suspended),
            Some(resumed) => shows && old(document)@.state is Suspended && resumed.index == index
                && resumed.matches(old(document)@),
        },
{
    proof {
        reveal(activated);
    }
    stop_one(document, stops);
    let left = hide_one(document, index, leaves);
    let resumed = show_one(document, index, shows);
    select_one(document, sequence);
    (left, resumed)
}

/// What becomes of the document at `i`.
pub open spec fn activated_at(
    before: Seq<DocumentView>,
    visible: Seq<usize>,
    was_visible: Seq<usize>,
    previous: Option<usize>,
    index: usize,
    sequence: u64,
    i: int,
) -> DocumentView {
    activated(
        before[i],
        i != index && previous == Some(i as usize),
        was_visible.contains(i as usize) && !visible.contains(i as usize),
        visible.contains(i as usize),
        if i == index {
            Some(sequence)
        } else {
            None
        },
    )
}

/// The predicate of leaving the screen.
pub open spec fn leaving(visible: Seq<usize>, was_visible: Seq<usize>) -> spec_fn(int) -> bool {
    |i: int| was_visible.contains(i as usize) && !visible.contains(i as usize)
}

/// The predicate of being on the screen.
pub open spec fn showing(visible: Seq<usize>) -> spec_fn(int) -> bool {
    |i: int| visible.contains(i as usize)
}

fn activate_all(
    documents: &mut Vec<DocumentTab>,
    visible: &Vec<usize>,
    was_visible: &Vec<usize>,
    previous: Option<usize>,
    index: usize,
    sequence: u64,
) -> (res: (Vec<LeftScreen>, Vec<Resumed>))
    requires
        forall|k: int| 0 <= k < old(documents)@.len() ==> can_be_shown((#[trigger] old(documents)@[k])@),
    ensures
        final(documents)@.len() == old(documents)@.len(),
        forall|k: int|
            0 <= k < old(documents)@.len() ==> (#[trigger] final(documents)@[k])@ == activated_at(
                document_views(old(documents)@),
                visible@,
                was_visible@,
                previous,
                index,
                sequence,
                k,
            ),
        lists_left(
            res.0@,
            document_views(old(documents)@),
            old(documents)@.len() as int,
            leaving(visible@, was_visible@),
        ),
        lists_resumed(
            res.1@,
            document_views(old(documents)@),
            old(documents)@.len() as int,
            showing(visible@),
        ),
{
    let ghost before = document_views(documents@);
    let mut left: Vec<LeftScreen> = Vec::new();
    let mut resumed: Vec<Resumed> = Vec::new();
    let mut i: usize = 0;
    while i < documents.len()
        invariant
            i <= documents.len(),
            documents@.len() == before.len(),
            before == document_views(old(documents)@),
            old(documents)@.len() == before.len(),
            forall|k: int| 0 <= k < before.len() ==> can_be_shown(#[trigger] before[k]),
            forall|k: int|
                0 <= k < i ==> (#[trigger] documents@[k])@ == activated_at(
                    before,
                    visible@,
                    was_visible@,
                    previous,
                    index,
                    sequence,
                    k,
                ),
            forall|k: int|
                i <= k < documents@.len() ==> (#[trigger] documents@[k])@ == before[k],
            lists_left(left@, before, i as int, leaving(visible@, was_visible@)),
            lists_resumed(resumed@, before, i as int, showing(visible@)),
        decreases documents.len() - i,
    {
        let shows = contains_index(visible, i);
        let leaves = contains_index(was_visible, i) && !shows;
        let stops = match previous {
            None => false,
            Some(previous) => previous == i && i != index,
        };
        let selected = if i == index {
            Some(sequence)
        } else {
            None
        };
        let ghost earlier = documents@;
        let ghost left_before = left@;
        let ghost resumed_before = resumed@;
        assert(can_be_shown(before[i as int]));
        assert(documents@[i as int]@ == before[i as int]);
        let (one_left, one_resumed) = activate_one(
            &mut documents[i],
            i,
            stops,
            leaves,
            shows,
            selected,
        );
        assert(documents@ =~= earlier.update(i as int, documents@[i as int]));
        if let Some(one_left) = one_left {
            left.push(one_left);
        }
        if let Some(one_resumed) = one_resumed {
            resumed.push(one_resumed);
        }
        proof {
            left_grows(left_before, left@, before, i as int, leaving(visible@, was_visible@));
            resumed_grows(resumed_before, resumed@, before, i as int, showing(visible@));
        }
        i += 1;
    }
    (left, resumed)
}

impl Workspace {
    pub open spec fn wf(&self) -> bool {
        self.tabs.wf() && self@.wf()
    }

    pub fn new() -> (res: Self)
        ensures
            res.wf(),
            res@ == WorkspaceView::fresh(),
    {
        let res = Workspace {
            tabs: TabState::new(),
            documents: Vec::new(),
            next_document_id: 1,
            activity_sequence: 0,
            tab_to_reveal: None,
            editor: None,
            picker_document: None,
            restore: None,
        };
        assert(res@ =~= WorkspaceView::fresh());
        res
    }

    /// Carries the documents along after the tab at `index` became active.
    pub fn activate_document(
        &mut self,
        index: usize,
        previous: Option<usize>,
        previously_visible: &Vec<usize>,
    ) -> (res: Activation)
        requires
            old(self).tabs.wf(),
            old(self)@.paired(),
            index < old(self)@.documents.len(),
        ensures
            final(self).tabs.wf(),
            final(self)@.paired(),
            final(self)@.restoring() == old(self)@.restoring(),
            final(self)@ == old(self)@.activate(index as int, previous, previously_visible@),
            res.fits(old(self)@, index, previous, previously_visible@),
    {
        let ghost before = self@;
        if let Some(reveal) = tab_reveal_for_selection_change(previous, index) {
            self.tab_to_reveal = Some(reveal);
        }
        let changed = match previous {
            None => false,
            Some(previous) => previous != index,
        };
        let visible = self.tabs.visible_indices();
        self.activity_sequence = self.activity_sequence.wrapping_add(1);
        let sequence: u64 = self.activity_sequence;
        let count: usize = self.documents.len();
        assert(before.documents.len() == count);
        assert forall|k: int| 0 <= k < self.documents@.len() implies can_be_shown(
            (#[trigger] self.documents@[k])@,
        ) by {
            assert(before.documents[k] == self.documents@[k]@);
        }
        let (left, resumed) = activate_all(
            &mut self.documents,
            &visible,
            previously_visible,
            previous,
            index,
            sequence,
        );
        proof {
            let after = before.activate(index as int, previous, previously_visible@);
            assert forall|k: int| 0 <= k < before.documents.len() implies (
            #[trigger] self@.documents[k]) == after.documents[k] by {
                assert(self@.documents[k] == self.documents@[k]@);
                assert(before.tabs.shows_index(k as usize as int) == visible@.contains(k as usize));
            }
            assert(self@.documents =~= after.documents);
            assert(self@ =~= after);
            assert forall|k: int| 0 <= k < after.documents.len() implies (
            #[trigger] after.documents[k]).wf() && can_be_shown(after.documents[k])
                && after.documents[k].open_if_clean() && before.documents[k].restoring_from_session
                == after.documents[k].restoring_from_session by {
                assert(before.documents[k].wf() && can_be_shown(before.documents[k]));
                activation_keeps(
                    before.documents[k],
                    k != index && previous == Some(k as usize),
                    previously_visible@.contains(k as usize) && !before.tabs.shows_index(k),
                    before.tabs.shows_index(k),
                    if k == index {
                        Some(before.activity_sequence.wrapping_add(1))
                    } else {
                        None
                    },
                );
            }
            restoring_count_of_same(
                before.documents,
                after.documents,
                before.documents.len() as int,
            );
            left_told(left@, before, visible@, previously_visible@);
            resumed_told(resumed@, before, visible@);
        }
        let begin_search = self.documents[index].wants_search();
        Activation { cancel_viewports: changed, left, resumed, begin_search }
    }
}

proof fn left_told(
    left: Seq<LeftScreen>,
    workspace: WorkspaceView,
    visible: Seq<usize>,
    was_visible: Seq<usize>,
)
    requires
        workspace.documents.len() <= usize::MAX,
        lists_left(
            left,
            workspace.documents,
            workspace.documents.len() as int,
            leaving(visible, was_visible),
        ),
        forall|k: usize| #[trigger]
            workspace.tabs.shows_index(k as int) == visible.contains(k),
    ensures
        lists_left(
            left,
            workspace.documents,
            workspace.documents.len() as int,
            workspace.leaves_screen(was_visible),
        ),
{
    let leaves = workspace.leaves_screen(was_visible);
    assert forall|i: int|
        0 <= i < workspace.documents.len() && #[trigger] leaves(i) implies has_left(left, i) by {
        assert(workspace.tabs.shows_index(i as usize as int) == visible.contains(i as usize));
        assert(leaving(visible, was_visible)(i));
    }
    assert forall|k: int| 0 <= k < left.len() implies leaves(
        (#[trigger] left[k]).index as int,
    ) by {
        assert(leaving(visible, was_visible)(left[k].index as int));
        assert(workspace.tabs.shows_index(left[k].index as int) == visible.contains(
            left[k].index,
        ));
    }
}

proof fn resumed_told(resumed: Seq<Resumed>, workspace: WorkspaceView, visible: Seq<usize>)
    requires
        workspace.documents.len() <= usize::MAX,
        lists_resumed(
            resumed,
            workspace.documents,
            workspace.documents.len() as int,
            showing(visible),
        ),
        forall|k: usize| #[trigger]
            workspace.tabs.shows_index(k as int) == visible.contains(k),
    ensures
        lists_resumed(
            resumed,
            workspace.documents,
            workspace.documents.len() as int,
            workspace.on_screen(),
        ),
{
    let shows = workspace.on_screen();
    assert forall|i: int|
        0 <= i < workspace.documents.len() && #[trigger] shows(i)
            && workspace.documents[i].state is Suspended implies has_resumed(resumed, i) by {
        assert(workspace.tabs.shows_index(i as usize as int) == visible.contains(i as usize));
        assert(showing(visible)(i));
    }
    assert forall|k: int| 0 <= k < resumed.len() implies shows(
        (#[trigger] resumed[k]).index as int,
    ) by {
        assert(showing(visible)(resumed[k].index as int));
        assert(workspace.tabs.shows_index(resumed[k].index as int) == visible.contains(
            resumed[k].index,
        ));
    }
}

proof fn left_grows(
    shorter: Seq<LeftScreen>,
    longer: Seq<LeftScreen>,
    before: Seq<DocumentView>,
    count: int,
    leaves: spec_fn(int) -> bool,
)
    requires
        count >= 0,
        lists_left(shorter, before, count, leaves),
        if leaves(count) {
            &&& longer.len() == shorter.len() + 1
            &&& longer == shorter.push(longer.last())
            &&& longer.last().index == count
            &&& longer.last().matches(before[count])
        } else {
            longer == shorter
        },
    ensures
        lists_left(longer, before, count + 1, leaves),
{
    assert forall|i: int| 0 <= i < count + 1 && #[trigger] leaves(i) implies has_left(longer, i) by {
        if i < count {
            assert(has_left(shorter, i));
            let k = choose|k: int| 0 <= k < shorter.len() && (#[trigger] shorter[k]).index == i;
            assert(longer[k].index == i);
        } else {
            assert(longer[shorter.len() as int].index == i);
        }
    }
    assert forall|k: int| 0 <= k < longer.len() implies (#[trigger] longer[k]).index < count + 1
        && leaves(longer[k].index as int) && longer[k].matches(
        before[longer[k].index as int],
    ) by {
        if k < shorter.len() {
            assert(longer[k] == shorter[k]);
        }
    }
    assert forall|k: int, j: int| 0 <= k < j < longer.len() implies (#[trigger] longer[k]).index < (
    #[trigger] longer[j]).index by {
        assert(longer[k] == shorter[k]);
        if j < shorter.len() {
            assert(longer[j] == shorter[j]);
        }
    }
}

/// With one more document looked at, the list of those that need a worker is still complete.
pub proof fn resumed_grows(
    shorter: Seq<Resumed>,
    longer: Seq<Resumed>,
    before: Seq<DocumentView>,
    count: int,
    shows: spec_fn(int) -> bool,
)
    requires
        count >= 0,
        lists_resumed(shorter, before, count, shows),
        if shows(count) && before[count].state is Suspended {
            &&& longer.len() == shorter.len() + 1
            &&& longer == shorter.push(longer.last())
            &&& longer.last().index == count
            &&& longer.last().matches(before[count])
        } else {
            longer == shorter
        },
    ensures
        lists_resumed(longer, before, count + 1, shows),
{
    assert forall|i: int|
        0 <= i < count + 1 && #[trigger] shows(i) && before[i].state is Suspended implies has_resumed(
        longer,
        i,
    ) by {
        if i < count {
            assert(has_resumed(shorter, i));
            let k = choose|k: int| 0 <= k < shorter.len() && (#[trigger] shorter[k]).index == i;
            assert(longer[k].index == i);
        } else {
            assert(longer[shorter.len() as int].index == i);
        }
    }
    assert forall|k: int| 0 <= k < longer.len() implies (#[trigger] longer[k]).index < count + 1
        && shows(longer[k].index as int) && before[longer[k].index as int].state is Suspended
        && longer[k].matches(before[longer[k].index as int]) by {
        if k < shorter.len() {
            assert(longer[k] == shorter[k]);
        }
    }
    assert forall|k: int, j: int| 0 <= k < j < longer.len() implies (#[trigger] longer[k]).index < (
    #[trigger] longer[j]).index by {
        assert(longer[k] == shorter[k]);
        if j < shorter.len() {
            assert(longer[j] == shorter[j]);
        }
    }
}

} // verus!

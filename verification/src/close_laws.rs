//! When something closes, what is asked before, and what the keys do.
use crate::annotation::EditorView;
use crate::close_flow::{
    all_tabs_prompt, first_to_ask, is_approved, must_ask, question, tab_close_decision,
    window_prompt, CloseScope, CloseView,
};
use crate::document::DocumentView;
use crate::path::PathView;
use crate::search::all_matches;
use crate::search::matches_are_distinct;
use crate::search::SearchView;
use crate::shortcuts::{
    document_after_escape, editor_after_escape, escape_outcome, hit_message, EscapeOutcome,
    FocusedField,
};
use crate::tabs::TabView;
use crate::text::decimal;
use vstd::prelude::*;

verus! {

/// Whether someone decided about a document's path.
pub open spec fn is_decided(approved: Seq<PathView>, path: PathView) -> bool {
    exists|k: int| 0 <= k < approved.len() && (#[trigger] approved[k]).parts == path.parts
}

/// A document is asked about exactly if it has something to lose and nobody decided about it.
pub proof fn undecided_edits_are_asked_about(
    tabs: Seq<TabView>,
    documents: Seq<DocumentView>,
    approved: Seq<PathView>,
    index: int,
)
    ensures
        must_ask(tabs, documents, approved, index) == (documents[index].unsaved() && !is_decided(
            approved,
            tabs[index].path,
        )),
{
    let path = tabs[index].path;
    if is_decided(approved, path) {
        let k = choose|k: int| 0 <= k < approved.len() && (#[trigger] approved[k]).parts == path.parts;
        assert(is_approved(approved, path));
    }
    if is_approved(approved, path) {
        let k = choose|k: int|
            0 <= k < approved.len() && crate::path::same_path(#[trigger] approved[k], path);
        assert(approved[k].parts == path.parts);
    }
}

proof fn first_to_ask_is(
    tabs: Seq<TabView>,
    documents: Seq<DocumentView>,
    approved: Seq<PathView>,
    from: int,
)
    requires
        0 <= from <= documents.len(),
    ensures
        match first_to_ask(tabs, documents, approved, from) {
            None => forall|i: int|
                from <= i < documents.len() ==> !#[trigger] must_ask(tabs, documents, approved, i),
            Some(index) => from <= index < documents.len() && must_ask(
                tabs,
                documents,
                approved,
                index,
            ) && forall|i: int|
                from <= i < index ==> !#[trigger] must_ask(tabs, documents, approved, i),
        },
    decreases documents.len() - from,
{
    if from < documents.len() && !must_ask(tabs, documents, approved, from) {
        first_to_ask_is(tabs, documents, approved, from + 1);
    }
}

/// Whether a save or a print is under way in some document.
pub open spec fn something_runs(documents: Seq<DocumentView>) -> bool {
    exists|i: int|
        0 <= i < documents.len() && ((#[trigger] documents[i]).save_in_flight
            || documents[i].print_in_flight)
}

/// Whether some document has edits that nobody decided about.
pub open spec fn something_is_undecided(
    tabs: Seq<TabView>,
    documents: Seq<DocumentView>,
    approved: Seq<PathView>,
) -> bool {
    exists|i: int|
        0 <= i < documents.len() && (#[trigger] documents[i]).unsaved() && !is_decided(
            approved,
            tabs[i].path,
        )
}

proof fn prompts_rest_on(tabs: Seq<TabView>, documents: Seq<DocumentView>, approved: Seq<PathView>)
    ensures
        crate::close_flow::any_busy(documents) == something_runs(documents),
        (first_to_ask(tabs, documents, approved, 0) is Some) == something_is_undecided(
            tabs,
            documents,
            approved,
        ),
{
    first_to_ask_is(tabs, documents, approved, 0);
    if something_runs(documents) {
        let i = choose|i: int|
            0 <= i < documents.len() && ((#[trigger] documents[i]).save_in_flight
                || documents[i].print_in_flight);
        assert(crate::close_flow::is_busy(documents[i]));
    }
    if crate::close_flow::any_busy(documents) {
        let i = choose|i: int|
            0 <= i < documents.len() && crate::close_flow::is_busy(#[trigger] documents[i]);
        assert(documents[i].save_in_flight || documents[i].print_in_flight);
    }
    if something_is_undecided(tabs, documents, approved) {
        let i = choose|i: int|
            0 <= i < documents.len() && (#[trigger] documents[i]).unsaved() && !is_decided(
                approved,
                tabs[i].path,
            );
        undecided_edits_are_asked_about(tabs, documents, approved, i);
        assert(must_ask(tabs, documents, approved, i));
    }
    if first_to_ask(tabs, documents, approved, 0) is Some {
        let i = first_to_ask(tabs, documents, approved, 0)->0;
        undecided_edits_are_asked_about(tabs, documents, approved, i);
        assert(documents[i].unsaved());
    }
}

/// All tabs close at once when nothing runs and nothing is undecided. While something runs, that is
/// waited for; else someone is asked.
pub proof fn all_tabs_close_when_all_is_decided(
    flow: CloseView,
    tabs: Seq<TabView>,
    documents: Seq<DocumentView>,
)
    ensures
        (all_tabs_prompt(flow, tabs, documents) is Wait) == something_runs(documents),
        (all_tabs_prompt(flow, tabs, documents) is Ask) == (!something_runs(documents)
            && something_is_undecided(tabs, documents, flow.approved)),
        (all_tabs_prompt(flow, tabs, documents) is CloseAll) == (!something_runs(documents)
            && !something_is_undecided(tabs, documents, flow.approved)),
{
    prompts_rest_on(tabs, documents, flow.approved);
}

/// The session is written, and the window may close, when the session did not just fail to be
/// written, nothing runs, nothing is being restored and nothing is undecided; what comes first in
/// this order is dealt with first.
pub proof fn the_window_closes_when_all_is_decided(
    flow: CloseView,
    tabs: Seq<TabView>,
    documents: Seq<DocumentView>,
    restoring: bool,
)
    ensures
        ({
            let prompt = window_prompt(flow, tabs, documents, restoring);
            let failed = flow.session_failure is Some;
            let runs = something_runs(documents);
            let undecided = something_is_undecided(tabs, documents, flow.approved);
            &&& (prompt is SessionFailed) == failed
            &&& (prompt is Wait) == (!failed && runs)
            &&& (prompt is WaitForRestore) == (!failed && !runs && restoring)
            &&& (prompt is Ask) == (!failed && !runs && !restoring && undecided)
            &&& (prompt is SaveSession) == (!failed && !runs && !restoring && !undecided)
        }),
{
    prompts_rest_on(tabs, documents, flow.approved);
}

/// A tab closes at once exactly if nothing runs in it, its annotation is not being edited and it has
/// nothing to lose. A save or a print that runs is waited for, an editor comes first, and then its
/// edits are asked about.
pub proof fn a_tab_closes_when_nothing_is_left(document: DocumentView, editor: Option<EditorView>)
    ensures
        ({
            let decision = tab_close_decision(document, editor);
            let editing = editor is Some && editor->0.document_id == document.document_id && (
            editor->0.dirty || editor->0.mutation_in_flight);
            let runs = document.save_in_flight || document.print_in_flight;
            &&& (decision is WaitForSave) == document.save_in_flight
            &&& (decision is WaitForPrint) == (!document.save_in_flight && document.print_in_flight)
            &&& (decision is EditorFirst) == (!runs && editing)
            &&& (decision is Ask) == (!runs && !editing && document.unsaved())
            &&& (decision is Close) == (!runs && !editing && !document.unsaved())
        }),
{
}

/// A decision about a document is kept with those before it and ends the question; nothing else
/// changes.
pub proof fn decisions_are_kept(flow: CloseView, path: PathView, other: PathView)
    ensures
        is_decided(flow.approving(path).approved, path),
        is_decided(flow.approved, other) ==> is_decided(flow.approving(path).approved, other),
        is_decided(flow.approving(path).approved, other) ==> is_decided(flow.approved, other)
            || other.parts == path.parts,
        flow.approving(path).confirmation is None,
        flow.approving(path) == (CloseView {
            confirmation: None,
            approved: flow.approving(path).approved,
            ..flow
        }),
{
    let before = flow.approved;
    let after = flow.approving(path).approved;
    if is_approved(before, path) {
        let k = choose|k: int|
            0 <= k < before.len() && crate::path::same_path(#[trigger] before[k], path);
        assert(before[k].parts == path.parts);
    } else {
        assert(after[before.len() as int].parts == path.parts);
        if is_decided(before, other) {
            let k = choose|k: int|
                0 <= k < before.len() && (#[trigger] before[k]).parts == other.parts;
            assert(after[k].parts == other.parts);
        }
        if is_decided(after, other) {
            let k = choose|k: int|
                0 <= k < after.len() && (#[trigger] after[k]).parts == other.parts;
            if k < before.len() {
                assert(before[k].parts == other.parts);
            }
        }
    }
}

/// Once the session is written the window may close, and nobody is asked any more. Calling off ends
/// every close that is under way, and forgets what was decided.
pub proof fn leaving_and_calling_off(flow: CloseView)
    ensures
        flow.leaving() == (CloseView {
            allow_window_close: true,
            window_close_pending: false,
            confirmation: None,
            ..flow
        }),
        flow.cancelled() == (CloseView {
            confirmation: None,
            approved: seq![],
            allow_window_close: false,
            window_close_pending: false,
            close_all_pending: false,
            ..flow
        }),
{
}

/// A file that is opened from outside calls off the closing of all tabs or of the window, with its
/// question; a question about one tab stays.
pub proof fn opening_calls_off_what_closes_more_than_a_tab(flow: CloseView)
    ensures
        ({
            let after = flow.without_bulk();
            &&& !after.window_close_pending
            &&& !after.close_all_pending
            &&& !after.allow_window_close
            &&& after.session_failure is None
            &&& flow.confirmation is Some && flow.confirmation->0.scope is Tab
                ==> after.confirmation == flow.confirmation
            &&& flow.confirmation is Some && !(flow.confirmation->0.scope is Tab)
                ==> after.confirmation is None
            &&& after.saved_tab_to_close == flow.saved_tab_to_close
            &&& !flow.window_close_pending && !flow.close_all_pending && !flow.allow_window_close
                && flow.session_failure is None && (flow.confirmation is None
                || flow.confirmation->0.scope is Tab) ==> after == flow
        }),
{
}

/// A question names what is asked about, and no save runs for it yet.
pub proof fn questions_name_the_document(scope: CloseScope, path: PathView)
    ensures
        question(scope, path) is Some,
        question(scope, path)->0.scope == scope,
        question(scope, path)->0.path == path,
        !question(scope, path)->0.save_in_flight,
{
}

/// Escape leaves the field that is typed in first, then the editor, then the search.
pub proof fn escape_goes_outwards(
    document: DocumentView,
    editor: Option<EditorView>,
    focus: FocusedField,
)
    ensures
        ({
            let outcome = escape_outcome(document, editor, focus);
            let editing = editor is Some && editor->0.document_id == document.document_id;
            let searching = document.search.query.len() > 0 || document.search.pages.len() > 0;
            let typing = focus is PageNumber || focus is Query;
            &&& (outcome is LeaveField) == ((editing && focus is Comment) || (!editing && typing))
            &&& (outcome is Editor) == (editing && !(focus is Comment))
            &&& (outcome is EndSearch) == (!editing && !typing && searching)
            &&& (outcome is Nothing) == (!editing && !typing && !searching)
        }),
{
}

/// Escape ends the search where it gets that far, puts the page number back where that was typed in,
/// and stops autoscroll; nothing else of the document changes.
pub proof fn escape_changes_little(
    document: DocumentView,
    editor: Option<EditorView>,
    focus: FocusedField,
)
    ensures
        ({
            let after = document_after_escape(document, editor, focus);
            let outcome = escape_outcome(document, editor, focus);
            let editing = editor is Some && editor->0.document_id == document.document_id;
            &&& after.view.autoscroll is None
            &&& after.view.current_page == document.view.current_page
            &&& after.view.zoom_bits == document.view.zoom_bits
            &&& outcome is EndSearch ==> after.search.query.len() == 0
                && after.search.pages.len() == 0 && after.search.selected is None
                && !after.search.in_progress && outcome == EscapeOutcome::EndSearch(
                after.search.generation,
            )
            &&& !(outcome is EndSearch) ==> after.search == document.search
            &&& !editing && focus is PageNumber ==> after.page_input == decimal(
                (document.view.current_page + 1) as nat,
            ) && after.page_input_error is None
            &&& editing || !(focus is PageNumber) ==> after.page_input == document.page_input
                && after.page_input_error == document.page_input_error
            &&& after == (DocumentView {
                view: after.view,
                search: after.search,
                page_input: after.page_input,
                page_input_error: after.page_input_error,
                ..document
            })
        }),
{
}

/// An editor with a change that is not saved, or that is being saved, stays open with a notice; any
/// other one closes.
pub proof fn escape_keeps_unsaved_changes(editor: EditorView)
    ensures
        (editor_after_escape(editor) is None) == (!editor.dirty && !editor.mutation_in_flight),
        editor.dirty || editor.mutation_in_flight ==> editor_after_escape(editor)->0 == (EditorView {
            notice: editor_after_escape(editor)->0.notice,
            ..editor
        }) && editor_after_escape(editor)->0.notice is Some,
{
}

/// A hit is announced with its place among all hits and its page, both counted from one.
pub proof fn hits_are_announced_from_one(search: SearchView, i: int)
    requires
        search.wf(),
        0 <= i < all_matches(search.pages).len(),
    ensures
        ({
            let cursor = all_matches(search.pages)[i];
            hit_message(search, cursor) == "Search result "@ + decimal((i + 1) as nat)
                + " on page "@ + decimal((cursor.page_index + 1) as nat)
        }),
{
    matches_are_distinct(search.pages);
    let matches = all_matches(search.pages);
    assert(matches.contains(matches[i]));
    let at = matches.index_of(matches[i]);
    assert(matches[at] == matches[i]);
}

} // verus!

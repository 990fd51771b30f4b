//! What a session that is brought back keeps.
use crate::document::DocumentView;
use crate::path::{same_path, PathView};
use crate::restore::{resolved, restored_active};
use crate::restore_laws::{
    capturing_a_restored_layout_gives_it_back, opens_registry, registry_ids,
    restored_layout_is_accepted,
};
use crate::session::{
    repeats_path, session_error, tabs_error, SessionModel, SessionTabModel, SessionView,
};
use crate::startup::{
    brought_back, found_before, found_before_grows, kept_session, kept_tab, kept_tabs, reopened,
    reopened_tab, reopened_tabs,
};
use crate::tab_laws::open_keeps_wf;
use crate::tabs::{TabId, TabView};
use crate::view::restored_view_is_remembered;
use crate::workspace::{activated, active_word, WorkspaceView};
use vstd::prelude::*;

verus! {

/// No file is found for two saved tabs.
pub open spec fn found_once(found: Seq<Option<PathView>>) -> bool {
    forall|i: int, j: int|
        #![trigger found[i], found[j]]
        0 <= i < j < found.len() && found[i] is Some && found[j] is Some ==> !same_path(
            found[i]->0,
            found[j]->0,
        )
}

/// The saved tab at `i` has the place `j` among those whose file was found.
pub open spec fn found_at(found: Seq<Option<PathView>>, i: int, j: int) -> bool {
    found[i] is Some && found_before(found, i) == j
}

/// One of the first `count` saved tabs has the place `j` among those whose file was found.
pub open spec fn has_place(found: Seq<Option<PathView>>, count: int, j: int) -> bool {
    exists|i: int| 0 <= i < count && #[trigger] found_at(found, i, j)
}

/// Whether it leaves or comes to the screen, a document stays where it was in its file.
proof fn activation_keeps_the_place(
    document: DocumentView,
    stops: bool,
    leaves: bool,
    shows: bool,
    sequence: Option<u64>,
)
    ensures
        activated(document, stops, leaves, shows, sequence).view.remembered()
            == document.view.remembered(),
{
    reveal(activated);
}

/// Opening another document leaves those that are open where they were in their files; the
/// new one is where it was left.
proof fn opening_keeps_the_places(workspace: WorkspaceView, path: PathView, left: SessionView)
    requires
        !workspace.tabs.has_path(path),
    ensures
        ({
            let after = workspace.open(path, Some(left));
            let last = workspace.documents.len() as int;
            &&& after.documents.len() == last + 1
            &&& after.documents[last].view.remembered() == left
            &&& forall|i: int|
                0 <= i < last ==> (#[trigger] after.documents[i]).view.remembered()
                    == workspace.documents[i].view.remembered()
        }),
{
    let opening = workspace.opening(path, Some(left));
    let index = workspace.documents.len() as int;
    let previous = active_word(workspace.tabs);
    let was_visible = workspace.tabs.visible_words();
    let after = workspace.open(path, Some(left));
    restored_view_is_remembered(left);
    assert forall|i: int| 0 <= i < after.documents.len() implies (
    #[trigger] after.documents[i]).view.remembered() == opening.documents[i].view.remembered() by {
        activation_keeps_the_place(
            opening.documents[i],
            i != index && previous == Some(i as usize),
            was_visible.contains(i as usize) && !opening.tabs.shows_index(i),
            opening.tabs.shows_index(i),
            if i == index {
                Some(opening.activity_sequence.wrapping_add(1))
            } else {
                None
            },
        );
    }
    assert forall|i: int| 0 <= i < index implies (#[trigger] after.documents[i]).view.remembered()
        == workspace.documents[i].view.remembered() by {
        assert(opening.documents[i] == workspace.documents[i]);
    }
}

proof fn reopening_registers_in_order(
    tabs: Seq<SessionTabModel>,
    found: Seq<Option<PathView>>,
    count: int,
)
    requires
        0 <= count <= found.len(),
        found.len() < u64::MAX,
        found_once(found),
    ensures
        ({
            let registry = reopened(WorkspaceView::fresh(), tabs, found, count).tabs;
            let documents = reopened(WorkspaceView::fresh(), tabs, found, count).documents;
            &&& registry.wf()
            &&& documents.len() == registry.tabs.len()
            &&& registry.tabs.len() == found_before(found, count)
            &&& registry.next_tab_id == found_before(found, count)
            &&& 0 <= found_before(found, count) <= count
            &&& forall|j: int|
                0 <= j < registry.tabs.len() ==> (#[trigger] registry.tabs[j]).id == TabId(
                    j as u64,
                )
            &&& forall|i: int, j: int|
                0 <= i < count && #[trigger] found_at(found, i, j) ==> 0 <= j
                    < registry.tabs.len() && registry.tabs[j].path == found[i]->0
                    && documents[j].view.remembered() == tabs[i].view
            &&& forall|j: int|
                0 <= j < registry.tabs.len() ==> #[trigger] has_place(found, count, j)
        }),
    decreases count,
{
    let fresh = WorkspaceView::fresh();
    if count == 0 {
        assert(fresh.tabs.wf());
    } else {
        reopening_registers_in_order(tabs, found, count - 1);
        let before = reopened(fresh, tabs, found, count - 1);
        let after = reopened(fresh, tabs, found, count);
        match found[count - 1] {
            None => {
                assert forall|j: int| 0 <= j < after.tabs.tabs.len() implies #[trigger] has_place(
                    found,
                    count,
                    j,
                ) by {
                    assert(has_place(found, count - 1, j));
                    let i = choose|i: int| 0 <= i < count - 1 && #[trigger] found_at(found, i, j);
                    assert(found_at(found, i, j));
                }
            },
            Some(path) => {
                if before.tabs.has_path(path) {
                    let j = before.tabs.path_of(path);
                    assert(same_path(before.tabs.tabs[j].path, path));
                    assert(has_place(found, count - 1, j));
                    let i = choose|i: int| 0 <= i < count - 1 && #[trigger] found_at(found, i, j);
                    assert(before.tabs.tabs[j].path == found[i]->0);
                    assert(found[i] is Some && found[count - 1] is Some);
                }
                open_keeps_wf(before.tabs, path);
                opening_keeps_the_places(before, path, tabs[count - 1].view);
                let place = before.tabs.tabs.len() as int;
                assert(after.tabs.tabs == before.tabs.tabs.push(
                    TabView { id: TabId(place as u64), path },
                ));
                assert forall|i: int, j: int|
                    0 <= i < count && #[trigger] found_at(found, i, j) implies 0 <= j
                    < after.tabs.tabs.len() && after.tabs.tabs[j].path == found[i]->0
                    && after.documents[j].view.remembered() == tabs[i].view by {
                    if i < count - 1 {
                        assert(found_at(found, i, j));
                        assert(after.tabs.tabs[j] == before.tabs.tabs[j]);
                        assert(after.documents[j].view.remembered()
                            == before.documents[j].view.remembered());
                    }
                }
                assert forall|j: int| 0 <= j < after.tabs.tabs.len() implies #[trigger] has_place(
                    found,
                    count,
                    j,
                ) by {
                    if j < place {
                        assert(has_place(found, count - 1, j));
                        let i = choose|i: int|
                            0 <= i < count - 1 && #[trigger] found_at(found, i, j);
                        assert(found_at(found, i, j));
                    } else {
                        assert(found_at(found, count - 1, j));
                    }
                }
            },
        }
    }
}

proof fn reopened_tab_is(tabs: Seq<SessionTabModel>, found: Seq<Option<PathView>>, index: int)
    requires
        0 <= index < found.len(),
        found.len() < u64::MAX,
        found_once(found),
    ensures
        reopened_tab(WorkspaceView::fresh(), tabs, found, index) == (if found[index] is Some {
            Some(TabId(found_before(found, index) as u64))
        } else {
            None
        }),
{
    if found[index] is Some {
        let fresh = WorkspaceView::fresh();
        reopening_registers_in_order(tabs, found, index);
        reopening_registers_in_order(tabs, found, index + 1);
        let before = reopened(fresh, tabs, found, index);
        let path = found[index]->0;
        if before.tabs.has_path(path) {
            let j = before.tabs.path_of(path);
            assert(same_path(before.tabs.tabs[j].path, path));
            assert(has_place(found, index, j));
            let i = choose|i: int| 0 <= i < index && #[trigger] found_at(found, i, j);
            assert(before.tabs.tabs[j].path == found[i]->0);
            assert(found[i] is Some && found[index] is Some);
        }
    }
}

/// Whatever files of a valid session are found, as long as none is found for two tabs, the tabs
/// that open take the layout of the session.
pub proof fn a_valid_session_takes_its_layout(session: SessionModel, found: Seq<Option<PathView>>)
    requires
        session_error(session) is None,
        found.len() == session.tabs.len(),
        found.len() < u64::MAX,
        found_once(found),
    ensures
        ({
            let opened = reopened(
                WorkspaceView::fresh(),
                session.tabs,
                found,
                session.tabs.len() as int,
            );
            let ids = reopened_tabs(WorkspaceView::fresh(), session.tabs, found);
            let entries = resolved(
                session.layout.entries,
                ids,
                session.layout.entries.len() as int,
            ).entries;
            let active = restored_active(session.layout, ids);
            &&& opened.tabs.restorable(entries, active)
            &&& brought_back(WorkspaceView::fresh(), session, found).tabs
                == opened.tabs.restore_layout(entries, active)
        }),
{
    let fresh = WorkspaceView::fresh();
    let count = session.tabs.len() as int;
    let opened = reopened(fresh, session.tabs, found, count);
    let ids = reopened_tabs(fresh, session.tabs, found);
    reopening_registers_in_order(session.tabs, found, count);
    assert forall|i: int| 0 <= i < count implies (#[trigger] ids[i]) == (if found[i] is Some {
        Some(TabId(found_before(found, i) as u64))
    } else {
        None
    }) by {
        reopened_tab_is(session.tabs, found, i);
    }
    assert forall|i: int, j: int|
        #![trigger ids[i], ids[j]]
        0 <= i < j < ids.len() && ids[i] is Some implies ids[i] != ids[j] by {
        found_before_grows(found, i, j);
        found_before_grows(found, j, count);
    }
    assert forall|i: int| 0 <= i < ids.len() && (#[trigger] ids[i]) is Some implies
        opened.tabs.registered(ids[i]->0) by {
        let j = found_before(found, i);
        assert(found_at(found, i, j));
        assert(opened.tabs.tabs[j].id == ids[i]->0);
    }
    assert forall|t: TabId| #[trigger] opened.tabs.registered(t) implies exists|i: int|
        0 <= i < ids.len() && #[trigger] ids[i] == Some(t) by {
        let j = choose|j: int|
            0 <= j < opened.tabs.tabs.len() && (#[trigger] opened.tabs.tabs[j]).id == t;
        assert(has_place(found, count, j));
        let i = choose|i: int| 0 <= i < count && #[trigger] found_at(found, i, j);
        assert(ids[i] == Some(t));
    }
    assert(opens_registry(opened.tabs, ids));
    restored_layout_is_accepted(opened.tabs, session.layout, ids);
}

/// A valid session all of whose files are found where they were comes back as it was: kept
/// again, it is the same session.
pub proof fn a_whole_session_comes_back(session: SessionModel, found: Seq<Option<PathView>>)
    requires
        session_error(session) is None,
        session.tabs.len() < u64::MAX,
        session.tabs.len() <= usize::MAX,
        found.len() == session.tabs.len(),
        forall|i: int|
            0 <= i < found.len() ==> (#[trigger] found[i]) == Some(session.tabs[i].path),
    ensures
        kept_session(
            brought_back(WorkspaceView::fresh(), session, found),
            session.restore_enabled,
            session.sidebar_open,
            session.sidebar_tab,
            session.recent_annotation_colors,
        ) == session,
{
    let fresh = WorkspaceView::fresh();
    let count = session.tabs.len() as int;
    let opened = reopened(fresh, session.tabs, found, count);
    let ids = reopened_tabs(fresh, session.tabs, found);
    assert(found_once(found)) by {
        assert forall|i: int, j: int|
            #![trigger found[i], found[j]]
            0 <= i < j < found.len() implies !same_path(found[i]->0, found[j]->0) by {
            saved_tabs_are_in_order(session.tabs, count, j);
            if same_path(session.tabs[i].path, session.tabs[j].path) {
                assert(repeats_path(session.tabs, j));
            }
        }
    }
    a_valid_session_takes_its_layout(session, found);
    reopening_registers_in_order(session.tabs, found, count);
    all_are_found(found, count);
    assert forall|i: int| 0 <= i < count implies (#[trigger] ids[i]) == registry_ids(
        opened.tabs,
    )[i] && opened.tabs.tabs[i].path == session.tabs[i].path
        && opened.documents[i].view.remembered() == session.tabs[i].view by {
        all_are_found(found, i);
        reopened_tab_is(session.tabs, found, i);
        assert(found_at(found, i, i));
        assert(opened.tabs.tabs[i].id == TabId(i as u64));
    }
    assert(ids =~= registry_ids(opened.tabs));
    capturing_a_restored_layout_gives_it_back(opened.tabs, session.layout);
    let after = brought_back(fresh, session, found);
    assert forall|i: int| 0 <= i < count implies kept_tab(after, i) == #[trigger] session.tabs[i] by {
        assert(ids[i] == registry_ids(opened.tabs)[i]);
    }
    assert(kept_tabs(after) =~= session.tabs);
}

proof fn saved_tabs_are_in_order(tabs: Seq<SessionTabModel>, count: int, index: int)
    requires
        tabs_error(tabs, count) is None,
        0 <= index < count <= tabs.len(),
    ensures
        !repeats_path(tabs, index),
    decreases count,
{
    if index < count - 1 {
        saved_tabs_are_in_order(tabs, count - 1, index);
    }
}

proof fn all_are_found(found: Seq<Option<PathView>>, count: int)
    requires
        0 <= count <= found.len(),
        forall|i: int| 0 <= i < found.len() ==> (#[trigger] found[i]) is Some,
    ensures
        found_before(found, count) == count,
    decreases count,
{
    if count > 0 {
        all_are_found(found, count - 1);
    }
}

} // verus!

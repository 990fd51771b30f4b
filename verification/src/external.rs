//! A file that someone else writes while it is open.
use crate::annotation::{blocks_document, editor_blocks_document, editor_view, AnnotationEditor};
use crate::document::{
    lists, lists_pending, DocumentState, DocumentTab, DocumentVersion, DocumentView,
    ExternalCandidate,
};
use crate::path::DocumentPath;
use crate::rendering::{TextSnapshotKey, TileRequest};
use vstd::prelude::*;

verus! {

/// How often another state of the file has to be seen in a row before it counts.
pub const STABLE_SIGHTINGS: u8 = 2;

/// The time from one look at the files to the next, in nanoseconds.
pub const EXTERNAL_CHECK_INTERVAL_NANOS: u64 = 300_000_000;

/// Whether the files have to be looked at, so long after the last look.
pub fn external_check_due(elapsed_nanos: u64) -> (res: bool)
    ensures
        res == (elapsed_nanos >= EXTERNAL_CHECK_INTERVAL_NANOS),
{
    elapsed_nanos >= EXTERNAL_CHECK_INTERVAL_NANOS
}

/// What a look at the file leads to.
#[derive(Clone, Copy, Debug, PartialEq, Eq, Structural)]
pub enum ExternalDecision {
    /// Nothing is done.
    Nothing,
    /// The file is gone: it may have another name.
    LookForRename,
    /// The file has to be read again.
    Reload,
}

/// The document is not looked after: it is not open, or its worker was let go.
pub open spec fn is_unwatched(document: DocumentView) -> bool {
    document.info is None || document.state is Suspended
}

/// The candidate after the file was seen as `current`.
pub open spec fn candidate_after(document: DocumentView, current: DocumentVersion) -> ExternalCandidate {
    match document.external_candidate {
        Some(candidate) if candidate.version == current => ExternalCandidate {
            version: current,
            seen: if candidate.seen < u8::MAX {
                (candidate.seen + 1) as u8
            } else {
                u8::MAX
            },
        },
        _ => ExternalCandidate { version: current, seen: 1 },
    }
}

/// What a document says when it has edits and someone else wrote the file.
pub open spec fn conflict_message() -> Seq<char> {
    "外部でPDFが更新されました。未保存の編集を保護するため、自動再読み込みを停止しています。編集版を別名保存してから外部版を再読み込みしてください。"@
}

/// The other state of the file is settled, and nothing is being read.
pub open spec fn is_settled(document: DocumentView, current: DocumentVersion) -> bool {
    candidate_after(document, current).seen >= STABLE_SIGHTINGS && !document.reload_in_flight
}

/// What a look at the file leads to. `protected` says that there are edits to lose.
pub open spec fn external_decision(
    document: DocumentView,
    current: Option<DocumentVersion>,
    protected: bool,
) -> ExternalDecision {
    if is_unwatched(document) || current == Some(document.info->0.version) {
        ExternalDecision::Nothing
    } else {
        match current {
            None => ExternalDecision::LookForRename,
            Some(version) => if is_settled(document, version) && !protected {
                ExternalDecision::Reload
            } else {
                ExternalDecision::Nothing
            },
        }
    }
}

/// The document after a look at its file.
pub open spec fn after_look(
    document: DocumentView,
    current: Option<DocumentVersion>,
    protected: bool,
) -> DocumentView {
    if is_unwatched(document) {
        document
    } else if current == Some(document.info->0.version) {
        DocumentView { external_candidate: None, ..document }
    } else {
        match current {
            None => document,
            Some(version) => {
                let seen = DocumentView {
                    external_candidate: Some(candidate_after(document, version)),
                    ..document
                };
                if is_settled(document, version) && protected
                    && !document.external_conflict_reported {
                    DocumentView {
                        external_conflict_reported: true,
                        error: Some(conflict_message()),
                        ..seen
                    }
                } else {
                    seen
                }
            },
        }
    }
}

/// The first file that is the one expected, whatever its name.
pub open spec fn first_same_file(
    files: Seq<Option<DocumentVersion>>,
    expected: DocumentVersion,
    from: int,
) -> Option<int>
    decreases files.len() - from,
{
    if from < 0 || from >= files.len() {
        None
    } else if is_same_file(files[from], expected) {
        Some(from)
    } else {
        first_same_file(files, expected, from + 1)
    }
}

/// A file could be read, and is the one expected.
pub open spec fn is_same_file(file: Option<DocumentVersion>, expected: DocumentVersion) -> bool {
    file is Some && file->0.identity_primary == expected.identity_primary
        && file->0.identity_secondary == expected.identity_secondary
}

/// Looks among the files of a folder for one that has the identity of the file expected.
/// A new file under the old name has another identity.
pub fn find_same_folder_rename(files: &Vec<Option<DocumentVersion>>, expected: DocumentVersion) -> (res:
    Option<usize>)
    ensures
        match first_same_file(files@, expected, 0) {
            None => res is None,
            Some(index) => res is Some && res->0 == index,
        },
{
    let mut i: usize = 0;
    while i < files.len()
        invariant
            i <= files.len(),
            first_same_file(files@, expected, 0) == first_same_file(files@, expected, i as int),
        decreases files.len() - i,
    {
        let same = match files[i] {
            None => false,
            Some(version) => version.identity_primary == expected.identity_primary
                && version.identity_secondary == expected.identity_secondary,
        };
        if same {
            return Some(i);
        }
        i += 1;
    }
    None
}

fn same_version(a: &Option<DocumentVersion>, b: DocumentVersion) -> (res: bool)
    ensures
        res == (*a == Some(b)),
{
    match a {
        None => false,
        Some(a) => *a == b,
    }
}

impl DocumentTab {
    fn note_candidate(&mut self, current: DocumentVersion) -> (res: u8)
        ensures
            final(self)@ == (DocumentView {
                external_candidate: Some(candidate_after(old(self)@, current)),
                ..old(self)@
            }),
            res == candidate_after(old(self)@, current).seen,
    {
        let seen: u8 = match &self.external_candidate {
            Some(candidate) => if candidate.version == current {
                candidate.seen.saturating_add(1)
            } else {
                1
            },
            None => 1,
        };
        self.external_candidate = Some(ExternalCandidate { version: current, seen });
        seen
    }

    fn report_conflict(&mut self)
        ensures
            final(self)@ == (DocumentView {
                external_conflict_reported: true,
                error: Some(conflict_message()),
                ..old(self)@
            }),
    {
        self.external_conflict_reported = true;
        self.error = Some(
            "外部でPDFが更新されました。未保存の編集を保護するため、自動再読み込みを停止しています。編集版を別名保存してから外部版を再読み込みしてください。".to_owned(),
        );
    }

    /// Takes a look at the file: `current` is its state, if it can be read. Another state
    /// counts once it was seen twice in a row; edits are never overwritten by it.
    pub fn check_external_change(
        &mut self,
        current: Option<DocumentVersion>,
        editor: &Option<AnnotationEditor>,
    ) -> (res: ExternalDecision)
        ensures
            ({
                let protected = old(self)@.unsaved() || blocks_document(
                    editor_view(*editor),
                    old(self)@.document_id,
                );
                &&& res == external_decision(old(self)@, current, protected)
                &&& final(self)@ == after_look(old(self)@, current, protected)
            }),
    {
        let expected = match &self.info {
            None => {
                return ExternalDecision::Nothing;
            },
            Some(info) => info.version,
        };
        if self.state == DocumentState::Suspended {
            return ExternalDecision::Nothing;
        }
        if same_version(&current, expected) {
            self.external_candidate = None;
            return ExternalDecision::Nothing;
        }
        let version = match current {
            None => {
                return ExternalDecision::LookForRename;
            },
            Some(version) => version,
        };
        let protected = self.has_unsaved_changes() || editor_blocks_document(
            editor,
            self.document_id,
        );
        let seen: u8 = self.note_candidate(version);
        if seen < STABLE_SIGHTINGS || self.reload_in_flight {
            return ExternalDecision::Nothing;
        }
        if protected {
            if !self.external_conflict_reported {
                self.report_conflict();
            }
            return ExternalDecision::Nothing;
        }
        ExternalDecision::Reload
    }

    /// Notes whether the worker took the new name of the file. `previous` is the path that the tab
    /// goes back to if the worker cannot follow. Returns what to say.
    pub fn rename_sent(&mut self, previous: DocumentPath, accepted: bool) -> (res: Option<
        &'static str,
    >)
        ensures
            final(self)@ == (if accepted {
                DocumentView { pending_rebind_path: Some(previous@), ..old(self)@ }
            } else {
                old(self)@
            }),
            match res {
                None => !accepted,
                Some(status) => accepted && status@ == "PDF の名前変更を追跡しています…"@,
            },
    {
        if accepted {
            self.pending_rebind_path = Some(previous);
            Some("PDF の名前変更を追跡しています…")
        } else {
            None
        }
    }

    /// Notes whether the worker took the request to read the file again. Returns the requests
    /// to cancel if it did.
    pub fn external_reload_sent(&mut self, accepted: bool) -> (res: Option<
        (Vec<TileRequest>, Vec<TextSnapshotKey>),
    >)
        ensures
            match res {
                None => !accepted && final(self)@ == (DocumentView {
                    reload_in_flight: false,
                    ..old(self)@
                }),
                Some(cancelled) => accepted && lists_pending(
                    cancelled.0@,
                    old(self)@.tiles.pending,
                ) && lists(cancelled.1@, old(self)@.texts.pending) && final(self)@
                    == (DocumentView {
                    reload_in_flight: true,
                    ..old(self)@.without_rendering().without_texts().without_annotations()
                }),
            },
    {
        self.reload_in_flight = accepted;
        if !accepted {
            return None;
        }
        let tiles = self.invalidate_rendering();
        let texts = self.invalidate_text_snapshots();
        self.invalidate_annotation_pages();
        Some((tiles, texts))
    }
}

/// Edits are never overwritten: with something to lose, no look at the file leads to reading
/// it again.
pub proof fn edits_are_protected(document: DocumentView, current: Option<DocumentVersion>)
    ensures
        !(external_decision(document, current, true) is Reload),
        after_look(document, current, true).unsaved() == document.unsaved(),
{
}

/// A state of the file that was not seen before never counts at once.
pub proof fn one_sighting_is_not_enough(
    document: DocumentView,
    current: DocumentVersion,
    protected: bool,
)
    requires
        document.external_candidate is None || document.external_candidate->0.version != current,
    ensures
        !(external_decision(document, Some(current), protected) is Reload),
{
}

/// The same state seen again counts, if there is nothing to lose and nothing being read.
pub proof fn two_sightings_are_enough(document: DocumentView, current: DocumentVersion)
    requires
        !is_unwatched(document),
        document.info->0.version != current,
        !document.reload_in_flight,
    ensures
        external_decision(
            after_look(document, Some(current), false),
            Some(current),
            false,
        ) is Reload,
{
}

} // verus!

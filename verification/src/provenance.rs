//! What a build says of the sources it was made from.
use crate::text::with_text;
use vstd::prelude::*;

verus! {

/// The commit that was built, and whether anything was changed since. `status` lists the changed
/// files, one to a line.
pub open spec fn provenance_text(commit: Option<Seq<char>>, status: Option<Seq<char>>) -> Seq<char> {
    match (commit, status) {
        (None, _) => "SourceCommit=unavailable;Dirty=unknown"@,
        (Some(commit), None) => "SourceCommit="@ + commit + ";Dirty=unknown"@,
        (Some(commit), Some(status)) => "SourceCommit="@ + commit + if status.len() > 0 {
            ";Dirty=true"@
        } else {
            ";Dirty=false"@
        },
    }
}

/// The view of an optional text.
pub open spec fn optional_text(text: Option<&str>) -> Option<Seq<char>> {
    match text {
        None => None,
        Some(text) => Some(text@),
    }
}

/// Says what a build was made from. What is not known is called so.
pub fn source_provenance(commit: Option<&str>, status: Option<&str>) -> (res: String)
    ensures
        res@ == provenance_text(optional_text(commit), optional_text(status)),
{
    match commit {
        None => "SourceCommit=unavailable;Dirty=unknown".to_owned(),
        Some(commit) => {
            let mut res = with_text("SourceCommit=", commit);
            match status {
                None => res.append(";Dirty=unknown"),
                Some(status) => if status.unicode_len() > 0 {
                    res.append(";Dirty=true");
                } else {
                    res.append(";Dirty=false");
                },
            }
            res
        },
    }
}

/// The commit is named where it is known. Whether files were changed is said only where that is known
/// too, and they were exactly if the status lists any.
pub proof fn sources_are_named(commit: Seq<char>, status: Seq<char>)
    ensures
        provenance_text(None, Some(status)) == provenance_text(None, None),
        provenance_text(None, None) == "SourceCommit=unavailable;Dirty=unknown"@,
        provenance_text(Some(commit), None) == "SourceCommit="@ + commit + ";Dirty=unknown"@,
        status.len() > 0 ==> provenance_text(Some(commit), Some(status)) == "SourceCommit="@ + commit
            + ";Dirty=true"@,
        status.len() == 0 ==> provenance_text(Some(commit), Some(status)) == "SourceCommit="@
            + commit + ";Dirty=false"@,
{
}

} // verus!

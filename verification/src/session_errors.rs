//! What is said of a session that is refused.
use crate::session::SessionError;
use crate::text::{decimal, decimal_text, with_text};
use vstd::prelude::*;

verus! {

/// What is said of an error. One about a path ends with that path.
pub open spec fn error_text(error: SessionError, shown_path: Seq<char>) -> Seq<char> {
    match error {
        SessionError::UnsupportedSchemaVersion(number) => "unsupported session schema version "@ + decimal(number as nat),
        SessionError::UnexpectedSchemaVersion(number) => "unsupported session schema version "@ + decimal(number as nat)
            + " (expected 3)"@,
        SessionError::WrongSchema1Version(number) => "invalid schema 1 session version "@ + decimal(number as nat),
        SessionError::WrongSchema2Version(number) => "invalid schema 2 session version "@ + decimal(number as nat),
        SessionError::SelectedTabOutOfRange(number) => "selected tab index "@ + decimal(number as nat)
            + " is out of range"@,
        SessionError::ActiveTabOutOfRange(number) => "active tab index "@ + decimal(number as nat)
            + " is out of range"@,
        SessionError::TabIndexOutOfRange(number) => "tab index "@ + decimal(number as nat)
            + " is out of range"@,
        SessionError::PathNotAbsolute(_) => "session tab path is not absolute: "@ + shown_path,
        SessionError::PathNotNormalized(_) => "session tab path is not normalized: "@ + shown_path,
        SessionError::DuplicateTabPath(_) => "session contains duplicate tab path: "@ + shown_path,
        SessionError::Malformed => "session is not valid JSON"@,
        SessionError::MissingSchemaVersion => "session schema_version is missing or invalid"@,
        SessionError::EmptySessionSelectsTab => "an empty session cannot select a tab"@,
        SessionError::NonemptySessionSelectsNoTab => "a nonempty session must select a tab"@,
        SessionError::PageXOutOfRange => "page_x anchor must be finite and within 0.0..=1.0"@,
        SessionError::PageYOutOfRange => "page_y anchor must be finite and within 0.0..=1.0"@,
        SessionError::ZoomOutOfRange => "zoom must be finite and within 0.25..=4"@,
        SessionError::EmptySessionHasLayout => "an empty session must have no entries or active tab"@,
        SessionError::NoActiveTab => "a nonempty session must have an active tab"@,
        SessionError::SplitRepeatsTab => "a split entry must contain two different tabs"@,
        SessionError::SplitFocusesNoMember => "focused split tab must be a member of its entry"@,
        SessionError::ActiveSplitTabNotFocused => "the active split tab must match its focused member"@,
        SessionError::SplitRatioOutOfRange => "split ratio must be finite and within 0.1..=0.9"@,
        SessionError::TabNotInExactlyOneEntry => "each tab must belong to exactly one tab entry"@,
        SessionError::TooManyRecentColors => "session contains more than 5 recent colors"@,
        SessionError::DuplicateRecentColors => "session contains duplicate recent colors"@,
        SessionError::Schema2EmptySessionHasLayout => "an empty schema 2 session must have no panes, focus, or split"@,
        SessionError::Schema2PaneCount => "a schema 2 session must contain one or two panes"@,
        SessionError::Schema2NoFocusedPane => "a schema 2 session must focus a pane"@,
        SessionError::Schema2FocusedPaneOutOfRange => "schema 2 focused pane is out of range"@,
        SessionError::Schema2SinglePaneSplit => "a single schema 2 pane cannot contain a split"@,
        SessionError::Schema2TwoPanesWithoutSplit => "two schema 2 panes require a horizontal split"@,
        SessionError::Schema2RatioOutOfRange => "schema 2 split ratio must be finite and within 0.1..=0.9"@,
        SessionError::Schema2PaneSelection => "schema 2 panes must be nonempty and contain their selection"@,
        SessionError::Schema2TabNotInExactlyOnePane => "each schema 2 tab must belong to exactly one pane"@,
    }
}

fn with_number(before: &str, number: u64, after: &str) -> (res: String)
    ensures
        res@ == before@ + decimal(number as nat) + after@,
{
    let digits = decimal_text(number);
    let mut res = with_text(before, digits.as_str());
    res.append(after);
    res
}

fn with_end(before: &str, number: u64) -> (res: String)
    ensures
        res@ == before@ + decimal(number as nat),
{
    let digits = decimal_text(number);
    with_text(before, digits.as_str())
}

impl SessionError {
    /// Puts an error into words. `shown_path` is the path of the tab that the error is about.
    pub fn message(&self, shown_path: &str) -> (res: String)
        ensures
            res@ == error_text(*self, shown_path@),
    {
        match *self {
            SessionError::UnsupportedSchemaVersion(number) => with_end(
                "unsupported session schema version ",
                number,
            ),
            SessionError::UnexpectedSchemaVersion(number) => with_number(
                "unsupported session schema version ",
                number as u64,
                " (expected 3)",
            ),
            SessionError::WrongSchema1Version(number) => with_end(
                "invalid schema 1 session version ",
                number as u64,
            ),
            SessionError::WrongSchema2Version(number) => with_end(
                "invalid schema 2 session version ",
                number as u64,
            ),
            SessionError::SelectedTabOutOfRange(number) => with_number(
                "selected tab index ",
                number as u64,
                " is out of range",
            ),
            SessionError::ActiveTabOutOfRange(number) => with_number(
                "active tab index ",
                number as u64,
                " is out of range",
            ),
            SessionError::TabIndexOutOfRange(number) => with_number(
                "tab index ",
                number as u64,
                " is out of range",
            ),
            SessionError::PathNotAbsolute(_) => with_text("session tab path is not absolute: ", shown_path),
            SessionError::PathNotNormalized(_) => with_text("session tab path is not normalized: ", shown_path),
            SessionError::DuplicateTabPath(_) => with_text("session contains duplicate tab path: ", shown_path),
            SessionError::Malformed => "session is not valid JSON".to_owned(),
            SessionError::MissingSchemaVersion => "session schema_version is missing or invalid".to_owned(),
            SessionError::EmptySessionSelectsTab => "an empty session cannot select a tab".to_owned(),
            SessionError::NonemptySessionSelectsNoTab => "a nonempty session must select a tab".to_owned(),
            SessionError::PageXOutOfRange => "page_x anchor must be finite and within 0.0..=1.0".to_owned(),
            SessionError::PageYOutOfRange => "page_y anchor must be finite and within 0.0..=1.0".to_owned(),
            SessionError::ZoomOutOfRange => "zoom must be finite and within 0.25..=4".to_owned(),
            SessionError::EmptySessionHasLayout => "an empty session must have no entries or active tab".to_owned(),
            SessionError::NoActiveTab => "a nonempty session must have an active tab".to_owned(),
            SessionError::SplitRepeatsTab => "a split entry must contain two different tabs".to_owned(),
            SessionError::SplitFocusesNoMember => "focused split tab must be a member of its entry".to_owned(),
            SessionError::ActiveSplitTabNotFocused => "the active split tab must match its focused member".to_owned(),
            SessionError::SplitRatioOutOfRange => "split ratio must be finite and within 0.1..=0.9".to_owned(),
            SessionError::TabNotInExactlyOneEntry => "each tab must belong to exactly one tab entry".to_owned(),
            SessionError::TooManyRecentColors => "session contains more than 5 recent colors".to_owned(),
            SessionError::DuplicateRecentColors => "session contains duplicate recent colors".to_owned(),
            SessionError::Schema2EmptySessionHasLayout => "an empty schema 2 session must have no panes, focus, or split".to_owned(),
            SessionError::Schema2PaneCount => "a schema 2 session must contain one or two panes".to_owned(),
            SessionError::Schema2NoFocusedPane => "a schema 2 session must focus a pane".to_owned(),
            SessionError::Schema2FocusedPaneOutOfRange => "schema 2 focused pane is out of range".to_owned(),
            SessionError::Schema2SinglePaneSplit => "a single schema 2 pane cannot contain a split".to_owned(),
            SessionError::Schema2TwoPanesWithoutSplit => "two schema 2 panes require a horizontal split".to_owned(),
            SessionError::Schema2RatioOutOfRange => "schema 2 split ratio must be finite and within 0.1..=0.9".to_owned(),
            SessionError::Schema2PaneSelection => "schema 2 panes must be nonempty and contain their selection".to_owned(),
            SessionError::Schema2TabNotInExactlyOnePane => "each schema 2 tab must belong to exactly one pane".to_owned(),
        }
    }

    /// The tab whose path the error is about, if it is about one.
    pub fn tab_index(&self) -> (res: Option<usize>)
        ensures
            res == match *self {
                SessionError::PathNotAbsolute(index) => Some(index),
                SessionError::PathNotNormalized(index) => Some(index),
                SessionError::DuplicateTabPath(index) => Some(index),
                _ => None,
            },
    {
        match *self {
            SessionError::PathNotAbsolute(index) => Some(index),
            SessionError::PathNotNormalized(index) => Some(index),
            SessionError::DuplicateTabPath(index) => Some(index),
            _ => None,
        }
    }
}

} // verus!

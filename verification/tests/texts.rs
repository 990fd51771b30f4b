use lunapdf::annotation::{delete_refused_error, update_refused_error, DeleteDecision};
use lunapdf::cache::WeightedLru;
use lunapdf::close_flow::{
    AllTabsPrompt, CloseFlow, CloseStep, SessionCloseDecision, TabCloseDecision, WindowPrompt,
};
use lunapdf::colors::remember_color;
use lunapdf::provenance::source_provenance;
use lunapdf::session::{SessionError, SessionState};
use lunapdf::text::{decimal_text, is_blank_text, join, parse_number, trim};

#[test]
fn refused_sessions_are_explained() {
    let words = |error: SessionError| error.message("/papers/a.pdf");
    assert_eq!(
        words(SessionError::UnsupportedSchemaVersion(9)),
        "unsupported session schema version 9"
    );
    assert_eq!(
        words(SessionError::SelectedTabOutOfRange(12)),
        "selected tab index 12 is out of range"
    );
    assert_eq!(
        words(SessionError::PathNotAbsolute(0)),
        "session tab path is not absolute: /papers/a.pdf"
    );
    assert_eq!(
        words(SessionError::SplitRatioOutOfRange),
        "split ratio must be finite and within 0.1..=0.9"
    );
    assert_eq!(SessionError::DuplicateTabPath(3).tab_index(), Some(3));
    assert_eq!(SessionError::NoActiveTab.tab_index(), None);
    let state = SessionState {
        schema_version: 4,
        ..SessionState::default()
    };
    assert_eq!(
        words(state.validate().unwrap_err()),
        "unsupported session schema version 4 (expected 3)"
    );
}

#[test]
fn builds_name_their_sources() {
    assert_eq!(
        source_provenance(None, Some("")),
        "SourceCommit=unavailable;Dirty=unknown"
    );
    assert_eq!(
        source_provenance(Some("abc"), None),
        "SourceCommit=abc;Dirty=unknown"
    );
    assert_eq!(
        source_provenance(Some("abc"), Some("")),
        "SourceCommit=abc;Dirty=false"
    );
    assert_eq!(
        source_provenance(Some("abc"), Some(" M src/lib.rs")),
        "SourceCommit=abc;Dirty=true"
    );
}

#[test]
fn numbers_and_spaces_read_as_written() {
    assert_eq!(decimal_text(0), "0");
    assert_eq!(decimal_text(u64::MAX), "18446744073709551615");
    assert_eq!(parse_number("0042"), Some(42));
    assert_eq!(parse_number("4x"), None);
    assert_eq!(trim(" \u{3000}a b\t\n"), "a b");
    assert!(is_blank_text(" \u{a0}\r\n"));
    assert_eq!(
        join(&vec!["a".to_owned(), "".to_owned(), "b".to_owned()], "|"),
        "a||b"
    );
}

#[test]
fn the_cache_pushes_out_what_was_not_used() {
    let mut cache: WeightedLru<usize> = WeightedLru::new(100);
    assert!(cache.is_empty());
    assert!(cache.insert(1, 40).evicted.is_empty());
    assert!(cache.insert(2, 40).evicted.is_empty());
    assert!(cache.touch(1));
    assert!(!cache.touch(9));
    let third = cache.insert(3, 40);
    assert!(third.inserted);
    assert_eq!(third.evicted, vec![2]);
    assert_eq!(cache.current_bytes(), 80);
    assert_eq!(cache.budget(), 100);
    let heavy = cache.insert(4, 101);
    assert!(!heavy.inserted);
    assert!(heavy.evicted.is_empty());
    let everything = cache.insert(5, 100);
    assert_eq!(everything.evicted, vec![1, 3]);
    assert_eq!(cache.len(), 1);
    cache.remove(5);
    assert_eq!(cache.current_bytes(), 0);
}

#[test]
fn an_entry_takes_the_place_of_an_earlier_one_for_its_key() {
    let mut cache: WeightedLru<usize> = WeightedLru::new(100);
    cache.insert(1, 60);
    let again = cache.insert(1, 70);
    assert!(again.inserted);
    assert!(again.evicted.is_empty());
    assert_eq!(cache.len(), 1);
    assert_eq!(cache.current_bytes(), 70);
}

#[test]
fn closing_says_what_it_waits_for() {
    assert_eq!(
        TabCloseDecision::WaitForSave.status(),
        Some("Waiting for the current save before closing…")
    );
    assert_eq!(TabCloseDecision::Close.status(), None);
    assert_eq!(
        AllTabsPrompt::Wait.status(),
        Some("保存または印刷の完了を待ってからすべて閉じます…")
    );
    assert_eq!(AllTabsPrompt::Ask.status(), None);
    assert_eq!(
        AllTabsPrompt::CloseAll.status(),
        Some("すべてのタブを閉じました")
    );
    assert_eq!(
        WindowPrompt::WaitForRestore.status(),
        Some("Waiting for session restore before closing…")
    );
    assert_eq!(WindowPrompt::SaveSession.status(), None);
    assert_eq!(
        CloseStep::Cancelled.status(),
        Some("閉じる操作をキャンセルしました")
    );
    assert_eq!(CloseStep::Save(0).status(), None);
    assert_eq!(SessionCloseDecision::Retry.status(), None);
    assert_eq!(SessionCloseDecision::Cancel.status(), Some("Close canceled"));
    let mut flow = CloseFlow::new();
    assert_eq!(flow.save_for_close_sent(), "Saving PDF before close…");
    assert_eq!(
        flow.session_not_saved("disk full"),
        "セッションを保存できませんでした。終了方法を選択してください"
    );
}

#[test]
fn refused_annotation_changes_are_explained() {
    assert_eq!(DeleteDecision::Send.error(), None);
    assert_eq!(
        DeleteDecision::Forbidden.error(),
        Some("注釈を削除できません。PDFの編集制限または注釈ロックを確認してください。")
    );
    assert!(update_refused_error().starts_with("注釈を更新できません。"));
    assert!(delete_refused_error().starts_with("注釈を削除できません。"));
}

#[test]
fn the_last_five_colors_are_remembered_once_each() {
    let color = |shade: u8| [shade, 0, 0];
    let mut colors = Vec::new();
    for shade in [1, 2, 3, 4, 5] {
        remember_color(&mut colors, color(shade));
    }
    assert_eq!(colors, [5, 4, 3, 2, 1].map(color));
    remember_color(&mut colors, color(3));
    assert_eq!(colors, [3, 5, 4, 2, 1].map(color));
    remember_color(&mut colors, color(6));
    assert_eq!(colors, [6, 3, 5, 4, 2].map(color));
}

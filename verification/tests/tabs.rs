use std::collections::HashSet;

use lunapdf::panes::pointed_side;
use lunapdf::path::{normalize_path, DocumentPath, PathComponent};
use lunapdf::restore::{capture_layout, restored_runtime_layout};
use lunapdf::session::{SessionEntry, SessionLayout};
use lunapdf::tabs::{
    valid_ratio, OpenTabResult, RebindError, RestoredTabEntry, SplitDirection, SplitPlacement,
    SplitSide, Tab, TabEntry, TabId, TabState,
};

fn file(name: &str) -> DocumentPath {
    DocumentPath {
        absolute: true,
        components: vec![
            PathComponent::RootDir,
            PathComponent::Normal("papers".to_owned()),
            PathComponent::Normal(name.to_owned()),
        ],
    }
}

fn open_files(state: &mut TabState, count: usize) -> Vec<TabId> {
    for index in 0..count {
        state.open(file(&format!("{index}.pdf")));
    }
    state.tabs().iter().map(Tab::id).collect()
}

#[test]
fn new_tabs_open_after_the_active_entry() {
    let mut state = TabState::new();
    let ids = open_files(&mut state, 3);
    assert!(state.select_tab(ids[0]));
    state.open(file("next.pdf"));
    assert_eq!(state.display_tab_ids()[0], ids[0]);
    assert_eq!(
        state.active_tab_id(),
        state.display_tab_ids().get(1).copied()
    );
}

#[test]
fn opening_an_open_file_selects_its_tab() {
    let mut state = TabState::new();
    let ids = open_files(&mut state, 3);
    assert!(matches!(
        state.open(file("1.pdf")),
        OpenTabResult::SelectedExisting(1)
    ));
    assert_eq!(state.active_tab_id(), Some(ids[1]));
    assert_eq!(state.tabs().len(), 3);
    assert!(matches!(state.open(file("9.pdf")), OpenTabResult::Opened(3)));
}

#[test]
fn rebind_path_preserves_tab_identity_and_rejects_existing_path() {
    let mut state = TabState::new();
    let ids = open_files(&mut state, 2);

    state.rebind_path(0, file("renamed.pdf")).unwrap();
    assert_eq!(state.tabs()[0].id(), ids[0]);
    assert_eq!(state.tabs()[0].path(), &file("renamed.pdf"));
    let error = state.rebind_path(0, file("1.pdf"));
    assert_eq!(error.unwrap_err(), RebindError::AlreadyExists);
}

#[test]
fn rebinding_a_missing_tab_is_an_error() {
    let mut state = TabState::new();
    open_files(&mut state, 1);
    assert_eq!(
        state.rebind_path(1, file("renamed.pdf")),
        Err(RebindError::NotFound)
    );
    assert_eq!(state.rebind_path(0, file("0.pdf")), Ok(()));
}

#[test]
fn multiple_split_sets_preserve_one_membership_per_tab() {
    let mut state = TabState::new();
    let ids = open_files(&mut state, 5);
    assert!(state.create_split(ids[1], ids[0], SplitPlacement::Right));
    assert!(state.select_tab(ids[2]));
    assert!(state.create_split(ids[3], ids[2], SplitPlacement::Bottom));
    assert_eq!(
        state
            .entries()
            .iter()
            .filter(|entry| matches!(entry, TabEntry::Split(_)))
            .count(),
        2
    );
    let order = state.display_tab_ids();
    assert_eq!(order.iter().copied().collect::<HashSet<_>>().len(), 5);
}

#[test]
fn selecting_a_normal_tab_hides_but_keeps_split_sets() {
    let mut state = TabState::new();
    let ids = open_files(&mut state, 3);
    assert!(state.create_split(ids[1], ids[0], SplitPlacement::Right));
    assert_eq!(state.visible_tab_ids(), vec![ids[0], ids[1]]);
    assert!(state.select_tab(ids[2]));
    assert_eq!(state.visible_tab_ids(), vec![ids[2]]);
    assert!(state.select_tab(ids[0]));
    assert_eq!(state.visible_tab_ids(), vec![ids[0], ids[1]]);
}

#[test]
fn extracting_a_member_dissolves_only_its_pair() {
    let mut state = TabState::new();
    let ids = open_files(&mut state, 4);
    assert!(state.create_split(ids[1], ids[0], SplitPlacement::Right));
    assert!(state.create_split(ids[3], ids[2], SplitPlacement::Bottom));
    assert!(state.extract_split_member(ids[1], 2));
    assert!(state.split_for_tab(ids[0]).is_none());
    assert!(state.split_for_tab(ids[1]).is_none());
    assert!(state.split_for_tab(ids[2]).is_some());
}

#[test]
fn replacing_from_a_normal_tab_swaps_the_displaced_member_to_the_source_position() {
    let mut state = TabState::new();
    let ids = open_files(&mut state, 3);
    assert!(state.create_split(ids[1], ids[0], SplitPlacement::Right));
    let group = state.split_for_tab(ids[0]).unwrap().id();
    assert_eq!(
        state.replace_split_member(group, SplitSide::Second, ids[2]),
        Some(ids[1])
    );
    assert_eq!(state.split_group(group).unwrap().tabs(), [ids[0], ids[2]]);
    assert!(matches!(state.entries().last(), Some(TabEntry::Single(id)) if *id == ids[1]));
}

#[test]
fn replacing_between_pairs_preserves_both_pairs() {
    let mut state = TabState::new();
    let ids = open_files(&mut state, 4);
    assert!(state.create_split(ids[1], ids[0], SplitPlacement::Right));
    let first = state.split_for_tab(ids[0]).unwrap().id();
    assert!(state.create_split(ids[3], ids[2], SplitPlacement::Bottom));
    assert_eq!(
        state.replace_split_member(first, SplitSide::Second, ids[3]),
        Some(ids[1])
    );
    assert_eq!(state.split_group(first).unwrap().tabs(), [ids[0], ids[3]]);
    assert_eq!(
        state.split_for_tab(ids[1]).unwrap().tabs(),
        [ids[2], ids[1]]
    );
}

#[test]
fn replacing_the_opposite_member_focuses_the_dragged_tab_after_swap() {
    let mut state = TabState::new();
    let ids = open_files(&mut state, 2);
    assert!(state.create_split(ids[1], ids[0], SplitPlacement::Right));
    assert!(state.select_tab(ids[0]));
    let group_id = state.active_split().unwrap().id();
    let dragged_side = if state.active_split().unwrap().tab(SplitSide::First) == ids[1] {
        SplitSide::First
    } else {
        SplitSide::Second
    };
    let target_side = match dragged_side {
        SplitSide::First => SplitSide::Second,
        SplitSide::Second => SplitSide::First,
    };

    assert_eq!(
        state.replace_split_member(group_id, target_side, ids[1]),
        Some(ids[0])
    );
    assert_eq!(state.active_tab_id(), Some(ids[1]));
    let group = state.active_split().unwrap();
    assert_eq!(group.tab(group.focused()), ids[1]);
    assert_eq!(state.next_entry_tab(), Some(ids[1]));
}

#[test]
fn closing_a_split_member_leaves_the_sibling_single() {
    let mut state = TabState::new();
    let ids = open_files(&mut state, 2);
    assert!(state.create_split(ids[1], ids[0], SplitPlacement::Right));
    let closing = state.tab_registry_index(ids[1]).unwrap();
    state.close(closing).unwrap();
    assert_eq!(state.entries(), &[TabEntry::Single(ids[0])]);
    assert_eq!(state.active_tab_id(), Some(ids[0]));
}

#[test]
fn ctrl_tab_treats_each_split_as_one_entry() {
    let mut state = TabState::new();
    let ids = open_files(&mut state, 3);
    assert!(state.create_split(ids[1], ids[0], SplitPlacement::Right));
    assert!(state.select_tab(ids[0]));
    assert_eq!(state.next_entry_tab(), Some(ids[2]));
    assert!(state.select_tab(ids[2]));
    assert_eq!(state.next_entry_tab(), Some(ids[0]));
}

#[test]
fn restore_rejects_duplicate_or_missing_membership() {
    let mut state = TabState::new();
    let ids = open_files(&mut state, 3);
    let pair = RestoredTabEntry::Split {
        first: ids[0],
        second: ids[1],
        direction: SplitDirection::Horizontal,
        ratio_bits: 0.5_f32.to_bits(),
        focused: SplitSide::First,
    };
    assert!(!state.restore_layout(
        vec![RestoredTabEntry::Single(ids[0]), pair],
        Some(ids[0]),
    ));
    assert!(!state.restore_layout(vec![RestoredTabEntry::Single(ids[0])], Some(ids[0])));
    assert!(!state.restore_layout(
        vec![pair, RestoredTabEntry::Single(ids[2])],
        Some(ids[1]),
    ));
}

#[test]
fn restore_takes_a_complete_layout() {
    let mut state = TabState::new();
    let ids = open_files(&mut state, 3);
    assert!(state.restore_layout(
        vec![
            RestoredTabEntry::Single(ids[2]),
            RestoredTabEntry::Split {
                first: ids[1],
                second: ids[0],
                direction: SplitDirection::Vertical,
                ratio_bits: 0.25_f32.to_bits(),
                focused: SplitSide::Second,
            },
        ],
        Some(ids[0]),
    ));
    assert_eq!(state.display_tab_ids(), vec![ids[2], ids[1], ids[0]]);
    assert_eq!(state.active_tab_id(), Some(ids[0]));
    assert_eq!(state.active_split().unwrap().ratio(), 0.25_f32.to_bits());

    let captured = capture_layout(&state);
    assert_eq!(
        captured.entries,
        vec![
            SessionEntry::Single { tab_index: 2 },
            SessionEntry::Split {
                first_tab: 1,
                second_tab: 0,
                direction: SplitDirection::Vertical,
                ratio_bits: 0.25_f32.to_bits(),
                focused_tab: 0,
            },
        ]
    );
    assert_eq!(captured.active_tab, Some(0));
}

#[test]
fn split_direction_ratio_swap_and_unsplit_are_explicit() {
    let mut state = TabState::new();
    let ids = open_files(&mut state, 2);
    assert!(state.create_split(ids[1], ids[0], SplitPlacement::Right));
    let group_id = state.split_for_tab(ids[0]).unwrap().id();
    assert!(state.set_split_direction(group_id, SplitDirection::Vertical));
    assert!(state.set_split_ratio(group_id, 0.3_f32.to_bits()));
    assert!(state.swap_split_members(group_id));
    let group = state.split_group(group_id).unwrap();
    assert_eq!(group.tabs(), [ids[1], ids[0]]);
    assert_eq!(group.direction(), SplitDirection::Vertical);
    assert_eq!(group.ratio(), 0.3_f32.to_bits());
    assert!(state.unsplit(group_id));
    assert_eq!(state.entries().len(), 2);
}

#[test]
fn ratios_lie_between_a_tenth_and_nine_tenths() {
    for ratio in [0.1_f32, 0.5, 0.9] {
        assert!(valid_ratio(ratio.to_bits()));
    }
    for ratio in [0.0_f32, -0.5, 0.0999, 0.9001, f32::NAN, f32::INFINITY] {
        assert!(!valid_ratio(ratio.to_bits()));
    }
}

#[test]
fn a_split_member_moves_next_to_its_target() {
    let mut state = TabState::new();
    let ids = open_files(&mut state, 3);
    assert!(state.create_split(ids[0], ids[2], SplitPlacement::Left));
    assert_eq!(state.display_tab_ids(), vec![ids[1], ids[0], ids[2]]);
    assert_eq!(state.active_tab_id(), Some(ids[0]));
    assert!(!state.create_split(ids[1], ids[1], SplitPlacement::Left));
}

#[test]
fn entries_move_in_the_bar() {
    let mut state = TabState::new();
    let ids = open_files(&mut state, 4);
    assert!(state.reorder_single(ids[0], 3));
    assert_eq!(
        state.display_tab_ids(),
        vec![ids[1], ids[2], ids[0], ids[3]]
    );
}

#[test]
fn runtime_layout_drops_unavailable_tabs_and_keeps_valid_focus() {
    let mut state = TabState::new();
    let ids = open_files(&mut state, 3);
    let saved = SessionLayout {
        entries: vec![
            SessionEntry::Split {
                first_tab: 0,
                second_tab: 1,
                direction: SplitDirection::Horizontal,
                ratio_bits: 0.4_f32.to_bits(),
                focused_tab: 1,
            },
            SessionEntry::Single { tab_index: 2 },
        ],
        active_tab: Some(2),
    };

    let (entries, active) =
        restored_runtime_layout(&saved, &vec![Some(ids[0]), None, Some(ids[2])]);

    assert_eq!(
        entries,
        vec![
            RestoredTabEntry::Single(ids[0]),
            RestoredTabEntry::Single(ids[2])
        ]
    );
    assert_eq!(active, Some(ids[2]));

    let (entries, active) = restored_runtime_layout(&saved, &vec![Some(ids[0]), None, None]);
    assert_eq!(entries, vec![RestoredTabEntry::Single(ids[0])]);
    assert_eq!(active, Some(ids[0]));
}

#[test]
fn dots_in_paths_are_resolved_by_name() {
    let path = DocumentPath {
        absolute: true,
        components: vec![
            PathComponent::RootDir,
            PathComponent::Normal("folder".to_owned()),
            PathComponent::CurDir,
            PathComponent::ParentDir,
            PathComponent::Normal("papers".to_owned()),
            PathComponent::Normal("a.pdf".to_owned()),
        ],
    };
    assert_eq!(normalize_path(&path), file("a.pdf"));
    assert!(normalize_path(&file("a.pdf")).same(&file("a.pdf")));
}

#[test]
fn the_pointer_acts_on_the_pane_that_holds_it() {
    assert_eq!(
        pointed_side(false, &vec![true, false]),
        Some(SplitSide::First)
    );
    assert_eq!(
        pointed_side(false, &vec![false, true]),
        Some(SplitSide::Second)
    );
    assert_eq!(pointed_side(true, &vec![true, false]), None);
    assert_eq!(pointed_side(false, &vec![false]), None);
}

#[test]
fn panes_follow_the_active_entry() {
    let mut state = TabState::new();
    let ids = open_files(&mut state, 3);
    assert!(state.create_split(ids[1], ids[0], SplitPlacement::Right));
    assert!(state.has_second_pane());
    assert_eq!(state.visible_indices(), vec![0, 1]);
    assert_eq!(state.focused_side(), SplitSide::Second);
    assert!(state.focus_side(SplitSide::First));
    assert_eq!(state.focused_side(), SplitSide::First);
    assert_eq!(state.side_for_index(1), Some(SplitSide::Second));
    assert_eq!(state.side_for_index(2), None);
    assert!(state.is_visible_index(0));
    assert!(!state.is_visible_index(2));
    assert!(state.select_tab(ids[2]));
    assert!(!state.has_second_pane());
    assert!(!state.focus_side(SplitSide::Second));
}

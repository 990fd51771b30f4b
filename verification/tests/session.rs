use lunapdf::migration::{
    schema_for_version, session_schema, ParsedSession, SessionLayoutSchema2, SessionPaneSchema2,
    SessionSchema, SessionSplitSchema2, SessionStateSchema1, SessionStateSchema2,
};
use lunapdf::path::{DocumentPath, PathComponent};
use lunapdf::session::{
    DisplayMode, SessionEntry, SessionError, SessionLayout, SessionState, SessionTab, SessionView,
    SidebarTab, ZoomMode,
};
use lunapdf::settings::{default_wheel_scroll_speed_percent, AppSettings, SettingsError};
use lunapdf::tabs::SplitDirection;

fn normal(name: &str) -> PathComponent {
    PathComponent::Normal(name.to_owned())
}

fn path(name: &str) -> DocumentPath {
    DocumentPath {
        absolute: true,
        components: vec![PathComponent::RootDir, normal("papers"), normal(name)],
    }
}

fn tab(path: DocumentPath) -> SessionTab {
    SessionTab {
        path,
        view: SessionView {
            page_index: 2,
            page_x_bits: 0.5_f32.to_bits(),
            page_y_bits: 0.25_f32.to_bits(),
            display: DisplayMode::SinglePage,
            zoom_mode: ZoomMode::Fixed,
            zoom_bits: 1.5_f32.to_bits(),
        },
    }
}

fn one_tab_state() -> SessionState {
    SessionState {
        tabs: vec![tab(path("paper.pdf"))],
        layout: SessionLayout {
            entries: vec![SessionEntry::Single { tab_index: 0 }],
            active_tab: Some(0),
        },
        ..SessionState::default()
    }
}

fn split(first_tab: usize, second_tab: usize, ratio: f32, focused_tab: usize) -> SessionEntry {
    SessionEntry::Split {
        first_tab,
        second_tab,
        direction: SplitDirection::Vertical,
        ratio_bits: ratio.to_bits(),
        focused_tab,
    }
}

#[test]
fn default_and_empty_layout_are_schema_three() {
    let state = SessionState::default();
    assert_eq!(state.schema_version, 3);
    assert!(state.validate().is_ok());
    assert!(state.layout.entries.is_empty());
}

fn split_state() -> SessionState {
    SessionState {
        tabs: (0..5)
            .map(|index| tab(path(&format!("{index}.pdf"))))
            .collect(),
        layout: SessionLayout {
            entries: vec![
                SessionEntry::Split {
                    first_tab: 0,
                    second_tab: 1,
                    direction: SplitDirection::Horizontal,
                    ratio_bits: 0.4_f32.to_bits(),
                    focused_tab: 1,
                },
                SessionEntry::Single { tab_index: 2 },
                SessionEntry::Split {
                    first_tab: 3,
                    second_tab: 4,
                    direction: SplitDirection::Vertical,
                    ratio_bits: 0.6_f32.to_bits(),
                    focused_tab: 4,
                },
            ],
            active_tab: Some(4),
        },
        ..SessionState::default()
    }
}

#[test]
fn multiple_horizontal_and_vertical_split_entries_round_trip() {
    assert_eq!(
        SessionState::decode(ParsedSession::Schema3(split_state())).unwrap(),
        split_state()
    );
}

#[test]
fn schema_one_migrates_to_single_entries_and_defaults_colors() {
    let json = r#"{
        "schema_version": 1,
        "restore_enabled": true,
        "selected_tab": 0,
        "sidebar_open": false,
        "sidebar_tab": "Outline",
        "tabs": [{
            "path": "/papers/paper.pdf",
            "view": {
                "page_index": 2,
                "page_x": 0.5,
                "page_y": 0.25,
                "display": "SinglePage",
                "zoom_mode": "Fixed",
                "zoom": 1.5
            }
        }]
    }"#;
    assert_eq!(session_schema(json.as_bytes()), Ok(SessionSchema::Schema1));
    let state = SessionState::decode(ParsedSession::Schema1(SessionStateSchema1 {
        schema_version: 1,
        restore_enabled: true,
        selected_tab: Some(0),
        sidebar_open: false,
        sidebar_tab: SidebarTab::Outline,
        tabs: vec![tab(path("paper.pdf"))],
        recent_annotation_colors: vec![],
    }))
    .unwrap();
    assert_eq!(state.schema_version, 3);
    assert_eq!(
        state.layout.entries,
        vec![SessionEntry::Single { tab_index: 0 }]
    );
    assert_eq!(state.layout.active_tab, Some(0));
    assert!(state.recent_annotation_colors.is_empty());
}

fn schema_two() -> SessionStateSchema2 {
    SessionStateSchema2 {
        schema_version: 2,
        restore_enabled: true,
        sidebar_open: false,
        sidebar_tab: SidebarTab::Outline,
        tabs: (0..4)
            .map(|index| tab(path(&format!("{index}.pdf"))))
            .collect(),
        layout: SessionLayoutSchema2 {
            panes: vec![
                SessionPaneSchema2 {
                    tab_indices: vec![0, 2],
                    selected_tab: 2,
                },
                SessionPaneSchema2 {
                    tab_indices: vec![1, 3],
                    selected_tab: 1,
                },
            ],
            focused_pane: Some(1),
            split: Some(SessionSplitSchema2 {
                ratio_bits: 0.35_f32.to_bits(),
            }),
        },
        recent_annotation_colors: vec![],
    }
}

#[test]
fn schema_two_migrates_visible_pair_and_preserves_old_bar_order() {
    let state = SessionState::decode(ParsedSession::Schema2(schema_two())).unwrap();
    assert_eq!(state.schema_version, 3);
    assert_eq!(
        state.layout.entries,
        vec![
            SessionEntry::Single { tab_index: 0 },
            SessionEntry::Split {
                first_tab: 2,
                second_tab: 1,
                direction: SplitDirection::Horizontal,
                ratio_bits: 0.35_f32.to_bits(),
                focused_tab: 1,
            },
            SessionEntry::Single { tab_index: 3 },
        ]
    );
    assert_eq!(state.layout.active_tab, Some(1));
}

#[test]
fn schema_two_layouts_that_do_not_add_up_are_rejected() {
    let refusal = |change: fn(&mut SessionStateSchema2)| {
        let mut state = schema_two();
        change(&mut state);
        SessionState::decode(ParsedSession::Schema2(state)).unwrap_err()
    };
    assert_eq!(
        refusal(|state| state.schema_version = 1),
        SessionError::WrongSchema2Version(1)
    );
    assert_eq!(
        refusal(|state| state.tabs.clear()),
        SessionError::Schema2EmptySessionHasLayout
    );
    assert_eq!(
        refusal(|state| state.layout.panes.clear()),
        SessionError::Schema2PaneCount
    );
    assert_eq!(
        refusal(|state| state.layout.focused_pane = None),
        SessionError::Schema2NoFocusedPane
    );
    assert_eq!(
        refusal(|state| state.layout.focused_pane = Some(2)),
        SessionError::Schema2FocusedPaneOutOfRange
    );
    assert_eq!(
        refusal(|state| {
            state.layout.panes.truncate(1);
            state.layout.focused_pane = Some(0);
        }),
        SessionError::Schema2SinglePaneSplit
    );
    assert_eq!(
        refusal(|state| state.layout.split = None),
        SessionError::Schema2TwoPanesWithoutSplit
    );
    assert_eq!(
        refusal(|state| {
            state.layout.split = Some(SessionSplitSchema2 {
                ratio_bits: 0.95_f32.to_bits(),
            });
        }),
        SessionError::Schema2RatioOutOfRange
    );
    assert_eq!(
        refusal(|state| state.layout.panes[0].selected_tab = 1),
        SessionError::Schema2PaneSelection
    );
    assert_eq!(
        refusal(|state| state.layout.panes[0].tab_indices.push(3)),
        SessionError::Schema2TabNotInExactlyOnePane
    );
    assert_eq!(
        refusal(|state| state.layout.panes[0].tab_indices.push(9)),
        SessionError::TabIndexOutOfRange(9)
    );
}

#[test]
fn schema_one_selections_that_do_not_add_up_are_rejected() {
    let refusal = |version: u32, selected_tab: Option<usize>, tabs: Vec<SessionTab>| {
        SessionState::decode(ParsedSession::Schema1(SessionStateSchema1 {
            schema_version: version,
            restore_enabled: true,
            selected_tab,
            sidebar_open: false,
            sidebar_tab: SidebarTab::Outline,
            tabs,
            recent_annotation_colors: vec![],
        }))
        .unwrap_err()
    };
    assert_eq!(
        refusal(2, None, vec![]),
        SessionError::WrongSchema1Version(2)
    );
    assert_eq!(
        refusal(1, Some(0), vec![]),
        SessionError::EmptySessionSelectsTab
    );
    assert_eq!(
        refusal(1, None, vec![tab(path("a.pdf"))]),
        SessionError::NonemptySessionSelectsNoTab
    );
    assert_eq!(
        refusal(1, Some(1), vec![tab(path("a.pdf"))]),
        SessionError::SelectedTabOutOfRange(1)
    );
}

#[test]
fn malformed_membership_focus_and_split_values_are_rejected() {
    let mut state = one_tab_state();
    state.layout.entries.clear();
    assert!(state.validate().is_err());
    state.layout.entries = vec![SessionEntry::Single { tab_index: 1 }];
    assert!(state.validate().is_err());
    state.layout.entries = vec![split(0, 0, 0.5, 0)];
    assert!(state.validate().is_err());
    state.tabs.push(tab(path("second.pdf")));
    state.layout.entries = vec![split(0, 1, 0.09, 0)];
    assert!(state.validate().is_err());
    state.layout.entries = vec![split(0, 1, 0.5, 0)];
    state.layout.active_tab = Some(1);
    assert!(state.validate().is_err());
}

#[test]
fn layout_errors_name_what_is_wrong() {
    let mut state = one_tab_state();
    state.layout.entries = vec![SessionEntry::Single { tab_index: 1 }];
    assert_eq!(state.validate(), Err(SessionError::TabIndexOutOfRange(1)));
    state.layout.entries = vec![split(0, 0, 0.5, 0)];
    assert_eq!(state.validate(), Err(SessionError::SplitRepeatsTab));
    state.layout.entries.clear();
    assert_eq!(state.validate(), Err(SessionError::TabNotInExactlyOneEntry));
    state.layout.active_tab = None;
    assert_eq!(state.validate(), Err(SessionError::NoActiveTab));
    state.layout.active_tab = Some(4);
    assert_eq!(state.validate(), Err(SessionError::ActiveTabOutOfRange(4)));
    state.layout.active_tab = Some(0);
    state.tabs.push(tab(path("second.pdf")));
    state.layout.entries = vec![split(0, 1, 0.5, 2)];
    assert_eq!(state.validate(), Err(SessionError::SplitFocusesNoMember));
    state.layout.entries = vec![split(0, 1, 0.09, 0)];
    assert_eq!(state.validate(), Err(SessionError::SplitRatioOutOfRange));
    state.layout.entries = vec![split(0, 1, 0.5, 1)];
    assert_eq!(state.validate(), Err(SessionError::ActiveSplitTabNotFocused));
    state.layout.entries = vec![split(0, 1, 0.5, 0)];
    assert_eq!(state.validate(), Ok(()));
    state.tabs.clear();
    assert_eq!(state.validate(), Err(SessionError::EmptySessionHasLayout));
}

#[test]
fn paths_views_and_recent_colors_keep_existing_validation() {
    let mut state = one_tab_state();
    state.tabs[0].path = DocumentPath {
        absolute: false,
        components: vec![normal("relative.pdf")],
    };
    assert!(state.validate().is_err());
    state.tabs[0].path = DocumentPath {
        absolute: true,
        components: vec![
            PathComponent::RootDir,
            normal("folder"),
            PathComponent::ParentDir,
            normal("paper.pdf"),
        ],
    };
    assert!(state.validate().is_err());
    state.tabs[0].path = path("paper.pdf");
    state.tabs[0].view.zoom_bits = 4.1_f32.to_bits();
    assert!(state.validate().is_err());
    state.tabs[0].view.zoom_bits = 1.0_f32.to_bits();
    state.recent_annotation_colors = vec![[1, 2, 3], [1, 2, 3]];
    assert!(state.validate().is_err());
}

#[test]
fn tab_errors_name_what_is_wrong() {
    let mut state = one_tab_state();
    state.tabs[0].path.absolute = false;
    assert_eq!(state.validate(), Err(SessionError::PathNotAbsolute(0)));
    state.tabs[0].path = DocumentPath {
        absolute: true,
        components: vec![PathComponent::RootDir, PathComponent::ParentDir, normal("a")],
    };
    assert_eq!(state.validate(), Err(SessionError::PathNotNormalized(0)));
    state.tabs[0].path = path("paper.pdf");
    state.tabs[0].view.page_x_bits = 1.5_f32.to_bits();
    assert_eq!(state.validate(), Err(SessionError::PageXOutOfRange));
    state.tabs[0].view.page_x_bits = 1.0_f32.to_bits();
    state.tabs[0].view.page_y_bits = f32::NAN.to_bits();
    assert_eq!(state.validate(), Err(SessionError::PageYOutOfRange));
    state.tabs[0].view.page_y_bits = 0.0_f32.to_bits();
    state.tabs[0].view.zoom_bits = 0.1_f32.to_bits();
    assert_eq!(state.validate(), Err(SessionError::ZoomOutOfRange));
    state.tabs[0].view.zoom_bits = 1.0_f32.to_bits();
    state.recent_annotation_colors = vec![[0; 3], [1; 3], [2; 3], [3; 3], [4; 3], [5; 3]];
    assert_eq!(state.validate(), Err(SessionError::TooManyRecentColors));
    state.recent_annotation_colors = vec![[1; 3], [1; 3]];
    assert_eq!(state.validate(), Err(SessionError::DuplicateRecentColors));
    state.recent_annotation_colors = vec![];
    state.tabs.push(tab(path("paper.pdf")));
    assert_eq!(state.validate(), Err(SessionError::DuplicateTabPath(1)));
}

#[test]
fn the_schema_is_read_from_the_text() {
    assert_eq!(
        session_schema(br#"{"tabs": [], "schema_version": 2}"#),
        Ok(SessionSchema::Schema2)
    );
    assert_eq!(
        session_schema(br#"{"schema_version": 3, "unknown": null}"#),
        Ok(SessionSchema::Schema3)
    );
    assert_eq!(
        session_schema(br#"{"schema_version": 4}"#),
        Err(SessionError::UnsupportedSchemaVersion(4))
    );
    assert_eq!(
        session_schema(br#"{"tabs": []}"#),
        Err(SessionError::MissingSchemaVersion)
    );
    assert_eq!(
        session_schema(br#"{"schema_version": "3"}"#),
        Err(SessionError::MissingSchemaVersion)
    );
    assert_eq!(session_schema(b"{ not json"), Err(SessionError::Malformed));
    assert_eq!(
        schema_for_version(Some(0)),
        Err(SessionError::UnsupportedSchemaVersion(0))
    );
    assert_eq!(schema_for_version(None), Err(SessionError::MissingSchemaVersion));
}

#[test]
fn scroll_speeds_are_kept_within_bounds() {
    assert_eq!(default_wheel_scroll_speed_percent(), 100);
    assert_eq!(AppSettings::default().wheel_scroll_speed, 100);
    for speed in [25, 100, 300] {
        let settings = AppSettings {
            wheel_scroll_speed: speed,
        };
        assert_eq!(settings.validate(), Ok(()));
    }
    for speed in [0, 24, 301] {
        let settings = AppSettings {
            wheel_scroll_speed: speed,
        };
        assert_eq!(settings.validate(), Err(SettingsError::WheelScrollSpeed));
    }
    assert_eq!(
        SettingsError::WheelScrollSpeed.message(),
        "wheel scroll speed must be between 25% and 300%"
    );
}

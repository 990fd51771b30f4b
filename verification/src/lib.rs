//! The decision layer of the LunaPDF viewer.
//!
//! Everything the viewer decides without touching a window, a file or a floating
//! point number lives here: the tab registry and its split layout, the persisted
//! session and its migrations, the state machine of an open document, search,
//! the highlight index, the closing dialogs, tile scheduling and diagnostics.
//! Geometry arrives as plain values: a floating point quantity that is only stored
//! or compared is carried by its bit pattern.
pub mod annotation;
pub mod annotation_actions;
pub mod bar_laws;
pub mod cache;
pub mod chrome;
pub mod close_flow;
pub mod close_laws;
pub mod colors;
pub mod controls;
pub mod diagnostics;
pub mod document;
pub mod edit_laws;
pub mod editing;
pub mod event_laws;
pub mod events;
pub mod eviction;
pub mod external;
pub mod grid;
pub mod highlight_index;
pub mod keys;
pub mod layout_laws;
pub mod measure_laws;
pub mod migration;
pub mod numbers;
pub mod opening;
pub mod page_books;
pub mod page_view;
pub mod painting;
pub mod panes;
pub mod path;
pub mod performance;
pub mod provenance;
pub mod removal;
pub mod render_laws;
pub mod rendering;
pub mod restore;
pub mod restore_laws;
pub mod sampling;
pub mod search;
pub mod search_laws;
pub mod selection;
pub mod selection_laws;
pub mod session;
pub mod session_errors;
pub mod session_laws;
pub mod settings;
pub mod shortcuts;
pub mod startup;
pub mod startup_laws;
pub mod tab_bar;
pub mod tab_laws;
pub mod tabs;
pub mod text;
pub mod tiles;
pub mod view;
pub mod view_laws;
pub mod workspace;
pub mod workspace_laws;

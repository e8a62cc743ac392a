//! State and rendering logic of a terminal dashboard that supervises agent
//! workspaces.
pub mod agents;
pub mod app;
pub mod app_keys;
pub mod app_laws;
pub mod app_panes;
pub mod assoc;
pub mod beads;
pub mod clock;
pub mod command;
pub mod command_laws;
pub mod detail;
pub mod dismissal;
pub mod dispatch_modal;
pub mod edit_laws;
pub mod files;
pub mod footer;
pub mod gather;
pub mod gather_laws;
pub mod handoff;
pub mod handoff_modal;
pub mod intent;
pub mod key_laws;
pub mod keys;
pub mod mesh;
pub mod modal_laws;
pub mod numeral;
pub mod order;
pub mod pane_laws;
pub mod peek_view;
pub mod prefixes;
pub mod projection;
pub mod refresh;
pub mod regen;
pub mod save_laws;
pub mod schedule_laws;
pub mod screen;
pub mod screen_laws;
pub mod search;
pub mod sessions;
pub mod sidebar;
pub mod snapshot;
pub mod sources;
pub mod state_laws;
pub mod style;
pub mod surface;
pub mod task_laws;
pub mod tasks;
pub mod text;
pub mod text_laws;
pub mod trajectory;
pub mod trajectory_edit;
pub mod trajectory_view;
pub mod view_laws;
pub mod workspace;
pub mod wrap;
pub mod wrap_laws;

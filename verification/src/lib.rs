//! Library surface for the `rex` project pipeline: the schedule work queue,
//! project descriptors, bundle installs, the planning models, and the
//! decisions of the autorun and chat daemons (run state machine, message
//! triage and routing, registries of runs and sessions).

pub mod autorun;
pub mod bundle;
pub mod chat;
pub mod chat_menu;
pub mod chat_router;
pub mod chat_session;
pub mod commands;
pub mod discovery;
pub mod error;
pub mod inbox;
pub mod models;
pub mod project;
pub mod registry;
pub mod runner;
pub mod schedule;
pub mod selection;
pub mod sessions;
pub mod text;
pub mod triage;

pub use project::ProjectId;

//! Shell aliases and command snippets: an alias store kept in a managed block
//! of the shell startup file, a snippet store with command templates, and the
//! state machine of an interactive session over both.
pub mod text;
pub mod template;
pub mod stamp;
pub mod alias;
pub mod alias_store;
pub mod config_laws;
pub mod snippet;
pub mod snippet_store;
pub mod ui;
pub mod update;
pub mod utils;
pub mod state;
pub mod handlers;
pub mod event;

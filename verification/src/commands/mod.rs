//! The decisions behind the app's commands. Each command's I/O (database,
//! network, keychain timing) is performed by the caller; what is decided
//! from the values it gathers is here.
pub mod ai;
pub mod push;
pub mod automation;
pub mod prompts;
pub mod cycle;
pub mod sync;
pub mod settings;
pub mod share;
pub mod history;

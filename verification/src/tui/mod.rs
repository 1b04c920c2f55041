//! State of the terminal user interface.

pub mod actions;
pub mod app;
pub mod attaching;
pub mod attachment_laws;
pub mod attachments;
pub mod cells;
pub mod composer;
pub mod editing_laws;
pub mod hooks;
pub mod paste_burst;
pub mod paste_file;
pub mod recall;
pub mod recall_laws;
pub mod references;
pub mod setting_laws;
pub mod settings;
pub mod status;
pub mod status_laws;
pub mod tables;
pub mod viewport;
pub mod vim;

//! The settings engine of a terminal editor for one graphics-settings record:
//! the record and its fields, the catalog of editable settings, value
//! cycling, the blob framing of the stored record, and the session state
//! that a front end drives.

pub mod app;
pub mod cycle;
pub mod display;
pub mod keys;
pub mod l10n;
pub mod registry;
pub mod scale;
pub mod settings;
pub mod store;
pub mod text;

//! Verified core of a terminal browser for a parameter store: text editing with
//! byte-offset cursors, list filtering and selection, the create-parameter popup,
//! and the key-driven state machine that the terminal front end runs.

pub mod app;
pub mod keys;
pub mod laws;
pub mod layout;
pub mod models;
pub mod ssm_data;
pub mod strings;
pub mod text_edit;
pub mod tools;
pub mod view;

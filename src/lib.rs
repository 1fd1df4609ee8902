pub mod commands;
pub mod context;
pub mod direction;
pub mod error;
pub mod layout;
pub mod locator;
pub mod number;
pub mod pane_list;
pub mod status;
pub mod text;

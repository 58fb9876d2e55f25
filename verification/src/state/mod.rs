//! Application state: focus, input modes, the status bar and what the
//! output area shows.

pub mod context;
pub mod focus;
pub mod input_mode;
pub mod app;
pub mod workspace;

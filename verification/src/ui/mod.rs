//! Interface state that is independent of drawing: the theme choice,
//! scroll state, the panel layout and the workspace selector.

pub mod theme;
pub mod scroll;
pub mod layout;
pub mod workspace_selector;
pub mod markdown;

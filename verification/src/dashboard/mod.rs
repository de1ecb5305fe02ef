//! The logic of the browser dashboard.

pub mod api;
pub mod definition;
pub mod editor;
pub mod events;
pub mod page;
pub mod pane;
pub mod roundtrip;
pub mod rows;
pub mod timeline;
pub mod toolbox;

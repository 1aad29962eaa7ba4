//! Review of outstanding media requests: per-viewer watch history, sorting,
//! and the order in which chosen items are removed.

pub mod colors;
pub mod dates;
pub mod deletion;
pub mod history;
pub mod items;
pub mod paging;
pub mod render;
pub mod shared;
pub mod text;
pub mod watches;

//! Window, workspace, output and global window-manager state.

pub mod app;
pub mod laws;
pub mod tree;
pub mod window;

pub use app::{global_to_bind, Global, ManageCycle, RiverState};
pub use tree::{Output, Shuttle, UsableArea, Workspace};
pub use window::{Window, WindowId};

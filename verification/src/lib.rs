pub mod app;
pub mod backend;
pub mod gh;
pub mod path;
pub mod state;
pub mod text;
pub mod tmux;
pub mod ui;
pub mod worktree;

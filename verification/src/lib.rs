//! The decisions of a code editor's project: which worktree a path belongs to, who takes part in
//! a shared project, what is sent to whom and in which order.
pub mod buffer;
pub mod candidates;
pub mod collaborators;
pub mod event;
pub mod hints;
pub mod ids;
pub mod ordered;
pub mod path;
pub mod path_map;
pub mod path_order;
pub mod project;
pub mod project_path;
pub mod retained;
pub mod seqs;
pub mod sort;
pub mod tilde;
pub mod worktree;

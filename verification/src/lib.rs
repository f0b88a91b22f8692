pub mod cli;
pub mod config;
pub mod diff;
pub mod effects;
pub mod git;
pub mod json;
pub mod land;
pub mod laws;
pub mod mcp;
pub mod minesweeper;
pub mod name;
pub mod ops;
pub mod pr;
pub mod refusals;
pub mod seqs;
pub mod server;
pub mod splits;
pub mod store;
pub mod text;
pub mod time;
pub mod worktree;
pub mod writes;

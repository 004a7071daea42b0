pub mod text;
pub mod git;
pub mod diff;
pub mod session;
pub mod commands;
pub mod refs;
pub mod summary;
pub mod log;
pub mod repos;
pub mod untracked;
pub mod service;
pub mod assets;
pub mod config;
pub mod watch;

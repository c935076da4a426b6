//! Pulls a reMarkable tablet notebook's pages down over SSH, and pushes one edited page back up
//! with a backup first and a hash check afterwards.
//!
//! This crate is the part that decides: which command to run next, which file to move where, what
//! a reply means and what is said to the user. It performs no input or output itself. A caller
//! drives one of the runs below, carries out the [`task::Task`] it asks for and hands the reply
//! back as a [`task::Event`].

pub mod backup_laws;
pub mod content;
pub mod digest;
pub mod filename;
pub mod lookup;
pub mod outside;
pub mod path;
pub mod pull;
pub mod pull_laws;
pub mod pull_run_laws;
pub mod push;
pub mod push_laws;
pub mod push_run_laws;
pub mod remote;
pub mod remote_laws;
pub mod search;
pub mod setup;
pub mod setup_laws;
pub mod shell;
pub mod ssh_config;
pub mod task;
pub mod text;
pub mod text_laws;
pub mod uuid;

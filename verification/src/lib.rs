//! A manager for SSH tunnels over one persistent, multiplexed session:
//! an action-driven reducer owns all application state, detached-task
//! effects describe the outside work, and completions come back to the
//! reducer as new actions. The reducer, the host-config grammar, the
//! tunnel registry and the history are specified and verified here; the
//! terminal, the subprocess and the disk live in the surrounding binary.

pub mod action;
pub mod app;
pub mod chars;
pub mod connection;
pub mod error;
pub mod history;
pub mod laws;
pub mod modal;
pub mod outside;
pub mod settings;
pub mod sshconfig;
pub mod tunnel;

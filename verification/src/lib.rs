//! Decisions of a small updater for a desktop release of Visual Studio Code:
//! whether the recorded version is the latest one, how the release and its
//! desktop integration are installed, and how they are removed.
//!
//! The crate never touches the network or the disk itself. Every procedure is a
//! state machine: it names the next thing to be done as a [`wire::Request`], is
//! told the outcome as a [`wire::Reply`], and answers with the next request or
//! with its result. Whoever drives a machine performs the requests.
//!
//! - [`wire`] holds the requests, the replies and the progress of a machine.
//! - [`layout`] and [`manifest`] hold the fixed places and the files of the
//!   desktop integration.
//! - [`version`] reads the version record and compares versions.
//! - [`plan`] holds plans of guarded changes and the machine that carries
//!   one out.
//! - [`removal`], [`lookup`], [`checker`] and [`install`] hold the procedures.
//! - [`world`] is a model of what a driver acts on, and [`laws`] states and
//!   proves what the machines do in it as a whole.

pub mod checker;
pub mod error;
pub mod install;
pub mod laws;
pub mod layout;
pub mod lookup;
pub mod manifest;
pub mod plan;
pub mod removal;
pub mod version;
pub mod wire;
pub mod world;

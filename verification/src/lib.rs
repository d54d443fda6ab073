//! Recursive download and refresh of repository folders.
//!
//! The library holds the decisions: what a folder link addresses, what a
//! descriptor file says, which requests resolve a remote folder and in
//! which order, and how a refresh run goes on or ends. It is stated over
//! plain values and proved. A driver performs the requests (the network,
//! the file system) and hands the answers back.
//!
//! - [`link`]: from a folder link to coordinates.
//! - [`metadata`]: the descriptor kept beside a downloaded folder.
//! - [`remote`]: listing addresses, listing entries, answer statuses.
//! - [`resolver`]: the walk over a remote folder, request by request.
//! - [`plan`]: the requests of a whole remote tree, and the proof that
//!   the walk makes exactly these.
//! - [`discovery`]: the search for descriptor files, directory by
//!   directory.
//! - [`inventory`]: the descriptor files of a whole local tree, and the
//!   proof that the search finds exactly these.
//! - [`refresh`]: the run over the descriptors found.
//! - [`download`]: the beginning of a fresh download.
//! - [`report`]: what each failure says to the user.
//! - [`json`], [`text`]: flat JSON records and string helpers.

pub mod discovery;
pub mod download;
pub mod inventory;
pub mod json;
pub mod link;
pub mod metadata;
pub mod plan;
pub mod refresh;
pub mod remote;
pub mod report;
pub mod resolver;
pub mod text;

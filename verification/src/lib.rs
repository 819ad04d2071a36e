//! Switching an installed application between its stock and its modified
//! shape, with every decision stated as a contract and proved.
//!
//! An installation is stock while `app.asar` in its resources directory is
//! the vendor's archive. It is modified while a stub directory of that name
//! loads code from a payload directory, and the archive waits beside it as
//! `_app.asar`.
//!
//! - [`patcher`] holds the two transitions and the check that tells the
//!   shapes apart.
//! - [`stub`] holds what the stub directory is made of.
//! - [`provision`] creates the payload directory, and [`payload`] fills it.
//! - [`paths`] holds the operator's identity and the places involved.
//! - [`session`] decides what a run does.
//! - [`target`] is the resources directory in memory.
//!
//! Nothing in this crate touches a filesystem or a network. Work of that
//! kind is asked of the caller one operation at a time, and the caller hands
//! back how it went; the same decisions are run here against directories
//! held in memory, which is where their effect is stated.

pub mod error;
pub mod patcher;
pub mod paths;
pub mod payload;
pub mod provision;
pub mod session;
pub mod stub;
pub mod target;

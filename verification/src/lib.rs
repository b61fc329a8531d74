//! Verified logic of a set of async exercises and of a Word add-in installer.
//!
//! - `poll`: what one poll of a state machine does, and an executor that
//!   polls one until it is ready.
//! - `countdown`, `join`, `delay`, `flag`: the futures of the exercises, as
//!   state machines or as the decisions a poll makes.
//! - `manifest`: what an add-in manifest says (id, version, host), read
//!   with quick_xml.
//! - `docx`: the Word document that sideloads the add-in, written with zip.
//! - `install`: the names, paths and commands the installers use.

pub mod poll;
pub mod countdown;
pub mod join;
pub mod delay;
pub mod flag;
pub mod manifest;
pub mod docx;
pub mod install;

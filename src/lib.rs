//! A terminal launcher's core: the catalog and its ranking under a search query, the
//! navigation and selection rules driven by key presses, the framing and commands of the
//! window manager's IPC protocol, and the construction of launch command lines.

use vstd::prelude::*;

pub mod app;
pub mod catalog;
pub mod color;
pub mod editing;
pub mod events;
pub mod ipc;
pub mod launch;
pub mod matcher;

verus! {

} // verus!

//! Lifecycle signals broadcast to every listener task.

use vstd::prelude::*;

verus! {

/// A lifecycle notification. The latest value sent supersedes every earlier one.
#[derive(Copy, Clone, Debug, PartialEq, Eq, Structural)]
pub enum Signal {
    Init,
    Stop,
    Reload,
}

} // verus!

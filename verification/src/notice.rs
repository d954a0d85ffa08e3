//! How loud a line in the log is.

use vstd::prelude::*;

verus! {

/// The levels at which the bridge logs.
#[derive(Clone, Copy, Debug, PartialEq, Eq, Structural)]
pub enum LogLevel {
    Debug,
    Info,
    Warn,
}

} // verus!

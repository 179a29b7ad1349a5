//! Exit-status representation shared by the builtins.

use vstd::prelude::*;

verus! {

/// Exit status of a builtin command.
#[derive(PartialEq, Eq, Structural, Clone, Copy, Debug)]
pub enum ExitStatus {
    ExitedWith(i32),
}

} // verus!

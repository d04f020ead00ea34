//! Build-time configuration constants.

use vstd::prelude::*;

verus! {

/// Size in bytes of the boot stack and of every interrupt stack.
pub const KERNEL_STACK_SIZE: usize = 32768;

/// Size in bytes of the stack handed to an ordinary task.
pub const DEFAULT_STACK_SIZE: usize = 1048576;

} // verus!

//! Trap handling. Interrupts stay disabled for the whole boot path, so
//! nothing is dispatched yet.

use vstd::prelude::*;

verus! {

/// Does nothing: no trap can arrive while interrupts are disabled.
pub fn hello() {
}

} // verus!

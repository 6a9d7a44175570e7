//! Where bringing a crew up and standing it down meet.
use vstd::prelude::*;

use crate::path;

verus! {

/// The pidfile's name, kept under the broker's state directory.
pub const PIDFILE: &'static str = "crew.pid";

/// The pidfile's path under the broker's state directory.
pub fn pidfile(state_dir: &str) -> (r: String)
    ensures
        r@ == path::under_dir(state_dir@, PIDFILE@),
{
    path::join(state_dir, PIDFILE)
}

} // verus!

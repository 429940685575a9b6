//! Start-at-login registration. Writing the platform shell's registration
//! is platform work done outside this library; on platforms without one
//! the request is accepted and nothing is registered.

use crate::fixer::FixError;
use vstd::prelude::*;

verus! {

/// Accept a start-at-login request; platforms without a registration
/// mechanism succeed without doing anything.
pub fn set_auto_start(enable: bool) -> (r: Result<(), FixError>)
    ensures
        r == Ok::<(), FixError>(()),
{
    let _ = enable;
    Ok(())
}

} // verus!

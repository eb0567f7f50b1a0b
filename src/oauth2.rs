//! The claim set that a verified bearer token carries.

use vstd::prelude::*;

verus! {

/// Claims of an XOAUTH2 bearer token: only its expiry, in seconds since the Unix epoch.
#[derive(Clone, Copy, Debug, PartialEq, Eq, Structural)]
pub struct Claims {
    pub exp: u64,
}

} // verus!

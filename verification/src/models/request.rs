//! Request bodies.
use vstd::prelude::*;

use crate::params::Params;

verus! {

/// A request to sign: the parameters to sign.
pub struct SignRequest {
    /// The parameters, named as in the gateway's documentation.
    pub params: Params,
}

/// A request to verify: the parameters of a notice, its `sign` among them.
pub struct VerifyRequest {
    /// The parameters, `sign` included.
    pub params: Params,
}

} // verus!

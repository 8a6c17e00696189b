use vstd::prelude::*;

pub mod da;
pub mod health;
pub mod kms;
pub mod operator;
pub mod socketio;

verus! {

/// Where the operator's signing keys are kept.
#[derive(Clone, Copy, Debug, PartialEq, Eq)]
pub enum Kms {
    /// An encrypted keystore file on this machine.
    Local,
    /// A cloud key-management service.
    Aws,
}

} // verus!

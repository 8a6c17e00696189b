use vstd::prelude::*;

use crate::da::{gate, opt_bytes, verify_commitment, BlobData, DaError};

verus! {

/// Width in bytes of a namespace: a version byte and a 28-byte id.
pub const NS_SIZE: usize = 29;

/// Routing tag of the namespace backend: a version byte and a 28-byte id.
#[derive(Clone, Copy, Debug, PartialEq, Eq)]
pub struct Namespace(pub [u8; 29]);

/// What the namespace backend submits: the namespace, the data and the
/// commitment they were checked against.
pub struct NamespaceSubmission {
    pub namespace: Namespace,
    pub data: Vec<u8>,
    pub commitment: Vec<u8>,
}

/// Proof of publication by the namespace backend.
pub struct CelestiaReceipt {
    pub height: u64,
    pub commitment: Vec<u8>,
    pub namespace: Namespace,
}

/// The outcome of a namespace-backend submission of payload `v` against the
/// commitment `provided`, given the commitment the backend derived from the
/// namespace and data (`None`: derivation failed).
pub open spec fn namespace_outcome(
    provided: Seq<u8>,
    v: (Option<Seq<u8>>, Seq<u8>),
    derived: Option<Seq<u8>>,
) -> Result<(Seq<u8>, Seq<u8>, Seq<u8>), DaError> {
    match v.0 {
        None => Err(DaError::MissingNamespace),
        Some(ns) => match derived {
            None => Err(DaError::CommitmentUnavailable),
            Some(c) => match gate(provided, c) {
                Ok(_) => Ok((ns, v.1, c)),
                Err(e) => Err(e),
            },
        },
    }
}

/// Requires a namespace, then gates a namespace-backend submission of `blob`
/// on the commitment `derived` that the backend computed for it.
pub fn prepare_namespace(provided: &[u8], blob: BlobData, derived: Option<Vec<u8>>) -> (r: Result<
    NamespaceSubmission,
    DaError,
>)
    ensures
        match r {
            Ok(s) => namespace_outcome(provided@, blob@, opt_bytes(derived)) == Ok::<
                (Seq<u8>, Seq<u8>, Seq<u8>),
                DaError,
            >((s.namespace.0@, s.data@, s.commitment@)),
            Err(e) => namespace_outcome(provided@, blob@, opt_bytes(derived)) == Err::<
                (Seq<u8>, Seq<u8>, Seq<u8>),
                DaError,
            >(e),
        },
{
    let namespace = match blob.namespace {
        None => {
            return Err(DaError::MissingNamespace);
        },
        Some(ns) => ns,
    };
    let commitment = match derived {
        None => {
            return Err(DaError::CommitmentUnavailable);
        },
        Some(c) => c,
    };
    match verify_commitment(provided, &commitment) {
        Err(e) => Err(e),
        Ok(()) => {
            Ok(NamespaceSubmission { namespace, data: blob.data, commitment })
        },
    }
}

} // verus!

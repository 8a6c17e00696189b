use vstd::prelude::*;

verus! {

/// Where a signing key is loaded from, with what loading it needs.
#[derive(Clone, Debug, PartialEq, Eq)]
pub enum Kms {
    /// An encrypted keystore file and its passphrase.
    Local { keystore: String, passphrase: String },
    /// A key held by a cloud key-management service.
    Aws { region: String, access_key_id: String, secret_access_key: String, key_id: String },
}

} // verus!

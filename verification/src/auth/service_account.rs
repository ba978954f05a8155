//! Service accounts.

use vstd::prelude::*;

verus! {

/// The key of a service account: who it is, and what it signs with. This
/// client carries the key to whatever acquires tokens with it and reads none
/// of it.
#[derive(Debug, Clone, PartialEq, Eq)]
pub struct ServiceAccountCredentials {
    pub client_email: String,
    pub private_key_id: String,
    pub private_key: String,
    pub token_uri: String,
}

} // verus!

//! The credential backend as the vault sees it: where a secret is kept in the
//! platform credential store, and what a failed call of the store means.

use vstd::prelude::*;
use vstd::string::StringExecFns;
use crate::error::CredentialBackendError;

verus! {

/// The text that every service name of the vault starts with.
pub open spec fn service_prefix() -> Seq<char> {
    "simple-request-secret-"@
}

/// The service name under which the secret `id` is kept.
pub open spec fn service_name_of(id: Seq<char>) -> Seq<char> {
    service_prefix() + id
}

/// The place of a secret in the credential store.
#[derive(Debug)]
pub struct CredentialKey {
    /// The service name, derived from the identifier.
    pub service: String,
    /// The account name: the identifier itself.
    pub account: String,
}

/// The service name under which the secret `id` is kept.
pub fn service_name(id: &str) -> (name: String)
    ensures
        name@ == service_name_of(id@),
{
    let prefix = String::from_str("simple-request-secret-");
    prefix.concat(id)
}

/// The place of the secret `id` in the credential store.
pub fn credential_key(id: &str) -> (key: CredentialKey)
    ensures
        key.service@ == service_name_of(id@),
        key.account@ == id@,
{
    CredentialKey { service: service_name(id), account: id.to_owned() }
}

/// Two identifiers with one service name are one identifier: secrets never
/// share a place in the credential store.
pub proof fn lemma_service_names_are_distinct(a: Seq<char>, b: Seq<char>)
    requires
        service_name_of(a) == service_name_of(b),
    ensures
        a == b,
{
    let p = service_prefix();
    assert(a == (p + a).skip(p.len() as int));
    assert(b == (p + b).skip(p.len() as int));
}

/// The three calls the vault makes on the credential store.
#[derive(Clone, Copy, Debug, PartialEq, Eq, Structural)]
pub enum BackendCall {
    /// Writes the secret of an entry.
    Store,
    /// Reads the secret of an entry.
    Fetch,
    /// Removes an entry.
    Erase,
}

/// What the platform credential store reports when a call fails.
#[derive(Clone, Copy, Debug, PartialEq, Eq, Structural)]
pub enum PlatformFault {
    /// The store failed while it ran the call.
    PlatformFailure,
    /// The store could not be accessed, for instance because it is locked.
    NoStorageAccess,
    /// The store holds no credential for the entry.
    NoEntry,
    /// The stored value is not text.
    BadEncoding,
    /// An attribute of the entry is longer than the platform allows.
    TooLong,
    /// An attribute of the entry is invalid.
    Invalid,
    /// More than one credential matches the entry.
    Ambiguous,
    /// A fault the vault does not know.
    Unknown,
}

/// What a fault of the platform store means for a call of the backend.
/// A missing entry is `NotFound` where an entry is read or deleted; refused
/// access is `PlatformDenied` where a secret is written; everything else is
/// `Unavailable`.
pub open spec fn fault_meaning(call: BackendCall, fault: PlatformFault) -> CredentialBackendError {
    match (call, fault) {
        (BackendCall::Fetch, PlatformFault::NoEntry) => CredentialBackendError::NotFound,
        (BackendCall::Erase, PlatformFault::NoEntry) => CredentialBackendError::NotFound,
        (BackendCall::Store, PlatformFault::NoStorageAccess) => CredentialBackendError::PlatformDenied,
        _ => CredentialBackendError::Unavailable,
    }
}

/// The failures each call of the backend may report.
pub open spec fn may_report(call: BackendCall, error: CredentialBackendError) -> bool {
    match call {
        BackendCall::Store => error != CredentialBackendError::NotFound,
        BackendCall::Fetch => error != CredentialBackendError::PlatformDenied,
        BackendCall::Erase => error != CredentialBackendError::PlatformDenied,
    }
}

/// Names the backend failure that a fault of the platform store stands for.
pub fn classify_fault(call: BackendCall, fault: PlatformFault) -> (error: CredentialBackendError)
    ensures
        error == fault_meaning(call, fault),
        may_report(call, error),
{
    match fault {
        PlatformFault::NoEntry => match call {
            BackendCall::Store => CredentialBackendError::Unavailable,
            BackendCall::Fetch => CredentialBackendError::NotFound,
            BackendCall::Erase => CredentialBackendError::NotFound,
        },
        PlatformFault::NoStorageAccess => match call {
            BackendCall::Store => CredentialBackendError::PlatformDenied,
            BackendCall::Fetch => CredentialBackendError::Unavailable,
            BackendCall::Erase => CredentialBackendError::Unavailable,
        },
        _ => CredentialBackendError::Unavailable,
    }
}

/// The outcome of a backend call, from what the platform store returned.
pub open spec fn outcome_of<T>(call: BackendCall, returned: Result<T, PlatformFault>) -> Result<
    T,
    CredentialBackendError,
> {
    match returned {
        Ok(value) => Ok(value),
        Err(fault) => Err(fault_meaning(call, fault)),
    }
}

/// The outcome of a backend call, from what the platform store returned.
pub fn backend_outcome<T>(call: BackendCall, returned: Result<T, PlatformFault>) -> (outcome: Result<
    T,
    CredentialBackendError,
>)
    ensures
        outcome == outcome_of(call, returned),
        outcome matches Err(e) ==> may_report(call, e),
{
    match returned {
        Ok(value) => Ok(value),
        Err(fault) => Err(classify_fault(call, fault)),
    }
}

} // verus!

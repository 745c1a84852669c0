//! The vault's operations. Each one decides, from the outcome of the call
//! that the caller made on the credential backend, what is reported and how
//! the registry changes. The caller performs the backend call before, and
//! writes the registry to its file after every operation that changed it.

use vstd::prelude::*;
use crate::error::{CredentialBackendError, VaultError};
use crate::primitives::current_timestamp;
use crate::reference::{ReferenceRecord, SecretReference};
use crate::registry::{has_id, records, touched, upserted, with_id, without_id, AppState};

verus! {

/// What was found where the registry file is kept.
#[derive(Debug)]
pub enum RegistryFile {
    /// The storage directory could not be resolved.
    NoDirectory,
    /// There is no registry file.
    Missing,
    /// The file is there and could not be read.
    Unreadable,
    /// The file does not hold a list of references.
    Malformed,
    /// The references that the file holds.
    Parsed(Vec<SecretReference>),
}

/// The record that `store_secret` writes for a secret stored at `created_at`.
pub open spec fn stored_record(
    id: Seq<char>,
    name: Seq<char>,
    secret_type: Seq<char>,
    created_at: Seq<char>,
) -> ReferenceRecord {
    ReferenceRecord { id, name, secret_type, created_at, last_used: None }
}

/// The references to start with. A missing file is an empty registry, not a failure.
pub fn load_secret_references(file: RegistryFile) -> (loaded: Result<Vec<SecretReference>, VaultError>)
    ensures
        match file {
            RegistryFile::NoDirectory => loaded == Err::<Vec<SecretReference>, VaultError>(
                VaultError::Config,
            ),
            RegistryFile::Missing => loaded is Ok && loaded->Ok_0@ == Seq::<SecretReference>::empty(),
            RegistryFile::Unreadable => loaded == Err::<Vec<SecretReference>, VaultError>(
                VaultError::Io,
            ),
            RegistryFile::Malformed => loaded == Err::<Vec<SecretReference>, VaultError>(
                VaultError::Serialization,
            ),
            RegistryFile::Parsed(refs) => loaded == Ok::<Vec<SecretReference>, VaultError>(refs),
        },
{
    match file {
        RegistryFile::NoDirectory => Err(VaultError::Config),
        RegistryFile::Missing => Ok(Vec::new()),
        RegistryFile::Unreadable => Err(VaultError::Io),
        RegistryFile::Malformed => Err(VaultError::Serialization),
        RegistryFile::Parsed(refs) => Ok(refs),
    }
}

/// Records a secret whose value the caller has just tried to write to the
/// credential backend; `stored` is the outcome of that write.
///
/// Where the write failed, the failure is reported and the registry stays as
/// it is. Where it succeeded, the record of `id` is replaced by a new one
/// with the current time as its creation time and no time of last use.
pub fn store_secret(
    id: String,
    name: String,
    secret_type: String,
    stored: Result<(), CredentialBackendError>,
    state: &mut AppState,
) -> (done: Result<(), VaultError>)
    ensures
        match stored {
            Err(e) => done == Err::<(), VaultError>(VaultError::CredentialBackend(e)) && final(state)@
                == old(state)@,
            Ok(_) => done is Ok && exists|created_at: Seq<char>|
                ({
                    let record = #[trigger] stored_record(id@, name@, secret_type@, created_at);
                    &&& final(state)@ == upserted(old(state)@, record)
                    &&& with_id(final(state)@, id@) == seq![record]
                }),
        },
        old(state).well_formed() ==> final(state).well_formed(),
{
    match stored {
        Err(e) => Err(VaultError::CredentialBackend(e)),
        Ok(_) => {
            let created_at = current_timestamp();
            store_secret_at(id, name, secret_type, created_at, stored, state)
        },
    }
}

/// As [`store_secret`], with the creation time given by the caller.
pub fn store_secret_at(
    id: String,
    name: String,
    secret_type: String,
    created_at: String,
    stored: Result<(), CredentialBackendError>,
    state: &mut AppState,
) -> (done: Result<(), VaultError>)
    ensures
        match stored {
            Err(e) => done == Err::<(), VaultError>(VaultError::CredentialBackend(e)) && final(state)@
                == old(state)@,
            Ok(_) => done is Ok && final(state)@ == upserted(
                old(state)@,
                stored_record(id@, name@, secret_type@, created_at@),
            ) && with_id(final(state)@, id@) == seq![
                stored_record(id@, name@, secret_type@, created_at@),
            ],
        },
        old(state).well_formed() ==> final(state).well_formed(),
{
    match stored {
        Err(e) => Err(VaultError::CredentialBackend(e)),
        Ok(_) => {
            state.replace_or_insert(SecretReference::new(id, name, secret_type, created_at));
            Ok(())
        },
    }
}

/// Hands on what the credential backend returned for a secret: its value, or
/// the backend's failure. The registry is not consulted and not changed.
pub fn get_secret(fetched: Result<String, CredentialBackendError>) -> (value: Result<String, VaultError>)
    ensures
        match fetched {
            Ok(secret) => value == Ok::<String, VaultError>(secret),
            Err(e) => value == Err::<String, VaultError>(VaultError::CredentialBackend(e)),
        },
{
    match fetched {
        Ok(secret) => Ok(secret),
        Err(e) => Err(VaultError::CredentialBackend(e)),
    }
}

/// A copy of every reference, in the order in which they were last written.
pub fn get_secret_references(state: &AppState) -> (refs: Vec<SecretReference>)
    ensures
        records(refs@) == state@,
{
    state.snapshot()
}

/// The backend outcomes after which `delete_secret` removes the reference:
/// the credential was deleted, or there was none.
pub open spec fn deletion_proceeds(deleted: Result<(), CredentialBackendError>) -> bool {
    match deleted {
        Ok(_) => true,
        Err(e) => e == CredentialBackendError::NotFound,
    }
}

/// Forgets a secret whose credential the caller has just tried to delete from
/// the backend; `deleted` is the outcome of that call.
///
/// A credential that was already absent counts as deleted. Any other failure
/// is reported and leaves the registry as it is.
pub fn delete_secret(
    secret_id: &str,
    deleted: Result<(), CredentialBackendError>,
    state: &mut AppState,
) -> (done: Result<(), VaultError>)
    ensures
        deletion_proceeds(deleted) ==> done is Ok && final(state)@ == without_id(
            old(state)@,
            secret_id@,
        ) && !has_id(final(state)@, secret_id@),
        !deletion_proceeds(deleted) ==> done == Err::<(), VaultError>(
            VaultError::CredentialBackend(deleted->Err_0),
        ) && final(state)@ == old(state)@,
        old(state).well_formed() ==> final(state).well_formed(),
{
    match deleted {
        Ok(_) => {
            state.remove(secret_id);
            Ok(())
        },
        Err(CredentialBackendError::NotFound) => {
            state.remove(secret_id);
            Ok(())
        },
        Err(e) => Err(VaultError::CredentialBackend(e)),
    }
}

/// Writes `reference` to the registry in place of any record with its
/// identifier. The credential backend is not involved.
pub fn store_secret_reference(reference: SecretReference, state: &mut AppState)
    ensures
        final(state)@ == upserted(old(state)@, reference@),
        with_id(final(state)@, reference@.id) == seq![reference@],
        old(state).well_formed() ==> final(state).well_formed(),
{
    state.replace_or_insert(reference);
}

/// Removes the records of `secret_id` from the registry. The credential
/// backend is not involved.
pub fn delete_secret_reference(secret_id: &str, state: &mut AppState)
    ensures
        final(state)@ == without_id(old(state)@, secret_id@),
        !has_id(final(state)@, secret_id@),
        old(state).well_formed() ==> final(state).well_formed(),
{
    state.remove(secret_id);
}

/// Sets the time of last use of `secret_id`. Does nothing when the registry
/// has no record of it. Tells whether the registry changed and has to be
/// written out.
pub fn update_secret_last_used(secret_id: &str, last_used: String, state: &mut AppState) -> (changed:
    bool)
    ensures
        final(state)@ == touched(old(state)@, secret_id@, last_used@),
        changed == has_id(old(state)@, secret_id@),
        !changed ==> final(state)@ == old(state)@,
        old(state).well_formed() ==> final(state).well_formed(),
{
    state.mark_used(secret_id, last_used)
}

} // verus!

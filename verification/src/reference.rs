//! Reference records: the non-sensitive description of a stored secret.

use vstd::prelude::*;

verus! {

/// Metadata of one secret. The secret's value is never part of it.
#[derive(Debug)]
pub struct SecretReference {
    /// Identifier chosen by the caller; the registry holds one record per id.
    pub id: String,
    /// Display name, not unique.
    pub name: String,
    /// Kind of secret: `bearer-token`, `basic-password`, `api-key` or `generic`.
    pub secret_type: String,
    /// Creation time as an RFC 3339 timestamp.
    pub created_at: String,
    /// Time of last use, if the secret was ever used.
    pub last_used: Option<String>,
}

/// A secret together with its value, as a caller hands it over.
#[derive(Debug)]
pub struct SecretValue {
    pub id: String,
    pub name: String,
    pub value: String,
    pub secret_type: String,
}

/// What a [`SecretReference`] holds, as mathematical values.
pub struct ReferenceRecord {
    pub id: Seq<char>,
    pub name: Seq<char>,
    pub secret_type: Seq<char>,
    pub created_at: Seq<char>,
    pub last_used: Option<Seq<char>>,
}

/// What a [`SecretValue`] holds, as mathematical values.
pub struct ValueRecord {
    pub id: Seq<char>,
    pub name: Seq<char>,
    pub value: Seq<char>,
    pub secret_type: Seq<char>,
}

/// The text of an optional string.
pub open spec fn text_of(s: Option<String>) -> Option<Seq<char>> {
    match s {
        Some(t) => Some(t@),
        None => None,
    }
}

impl View for SecretReference {
    type V = ReferenceRecord;

    open spec fn view(&self) -> ReferenceRecord {
        ReferenceRecord {
            id: self.id@,
            name: self.name@,
            secret_type: self.secret_type@,
            created_at: self.created_at@,
            last_used: text_of(self.last_used),
        }
    }
}

impl View for SecretValue {
    type V = ValueRecord;

    open spec fn view(&self) -> ValueRecord {
        ValueRecord {
            id: self.id@,
            name: self.name@,
            value: self.value@,
            secret_type: self.secret_type@,
        }
    }
}

impl Clone for SecretReference {
    fn clone(&self) -> (copy: Self)
        ensures
            copy@ == self@,
    {
        let last_used = match &self.last_used {
            Some(t) => Some(t.clone()),
            None => None,
        };
        SecretReference {
            id: self.id.clone(),
            name: self.name.clone(),
            secret_type: self.secret_type.clone(),
            created_at: self.created_at.clone(),
            last_used,
        }
    }
}

impl Clone for SecretValue {
    fn clone(&self) -> (copy: Self)
        ensures
            copy@ == self@,
    {
        SecretValue {
            id: self.id.clone(),
            name: self.name.clone(),
            value: self.value.clone(),
            secret_type: self.secret_type.clone(),
        }
    }
}

impl SecretReference {
    /// A record for a secret that was stored at `created_at` and never used.
    pub fn new(id: String, name: String, secret_type: String, created_at: String) -> (reference: Self)
        ensures
            reference@ == (ReferenceRecord {
                id: id@,
                name: name@,
                secret_type: secret_type@,
                created_at: created_at@,
                last_used: None,
            }),
    {
        SecretReference { id, name, secret_type, created_at, last_used: None }
    }
}

} // verus!

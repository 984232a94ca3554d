//! Secrets that scripts and checkouts need.

use crate::model::{Dup, Same};
use crate::strmap::StrMap;
#[allow(unused_imports)]
use crate::text::Text;
use vstd::prelude::*;

verus! {

/// What kind of secret it is.
#[derive(Clone, Copy, Debug, PartialEq, Eq, Structural)]
pub enum CredentialType {
    UsernamePassword,
    Token,
    SshKey,
}

impl DeepView for CredentialType {
    type V = CredentialType;

    open spec fn deep_view(&self) -> CredentialType {
        *self
    }
}

impl Dup for CredentialType {
    fn dup(&self) -> (copy: Self) {
        *self
    }
}

impl Same for CredentialType {
    fn same(&self, other: &Self) -> (equal: bool) {
        *self == *other
    }
}

/// A secret: where it is found, and what a script calls its parts.
#[derive(Debug, PartialEq)]
pub struct Credential {
    pub name: String,
    pub credential_type: CredentialType,
    pub vault_path: Option<String>,
    pub env_prefix: Option<String>,
    pub secret_file: Option<String>,
    pub secret_keys: StrMap<String>,
    pub file_keys: StrMap<String>,
}

/// What a [`Credential`] holds.
#[verifier::ext_equal]
pub struct CredentialModel {
    pub name: Text,
    pub credential_type: CredentialType,
    pub vault_path: Option<Text>,
    pub env_prefix: Option<Text>,
    pub secret_file: Option<Text>,
    pub secret_keys: Map<Text, Text>,
    pub file_keys: Map<Text, Text>,
}

impl DeepView for Credential {
    type V = CredentialModel;

    open spec fn deep_view(&self) -> CredentialModel {
        CredentialModel {
            name: self.name.deep_view(),
            credential_type: self.credential_type.deep_view(),
            vault_path: self.vault_path.deep_view(),
            env_prefix: self.env_prefix.deep_view(),
            secret_file: self.secret_file.deep_view(),
            secret_keys: self.secret_keys.deep_view(),
            file_keys: self.file_keys.deep_view(),
        }
    }
}

impl Dup for Credential {
    fn dup(&self) -> (copy: Self) {
        Credential {
            name: self.name.dup(),
            credential_type: self.credential_type.dup(),
            vault_path: self.vault_path.dup(),
            env_prefix: self.env_prefix.dup(),
            secret_file: self.secret_file.dup(),
            secret_keys: self.secret_keys.dup(),
            file_keys: self.file_keys.dup(),
        }
    }
}

impl Same for Credential {
    fn same(&self, other: &Self) -> (equal: bool) {
        self.name.same(&other.name)
            && self.credential_type.same(&other.credential_type)
            && self.vault_path.same(&other.vault_path)
            && self.env_prefix.same(&other.env_prefix)
            && self.secret_file.same(&other.secret_file)
            && self.secret_keys.same(&other.secret_keys)
            && self.file_keys.same(&other.file_keys)
    }
}

impl Clone for Credential {
    fn clone(&self) -> (copy: Self)
        ensures
            copy.deep_view() == self.deep_view(),
    {
        self.dup()
    }
}

} // verus!

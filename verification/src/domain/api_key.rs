//! Who may use the service, and for what.

use crate::model::{Dup, Same};
#[allow(unused_imports)]
use crate::text::Text;
use vstd::prelude::*;

verus! {

/// What a key may do.
#[derive(Clone, Copy, Debug, PartialEq, Eq, Structural)]
pub enum ApiKeyRole {
    /// Everything.
    Admin,
    /// What the key names.
    Restricted,
}

impl DeepView for ApiKeyRole {
    type V = ApiKeyRole;

    open spec fn deep_view(&self) -> ApiKeyRole {
        *self
    }
}

impl Dup for ApiKeyRole {
    fn dup(&self) -> (copy: Self) {
        *self
    }
}

impl Same for ApiKeyRole {
    fn same(&self, other: &Self) -> (equal: bool) {
        *self == *other
    }
}

impl Default for ApiKeyRole {
    fn default() -> (value: Self)
        ensures
            value == ApiKeyRole::Restricted,
    {
        ApiKeyRole::Restricted
    }
}

/// A key of the API: where its secret is, and what it opens.
#[derive(Debug, PartialEq)]
pub struct ApiKeyDef {
    pub name: String,
    /// The environment variable that holds the secret.
    pub env: String,
    pub role: ApiKeyRole,
    pub sources: Vec<String>,
    pub endpoints: Vec<String>,
}

/// What a [`ApiKeyDef`] holds.
#[verifier::ext_equal]
pub struct ApiKeyDefModel {
    pub name: Text,
    pub env: Text,
    pub role: ApiKeyRole,
    pub sources: Seq<Text>,
    pub endpoints: Seq<Text>,
}

impl DeepView for ApiKeyDef {
    type V = ApiKeyDefModel;

    open spec fn deep_view(&self) -> ApiKeyDefModel {
        ApiKeyDefModel {
            name: self.name.deep_view(),
            env: self.env.deep_view(),
            role: self.role.deep_view(),
            sources: self.sources.deep_view(),
            endpoints: self.endpoints.deep_view(),
        }
    }
}

impl Dup for ApiKeyDef {
    fn dup(&self) -> (copy: Self) {
        ApiKeyDef {
            name: self.name.dup(),
            env: self.env.dup(),
            role: self.role.dup(),
            sources: self.sources.dup(),
            endpoints: self.endpoints.dup(),
        }
    }
}

impl Same for ApiKeyDef {
    fn same(&self, other: &Self) -> (equal: bool) {
        self.name.same(&other.name)
            && self.env.same(&other.env)
            && self.role.same(&other.role)
            && self.sources.same(&other.sources)
            && self.endpoints.same(&other.endpoints)
    }
}

impl Clone for ApiKeyDef {
    fn clone(&self) -> (copy: Self)
        ensures
            copy.deep_view() == self.deep_view(),
    {
        self.dup()
    }
}

} // verus!

//! Resolving the credentials of a source.

use crate::ports::secrets::SecretsError;
use crate::strmap::StrMap;
#[allow(unused_imports)]
use crate::text::Text;
use crate::text::cat4;
use crate::model::Dup;
use vstd::prelude::*;

verus! {

/// What is said of a credential that could not be resolved.
pub open spec fn credential_failure(credential_id: Text, message: Text) -> Text {
    "credential '"@ + credential_id + "': "@ + message
}

/// Says of a credential that it could not be resolved, and why.
pub fn credential_error(credential_id: &str, message: &str) -> (text: String)
    ensures
        text@ == credential_failure(credential_id@, message@),
{
    cat4("credential '", credential_id, "': ", message)
}

/// The credentials of a source as they are resolved, one after the other. The first
/// that cannot be resolved ends it: nothing runs with only a part of its credentials.
pub struct CredentialResolution {
    ids: Vec<String>,
    asked: usize,
    secrets: StrMap<String>,
}

/// How far the resolution of credentials is.
#[verifier::ext_equal]
pub struct ResolutionModel {
    pub ids: Seq<Text>,
    /// How many have been resolved.
    pub asked: int,
    /// All secrets so far. Of two with the same name, the later one.
    pub secrets: Map<Text, Text>,
}

impl View for CredentialResolution {
    type V = ResolutionModel;

    closed spec fn view(&self) -> ResolutionModel {
        ResolutionModel { ids: self.ids.deep_view(), asked: self.asked as int, secrets: self.secrets@ }
    }
}

impl CredentialResolution {
    #[verifier::type_invariant]
    spec fn wf(self) -> bool {
        self.asked <= self.ids@.len()
    }

    /// Nothing has been asked yet.
    pub fn begin(credential_ids: &Vec<String>) -> (resolution: Self)
        ensures
            resolution@ == (ResolutionModel { ids: credential_ids.deep_view(), asked: 0, secrets: Map::empty() }),
    {
        CredentialResolution { ids: credential_ids.dup(), asked: 0, secrets: StrMap::new() }
    }

    /// The credential that is to be resolved next.
    pub fn next(&self) -> (id: Option<&String>)
        ensures
            0 <= self@.asked <= self@.ids.len(),
            match id {
                Some(id) => self@.asked < self@.ids.len() && id@ == self@.ids[self@.asked],
                None => self@.asked == self@.ids.len(),
            },
    {
        proof {
            use_type_invariant(self);
        }
        assert(self.ids.deep_view().len() == self.ids@.len());
        if self.asked < self.ids.len() {
            Some(&self.ids[self.asked])
        } else {
            None
        }
    }

    /// Goes on with what came of resolving the next credential, or ends with an error
    /// that names it.
    pub fn answered(self, answer: Result<StrMap<String>, SecretsError>) -> (r: Result<Self, SecretsError>)
        requires
            self@.asked < self@.ids.len(),
        ensures
            match answer {
                Ok(secrets) => r matches Ok(next) && next@ == (ResolutionModel {
                    asked: self@.asked + 1,
                    secrets: self@.secrets.union_prefer_right(secrets@),
                    ..self@
                }),
                Err(e) => r matches Err(error) && error.message@ == credential_failure(
                    self@.ids[self@.asked],
                    e.message@,
                ),
            },
    {
        proof {
            use_type_invariant(&self);
        }
        assert(self.ids.deep_view().len() == self.ids@.len());
        let CredentialResolution { ids, asked, mut secrets } = self;
        assert(asked < ids.len());
        match answer {
            Ok(more) => {
                secrets.extend(more);
                Ok(CredentialResolution { ids, asked: asked + 1, secrets })
            },
            Err(e) => {
                assert(ids.deep_view()[asked as int] == ids@[asked as int]@);
                Err(SecretsError { message: credential_error(ids[asked].as_str(), e.message.as_str()) })
            },
        }
    }

    /// All secrets, once every credential has been resolved.
    pub fn finish(self) -> (secrets: StrMap<String>)
        requires
            self@.asked == self@.ids.len(),
        ensures
            secrets@ == self@.secrets,
    {
        self.secrets
    }
}

} // verus!

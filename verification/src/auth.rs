//! The keys of the API, with their secrets.

use crate::config::AppConfig;
#[allow(unused_imports)]
use crate::domain::api_key::ApiKeyDefModel;
use crate::domain::api_key::{ApiKeyDef, ApiKeyRole};
use crate::model::Dup;
#[allow(unused_imports)]
use crate::strmap::sorted;
use crate::strmap::{StrMap, StrSet};
#[allow(unused_imports)]
use crate::text::Text;
use crate::text::cat5;
use vstd::prelude::*;

verus! {

/// What a key opens.
#[derive(Debug, PartialEq)]
pub enum Permissions {
    /// Everything.
    Admin,
    /// The named sources and endpoints.
    Scoped { sources: StrSet, endpoints: StrSet },
}

/// A key with its secret.
#[derive(Debug, PartialEq)]
pub struct ResolvedApiKey {
    pub name: String,
    pub secret: String,
    pub permissions: Permissions,
}

/// What [`Permissions`] hold.
pub enum PermissionsModel {
    Admin,
    Scoped { sources: Set<Text>, endpoints: Set<Text> },
}

/// What a [`ResolvedApiKey`] holds.
pub struct KeyModel {
    pub name: Text,
    pub secret: Text,
    pub permissions: PermissionsModel,
}

impl DeepView for Permissions {
    type V = PermissionsModel;

    open spec fn deep_view(&self) -> PermissionsModel {
        match self {
            Permissions::Admin => PermissionsModel::Admin,
            Permissions::Scoped { sources, endpoints } => PermissionsModel::Scoped {
                sources: sources@,
                endpoints: endpoints@,
            },
        }
    }
}

impl DeepView for ResolvedApiKey {
    type V = KeyModel;

    open spec fn deep_view(&self) -> KeyModel {
        KeyModel { name: self.name@, secret: self.secret@, permissions: self.permissions.deep_view() }
    }
}

/// The key of a definition, with its secret.
pub open spec fn key_of(def: ApiKeyDefModel, secret: Text) -> KeyModel {
    KeyModel {
        name: def.name,
        secret,
        permissions: match def.role {
            ApiKeyRole::Admin => PermissionsModel::Admin,
            ApiKeyRole::Restricted => PermissionsModel::Scoped {
                sources: def.sources.to_set(),
                endpoints: def.endpoints.to_set(),
            },
        },
    }
}

/// A key that opens everything. Its name is `default`.
pub open spec fn default_key(secret: Text) -> KeyModel {
    KeyModel { name: "default"@, secret, permissions: PermissionsModel::Admin }
}

/// Why the secret of a definition cannot be had.
pub open spec fn secret_error(id: Text, def: ApiKeyDefModel, env: Map<Text, Text>) -> Option<Text> {
    if !env.contains_key(def.env) {
        Some("API key '"@ + id + "' expects the secret in env var '"@ + def.env + "', which is not set"@)
    } else if env[def.env].len() == 0 {
        Some("API key '"@ + id + "': env var '"@ + def.env + "' is set but empty"@)
    } else {
        None
    }
}

/// The keys of the definitions from the `i`th on, after those that are there already.
pub open spec fn keys_from(
    defs: Map<Text, ApiKeyDefModel>,
    env: Map<Text, Text>,
    ids: Seq<Text>,
    i: int,
    done: Seq<KeyModel>,
) -> Result<Seq<KeyModel>, Text>
    decreases ids.len() - i,
{
    if i < 0 || i >= ids.len() {
        Ok(done)
    } else {
        match secret_error(ids[i], defs[ids[i]], env) {
            Some(error) => Err(error),
            None => keys_from(
                defs,
                env,
                ids,
                i + 1,
                done.push(key_of(defs[ids[i]], env[defs[ids[i]].env])),
            ),
        }
    }
}

/// The keys of a configuration: those that it defines, in ascending order of their
/// ids, and the one of the variable `UNIFIED_API_KEY`, where that holds one. A secret
/// that is missing is an error.
pub open spec fn resolved_keys(defs: Map<Text, ApiKeyDefModel>, env: Map<Text, Text>) -> Result<Seq<KeyModel>, Text> {
    match keys_from(defs, env, sorted(defs.dom()), 0, Seq::empty()) {
        Err(error) => Err(error),
        Ok(keys) => if env.contains_key("UNIFIED_API_KEY"@) && env["UNIFIED_API_KEY"@].len() > 0 {
            Ok(keys.push(default_key(env["UNIFIED_API_KEY"@])))
        } else {
            Ok(keys)
        },
    }
}

fn names_of(list: &Vec<String>) -> (set: StrSet)
    ensures
        set@ == list.deep_view().to_set(),
{
    let mut set = StrSet::new();
    set.extend(list);
    assert(set@ =~= list.deep_view().to_set());
    set
}

fn key_with(def: &ApiKeyDef, secret: String) -> (key: ResolvedApiKey)
    ensures
        key.deep_view() == key_of(def.deep_view(), secret@),
{
    let permissions = match def.role {
        ApiKeyRole::Admin => Permissions::Admin,
        ApiKeyRole::Restricted => Permissions::Scoped {
            sources: names_of(&def.sources),
            endpoints: names_of(&def.endpoints),
        },
    };
    ResolvedApiKey { name: def.name.dup(), secret, permissions }
}

impl ResolvedApiKey {
    /// A key that opens everything.
    pub fn admin(secret: String) -> (key: Self)
        ensures
            key.deep_view() == default_key(secret@),
    {
        ResolvedApiKey { name: "default".to_owned(), secret, permissions: Permissions::Admin }
    }
}

/// The keys of a configuration, with their secrets from the environment; or which
/// secret is missing.
pub fn resolve_api_keys(cfg: &AppConfig, env: &StrMap<String>) -> (r: Result<Vec<ResolvedApiKey>, String>)
    ensures
        match r {
            Ok(keys) => resolved_keys(cfg.deep_view().api_keys, env@) == Ok::<Seq<KeyModel>, Text>(keys.deep_view()),
            Err(e) => resolved_keys(cfg.deep_view().api_keys, env@) == Err::<Seq<KeyModel>, Text>(e@),
        },
{
    let ghost defs = cfg.api_keys@;
    let ghost ids = sorted(defs.dom());
    let mut keys: Vec<ResolvedApiKey> = Vec::new();
    let n: usize = cfg.api_keys.len();
    let mut i: usize = 0;
    assert(keys.deep_view() =~= Seq::empty());
    while i < n
        invariant
            i <= n == ids.len(),
            defs == cfg.api_keys@,
            ids == sorted(defs.dom()),
            keys_from(defs, env@, ids, i as int, keys.deep_view()) == keys_from(defs, env@, ids, 0, Seq::empty()),
        decreases n - i,
    {
        let ghost before = keys.deep_view();
        let id: &String = cfg.api_keys.key_at(i);
        let def: &ApiKeyDef = cfg.api_keys.value_at(i);
        let secret = match env.get(def.env.as_str()) {
            Some(secret) => secret,
            None => return Err(
                cat5(
                    "API key '",
                    id.as_str(),
                    "' expects the secret in env var '",
                    def.env.as_str(),
                    "', which is not set",
                ),
            ),
        };
        if secret.as_str().unicode_len() == 0 {
            return Err(
                cat5("API key '", id.as_str(), "': env var '", def.env.as_str(), "' is set but empty"),
            );
        }
        let key = key_with(def, secret.clone());
        let ghost model = key.deep_view();
        keys.push(key);
        assert(keys.deep_view() =~= before.push(model));
        i += 1;
    }
    if let Some(secret) = env.get("UNIFIED_API_KEY") {
        if secret.as_str().unicode_len() > 0 {
            let ghost before = keys.deep_view();
            let key = ResolvedApiKey::admin(secret.clone());
            let ghost model = key.deep_view();
            keys.push(key);
            assert(keys.deep_view() =~= before.push(model));
        }
    }
    Ok(keys)
}

} // verus!

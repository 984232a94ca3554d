//! What holds of the keys of the API.

#[allow(unused_imports)]
use crate::auth::{default_key, key_of, keys_from, resolved_keys, secret_error, KeyModel, PermissionsModel};
#[allow(unused_imports)]
use crate::domain::api_key::{ApiKeyDefModel, ApiKeyRole};
#[allow(unused_imports)]
use crate::strmap::{lemma_prefix_whole, lemma_sorted, sorted};
#[allow(unused_imports)]
use crate::text::{text_lt, Text};
use vstd::prelude::*;

verus! {

/// A key of an administrator opens everything; any other opens the sources and the
/// endpoints that it names, and nothing else.
pub proof fn law_a_key_opens_what_it_names(def: ApiKeyDefModel, secret: Text, name: Text)
    ensures
        ({
            let key = key_of(def, secret);
            &&& key.name == def.name
            &&& key.secret == secret
            &&& def.role is Admin <==> key.permissions is Admin
            &&& def.role is Restricted ==> (key.permissions->sources.contains(name) <==> def.sources.contains(name))
            &&& def.role is Restricted ==> (key.permissions->endpoints.contains(name) <==> def.endpoints.contains(
                name,
            ))
        }),
{
    assert(def.sources.to_set().contains(name) <==> def.sources.contains(name));
    assert(def.endpoints.to_set().contains(name) <==> def.endpoints.contains(name));
}

proof fn lemma_keys(
    defs: Map<Text, ApiKeyDefModel>,
    env: Map<Text, Text>,
    ids: Seq<Text>,
    i: int,
    done: Seq<KeyModel>,
)
    requires
        0 <= i <= ids.len(),
        done.len() == i,
    ensures
        ({
            let r = keys_from(defs, env, ids, i, done);
            &&& r is Ok <==> forall|k: int|
                i <= k < ids.len() ==> env.contains_key(defs[#[trigger] ids[k]].env) && env[defs[ids[k]].env].len() > 0
            &&& r is Ok ==> {
                &&& r->Ok_0.len() == ids.len()
                &&& forall|k: int| 0 <= k < i ==> #[trigger] r->Ok_0[k] == done[k]
                &&& forall|k: int|
                    i <= k < ids.len() ==> #[trigger] r->Ok_0[k] == key_of(defs[ids[k]], env[defs[ids[k]].env])
            }
            &&& r is Err ==> exists|k: int|
                i <= k < ids.len() && secret_error(#[trigger] ids[k], defs[ids[k]], env) == Some(r->Err_0)
                    && forall|j: int| i <= j < k ==> secret_error(#[trigger] ids[j], defs[ids[j]], env) is None
        }),
    decreases ids.len() - i,
{
    if i < ids.len() && secret_error(ids[i], defs[ids[i]], env) is None {
        let more = done.push(key_of(defs[ids[i]], env[defs[ids[i]].env]));
        lemma_keys(defs, env, ids, i + 1, more);
        let r = keys_from(defs, env, ids, i, done);
        assert(r == keys_from(defs, env, ids, i + 1, more));
        if r is Ok {
            assert forall|k: int| i <= k < ids.len() implies env.contains_key(defs[#[trigger] ids[k]].env)
                && env[defs[ids[k]].env].len() > 0 by {
                if k == i {
                    assert(secret_error(ids[k], defs[ids[k]], env) is None);
                }
            }
            assert forall|k: int| 0 <= k < i implies #[trigger] r->Ok_0[k] == done[k] by {
                assert(r->Ok_0[k] == more[k]);
            }
            assert forall|k: int| i <= k < ids.len() implies #[trigger] r->Ok_0[k] == key_of(
                defs[ids[k]],
                env[defs[ids[k]].env],
            ) by {
                if k == i {
                    assert(r->Ok_0[k] == more[k]);
                }
            }
        } else {
            let k = choose|k: int|
                i + 1 <= k < ids.len() && secret_error(#[trigger] ids[k], defs[ids[k]], env) == Some(r->Err_0)
                    && forall|j: int| i + 1 <= j < k ==> secret_error(#[trigger] ids[j], defs[ids[j]], env) is None;
            assert(secret_error(ids[k], defs[ids[k]], env) is Some);
            assert forall|j: int| i <= j < k implies secret_error(#[trigger] ids[j], defs[ids[j]], env) is None by {}
        }
    } else if i < ids.len() {
        assert(secret_error(ids[i], defs[ids[i]], env) is Some);
        assert(!(env.contains_key(defs[ids[i]].env) && env[defs[ids[i]].env].len() > 0));
    }
}

/// The keys can be had where each has a secret in its variable. They come in the order of
/// their names, each with the secret of its variable, and after them the one of
/// `UNIFIED_API_KEY`, where that says anything.
pub proof fn law_every_key_has_its_secret(defs: Map<Text, ApiKeyDefModel>, env: Map<Text, Text>, i: int)
    requires
        defs.dom().finite(),
    ensures
        ({
            let r = resolved_keys(defs, env);
            let ids = sorted(defs.dom());
            let one_more = env.contains_key("UNIFIED_API_KEY"@) && env["UNIFIED_API_KEY"@].len() > 0;
            &&& r is Ok <==> forall|id: Text| #[trigger]
                defs.contains_key(id) ==> env.contains_key(defs[id].env) && env[defs[id].env].len() > 0
            &&& r is Ok ==> r->Ok_0.len() == defs.dom().len() + (if one_more {
                1int
            } else {
                0
            })
            &&& r is Ok && 0 <= i < ids.len() ==> r->Ok_0[i] == key_of(defs[ids[i]], env[defs[ids[i]].env])
            &&& r is Ok && one_more ==> r->Ok_0.last().name == "default"@ && r->Ok_0.last().secret
                == env["UNIFIED_API_KEY"@] && r->Ok_0.last().permissions is Admin
        }),
{
    let ids = sorted(defs.dom());
    lemma_sorted(defs.dom());
    lemma_prefix_whole(defs.dom());
    lemma_keys(defs, env, ids, 0, Seq::empty());
    assert forall|id: Text| #[trigger] defs.contains_key(id) <==> ids.contains(id) by {}
    if resolved_keys(defs, env) is Ok {
        assert forall|id: Text| #[trigger] defs.contains_key(id) implies env.contains_key(defs[id].env)
            && env[defs[id].env].len() > 0 by {
            assert(ids.contains(id));
            let k = choose|k: int| 0 <= k < ids.len() && ids[k] == id;
            assert(env.contains_key(defs[ids[k]].env));
        }
    }
    if forall|id: Text| #[trigger]
        defs.contains_key(id) ==> env.contains_key(defs[id].env) && env[defs[id].env].len() > 0 {
        assert forall|k: int| 0 <= k < ids.len() implies env.contains_key(defs[#[trigger] ids[k]].env)
            && env[defs[ids[k]].env].len() > 0 by {
            assert(ids.contains(ids[k]));
            assert(defs.contains_key(ids[k]));
        }
    }
}

/// Where a key has no secret, the first by name that has none is named, with its variable:
/// as one that is not set, or as one that is empty.
pub proof fn law_a_key_without_a_secret_is_named(defs: Map<Text, ApiKeyDefModel>, env: Map<Text, Text>)
    requires
        defs.dom().finite(),
        resolved_keys(defs, env) is Err,
    ensures
        exists|id: Text| #[trigger]
            defs.contains_key(id) && {
                let error = resolved_keys(defs, env)->Err_0;
                let unset = !env.contains_key(defs[id].env);
                &&& unset ==> error == "API key '"@ + id + "' expects the secret in env var '"@ + defs[id].env
                    + "', which is not set"@
                &&& !unset ==> env[defs[id].env].len() == 0 && error == "API key '"@ + id + "': env var '"@
                    + defs[id].env + "' is set but empty"@
                &&& forall|other: Text| #[trigger]
                    defs.contains_key(other) && text_lt(other, id) ==> env.contains_key(defs[other].env)
                        && env[defs[other].env].len() > 0
            },
{
    let ids = sorted(defs.dom());
    lemma_sorted(defs.dom());
    lemma_prefix_whole(defs.dom());
    lemma_keys(defs, env, ids, 0, Seq::empty());
    let error = resolved_keys(defs, env)->Err_0;
    let k = choose|k: int|
        0 <= k < ids.len() && secret_error(#[trigger] ids[k], defs[ids[k]], env) == Some(error) && forall|j: int|
            0 <= j < k ==> secret_error(#[trigger] ids[j], defs[ids[j]], env) is None;
    assert(ids.contains(ids[k]));
    let id = ids[k];
    assert(defs.contains_key(id));
    assert forall|other: Text| #[trigger] defs.contains_key(other) && text_lt(other, id) implies env.contains_key(
        defs[other].env,
    ) && env[defs[other].env].len() > 0 by {
        assert(ids.contains(other));
        let j = choose|j: int| 0 <= j < ids.len() && ids[j] == other;
        if j >= k {
            crate::text::lemma_text_lt_irreflexive(id);
            if j > k {
                crate::text::lemma_text_lt_transitive(id, other, id);
            }
        }
        assert(secret_error(ids[j], defs[ids[j]], env) is None);
    }
}

/// The key that is given by its secret alone opens everything.
pub proof fn law_the_default_key_opens_everything(secret: Text)
    ensures
        default_key(secret).name == "default"@,
        default_key(secret).secret == secret,
        default_key(secret).permissions is Admin,
{
}

} // verus!

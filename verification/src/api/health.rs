//! Whether the service is ready.

use crate::ports::cache::CachePort;
use crate::state::RuntimeConfig;
#[allow(unused_imports)]
use crate::state::RuntimeConfigModel;
#[allow(unused_imports)]
use crate::domain::cache_entry::EntryView;
#[allow(unused_imports)]
use crate::strmap::{lemma_prefix_step, lemma_prefix_whole, lemma_sorted, sorted};
#[allow(unused_imports)]
use crate::text::Text;
use vstd::prelude::*;

verus! {

/// The service is ready once anything is cached; or, where the configuration asks for
/// it, once every source is.
pub open spec fn ready(entries: Map<Text, EntryView>, config: RuntimeConfigModel) -> bool {
    if config.readyz_require_all_sources {
        config.sources.dom().subset_of(entries.dom())
    } else {
        entries.dom().len() > 0
    }
}

/// Whether the service is ready.
pub fn readyz<C: CachePort>(cache: &C, config: &RuntimeConfig) -> (yes: bool)
    ensures
        yes == ready(cache.entries(), config.deep_view()),
{
    if !config.readyz_require_all_sources {
        let keys = cache.keys();
        proof {
            lemma_sorted(cache.entries().dom());
            assert(keys.deep_view().len() == keys@.len());
        }
        return keys.len() > 0;
    }
    let ghost ids = sorted(config.sources@.dom());
    let n: usize = config.sources.len();
    let mut i: usize = 0;
    while i < n
        invariant
            i <= n == ids.len(),
            ids == sorted(config.sources@.dom()),
            config.readyz_require_all_sources,
            forall|id: Text| #[trigger] ids.take(i as int).contains(id) ==> cache.entries().contains_key(id),
        decreases n - i,
    {
        let id: &String = config.sources.key_at(i);
        proof {
            lemma_prefix_step(ids, i as int);
        }
        if cache.get(id.as_str()).is_none() {
            assert(config.sources@.dom().contains(id@) && !cache.entries().dom().contains(id@));
            return false;
        }
        i += 1;
    }
    proof {
        lemma_prefix_whole(config.sources@.dom());
        assert forall|id: Text| config.sources@.dom().contains(id) implies cache.entries().dom().contains(id) by {
            assert(ids.take(n as int).contains(id));
        }
    }
    true
}

} // verus!

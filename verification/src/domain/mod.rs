//! The entities of the service.

use vstd::prelude::*;

pub mod api_key;
pub mod cache_entry;
pub mod cache_laws;
pub mod credential;
pub mod dataset;
pub mod endpoint;
pub mod enricher;
pub mod health_laws;
pub mod inventory_laws;
pub mod project;
pub mod source;
pub mod source_laws;
pub mod static_inventory;
pub mod static_laws;
pub mod sync_health;
pub mod sync_mode;
pub mod view;

verus! {

/// For how many seconds a script may run, where nothing says.
pub fn default_timeout_seconds() -> (seconds: u64)
    ensures
        seconds == 300,
{
    300
}

} // verus!

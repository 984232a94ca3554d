//! What the records of the library are known by.
//!
//! Records are compared and copied by their deep views: a field that a view left out would
//! be lost to both.

#[allow(unused_imports)]
use crate::api::sources::{CachedSourceInfo, HostStatus, StatusParams};
#[allow(unused_imports)]
use crate::application::config::{ReloadReport, SectionDelta};
#[allow(unused_imports)]
use crate::config::{
    AppConfig, CacheConfig, PersistenceConfig, ProjectsConfig, RestartOnlySettings, SecretsConfig, ServerConfig,
    Surroundings, VaultConfig,
};
#[allow(unused_imports)]
use crate::domain::api_key::ApiKeyDef;
#[allow(unused_imports)]
use crate::domain::credential::Credential;
#[allow(unused_imports)]
use crate::domain::endpoint::{EndpointLimit, OutputEndpoint};
#[allow(unused_imports)]
use crate::domain::enricher::Enricher;
#[allow(unused_imports)]
use crate::domain::project::GitProject;
#[allow(unused_imports)]
use crate::domain::source::{AdvertisedScope, HostSpec, HostsFromSource, MatchPattern, ScopeClaim, Source, TtlOverrides};
#[allow(unused_imports)]
use crate::domain::view::{Ownership, View, ViewMember};
#[allow(unused_imports)]
use crate::ports::config_store::ConfigChange;
#[allow(unused_imports)]
use crate::scheduler::Task;
#[allow(unused_imports)]
use crate::state::RuntimeConfig;
#[allow(unused_imports)]
use crate::json::{item_trees, member_trees, Json, JsonTree};
#[allow(unused_imports)]
use crate::text::Text;
use vstd::prelude::*;
#[allow(unused_imports)]
use vstd::view::View as _;

verus! {

/// What [`CachedSourceInfo`] is known by are all of its fields.
pub proof fn law_a_cached_source_info_shows_every_field(x: CachedSourceInfo)
    ensures
        x.deep_view().source_id == x.source_id.deep_view(),
        x.deep_view().is_fresh == x.is_fresh,
        x.deep_view().age_seconds == x.age_seconds,
        x.deep_view().total_hosts == x.total_hosts,
{
}

/// What [`StatusParams`] is known by are all of its fields.
pub proof fn law_a_status_params_shows_every_field(x: StatusParams)
    ensures
        x.deep_view().host == x.host.deep_view(),
        x.deep_view().group == x.group.deep_view(),
{
}

/// What [`HostStatus`] is known by are all of its fields.
pub proof fn law_a_host_status_shows_every_field(x: HostStatus)
    ensures
        x.deep_view().hostname == x.hostname.deep_view(),
        x.deep_view().age_seconds == x.age_seconds,
        x.deep_view().is_fresh == x.is_fresh,
        x.deep_view().ttl_seconds == x.ttl_seconds,
{
}

/// What [`SectionDelta`] is known by are all of its fields.
pub proof fn law_a_section_delta_shows_every_field(x: SectionDelta)
    ensures
        x.deep_view().added == x.added.deep_view(),
        x.deep_view().removed == x.removed.deep_view(),
        x.deep_view().changed == x.changed.deep_view(),
{
}

/// What [`ReloadReport`] is known by are all of its fields.
pub proof fn law_a_reload_report_shows_every_field(x: ReloadReport)
    ensures
        x.deep_view().generation == x.generation,
        x.deep_view().applied == x.applied.deep_view(),
        x.deep_view().restart_required == x.restart_required.deep_view(),
        x.deep_view().sources == x.sources.deep_view(),
        x.deep_view().views == x.views.deep_view(),
        x.deep_view().enrichers == x.enrichers.deep_view(),
        x.deep_view().endpoints == x.endpoints.deep_view(),
        x.deep_view().projects == x.projects.deep_view(),
        x.deep_view().credentials == x.credentials.deep_view(),
{
}

/// What [`ServerConfig`] is known by are all of its fields.
pub proof fn law_a_server_config_shows_every_field(x: ServerConfig)
    ensures
        x.deep_view().host == x.host.deep_view(),
        x.deep_view().port == x.port,
        x.deep_view().cors_allowed_origins == x.cors_allowed_origins.deep_view(),
        x.deep_view().readyz_require_all_sources == x.readyz_require_all_sources,
        x.deep_view().metrics_require_auth == x.metrics_require_auth,
        x.deep_view().refresh_timeout_seconds == x.refresh_timeout_seconds,
        x.deep_view().refresh_max_concurrent == x.refresh_max_concurrent,
        x.deep_view().shutdown_grace_seconds == x.shutdown_grace_seconds,
{
}

/// What [`PersistenceConfig`] is known by are all of its fields.
pub proof fn law_a_persistence_config_shows_every_field(x: PersistenceConfig)
    ensures
        x.deep_view().path == x.path.deep_view(),
        x.deep_view().interval_seconds == x.interval_seconds,
{
}

/// What [`CacheConfig`] is known by are all of its fields.
pub proof fn law_a_cache_config_shows_every_field(x: CacheConfig)
    ensures
        x.deep_view().persistence == x.persistence.deep_view(),
{
}

/// What [`VaultConfig`] is known by are all of its fields.
pub proof fn law_a_vault_config_shows_every_field(x: VaultConfig)
    ensures
        x.deep_view().settings == x.settings.deep_view(),
{
}

/// What [`SecretsConfig`] is known by are all of its fields.
pub proof fn law_a_secrets_config_shows_every_field(x: SecretsConfig)
    ensures
        x.deep_view().cache_ttl_seconds == x.cache_ttl_seconds,
        x.deep_view().vault == x.vault.deep_view(),
{
}

/// What [`ProjectsConfig`] is known by are all of its fields.
pub proof fn law_a_projects_config_shows_every_field(x: ProjectsConfig)
    ensures
        x.deep_view().dir == x.dir.deep_view(),
{
}

/// What [`AppConfig`] is known by are all of its fields.
pub proof fn law_an_app_config_shows_every_field(x: AppConfig)
    ensures
        x.deep_view().server == x.server.deep_view(),
        x.deep_view().cache == x.cache.deep_view(),
        x.deep_view().projects_config == x.projects_config.deep_view(),
        x.deep_view().secrets_config == x.secrets_config.deep_view(),
        x.deep_view().credentials == x.credentials.deep_view(),
        x.deep_view().sources == x.sources.deep_view(),
        x.deep_view().views == x.views.deep_view(),
        x.deep_view().enrichers == x.enrichers.deep_view(),
        x.deep_view().projects == x.projects.deep_view(),
        x.deep_view().endpoints == x.endpoints.deep_view(),
        x.deep_view().api_keys == x.api_keys.deep_view(),
{
}

/// What [`Surroundings`] is known by are all of its fields.
pub proof fn law_a_surroundings_shows_every_field(x: Surroundings)
    ensures
        x.deep_view().invalid_crons == x.invalid_crons.deep_view(),
        x.deep_view().files == x.files.deep_view(),
{
}

/// What [`RestartOnlySettings`] is known by are all of its fields.
pub proof fn law_a_restart_only_settings_shows_every_field(x: RestartOnlySettings)
    ensures
        x.deep_view().host == x.host.deep_view(),
        x.deep_view().port == x.port,
        x.deep_view().cors_allowed_origins == x.cors_allowed_origins.deep_view(),
        x.deep_view().persistence == x.persistence.deep_view(),
        x.deep_view().projects_dir == x.projects_dir.deep_view(),
{
}

/// What [`ApiKeyDef`] is known by are all of its fields.
pub proof fn law_an_api_key_def_shows_every_field(x: ApiKeyDef)
    ensures
        x.deep_view().name == x.name.deep_view(),
        x.deep_view().env == x.env.deep_view(),
        x.deep_view().role == x.role.deep_view(),
        x.deep_view().sources == x.sources.deep_view(),
        x.deep_view().endpoints == x.endpoints.deep_view(),
{
}

/// What [`Credential`] is known by are all of its fields.
pub proof fn law_a_credential_shows_every_field(x: Credential)
    ensures
        x.deep_view().name == x.name.deep_view(),
        x.deep_view().credential_type == x.credential_type.deep_view(),
        x.deep_view().vault_path == x.vault_path.deep_view(),
        x.deep_view().env_prefix == x.env_prefix.deep_view(),
        x.deep_view().secret_file == x.secret_file.deep_view(),
        x.deep_view().secret_keys == x.secret_keys.deep_view(),
        x.deep_view().file_keys == x.file_keys.deep_view(),
{
}

/// What [`EndpointLimit`] is known by are all of its fields.
pub proof fn law_an_endpoint_limit_shows_every_field(x: EndpointLimit)
    ensures
        x.deep_view().by_hosts_from_inventory == x.by_hosts_from_inventory.deep_view(),
{
}

/// What [`OutputEndpoint`] is known by are all of its fields.
pub proof fn law_an_output_endpoint_shows_every_field(x: OutputEndpoint)
    ensures
        x.deep_view().name == x.name.deep_view(),
        x.deep_view().source_ids == x.source_ids.deep_view(),
        x.deep_view().output == x.output.deep_view(),
        x.deep_view().script_path == x.script_path.deep_view(),
        x.deep_view().script_args == x.script_args.deep_view(),
        x.deep_view().project_id == x.project_id.deep_view(),
        x.deep_view().config == x.config.deep_view(),
        x.deep_view().limit == x.limit.deep_view(),
        x.deep_view().timeout_seconds == x.timeout_seconds.deep_view(),
{
}

/// What [`Enricher`] is known by are all of its fields.
pub proof fn law_an_enricher_shows_every_field(x: Enricher)
    ensures
        x.deep_view().name == x.name.deep_view(),
        x.deep_view().target_id == x.target_id.deep_view(),
        x.deep_view().script_path == x.script_path.deep_view(),
        x.deep_view().script_args == x.script_args.deep_view(),
        x.deep_view().project_id == x.project_id.deep_view(),
        x.deep_view().source_id == x.source_id.deep_view(),
        x.deep_view().fields == x.fields.deep_view(),
        x.deep_view().fields_excluded == x.fields_excluded.deep_view(),
        x.deep_view().groups == x.groups.deep_view(),
        x.deep_view().groups_excluded == x.groups_excluded.deep_view(),
        x.deep_view().sync_interval_seconds == x.sync_interval_seconds.deep_view(),
        x.deep_view().schedule == x.schedule.deep_view(),
        x.deep_view().config == x.config.deep_view(),
        x.deep_view().timeout_seconds == x.timeout_seconds,
{
}

/// What [`GitProject`] is known by are all of its fields.
pub proof fn law_a_git_project_shows_every_field(x: GitProject)
    ensures
        x.deep_view().name == x.name.deep_view(),
        x.deep_view().git_url == x.git_url.deep_view(),
        x.deep_view().branch == x.branch.deep_view(),
        x.deep_view().credential_id == x.credential_id.deep_view(),
        x.deep_view().sync_interval_seconds == x.sync_interval_seconds.deep_view(),
        x.deep_view().schedule == x.schedule.deep_view(),
        x.deep_view().timeout_seconds == x.timeout_seconds,
        x.deep_view().python_venv == x.python_venv,
        x.deep_view().sync_on_boot == x.sync_on_boot,
{
}

/// What [`AdvertisedScope`] is known by are all of its fields.
pub proof fn law_an_advertised_scope_shows_every_field(x: AdvertisedScope)
    ensures
        x.deep_view().groups == x.groups.deep_view(),
        x.deep_view().hosts == x.hosts.deep_view(),
{
}

/// What [`ScopeClaim`] is known by are all of its fields.
pub proof fn law_a_scope_claim_shows_every_field(x: ScopeClaim)
    ensures
        x.deep_view().groups == x.groups.deep_view(),
        x.deep_view().hosts == x.hosts.deep_view(),
        x.deep_view().catch_all == x.catch_all,
{
}

/// What [`MatchPattern`] is known by are all of its fields.
pub proof fn law_a_match_pattern_shows_every_field(x: MatchPattern)
    ensures
        x.deep_view().groups == x.groups.deep_view(),
        x.deep_view().hosts == x.hosts.deep_view(),
{
}

/// What [`HostsFromSource`] is known by are all of its fields.
pub proof fn law_a_hosts_from_source_shows_every_field(x: HostsFromSource)
    ensures
        x.deep_view().source == x.source.deep_view(),
        x.deep_view().match_pattern == x.match_pattern.deep_view(),
        x.deep_view().connect_via == x.connect_via.deep_view(),
{
}

/// What [`HostSpec`] is known by are all of its fields.
pub proof fn law_a_host_spec_shows_every_field(x: HostSpec)
    ensures
        x.deep_view().name == x.name.deep_view(),
        x.deep_view().addresses == x.addresses.deep_view(),
{
}

/// What [`TtlOverrides`] is known by are all of its fields.
pub proof fn law_a_ttl_overrides_shows_every_field(x: TtlOverrides)
    ensures
        x.deep_view().groups == x.groups.deep_view(),
        x.deep_view().hosts == x.hosts.deep_view(),
{
}

/// What [`Source`] is known by are all of its fields.
pub proof fn law_a_source_shows_every_field(x: Source)
    ensures
        x.deep_view().name == x.name.deep_view(),
        x.deep_view().project_id == x.project_id.deep_view(),
        x.deep_view().script_path == x.script_path.deep_view(),
        x.deep_view().script_args == x.script_args.deep_view(),
        x.deep_view().connector_type == x.connector_type.deep_view(),
        x.deep_view().output_format == x.output_format.deep_view(),
        x.deep_view().timeout_seconds == x.timeout_seconds,
        x.deep_view().sync_mode == x.sync_mode.deep_view(),
        x.deep_view().credential_ids == x.credential_ids.deep_view(),
        x.deep_view().schedule == x.schedule.deep_view(),
        x.deep_view().sync_interval_seconds == x.sync_interval_seconds.deep_view(),
        x.deep_view().ttl_seconds == x.ttl_seconds,
        x.deep_view().ttl_overrides == x.ttl_overrides.deep_view(),
        x.deep_view().hosts_from_source == x.hosts_from_source.deep_view(),
        x.deep_view().allow_on_demand_refresh == x.allow_on_demand_refresh,
        x.deep_view().advertise_scope == x.advertise_scope.deep_view(),
        x.deep_view().config == x.config.deep_view(),
{
}

/// What [`Ownership`] is known by are all of its fields.
pub proof fn law_an_ownership_shows_every_field(x: Ownership)
    ensures
        x.deep_view().source == x.source.deep_view(),
        x.deep_view().groups == x.groups.deep_view(),
        x.deep_view().hosts == x.hosts.deep_view(),
        x.deep_view().advertised == x.advertised,
{
}

/// What [`ViewMember`] is known by are all of its fields.
pub proof fn law_a_view_member_shows_every_field(x: ViewMember)
    ensures
        x.deep_view().source == x.source.deep_view(),
        x.deep_view().owns == x.owns.deep_view(),
{
}

/// What [`View`] is known by are all of its fields.
pub proof fn law_a_view_shows_every_field(x: View)
    ensures
        x.deep_view().name == x.name.deep_view(),
        x.deep_view().members == x.members.deep_view(),
        x.deep_view().ttl_seconds == x.ttl_seconds.deep_view(),
{
}

/// What [`ConfigChange`] is known by are all of its fields.
pub proof fn law_a_config_change_shows_every_field(x: ConfigChange)
    ensures
        x.deep_view().write == x.write.deep_view(),
        x.deep_view().delete == x.delete.deep_view(),
        x.deep_view().prune == x.prune,
{
}

/// What [`Task`] is known by are all of its fields.
pub proof fn law_a_task_shows_every_field(x: Task)
    ensures
        x.deep_view().id == x.id.deep_view(),
        x.deep_view().interval_seconds == x.interval_seconds,
{
}

/// What [`RuntimeConfig`] is known by are all of its fields.
pub proof fn law_a_runtime_config_shows_every_field(x: RuntimeConfig)
    ensures
        x.deep_view().sources == x.sources.deep_view(),
        x.deep_view().credentials == x.credentials.deep_view(),
        x.deep_view().views == x.views.deep_view(),
        x.deep_view().enrichers == x.enrichers.deep_view(),
        x.deep_view().endpoints == x.endpoints.deep_view(),
        x.deep_view().projects == x.projects.deep_view(),
        x.deep_view().secrets == x.secrets.deep_view(),
        x.deep_view().readyz_require_all_sources == x.readyz_require_all_sources,
        x.deep_view().metrics_require_auth == x.metrics_require_auth,
        x.deep_view().shutdown_grace_seconds == x.shutdown_grace_seconds,
        x.deep_view().refresh_timeout_seconds == x.refresh_timeout_seconds,
        x.deep_view().refresh_max_concurrent == x.refresh_max_concurrent,
{
}

/// A value is known by its kind and by what it holds: an array by its items in their order,
/// an object by its members, of which the last counts where a key comes twice.
pub proof fn law_a_value_is_known_by_what_it_holds(json: Json, i: int)
    ensures
        json is Null <==> json@ is Null,
        json matches Json::Bool(b) ==> json@ == JsonTree::Bool(b),
        json matches Json::Number(n) ==> json@ == JsonTree::Number(n),
        json matches Json::Str(s) ==> json@ == JsonTree::Str(s@),
        json is Array ==> json@ is Array && json@->Array_0.len() == json->Array_0@.len(),
        json is Array && 0 <= i < json->Array_0@.len() ==> json@->Array_0[i] == json->Array_0@[i]@,
        json is Object ==> json@ is Object,
        json is Object && 0 <= i < json->Object_0@.len() && (forall|j: int|
            i < j < json->Object_0@.len() ==> (#[trigger] json->Object_0@[j]).0@ != json->Object_0@[i].0@)
            ==> json@->Object_0.contains_key(json->Object_0@[i].0@) && json@->Object_0[json->Object_0@[i].0@]
            == json->Object_0@[i].1@,
        json is Object ==> forall|key: Text| #[trigger]
            json@->Object_0.contains_key(key) ==> exists|k: int|
                0 <= k < json->Object_0@.len() && (#[trigger] json->Object_0@[k]).0@ == key,
{
    if json is Object {
        let members = json->Object_0@;
        assert forall|key: Text| #[trigger] json@->Object_0.contains_key(key) implies exists|k: int|
            0 <= k < members.len() && (#[trigger] members[k]).0@ == key by {
            lemma_member(members, key, 0);
        }
        if 0 <= i < members.len() {
            lemma_member(members, members[i].0@, i);
        }
    }
}

proof fn lemma_member(members: Seq<(String, Json)>, key: Text, i: int)
    ensures
        member_trees(members).contains_key(key) ==> exists|k: int|
            0 <= k < members.len() && (#[trigger] members[k]).0@ == key,
        0 <= i < members.len() && members[i].0@ == key && (forall|j: int|
            i < j < members.len() ==> (#[trigger] members[j]).0@ != key) ==> member_trees(members).contains_key(key)
            && member_trees(members)[key] == members[i].1.tree(),
    decreases members.len(),
{
    if members.len() > 0 {
        let n = members.len() - 1;
        let rest = members.drop_last();
        lemma_member(rest, key, i);
        assert(members[n] == members.last());
        if member_trees(rest).contains_key(key) {
            let k = choose|k: int| 0 <= k < rest.len() && (#[trigger] rest[k]).0@ == key;
            assert(members[k].0@ == key);
        }
        if 0 <= i < n && members[i].0@ == key && (forall|j: int|
            i < j < members.len() ==> (#[trigger] members[j]).0@ != key) {
            assert forall|j: int| i < j < rest.len() implies (#[trigger] rest[j]).0@ != key by {
                assert(rest[j] == members[j]);
            }
            assert(members[n].0@ != key);
            assert(rest[i] == members[i]);
        }
    }
}

} // verus!

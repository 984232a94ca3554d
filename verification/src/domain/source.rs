//! Where inventories come from.

use crate::domain::cache_entry::contains_string;
#[allow(unused_imports)]
use crate::domain::dataset::{DatasetView, GroupView};
use crate::domain::dataset::{Dataset, Group};
use crate::domain::sync_mode::SyncMode;
use crate::json::Json;
#[allow(unused_imports)]
use crate::json::JsonTree;
use crate::model::{Dup, Same};
#[allow(unused_imports)]
use crate::strmap::{lemma_prefix_step, lemma_prefix_whole, sorted};
use crate::strmap::{StrMap, StrSet};
#[allow(unused_imports)]
use crate::text::Text;
use crate::text::{cat3, cat5};
use vstd::prelude::*;

verus! {

/// How a source is reached.
#[derive(Clone, Copy, Debug, PartialEq, Eq, Structural)]
pub enum ConnectorType {
    /// A local script.
    Script,
    /// A script run on the hosts themselves.
    Ssh,
    /// Inventory files.
    StaticInventory,
    /// Another instance of the service.
    Remote,
}

impl DeepView for ConnectorType {
    type V = ConnectorType;

    open spec fn deep_view(&self) -> ConnectorType {
        *self
    }
}

impl Dup for ConnectorType {
    fn dup(&self) -> (copy: Self) {
        *self
    }
}

impl Same for ConnectorType {
    fn same(&self, other: &Self) -> (equal: bool) {
        *self == *other
    }
}

impl Default for ConnectorType {
    fn default() -> (value: Self)
        ensures
            value == ConnectorType::Script,
    {
        ConnectorType::Script
    }
}

/// The JSON that a script prints.
#[derive(Clone, Copy, Debug, PartialEq, Eq, Structural)]
pub enum OutputFormat {
    Native,
    /// Ansible's dynamic inventory.
    Ansible,
}

impl DeepView for OutputFormat {
    type V = OutputFormat;

    open spec fn deep_view(&self) -> OutputFormat {
        *self
    }
}

impl Dup for OutputFormat {
    fn dup(&self) -> (copy: Self) {
        *self
    }
}

impl Same for OutputFormat {
    fn same(&self, other: &Self) -> (equal: bool) {
        *self == *other
    }
}

impl Default for OutputFormat {
    fn default() -> (value: Self)
        ensures
            value == OutputFormat::Native,
    {
        OutputFormat::Native
    }
}

/// Under which addresses a host is tried.
#[derive(Clone, Copy, Debug, PartialEq, Eq, Structural)]
pub enum ConnectVia {
    Hostname,
    AnsibleHost,
    AnsibleHostThenHostname,
    HostnameThenAnsibleHost,
}

impl DeepView for ConnectVia {
    type V = ConnectVia;

    open spec fn deep_view(&self) -> ConnectVia {
        *self
    }
}

impl Dup for ConnectVia {
    fn dup(&self) -> (copy: Self) {
        *self
    }
}

impl Same for ConnectVia {
    fn same(&self, other: &Self) -> (equal: bool) {
        *self == *other
    }
}

impl Default for ConnectVia {
    fn default() -> (value: Self)
        ensures
            value == ConnectVia::Hostname,
    {
        ConnectVia::Hostname
    }
}

/// What a source says it covers.
#[derive(Debug, PartialEq)]
pub struct AdvertisedScope {
    pub groups: Vec<String>,
    pub hosts: Vec<String>,
}

/// What a [`AdvertisedScope`] holds.
#[verifier::ext_equal]
pub struct AdvertisedScopeModel {
    pub groups: Seq<Text>,
    pub hosts: Seq<Text>,
}

impl DeepView for AdvertisedScope {
    type V = AdvertisedScopeModel;

    open spec fn deep_view(&self) -> AdvertisedScopeModel {
        AdvertisedScopeModel {
            groups: self.groups.deep_view(),
            hosts: self.hosts.deep_view(),
        }
    }
}

impl Dup for AdvertisedScope {
    fn dup(&self) -> (copy: Self) {
        AdvertisedScope {
            groups: self.groups.dup(),
            hosts: self.hosts.dup(),
        }
    }
}

impl Same for AdvertisedScope {
    fn same(&self, other: &Self) -> (equal: bool) {
        self.groups.same(&other.groups)
            && self.hosts.same(&other.hosts)
    }
}

impl Clone for AdvertisedScope {
    fn clone(&self) -> (copy: Self)
        ensures
            copy.deep_view() == self.deep_view(),
    {
        self.dup()
    }
}

impl Default for AdvertisedScope {
    fn default() -> (value: Self)
        ensures
            value.deep_view() == (AdvertisedScopeModel {
                groups: Seq::empty(),
                hosts: Seq::empty(),
            }),
    {
        let value = AdvertisedScope {
            groups: Vec::new(),
            hosts: Vec::new(),
        };
        assert(value.groups.deep_view() =~= Seq::empty());
        assert(value.hosts.deep_view() =~= Seq::empty());
        value
    }
}

/// What a source covers.
#[derive(Debug, PartialEq)]
pub struct ScopeClaim {
    pub groups: Vec<String>,
    pub hosts: Vec<String>,
    /// Everything.
    pub catch_all: bool,
}

/// What a [`ScopeClaim`] holds.
#[verifier::ext_equal]
pub struct ScopeClaimModel {
    pub groups: Seq<Text>,
    pub hosts: Seq<Text>,
    pub catch_all: bool,
}

impl DeepView for ScopeClaim {
    type V = ScopeClaimModel;

    open spec fn deep_view(&self) -> ScopeClaimModel {
        ScopeClaimModel {
            groups: self.groups.deep_view(),
            hosts: self.hosts.deep_view(),
            catch_all: self.catch_all.deep_view(),
        }
    }
}

impl Dup for ScopeClaim {
    fn dup(&self) -> (copy: Self) {
        ScopeClaim {
            groups: self.groups.dup(),
            hosts: self.hosts.dup(),
            catch_all: self.catch_all.dup(),
        }
    }
}

impl Same for ScopeClaim {
    fn same(&self, other: &Self) -> (equal: bool) {
        self.groups.same(&other.groups)
            && self.hosts.same(&other.hosts)
            && self.catch_all.same(&other.catch_all)
    }
}

impl Clone for ScopeClaim {
    fn clone(&self) -> (copy: Self)
        ensures
            copy.deep_view() == self.deep_view(),
    {
        self.dup()
    }
}

/// Which hosts of another source are taken; without groups and hosts, all.
#[derive(Debug, PartialEq)]
pub struct MatchPattern {
    pub groups: Vec<String>,
    pub hosts: Vec<String>,
}

/// What a [`MatchPattern`] holds.
#[verifier::ext_equal]
pub struct MatchPatternModel {
    pub groups: Seq<Text>,
    pub hosts: Seq<Text>,
}

impl DeepView for MatchPattern {
    type V = MatchPatternModel;

    open spec fn deep_view(&self) -> MatchPatternModel {
        MatchPatternModel {
            groups: self.groups.deep_view(),
            hosts: self.hosts.deep_view(),
        }
    }
}

impl Dup for MatchPattern {
    fn dup(&self) -> (copy: Self) {
        MatchPattern {
            groups: self.groups.dup(),
            hosts: self.hosts.dup(),
        }
    }
}

impl Same for MatchPattern {
    fn same(&self, other: &Self) -> (equal: bool) {
        self.groups.same(&other.groups)
            && self.hosts.same(&other.hosts)
    }
}

impl Clone for MatchPattern {
    fn clone(&self) -> (copy: Self)
        ensures
            copy.deep_view() == self.deep_view(),
    {
        self.dup()
    }
}

impl Default for MatchPattern {
    fn default() -> (value: Self)
        ensures
            value.deep_view() == (MatchPatternModel {
                groups: Seq::empty(),
                hosts: Seq::empty(),
            }),
    {
        let value = MatchPattern {
            groups: Vec::new(),
            hosts: Vec::new(),
        };
        assert(value.groups.deep_view() =~= Seq::empty());
        assert(value.hosts.deep_view() =~= Seq::empty());
        value
    }
}

/// A host list that is another source's.
#[derive(Debug, PartialEq)]
pub struct HostsFromSource {
    pub source: String,
    pub match_pattern: MatchPattern,
    pub connect_via: ConnectVia,
}

/// What a [`HostsFromSource`] holds.
#[verifier::ext_equal]
pub struct HostsFromSourceModel {
    pub source: Text,
    pub match_pattern: MatchPatternModel,
    pub connect_via: ConnectVia,
}

impl DeepView for HostsFromSource {
    type V = HostsFromSourceModel;

    open spec fn deep_view(&self) -> HostsFromSourceModel {
        HostsFromSourceModel {
            source: self.source.deep_view(),
            match_pattern: self.match_pattern.deep_view(),
            connect_via: self.connect_via.deep_view(),
        }
    }
}

impl Dup for HostsFromSource {
    fn dup(&self) -> (copy: Self) {
        HostsFromSource {
            source: self.source.dup(),
            match_pattern: self.match_pattern.dup(),
            connect_via: self.connect_via.dup(),
        }
    }
}

impl Same for HostsFromSource {
    fn same(&self, other: &Self) -> (equal: bool) {
        self.source.same(&other.source)
            && self.match_pattern.same(&other.match_pattern)
            && self.connect_via.same(&other.connect_via)
    }
}

impl Clone for HostsFromSource {
    fn clone(&self) -> (copy: Self)
        ensures
            copy.deep_view() == self.deep_view(),
    {
        self.dup()
    }
}

/// A host, with the addresses to try in order.
#[derive(Debug, PartialEq)]
pub struct HostSpec {
    pub name: String,
    pub addresses: Vec<String>,
}

/// What a [`HostSpec`] holds.
#[verifier::ext_equal]
pub struct HostSpecModel {
    pub name: Text,
    pub addresses: Seq<Text>,
}

impl DeepView for HostSpec {
    type V = HostSpecModel;

    open spec fn deep_view(&self) -> HostSpecModel {
        HostSpecModel {
            name: self.name.deep_view(),
            addresses: self.addresses.deep_view(),
        }
    }
}

impl Dup for HostSpec {
    fn dup(&self) -> (copy: Self) {
        HostSpec {
            name: self.name.dup(),
            addresses: self.addresses.dup(),
        }
    }
}

impl Same for HostSpec {
    fn same(&self, other: &Self) -> (equal: bool) {
        self.name.same(&other.name)
            && self.addresses.same(&other.addresses)
    }
}

impl Clone for HostSpec {
    fn clone(&self) -> (copy: Self)
        ensures
            copy.deep_view() == self.deep_view(),
    {
        self.dup()
    }
}

/// Times to live of their own, in seconds.
#[derive(Debug, PartialEq)]
pub struct TtlOverrides {
    pub groups: StrMap<u64>,
    pub hosts: StrMap<u64>,
}

/// What a [`TtlOverrides`] holds.
#[verifier::ext_equal]
pub struct TtlOverridesModel {
    pub groups: Map<Text, u64>,
    pub hosts: Map<Text, u64>,
}

impl DeepView for TtlOverrides {
    type V = TtlOverridesModel;

    open spec fn deep_view(&self) -> TtlOverridesModel {
        TtlOverridesModel {
            groups: self.groups.deep_view(),
            hosts: self.hosts.deep_view(),
        }
    }
}

impl Dup for TtlOverrides {
    fn dup(&self) -> (copy: Self) {
        TtlOverrides {
            groups: self.groups.dup(),
            hosts: self.hosts.dup(),
        }
    }
}

impl Same for TtlOverrides {
    fn same(&self, other: &Self) -> (equal: bool) {
        self.groups.same(&other.groups)
            && self.hosts.same(&other.hosts)
    }
}

impl Clone for TtlOverrides {
    fn clone(&self) -> (copy: Self)
        ensures
            copy.deep_view() == self.deep_view(),
    {
        self.dup()
    }
}

impl Default for TtlOverrides {
    fn default() -> (value: Self)
        ensures
            value.deep_view() == (TtlOverridesModel {
                groups: Map::empty(),
                hosts: Map::empty(),
            }),
    {
        let value = TtlOverrides {
            groups: StrMap::new(),
            hosts: StrMap::new(),
        };
        assert(value.groups.deep_view() =~= Map::empty());
        assert(value.hosts.deep_view() =~= Map::empty());
        value
    }
}

/// A source of an inventory.
#[derive(Debug, PartialEq)]
pub struct Source {
    pub name: String,
    pub project_id: String,
    pub script_path: String,
    pub script_args: Vec<String>,
    pub connector_type: ConnectorType,
    pub output_format: OutputFormat,
    pub timeout_seconds: u64,
    pub sync_mode: SyncMode,
    pub credential_ids: Vec<String>,
    pub schedule: Option<String>,
    pub sync_interval_seconds: Option<u64>,
    pub ttl_seconds: u64,
    pub ttl_overrides: TtlOverrides,
    pub hosts_from_source: Option<HostsFromSource>,
    pub allow_on_demand_refresh: bool,
    pub advertise_scope: Option<AdvertisedScope>,
    pub config: StrMap<String>,
}

/// What a [`Source`] holds.
#[verifier::ext_equal]
pub struct SourceModel {
    pub name: Text,
    pub project_id: Text,
    pub script_path: Text,
    pub script_args: Seq<Text>,
    pub connector_type: ConnectorType,
    pub output_format: OutputFormat,
    pub timeout_seconds: u64,
    pub sync_mode: SyncMode,
    pub credential_ids: Seq<Text>,
    pub schedule: Option<Text>,
    pub sync_interval_seconds: Option<u64>,
    pub ttl_seconds: u64,
    pub ttl_overrides: TtlOverridesModel,
    pub hosts_from_source: Option<HostsFromSourceModel>,
    pub allow_on_demand_refresh: bool,
    pub advertise_scope: Option<AdvertisedScopeModel>,
    pub config: Map<Text, Text>,
}

impl DeepView for Source {
    type V = SourceModel;

    open spec fn deep_view(&self) -> SourceModel {
        SourceModel {
            name: self.name.deep_view(),
            project_id: self.project_id.deep_view(),
            script_path: self.script_path.deep_view(),
            script_args: self.script_args.deep_view(),
            connector_type: self.connector_type.deep_view(),
            output_format: self.output_format.deep_view(),
            timeout_seconds: self.timeout_seconds.deep_view(),
            sync_mode: self.sync_mode.deep_view(),
            credential_ids: self.credential_ids.deep_view(),
            schedule: self.schedule.deep_view(),
            sync_interval_seconds: self.sync_interval_seconds.deep_view(),
            ttl_seconds: self.ttl_seconds.deep_view(),
            ttl_overrides: self.ttl_overrides.deep_view(),
            hosts_from_source: self.hosts_from_source.deep_view(),
            allow_on_demand_refresh: self.allow_on_demand_refresh.deep_view(),
            advertise_scope: self.advertise_scope.deep_view(),
            config: self.config.deep_view(),
        }
    }
}

impl Dup for Source {
    fn dup(&self) -> (copy: Self) {
        Source {
            name: self.name.dup(),
            project_id: self.project_id.dup(),
            script_path: self.script_path.dup(),
            script_args: self.script_args.dup(),
            connector_type: self.connector_type.dup(),
            output_format: self.output_format.dup(),
            timeout_seconds: self.timeout_seconds.dup(),
            sync_mode: self.sync_mode.dup(),
            credential_ids: self.credential_ids.dup(),
            schedule: self.schedule.dup(),
            sync_interval_seconds: self.sync_interval_seconds.dup(),
            ttl_seconds: self.ttl_seconds.dup(),
            ttl_overrides: self.ttl_overrides.dup(),
            hosts_from_source: self.hosts_from_source.dup(),
            allow_on_demand_refresh: self.allow_on_demand_refresh.dup(),
            advertise_scope: self.advertise_scope.dup(),
            config: self.config.dup(),
        }
    }
}

impl Same for Source {
    fn same(&self, other: &Self) -> (equal: bool) {
        self.name.same(&other.name)
            && self.project_id.same(&other.project_id)
            && self.script_path.same(&other.script_path)
            && self.script_args.same(&other.script_args)
            && self.connector_type.same(&other.connector_type)
            && self.output_format.same(&other.output_format)
            && self.timeout_seconds.same(&other.timeout_seconds)
            && self.sync_mode.same(&other.sync_mode)
            && self.credential_ids.same(&other.credential_ids)
            && self.schedule.same(&other.schedule)
            && self.sync_interval_seconds.same(&other.sync_interval_seconds)
            && self.ttl_seconds.same(&other.ttl_seconds)
            && self.ttl_overrides.same(&other.ttl_overrides)
            && self.hosts_from_source.same(&other.hosts_from_source)
            && self.allow_on_demand_refresh.same(&other.allow_on_demand_refresh)
            && self.advertise_scope.same(&other.advertise_scope)
            && self.config.same(&other.config)
    }
}

impl Clone for Source {
    fn clone(&self) -> (copy: Self)
        ensures
            copy.deep_view() == self.deep_view(),
    {
        self.dup()
    }
}

impl MatchPattern {
    /// Whether nothing is named, so that every host is taken.
    pub fn is_empty(&self) -> (empty: bool)
        ensures
            empty == pattern_is_empty(self.deep_view()),
    {
        self.groups.is_empty() && self.hosts.is_empty()
    }
}

/// Nothing is named, so that every host is taken.
pub open spec fn pattern_is_empty(pattern: MatchPatternModel) -> bool {
    pattern.groups.len() == 0 && pattern.hosts.len() == 0
}

/// What a source covers: what it says it covers; else the hosts that it takes
/// from another source; else nothing is known.
pub open spec fn scope_of(source: SourceModel) -> Option<ScopeClaimModel> {
    match source.advertise_scope {
        Some(scope) => Some(ScopeClaimModel { groups: scope.groups, hosts: scope.hosts, catch_all: false }),
        None => match source.hosts_from_source {
            Some(from) => Some(
                ScopeClaimModel {
                    groups: from.match_pattern.groups,
                    hosts: from.match_pattern.hosts,
                    catch_all: pattern_is_empty(from.match_pattern),
                },
            ),
            None => None,
        },
    }
}

/// A host that an inventory knows, by its variables or by a group.
pub open spec fn host_known(dataset: DatasetView, host: Text) -> bool {
    dataset.hostvars.contains_key(host) || in_some_group(dataset.groups, host)
}

/// A host that is in some group.
pub open spec fn in_some_group(groups: Map<Text, GroupView>, host: Text) -> bool {
    exists|g: Text| #[trigger] groups.contains_key(g) && groups[g].hosts.contains(host)
}

/// A host that is in one of the named groups.
pub open spec fn in_named_group(groups: Map<Text, GroupView>, names: Seq<Text>, host: Text) -> bool {
    exists|i: int|
        0 <= i < names.len() && groups.contains_key(#[trigger] names[i]) && groups[names[i]].hosts.contains(host)
}

/// The hosts that a pattern takes from an inventory.
pub open spec fn selected_hosts(pattern: MatchPatternModel, dataset: DatasetView) -> Set<Text> {
    if pattern_is_empty(pattern) {
        dataset.hostvars.dom()
    } else {
        Set::new(
            |h: Text|
                in_named_group(dataset.groups, pattern.groups, h) || (pattern.hosts.contains(h) && host_known(
                    dataset,
                    h,
                )),
        )
    }
}

/// The address that a host's variables name.
pub open spec fn ansible_host(dataset: DatasetView, host: Text) -> Option<Text> {
    if dataset.hostvars.contains_key(host) && dataset.hostvars[host].contains_key("ansible_host"@) {
        match dataset.hostvars[host]["ansible_host"@] {
            JsonTree::Str(address) => Some(address),
            _ => None,
        }
    } else {
        None
    }
}

/// Two addresses to try in order, or the one where both are the same.
pub open spec fn one_or_both(first: Text, second: Text) -> Seq<Text> {
    if first == second {
        seq![first]
    } else {
        seq![first, second]
    }
}

/// The addresses to try for a host, in order; none where only its own variables
/// may say and do not.
pub open spec fn addresses_of(via: ConnectVia, host: Text, address: Option<Text>) -> Option<Seq<Text>> {
    match (via, address) {
        (ConnectVia::Hostname, _) => Some(seq![host]),
        (ConnectVia::AnsibleHost, Some(a)) => Some(seq![a]),
        (ConnectVia::AnsibleHost, None) => None,
        (ConnectVia::AnsibleHostThenHostname, Some(a)) => Some(one_or_both(a, host)),
        (ConnectVia::HostnameThenAnsibleHost, Some(a)) => Some(one_or_both(host, a)),
        (_, None) => Some(seq![host]),
    }
}

/// What is said of a group that a pattern names and the source does not have.
pub open spec fn unknown_group(source: Text) -> spec_fn(Text) -> Text {
    |g: Text| "match_pattern group '"@ + g + "' does not exist in source '"@ + source + "'"@
}

/// What is said of a host that a pattern names and the source does not have.
pub open spec fn unknown_host(source: Text) -> spec_fn(Text) -> Text {
    |h: Text| "match_pattern host '"@ + h + "' does not exist in source '"@ + source + "'"@
}

/// What is said of a host that is left out for want of an address.
pub open spec fn no_address(host: Text) -> Text {
    "host '"@ + host + "' has no ansible_host variable and connect_via is ansible_host \u{2014} skipped"@
}

/// The hosts to connect to, in ascending order, with what is to be said of what
/// the pattern names and the source does not have, and of hosts left out.
pub open spec fn resolved(from: HostsFromSourceModel, dataset: DatasetView) -> (Seq<HostSpecModel>, Seq<Text>) {
    let hosts = sorted(selected_hosts(from.match_pattern, dataset));
    (
        hosts.filter_map(spec_of(from, dataset)),
        from.match_pattern.groups.filter_map(group_warning(from, dataset))
            + from.match_pattern.hosts.filter_map(host_warning(from, dataset))
            + hosts.filter_map(address_warning(from, dataset)),
    )
}

/// A host with its addresses, where it has any.
pub open spec fn spec_of(from: HostsFromSourceModel, dataset: DatasetView) -> spec_fn(Text) -> Option<HostSpecModel> {
    |h: Text|
        match addresses_of(from.connect_via, h, ansible_host(dataset, h)) {
            Some(addresses) => Some(HostSpecModel { name: h, addresses }),
            None => None,
        }
}

/// What is to be said of a group of the pattern.
pub open spec fn group_warning(from: HostsFromSourceModel, dataset: DatasetView) -> spec_fn(Text) -> Option<Text> {
    |g: Text|
        if dataset.groups.contains_key(g) {
            None
        } else {
            Some(unknown_group(from.source)(g))
        }
}

/// What is to be said of a host of the pattern.
pub open spec fn host_warning(from: HostsFromSourceModel, dataset: DatasetView) -> spec_fn(Text) -> Option<Text> {
    |h: Text|
        if host_known(dataset, h) {
            None
        } else {
            Some(unknown_host(from.source)(h))
        }
}

/// What is to be said of a host that was taken.
pub open spec fn address_warning(from: HostsFromSourceModel, dataset: DatasetView) -> spec_fn(Text) -> Option<Text> {
    |h: Text|
        match addresses_of(from.connect_via, h, ansible_host(dataset, h)) {
            Some(_) => None,
            None => Some(no_address(h)),
        }
}

/// Whether an inventory has a host in some group.
pub(crate) fn in_any_group(groups: &StrMap<Group>, host: &str) -> (found: bool)
    ensures
        found == in_some_group(groups@, host@),
{
    let n: usize = groups.len();
    let ghost keys = sorted(groups@.dom());
    let mut i: usize = 0;
    while i < n
        invariant
            i <= n == keys.len(),
            keys == sorted(groups@.dom()),
            groups@.dom().finite(),
            forall|j: int| 0 <= j < i ==> !groups@[#[trigger] keys[j]].hosts.contains(host@),
        decreases n - i,
    {
        if contains_string(&groups.value_at(i).hosts, host) {
            assert(groups@.contains_key(keys[i as int]));
            return true;
        }
        i += 1;
    }
    proof {
        lemma_prefix_whole(groups@.dom());
        assert forall|g: Text| #[trigger] groups@.contains_key(g) implies !groups@[g].hosts.contains(host@) by {
            assert(keys.contains(g));
            let j = choose|j: int| 0 <= j < keys.len() && keys[j] == g;
            assert(keys[j] == g);
        }
    }
    false
}

fn ansible_host_of<'a>(dataset: &'a Dataset, host: &str) -> (address: Option<&'a String>)
    ensures
        match address {
            Some(a) => ansible_host(dataset@, host@) == Some(a@),
            None => ansible_host(dataset@, host@) is None,
        },
{
    match dataset.hostvars.get(host) {
        Some(vars) => match vars.get("ansible_host") {
            Some(value) => match value {
                Json::Str(address) => Some(address),
                _ => None,
            },
            None => None,
        },
        None => None,
    }
}

fn pair(first: &String, second: &String) -> (list: Vec<String>)
    ensures
        list.deep_view() == one_or_both(first@, second@),
{
    let mut list: Vec<String> = Vec::new();
    list.push(first.clone());
    if *first != *second {
        list.push(second.clone());
    }
    assert(list.deep_view() =~= one_or_both(first@, second@));
    list
}

fn addresses(via: ConnectVia, host: &String, address: Option<&String>) -> (list: Option<Vec<String>>)
    ensures
        match list {
            Some(l) => addresses_of(
                via,
                host@,
                match address {
                    Some(a) => Some(a@),
                    None => None,
                },
            ) == Some(l.deep_view()),
            None => via == ConnectVia::AnsibleHost && address is None,
        },
{
    match (via, address) {
        (ConnectVia::Hostname, _) => Some(single(host)),
        (ConnectVia::AnsibleHost, Some(a)) => Some(single(a)),
        (ConnectVia::AnsibleHost, None) => None,
        (ConnectVia::AnsibleHostThenHostname, Some(a)) => Some(pair(a, host)),
        (ConnectVia::HostnameThenAnsibleHost, Some(a)) => Some(pair(host, a)),
        (_, None) => Some(single(host)),
    }
}

fn single(item: &String) -> (list: Vec<String>)
    ensures
        list.deep_view() == seq![item@],
{
    let mut list: Vec<String> = Vec::new();
    list.push(item.clone());
    assert(list.deep_view() =~= seq![item@]);
    list
}

impl HostsFromSource {
    /// The hosts that the pattern takes from the inventory of the other source,
    /// with what is to be said of the groups and hosts it does not have.
    fn select(&self, dataset: &Dataset, warnings: &mut Vec<String>) -> (selected: StrSet)
        requires
            old(warnings)@.len() == 0,
        ensures
            selected@ == selected_hosts(self.match_pattern.deep_view(), dataset@),
            final(warnings).deep_view() == self.match_pattern.groups.deep_view().filter_map(
                group_warning(self.deep_view(), dataset@),
            ) + self.match_pattern.hosts.deep_view().filter_map(host_warning(self.deep_view(), dataset@)),
    {
        let mut selected = StrSet::new();
        let ghost groups = self.match_pattern.groups.deep_view();
        let ghost hosts = self.match_pattern.hosts.deep_view();
        let ghost say_group = group_warning(self.deep_view(), dataset@);
        let ghost say_host = host_warning(self.deep_view(), dataset@);
        if self.match_pattern.is_empty() {
            let n: usize = dataset.hostvars.len();
            let ghost keys = sorted(dataset@.hostvars.dom());
            let mut i: usize = 0;
            while i < n
                invariant
                    i <= n == keys.len(),
                    keys == sorted(dataset@.hostvars.dom()),
                    forall|k: Text| #[trigger] selected@.contains(k) <==> keys.take(i as int).contains(k),
                decreases n - i,
            {
                proof {
                    lemma_prefix_step(keys, i as int);
                }
                selected.insert(dataset.hostvars.key_at(i).clone());
                i += 1;
            }
            proof {
                lemma_prefix_whole(dataset@.hostvars.dom());
                assert(selected@ =~= dataset@.hostvars.dom());
                assert(groups =~= Seq::empty());
                assert(hosts =~= Seq::empty());
                assert(warnings.deep_view() =~= groups.filter_map(say_group) + hosts.filter_map(say_host));
            }
            return selected;
        }
        let mut i: usize = 0;
        assert(groups.take(0) =~= Seq::empty());
        assert(warnings.deep_view() =~= groups.take(0).filter_map(say_group));
        while i < self.match_pattern.groups.len()
            invariant
                i <= self.match_pattern.groups@.len(),
                groups == self.match_pattern.groups.deep_view(),
                say_group == group_warning(self.deep_view(), dataset@),
                warnings.deep_view() == groups.take(i as int).filter_map(say_group),
                forall|k: Text| #[trigger]
                    selected@.contains(k) <==> in_named_group(dataset@.groups, groups.take(i as int), k),
            decreases self.match_pattern.groups@.len() - i,
        {
            let name: &String = &self.match_pattern.groups[i];
            let ghost said = warnings.deep_view();
            let ghost before = selected@;
            proof {
                groups.lemma_filter_map_take_succ(say_group, i as int);
                assert(groups[i as int] == name@);
                assert forall|k: Text| in_named_group(dataset@.groups, groups.take(i + 1), k) <==> (in_named_group(
                    dataset@.groups,
                    groups.take(i as int),
                    k,
                ) || (dataset@.groups.contains_key(name@) && dataset@.groups[name@].hosts.contains(k))) by {
                    lemma_named_group_step(dataset@.groups, groups, i as int, k);
                }
            }
            match dataset.groups.get(name.as_str()) {
                Some(group) => {
                    selected.extend(&group.hosts);
                    assert forall|k: Text| selected@.contains(k) <==> before.contains(k)
                        || dataset@.groups[name@].hosts.contains(k) by {
                        assert(group.hosts.deep_view().to_set().contains(k) <==> group.hosts.deep_view().contains(k));
                    }
                },
                None => {
                    warnings.push(
                        cat5(
                            "match_pattern group '",
                            name.as_str(),
                            "' does not exist in source '",
                            self.source.as_str(),
                            "'",
                        ),
                    );
                    assert(warnings.deep_view() =~= said + seq![unknown_group(self.source@)(name@)]);
                },
            }
            i += 1;
        }
        assert(groups.take(groups.len() as int) =~= groups);
        let ghost said_groups = warnings.deep_view();
        let mut j: usize = 0;
        assert(hosts.take(0) =~= Seq::empty());
        assert(warnings.deep_view() =~= said_groups + hosts.take(0).filter_map(say_host));
        while j < self.match_pattern.hosts.len()
            invariant
                j <= self.match_pattern.hosts@.len(),
                hosts == self.match_pattern.hosts.deep_view(),
                say_host == host_warning(self.deep_view(), dataset@),
                warnings.deep_view() == said_groups + hosts.take(j as int).filter_map(say_host),
                forall|k: Text| #[trigger]
                    selected@.contains(k) <==> in_named_group(dataset@.groups, groups, k) || (hosts.take(
                        j as int,
                    ).contains(k) && host_known(dataset@, k)),
            decreases self.match_pattern.hosts@.len() - j,
        {
            let host: &String = &self.match_pattern.hosts[j];
            let ghost said = warnings.deep_view();
            proof {
                hosts.lemma_filter_map_take_succ(say_host, j as int);
                lemma_prefix_step(hosts, j as int);
                assert(hosts[j as int] == host@);
            }
            if dataset.hostvars.contains_key(host.as_str()) || in_any_group(&dataset.groups, host.as_str()) {
                selected.insert(host.clone());
            } else {
                warnings.push(
                    cat5(
                        "match_pattern host '",
                        host.as_str(),
                        "' does not exist in source '",
                        self.source.as_str(),
                        "'",
                    ),
                );
                assert(warnings.deep_view() =~= said + seq![unknown_host(self.source@)(host@)]);
            }
            assert(warnings.deep_view() =~= said_groups + hosts.take(j + 1).filter_map(say_host));
            j += 1;
        }
        assert(hosts.take(hosts.len() as int) =~= hosts);
        assert(selected@ =~= selected_hosts(self.match_pattern.deep_view(), dataset@));
        selected
    }

    /// The hosts to connect to, in ascending order and each once, with what is to
    /// be said of the groups and hosts that the source does not have, and of the
    /// hosts that have no address.
    pub fn resolve(&self, dataset: &Dataset) -> (r: (Vec<HostSpec>, Vec<String>))
        ensures
            (r.0.deep_view(), r.1.deep_view()) == resolved(self.deep_view(), dataset@),
    {
        let mut warnings: Vec<String> = Vec::new();
        let selected = self.select(dataset, &mut warnings);
        let ghost said = warnings.deep_view();
        let ghost names = sorted(selected@);
        let ghost spec = spec_of(self.deep_view(), dataset@);
        let ghost say = address_warning(self.deep_view(), dataset@);
        let mut specs: Vec<HostSpec> = Vec::new();
        let n: usize = selected.len();
        let mut i: usize = 0;
        assert(names.take(0) =~= Seq::empty());
        assert(specs.deep_view() =~= names.take(0).filter_map(spec));
        assert(warnings.deep_view() =~= said + names.take(0).filter_map(say));
        while i < n
            invariant
                i <= n == names.len(),
                names == sorted(selected@),
                spec == spec_of(self.deep_view(), dataset@),
                say == address_warning(self.deep_view(), dataset@),
                specs.deep_view() == names.take(i as int).filter_map(spec),
                warnings.deep_view() == said + names.take(i as int).filter_map(say),
            decreases n - i,
        {
            let host: &String = selected.at(i);
            let ghost done = specs.deep_view();
            let ghost told = warnings.deep_view();
            proof {
                names.lemma_filter_map_take_succ(spec, i as int);
                names.lemma_filter_map_take_succ(say, i as int);
            }
            match addresses(self.connect_via, host, ansible_host_of(dataset, host.as_str())) {
                Some(list) => {
                    let ghost tried = list.deep_view();
                    specs.push(HostSpec { name: host.clone(), addresses: list });
                    assert(specs.deep_view() =~= done + seq![HostSpecModel { name: host@, addresses: tried }]);
                },
                None => {
                    warnings.push(
                        cat3(
                            "host '",
                            host.as_str(),
                            "' has no ansible_host variable and connect_via is ansible_host \u{2014} skipped",
                        ),
                    );
                    assert(warnings.deep_view() =~= told + seq![no_address(host@)]);
                },
            }
            assert(warnings.deep_view() =~= said + names.take(i + 1).filter_map(say));
            i += 1;
        }
        assert(names.take(n as int) =~= names);
        (specs, warnings)
    }
}

pub(crate) proof fn lemma_named_group_step(groups: Map<Text, GroupView>, names: Seq<Text>, i: int, host: Text)
    requires
        0 <= i < names.len(),
    ensures
        in_named_group(groups, names.take(i + 1), host) <==> (in_named_group(groups, names.take(i), host) || (
        groups.contains_key(names[i]) && groups[names[i]].hosts.contains(host))),
{
    let next = names.take(i + 1);
    let now = names.take(i);
    if in_named_group(groups, next, host) {
        let j = choose|j: int|
            0 <= j < next.len() && groups.contains_key(#[trigger] next[j]) && groups[next[j]].hosts.contains(host);
        if j < i {
            assert(now[j] == next[j]);
        }
    }
    if in_named_group(groups, now, host) {
        let j = choose|j: int|
            0 <= j < now.len() && groups.contains_key(#[trigger] now[j]) && groups[now[j]].hosts.contains(host);
        assert(next[j] == now[j]);
    }
    if groups.contains_key(names[i]) && groups[names[i]].hosts.contains(host) {
        assert(next[i] == names[i]);
    }
}

impl Source {
    /// What the source covers, where anything is known of it.
    pub fn advertised_scope(&self) -> (claim: Option<ScopeClaim>)
        ensures
            claim.deep_view() == scope_of(self.deep_view()),
    {
        if let Some(explicit) = &self.advertise_scope {
            return Some(
                ScopeClaim { groups: explicit.groups.dup(), hosts: explicit.hosts.dup(), catch_all: false },
            );
        }
        match &self.hosts_from_source {
            Some(from) => Some(
                ScopeClaim {
                    groups: from.match_pattern.groups.dup(),
                    hosts: from.match_pattern.hosts.dup(),
                    catch_all: from.match_pattern.is_empty(),
                },
            ),
            None => None,
        }
    }
}

/// The time to live of the first of the named groups that has the host.
pub open spec fn first_group_ttl(
    ttls: Map<Text, u64>,
    groups: Map<Text, GroupView>,
    names: Seq<Text>,
    host: Text,
) -> Option<u64>
    decreases names.len(),
{
    if names.len() == 0 {
        None
    } else {
        match first_group_ttl(ttls, groups, names.drop_last(), host) {
            Some(ttl) => Some(ttl),
            None => if groups.contains_key(names.last()) && groups[names.last()].hosts.contains(host) {
                Some(ttls[names.last()])
            } else {
                None
            },
        }
    }
}

/// The time to live that a host has from its groups: of several, the one of the
/// group whose name comes first.
pub open spec fn group_ttl(overrides: TtlOverridesModel, groups: Map<Text, GroupView>, host: Text) -> Option<u64> {
    first_group_ttl(overrides.groups, groups, sorted(overrides.groups.dom()), host)
}

/// The times to live that hosts have from their groups.
pub open spec fn group_ttls(overrides: TtlOverridesModel, groups: Map<Text, GroupView>) -> Map<Text, u64> {
    Map::new(
        |h: Text| group_ttl(overrides, groups, h) is Some,
        |h: Text| group_ttl(overrides, groups, h)->0,
    )
}

/// The time to live of a host: its own, else the one it has from its groups, else
/// the given one.
pub open spec fn ttl_of(overrides: TtlOverridesModel, from_groups: Map<Text, u64>, host: Text, fallback: u64) -> u64 {
    if overrides.hosts.contains_key(host) {
        overrides.hosts[host]
    } else if from_groups.contains_key(host) {
        from_groups[host]
    } else {
        fallback
    }
}

impl Source {
    /// The times to live that hosts have from their groups. Of several groups, the
    /// one whose name comes first decides.
    pub fn group_ttl_by_host(&self, dataset: &Dataset) -> (by_host: StrMap<u64>)
        ensures
            by_host@ == group_ttls(self.ttl_overrides.deep_view(), dataset@.groups),
    {
        let mut by_host: StrMap<u64> = StrMap::new();
        let n: usize = self.ttl_overrides.groups.len();
        let ghost ttls = self.ttl_overrides.groups@;
        let ghost names = sorted(ttls.dom());
        let ghost groups = dataset@.groups;
        let mut i: usize = 0;
        while i < n
            invariant
                i <= n == names.len(),
                ttls == self.ttl_overrides.groups@,
                names == sorted(ttls.dom()),
                groups == dataset@.groups,
                forall|h: Text| #[trigger]
                    by_host@.contains_key(h) <==> first_group_ttl(ttls, groups, names.take(i as int), h) is Some,
                forall|h: Text| #[trigger]
                    by_host@.contains_key(h) ==> first_group_ttl(ttls, groups, names.take(i as int), h) == Some(
                        by_host@[h],
                    ),
            decreases n - i,
        {
            let ttl: u64 = *self.ttl_overrides.groups.value_at(i);
            let ghost before = by_host@;
            let ghost name = names[i as int];
            proof {
                assert(names.take(i + 1).drop_last() =~= names.take(i as int));
                assert(names.take(i + 1).last() == name);
            }
            if let Some(group) = dataset.groups.get(self.ttl_overrides.groups.key_at(i).as_str()) {
                let ghost members = group.hosts.deep_view();
                let mut j: usize = 0;
                while j < group.hosts.len()
                    invariant
                        j <= group.hosts@.len(),
                        members == group.hosts.deep_view(),
                        forall|h: Text| #[trigger]
                            by_host@.contains_key(h) <==> before.contains_key(h) || members.take(j as int).contains(h),
                        forall|h: Text| #[trigger]
                            by_host@.contains_key(h) ==> by_host@[h] == (if before.contains_key(h) {
                                before[h]
                            } else {
                                ttl
                            }),
                    decreases group.hosts@.len() - j,
                {
                    proof {
                        lemma_prefix_step(members, j as int);
                        assert(members[j as int] == group.hosts@[j as int]@);
                    }
                    if !by_host.contains_key(group.hosts[j].as_str()) {
                        by_host.insert(group.hosts[j].clone(), ttl);
                    }
                    j += 1;
                }
                assert(members.take(members.len() as int) =~= members);
            }
            i += 1;
        }
        proof {
            assert(names.take(n as int) =~= names);
            assert(by_host@ =~= group_ttls(self.ttl_overrides.deep_view(), groups));
        }
        by_host
    }

    /// The time to live of a host: its own, else the one it has from its groups,
    /// else the given one.
    pub fn effective_ttl(&self, hostname: &str, group_ttls: &StrMap<u64>, fallback: u64) -> (ttl: u64)
        ensures
            ttl == ttl_of(self.ttl_overrides.deep_view(), group_ttls@, hostname@, fallback),
    {
        match self.ttl_overrides.hosts.get(hostname) {
            Some(ttl) => *ttl,
            None => match group_ttls.get(hostname) {
                Some(ttl) => *ttl,
                None => fallback,
            },
        }
    }
}

} // verus!

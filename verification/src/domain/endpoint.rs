//! Endpoints that render inventories.

use crate::model::{Dup, Same};
use crate::strmap::StrMap;
#[allow(unused_imports)]
use crate::text::Text;
use vstd::prelude::*;

verus! {

/// A format that the service renders itself.
#[derive(Clone, Copy, Debug, PartialEq, Eq, Structural)]
pub enum OutputFormat {
    Ansible,
    Json,
    Csv,
}

impl DeepView for OutputFormat {
    type V = OutputFormat;

    open spec fn deep_view(&self) -> OutputFormat {
        *self
    }
}

impl Dup for OutputFormat {
    fn dup(&self) -> (copy: Self) {
        *self
    }
}

impl Same for OutputFormat {
    fn same(&self, other: &Self) -> (equal: bool) {
        *self == *other
    }
}

/// Which hosts an endpoint serves at most.
#[derive(Debug, PartialEq)]
pub struct EndpointLimit {
    /// The source that has to know a host.
    pub by_hosts_from_inventory: Option<String>,
}

/// What a [`EndpointLimit`] holds.
#[verifier::ext_equal]
pub struct EndpointLimitModel {
    pub by_hosts_from_inventory: Option<Text>,
}

impl DeepView for EndpointLimit {
    type V = EndpointLimitModel;

    open spec fn deep_view(&self) -> EndpointLimitModel {
        EndpointLimitModel {
            by_hosts_from_inventory: self.by_hosts_from_inventory.deep_view(),
        }
    }
}

impl Dup for EndpointLimit {
    fn dup(&self) -> (copy: Self) {
        EndpointLimit {
            by_hosts_from_inventory: self.by_hosts_from_inventory.dup(),
        }
    }
}

impl Same for EndpointLimit {
    fn same(&self, other: &Self) -> (equal: bool) {
        self.by_hosts_from_inventory.same(&other.by_hosts_from_inventory)
    }
}

impl Clone for EndpointLimit {
    fn clone(&self) -> (copy: Self)
        ensures
            copy.deep_view() == self.deep_view(),
    {
        self.dup()
    }
}

impl Default for EndpointLimit {
    fn default() -> (value: Self)
        ensures
            value.deep_view() == (EndpointLimitModel {
                by_hosts_from_inventory: None,
            }),
    {
        let value = EndpointLimit {
            by_hosts_from_inventory: None,
        };
        value
    }
}

impl EndpointLimit {
    /// Whether nothing is limited.
    pub fn is_empty(&self) -> (empty: bool)
        ensures
            empty == (self.by_hosts_from_inventory is None),
    {
        self.by_hosts_from_inventory.is_none()
    }
}

/// An endpoint: the sources it merges, and how it renders them.
#[derive(Debug, PartialEq)]
pub struct OutputEndpoint {
    pub name: String,
    /// The sources, the first before the others.
    pub source_ids: Vec<String>,
    /// Rendered by the service.
    pub output: Option<OutputFormat>,
    /// Rendered by a script.
    pub script_path: Option<String>,
    pub script_args: Vec<String>,
    pub project_id: Option<String>,
    pub config: StrMap<String>,
    pub limit: Option<EndpointLimit>,
    pub timeout_seconds: Option<u64>,
}

/// What a [`OutputEndpoint`] holds.
#[verifier::ext_equal]
pub struct OutputEndpointModel {
    pub name: Text,
    pub source_ids: Seq<Text>,
    pub output: Option<OutputFormat>,
    pub script_path: Option<Text>,
    pub script_args: Seq<Text>,
    pub project_id: Option<Text>,
    pub config: Map<Text, Text>,
    pub limit: Option<EndpointLimitModel>,
    pub timeout_seconds: Option<u64>,
}

impl DeepView for OutputEndpoint {
    type V = OutputEndpointModel;

    open spec fn deep_view(&self) -> OutputEndpointModel {
        OutputEndpointModel {
            name: self.name.deep_view(),
            source_ids: self.source_ids.deep_view(),
            output: self.output.deep_view(),
            script_path: self.script_path.deep_view(),
            script_args: self.script_args.deep_view(),
            project_id: self.project_id.deep_view(),
            config: self.config.deep_view(),
            limit: self.limit.deep_view(),
            timeout_seconds: self.timeout_seconds.deep_view(),
        }
    }
}

impl Dup for OutputEndpoint {
    fn dup(&self) -> (copy: Self) {
        OutputEndpoint {
            name: self.name.dup(),
            source_ids: self.source_ids.dup(),
            output: self.output.dup(),
            script_path: self.script_path.dup(),
            script_args: self.script_args.dup(),
            project_id: self.project_id.dup(),
            config: self.config.dup(),
            limit: self.limit.dup(),
            timeout_seconds: self.timeout_seconds.dup(),
        }
    }
}

impl Same for OutputEndpoint {
    fn same(&self, other: &Self) -> (equal: bool) {
        self.name.same(&other.name)
            && self.source_ids.same(&other.source_ids)
            && self.output.same(&other.output)
            && self.script_path.same(&other.script_path)
            && self.script_args.same(&other.script_args)
            && self.project_id.same(&other.project_id)
            && self.config.same(&other.config)
            && self.limit.same(&other.limit)
            && self.timeout_seconds.same(&other.timeout_seconds)
    }
}

impl Clone for OutputEndpoint {
    fn clone(&self) -> (copy: Self)
        ensures
            copy.deep_view() == self.deep_view(),
    {
        self.dup()
    }
}

} // verus!

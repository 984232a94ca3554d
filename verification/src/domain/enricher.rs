//! What adds variables to an inventory that is already there.

use crate::model::{Dup, Same};
use crate::strmap::StrMap;
#[allow(unused_imports)]
use crate::text::Text;
use vstd::prelude::*;

verus! {

/// An enricher: a script, or another source whose variables are merged.
#[derive(Debug, PartialEq)]
pub struct Enricher {
    pub name: String,
    /// The source that is enriched.
    pub target_id: String,
    pub script_path: Option<String>,
    pub script_args: Vec<String>,
    pub project_id: Option<String>,
    /// The source whose variables are merged.
    pub source_id: Option<String>,
    /// The variables that are taken; without it, all.
    pub fields: Option<Vec<String>>,
    /// The variables that are not taken.
    pub fields_excluded: Option<Vec<String>>,
    /// The groups whose variables are taken; without it, all.
    pub groups: Option<Vec<String>>,
    /// The groups whose variables are not taken.
    pub groups_excluded: Option<Vec<String>>,
    pub sync_interval_seconds: Option<u64>,
    pub schedule: Option<String>,
    pub config: StrMap<String>,
    pub timeout_seconds: u64,
}

/// What a [`Enricher`] holds.
#[verifier::ext_equal]
pub struct EnricherModel {
    pub name: Text,
    pub target_id: Text,
    pub script_path: Option<Text>,
    pub script_args: Seq<Text>,
    pub project_id: Option<Text>,
    pub source_id: Option<Text>,
    pub fields: Option<Seq<Text>>,
    pub fields_excluded: Option<Seq<Text>>,
    pub groups: Option<Seq<Text>>,
    pub groups_excluded: Option<Seq<Text>>,
    pub sync_interval_seconds: Option<u64>,
    pub schedule: Option<Text>,
    pub config: Map<Text, Text>,
    pub timeout_seconds: u64,
}

impl DeepView for Enricher {
    type V = EnricherModel;

    open spec fn deep_view(&self) -> EnricherModel {
        EnricherModel {
            name: self.name.deep_view(),
            target_id: self.target_id.deep_view(),
            script_path: self.script_path.deep_view(),
            script_args: self.script_args.deep_view(),
            project_id: self.project_id.deep_view(),
            source_id: self.source_id.deep_view(),
            fields: self.fields.deep_view(),
            fields_excluded: self.fields_excluded.deep_view(),
            groups: self.groups.deep_view(),
            groups_excluded: self.groups_excluded.deep_view(),
            sync_interval_seconds: self.sync_interval_seconds.deep_view(),
            schedule: self.schedule.deep_view(),
            config: self.config.deep_view(),
            timeout_seconds: self.timeout_seconds.deep_view(),
        }
    }
}

impl Dup for Enricher {
    fn dup(&self) -> (copy: Self) {
        Enricher {
            name: self.name.dup(),
            target_id: self.target_id.dup(),
            script_path: self.script_path.dup(),
            script_args: self.script_args.dup(),
            project_id: self.project_id.dup(),
            source_id: self.source_id.dup(),
            fields: self.fields.dup(),
            fields_excluded: self.fields_excluded.dup(),
            groups: self.groups.dup(),
            groups_excluded: self.groups_excluded.dup(),
            sync_interval_seconds: self.sync_interval_seconds.dup(),
            schedule: self.schedule.dup(),
            config: self.config.dup(),
            timeout_seconds: self.timeout_seconds.dup(),
        }
    }
}

impl Same for Enricher {
    fn same(&self, other: &Self) -> (equal: bool) {
        self.name.same(&other.name)
            && self.target_id.same(&other.target_id)
            && self.script_path.same(&other.script_path)
            && self.script_args.same(&other.script_args)
            && self.project_id.same(&other.project_id)
            && self.source_id.same(&other.source_id)
            && self.fields.same(&other.fields)
            && self.fields_excluded.same(&other.fields_excluded)
            && self.groups.same(&other.groups)
            && self.groups_excluded.same(&other.groups_excluded)
            && self.sync_interval_seconds.same(&other.sync_interval_seconds)
            && self.schedule.same(&other.schedule)
            && self.config.same(&other.config)
            && self.timeout_seconds.same(&other.timeout_seconds)
    }
}

impl Clone for Enricher {
    fn clone(&self) -> (copy: Self)
        ensures
            copy.deep_view() == self.deep_view(),
    {
        self.dup()
    }
}

impl Enricher {
    /// Whether another source is merged, rather than a script run.
    pub fn is_declarative(&self) -> (declarative: bool)
        ensures
            declarative == (self.source_id is Some),
    {
        self.source_id.is_some()
    }
}

} // verus!

//! What a connector brings back.

#[allow(unused_imports)]
use crate::domain::dataset::DatasetView;
use crate::domain::dataset::Dataset;
use crate::strmap::StrMap;
#[allow(unused_imports)]
use crate::text::Text;
use vstd::prelude::*;

verus! {

/// Why a connector failed.
#[derive(Clone, Debug, PartialEq, Eq)]
pub struct ConnectorError {
    pub message: String,
    pub stderr: String,
    pub exit_code: Option<i32>,
}

/// How old gathered data already is, in seconds.
pub struct DatasetAges {
    pub dataset_age_seconds: u64,
    pub host_ages: StrMap<u64>,
}

/// What [`DatasetAges`] holds.
#[verifier::ext_equal]
pub struct AgesView {
    pub dataset_age_seconds: u64,
    pub host_ages: Map<Text, u64>,
}

impl DeepView for DatasetAges {
    type V = AgesView;

    open spec fn deep_view(&self) -> AgesView {
        AgesView { dataset_age_seconds: self.dataset_age_seconds, host_ages: self.host_ages@ }
    }
}

/// What a connector gathered.
pub struct ConnectorOutput {
    pub dataset: Dataset,
    /// How old the data is, where the connector knows; else it was gathered now.
    pub ages: Option<DatasetAges>,
    /// The hosts that were tried and did not answer.
    pub unreachable: Vec<String>,
}

/// What [`ConnectorOutput`] holds.
#[verifier::ext_equal]
pub struct OutputView {
    pub dataset: DatasetView,
    pub ages: Option<AgesView>,
    pub unreachable: Seq<Text>,
}

impl DeepView for ConnectorOutput {
    type V = OutputView;

    open spec fn deep_view(&self) -> OutputView {
        OutputView {
            dataset: self.dataset@,
            ages: self.ages.deep_view(),
            unreachable: self.unreachable.deep_view(),
        }
    }
}

impl View for ConnectorOutput {
    type V = OutputView;

    open spec fn view(&self) -> OutputView {
        self.deep_view()
    }
}

impl ConnectorOutput {
    /// What was gathered now, from hosts that all answered.
    pub fn gathered(dataset: Dataset) -> (output: Self)
        ensures
            output@ == (OutputView { dataset: dataset@, ages: None, unreachable: Seq::empty() }),
    {
        let output = ConnectorOutput { dataset, ages: None, unreachable: Vec::new() };
        assert(output@.unreachable =~= Seq::empty());
        output
    }
}

} // verus!

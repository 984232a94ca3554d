//! What runs by itself, and how often.

use crate::domain::enricher::Enricher;
#[allow(unused_imports)]
use crate::domain::enricher::EnricherModel;
use crate::domain::source::Source;
#[allow(unused_imports)]
use crate::domain::source::SourceModel;
#[allow(unused_imports)]
use crate::strmap::sorted;
use crate::strmap::StrMap;
#[allow(unused_imports)]
use crate::text::Text;
use vstd::prelude::*;

verus! {

/// What runs by itself: its id, and the seconds from one run to the next.
#[derive(Clone, Debug, PartialEq, Eq)]
pub struct Task {
    pub id: String,
    pub interval_seconds: u64,
}

/// What a [`Task`] holds.
pub struct TaskModel {
    pub id: Text,
    pub interval_seconds: u64,
}

impl DeepView for Task {
    type V = TaskModel;

    open spec fn deep_view(&self) -> TaskModel {
        TaskModel { id: self.id@, interval_seconds: self.interval_seconds }
    }
}

/// What runs by itself has an interval, and not one of zero.
pub open spec fn task(id: Text, interval: Option<u64>) -> Option<TaskModel> {
    match interval {
        Some(seconds) => if seconds > 0 {
            Some(TaskModel { id, interval_seconds: seconds })
        } else {
            None
        },
        None => None,
    }
}

/// The syncs that run by themselves.
pub open spec fn source_task(sources: Map<Text, SourceModel>) -> spec_fn(Text) -> Option<TaskModel> {
    |id: Text| task(id, sources[id].sync_interval_seconds)
}

/// The enrichers that run by themselves.
pub open spec fn enricher_task(enrichers: Map<Text, EnricherModel>) -> spec_fn(Text) -> Option<TaskModel> {
    |id: Text| task(id, enrichers[id].sync_interval_seconds)
}

fn task_of(id: &String, interval: Option<u64>) -> (found: Option<Task>)
    ensures
        found.deep_view() == task(id@, interval),
{
    match interval {
        Some(seconds) => if seconds > 0 {
            Some(Task { id: id.clone(), interval_seconds: seconds })
        } else {
            None
        },
        None => None,
    }
}

/// The syncs that run by themselves, in ascending order of the sources.
pub fn sync_tasks(sources: &StrMap<Source>) -> (tasks: Vec<Task>)
    ensures
        tasks.deep_view() == sorted(sources@.dom()).filter_map(source_task(sources@)),
{
    let ghost ids = sorted(sources@.dom());
    let ghost picked = source_task(sources@);
    let mut tasks: Vec<Task> = Vec::new();
    let n: usize = sources.len();
    let mut i: usize = 0;
    assert(tasks.deep_view() =~= ids.take(0).filter_map(picked));
    while i < n
        invariant
            i <= n == ids.len(),
            ids == sorted(sources@.dom()),
            picked == source_task(sources@),
            tasks.deep_view() == ids.take(i as int).filter_map(picked),
        decreases n - i,
    {
        let ghost before = tasks.deep_view();
        proof {
            ids.lemma_filter_map_take_succ(picked, i as int);
        }
        if let Some(found) = task_of(sources.key_at(i), sources.value_at(i).sync_interval_seconds) {
            let ghost model = found.deep_view();
            tasks.push(found);
            assert(tasks.deep_view() =~= before + seq![model]);
        }
        i += 1;
    }
    assert(ids.take(n as int) =~= ids);
    tasks
}

/// The enrichers that run by themselves, in ascending order.
pub fn enricher_tasks(enrichers: &StrMap<Enricher>) -> (tasks: Vec<Task>)
    ensures
        tasks.deep_view() == sorted(enrichers@.dom()).filter_map(enricher_task(enrichers@)),
{
    let ghost ids = sorted(enrichers@.dom());
    let ghost picked = enricher_task(enrichers@);
    let mut tasks: Vec<Task> = Vec::new();
    let n: usize = enrichers.len();
    let mut i: usize = 0;
    assert(tasks.deep_view() =~= ids.take(0).filter_map(picked));
    while i < n
        invariant
            i <= n == ids.len(),
            ids == sorted(enrichers@.dom()),
            picked == enricher_task(enrichers@),
            tasks.deep_view() == ids.take(i as int).filter_map(picked),
        decreases n - i,
    {
        let ghost before = tasks.deep_view();
        proof {
            ids.lemma_filter_map_take_succ(picked, i as int);
        }
        if let Some(found) = task_of(enrichers.key_at(i), enrichers.value_at(i).sync_interval_seconds) {
            let ghost model = found.deep_view();
            tasks.push(found);
            assert(tasks.deep_view() =~= before + seq![model]);
        }
        i += 1;
    }
    assert(ids.take(n as int) =~= ids);
    tasks
}

} // verus!

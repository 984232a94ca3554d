//! Whether the syncs of a source still succeed, and what went wrong if not.

#[allow(unused_imports)]
use crate::clock::{is_reading, nanos, seconds_since};
use crate::clock::{read_clock, seconds_between};
use crate::strmap::StrMap;
#[allow(unused_imports)]
use crate::text::Text;
use std::time::Instant;
use vstd::prelude::*;

verus! {

/// How the syncs of a source are going.
#[derive(Clone, Debug, PartialEq, Eq)]
pub struct SyncHealth {
    /// How long ago the last attempt was, in seconds.
    pub last_attempt_age_seconds: Option<u64>,
    /// How long ago the last success was, in seconds.
    pub last_success_age_seconds: Option<u64>,
    /// What went wrong with the last attempt.
    pub last_error: Option<String>,
    /// How many attempts have failed since the last success.
    pub consecutive_failures: u32,
}

/// What is kept of a source. Moments are places on the monotonic clock, in
/// nanoseconds.
#[verifier::ext_equal]
pub struct RecordView {
    pub last_attempt: int,
    pub last_success: Option<int>,
    pub last_error: Option<Text>,
    pub consecutive_failures: u32,
}

struct Record {
    last_attempt: Instant,
    last_success: Option<Instant>,
    last_error: Option<String>,
    consecutive_failures: u32,
}

impl DeepView for Record {
    type V = RecordView;

    closed spec fn deep_view(&self) -> RecordView {
        RecordView {
            last_attempt: nanos(self.last_attempt),
            last_success: match self.last_success {
                Some(at) => Some(nanos(at)),
                None => None,
            },
            last_error: self.last_error.deep_view(),
            consecutive_failures: self.consecutive_failures,
        }
    }
}

impl RecordView {
    /// What a success leaves behind.
    pub open spec fn succeeded(now: int) -> RecordView {
        RecordView {
            last_attempt: now,
            last_success: Some(now),
            last_error: None,
            consecutive_failures: 0,
        }
    }

    /// What a failure leaves behind. The last success stays.
    pub open spec fn failed(before: Option<RecordView>, error: Text, now: int) -> RecordView {
        RecordView {
            last_attempt: now,
            last_success: match before {
                Some(record) => record.last_success,
                None => None,
            },
            last_error: Some(error),
            consecutive_failures: match before {
                Some(record) => if record.consecutive_failures < u32::MAX {
                    (record.consecutive_failures + 1) as u32
                } else {
                    u32::MAX
                },
                None => 1,
            },
        }
    }
}

/// An attempt to sync a source: when it was made, and what went wrong with it.
#[verifier::ext_equal]
pub struct AttemptView {
    pub source_id: Text,
    pub error: Option<Text>,
    pub at: int,
}

/// The records after an attempt. Only that of its source changes.
pub open spec fn with_attempt(records: Map<Text, RecordView>, attempt: AttemptView) -> Map<Text, RecordView> {
    records.insert(
        attempt.source_id,
        match attempt.error {
            None => RecordView::succeeded(attempt.at),
            Some(error) => RecordView::failed(
                if records.contains_key(attempt.source_id) {
                    Some(records[attempt.source_id])
                } else {
                    None
                },
                error,
                attempt.at,
            ),
        },
    )
}

/// The records of a registry that was new and has seen these attempts, one after the
/// other.
pub open spec fn after_attempts(attempts: Seq<AttemptView>) -> Map<Text, RecordView>
    decreases attempts.len(),
{
    if attempts.len() == 0 {
        Map::empty()
    } else {
        with_attempt(after_attempts(attempts.drop_last()), attempts.last())
    }
}

impl SyncHealth {
    /// This is what is to be said of a record at the given moment.
    pub open spec fn tells(self, record: RecordView, now: int) -> bool {
        &&& self.last_attempt_age_seconds matches Some(age) && age == seconds_since(now, record.last_attempt)
        &&& match record.last_success {
            Some(at) => self.last_success_age_seconds matches Some(age) && age == seconds_since(now, at),
            None => self.last_success_age_seconds is None,
        }
        &&& self.last_error.deep_view() == record.last_error
        &&& self.consecutive_failures == record.consecutive_failures
    }
}

/// How the syncs of every source are going. It is kept apart from the cache: a
/// source that has never synced has no entry there.
pub struct SyncHealthRegistry {
    records: StrMap<Record>,
}

impl View for SyncHealthRegistry {
    type V = Map<Text, RecordView>;

    closed spec fn view(&self) -> Map<Text, RecordView> {
        self.records@
    }
}

impl SyncHealthRegistry {
    /// Nothing is known yet.
    pub fn new() -> (registry: Self)
        ensures
            registry@ == Map::<Text, RecordView>::empty(),
    {
        SyncHealthRegistry { records: StrMap::new() }
    }

    /// Records a success at the given moment.
    pub fn record_success_at(&mut self, source_id: &str, now: Instant)
        ensures
            final(self)@ == with_attempt(
                old(self)@,
                (AttemptView { source_id: source_id@, error: None, at: nanos(now) }),
            ),
    {
        self.records.insert(
            source_id.to_owned(),
            Record { last_attempt: now, last_success: Some(now), last_error: None, consecutive_failures: 0 },
        );
    }

    /// Records a success.
    pub fn record_success(&mut self, source_id: &str)
        ensures
            exists|now: Instant|
                is_reading(now) && final(self)@ == with_attempt(
                    old(self)@,
                    (AttemptView { source_id: source_id@, error: None, at: #[trigger] nanos(now) }),
                ),
    {
        self.record_success_at(source_id, read_clock());
    }

    /// Records a failure at the given moment. The last success stays.
    pub fn record_failure_at(&mut self, source_id: &str, error: &str, now: Instant)
        ensures
            final(self)@ == with_attempt(
                old(self)@,
                (AttemptView { source_id: source_id@, error: Some(error@), at: nanos(now) }),
            ),
    {
        let ghost before = self@;
        let (last_success, failures): (Option<Instant>, u32) = match self.records.get(source_id) {
            Some(record) => (record.last_success, record.consecutive_failures),
            None => (None, 0u32),
        };
        let consecutive_failures: u32 = if failures < u32::MAX {
            failures + 1
        } else {
            u32::MAX
        };
        self.records.insert(
            source_id.to_owned(),
            Record { last_attempt: now, last_success, last_error: Some(error.to_owned()), consecutive_failures },
        );
    }

    /// Records a failure. The last success stays.
    pub fn record_failure(&mut self, source_id: &str, error: &str)
        ensures
            exists|now: Instant|
                is_reading(now) && final(self)@ == with_attempt(
                    old(self)@,
                    (AttemptView { source_id: source_id@, error: Some(error@), at: #[trigger] nanos(now) }),
                ),
    {
        self.record_failure_at(source_id, error, read_clock());
    }

    /// How the syncs of a source are going at the given moment.
    pub fn get_at(&self, source_id: &str, now: Instant) -> (health: Option<SyncHealth>)
        ensures
            match health {
                Some(health) => self@.contains_key(source_id@) && health.tells(self@[source_id@], nanos(now)),
                None => !self@.contains_key(source_id@),
            },
    {
        match self.records.get(source_id) {
            Some(record) => Some(
                SyncHealth {
                    last_attempt_age_seconds: Some(seconds_between(now, record.last_attempt)),
                    last_success_age_seconds: match record.last_success {
                        Some(at) => Some(seconds_between(now, at)),
                        None => None,
                    },
                    last_error: record.last_error.clone(),
                    consecutive_failures: record.consecutive_failures,
                },
            ),
            None => None,
        }
    }

    /// How the syncs of a source are going.
    pub fn get(&self, source_id: &str) -> (health: Option<SyncHealth>)
        ensures
            match health {
                Some(health) => self@.contains_key(source_id@) && exists|now: Instant|
                    is_reading(now) && health.tells(self@[source_id@], #[trigger] nanos(now)),
                None => !self@.contains_key(source_id@),
            },
    {
        self.get_at(source_id, read_clock())
    }
}

impl Default for SyncHealthRegistry {
    fn default() -> (registry: Self)
        ensures
            registry@ == Map::<Text, RecordView>::empty(),
    {
        SyncHealthRegistry::new()
    }
}

} // verus!

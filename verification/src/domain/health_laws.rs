//! What a registry tells, whatever attempts it has seen.

#[allow(unused_imports)]
use crate::clock::seconds_since;
#[allow(unused_imports)]
use crate::domain::sync_health::{after_attempts, with_attempt, AttemptView, RecordView, SyncHealth};
#[allow(unused_imports)]
use crate::text::Text;
use vstd::prelude::*;

verus! {

/// A source that was attempted.
pub open spec fn attempted(attempts: Seq<AttemptView>, source_id: Text) -> bool {
    exists|i: int| 0 <= i < attempts.len() && (#[trigger] attempts[i]).source_id == source_id
}

/// The attempts were made in this order: the clock did not go back from one to a later
/// one.
pub open spec fn in_turn(attempts: Seq<AttemptView>) -> bool {
    forall|i: int, j: int|
        0 <= i < j < attempts.len() ==> (#[trigger] attempts[i]).at <= (#[trigger] attempts[j]).at
}

proof fn lemma_attempted_step(attempts: Seq<AttemptView>, source_id: Text)
    requires
        attempts.len() > 0,
    ensures
        attempted(attempts, source_id) <==> attempted(attempts.drop_last(), source_id) || attempts.last().source_id
            == source_id,
{
    let rest = attempts.drop_last();
    if attempted(rest, source_id) {
        let i = choose|i: int| 0 <= i < rest.len() && (#[trigger] rest[i]).source_id == source_id;
        assert(attempts[i] == rest[i]);
    }
    if attempted(attempts, source_id) {
        let i = choose|i: int| 0 <= i < attempts.len() && (#[trigger] attempts[i]).source_id == source_id;
        if i < rest.len() {
            assert(rest[i] == attempts[i]);
        }
    }
    assert(attempts[attempts.len() - 1] == attempts.last());
}

/// The record of a source is consistent, and its moments are those of attempts.
proof fn lemma_record(attempts: Seq<AttemptView>, source_id: Text)
    ensures
        after_attempts(attempts).contains_key(source_id) <==> attempted(attempts, source_id),
        after_attempts(attempts).contains_key(source_id) ==> {
            let record = after_attempts(attempts)[source_id];
            &&& record.last_error is Some <==> record.consecutive_failures > 0
            &&& record.consecutive_failures == 0 ==> record.last_success is Some
            &&& record.last_success matches Some(at) ==> exists|i: int|
                0 <= i < attempts.len() && (#[trigger] attempts[i]).at == at
            &&& in_turn(attempts) && record.last_success is Some ==> record.last_success->0 <= record.last_attempt
        },
    decreases attempts.len(),
{
    if attempts.len() > 0 {
        let rest = attempts.drop_last();
        let last = attempts.last();
        lemma_record(rest, source_id);
        lemma_attempted_step(attempts, source_id);
        assert(attempts[attempts.len() - 1] == last);
        if in_turn(attempts) {
            assert forall|i: int, j: int| 0 <= i < j < rest.len() implies (#[trigger] rest[i]).at <= (
            #[trigger] rest[j]).at by {
                assert(rest[i] == attempts[i] && rest[j] == attempts[j]);
            }
        }
        if after_attempts(rest).contains_key(source_id) && after_attempts(rest)[source_id].last_success is Some {
            let at = after_attempts(rest)[source_id].last_success->0;
            let i = choose|i: int| 0 <= i < rest.len() && (#[trigger] rest[i]).at == at;
            assert(attempts[i] == rest[i]);
        }
    }
}

/// Of a registry that was new and has seen these attempts: it knows a source where one of
/// them was at it, and only there. What it tells of a source says when it was attempted;
/// names an error where attempts have failed since the last success, and only there; and
/// knows a success where none have. Where the clock did not go back from attempt to
/// attempt, the last success was no later than the last attempt.
pub proof fn law_a_registry_tells_of_its_attempts(
    attempts: Seq<AttemptView>,
    source_id: Text,
    health: SyncHealth,
    now: int,
)
    ensures
        after_attempts(attempts).contains_key(source_id) <==> attempted(attempts, source_id),
        after_attempts(attempts).contains_key(source_id) && health.tells(after_attempts(attempts)[source_id], now)
            ==> {
            &&& health.last_attempt_age_seconds is Some
            &&& health.last_error is Some <==> health.consecutive_failures > 0
            &&& health.consecutive_failures == 0 ==> health.last_success_age_seconds is Some
            &&& in_turn(attempts) && health.last_success_age_seconds is Some ==> health.last_success_age_seconds->0
                >= health.last_attempt_age_seconds->0
        },
{
    lemma_record(attempts, source_id);
    if after_attempts(attempts).contains_key(source_id) {
        let record = after_attempts(attempts)[source_id];
        if in_turn(attempts) && record.last_success is Some {
            let success = record.last_success->0;
            let attempt = record.last_attempt;
            if now >= attempt {
                assert((now - success) / 1_000_000_000 >= (now - attempt) / 1_000_000_000) by (nonlinear_arith)
                    requires
                        success <= attempt <= now,
                ;
            } else if now >= success {
                assert((now - success) / 1_000_000_000 >= 0) by (nonlinear_arith)
                    requires
                        success <= now,
                ;
            }
        }
    }
}

/// What is told of an attempt is how long ago it was in whole seconds, how long ago the last
/// that succeeded was, the last error, and how many have failed since.
pub proof fn law_a_record_is_told_in_ages(health: SyncHealth, record: RecordView, now: int)
    requires
        health.tells(record, now),
    ensures
        ({
            let age = |at: int|
                if now >= at {
                    (now - at) / 1_000_000_000
                } else {
                    0
                };
            &&& health.last_attempt_age_seconds is Some
            &&& health.last_attempt_age_seconds->0 == age(record.last_attempt)
            &&& health.last_success_age_seconds is Some <==> record.last_success is Some
            &&& record.last_success is Some ==> health.last_success_age_seconds->0 == age(record.last_success->0)
            &&& health.last_error is Some <==> record.last_error is Some
            &&& record.last_error is Some ==> health.last_error->0@ == record.last_error->0
            &&& health.consecutive_failures == record.consecutive_failures
        }),
{
}

/// An attempt is recorded with its moment and its error. One that succeeded ends the
/// failures; one that failed is one more of them, as far as they can be counted, and leaves
/// the last success. No other record changes.
pub proof fn law_an_attempt_is_recorded(records: Map<Text, RecordView>, attempt: AttemptView, other: Text)
    ensures
        ({
            let after = with_attempt(records, attempt);
            let record = after[attempt.source_id];
            let known = records.contains_key(attempt.source_id);
            let before = records[attempt.source_id];
            &&& after.contains_key(attempt.source_id)
            &&& record.last_attempt == attempt.at
            &&& record.last_error == attempt.error
            &&& attempt.error is None ==> record.last_success == Some(attempt.at) && record.consecutive_failures == 0
            &&& attempt.error is Some && !known ==> record.last_success is None && record.consecutive_failures == 1
            &&& attempt.error is Some && known ==> record.last_success == before.last_success
            &&& attempt.error is Some && known && before.consecutive_failures < u32::MAX ==> record.consecutive_failures
                == before.consecutive_failures + 1
            &&& attempt.error is Some && known && before.consecutive_failures == u32::MAX
                ==> record.consecutive_failures == u32::MAX
            &&& other != attempt.source_id ==> (after.contains_key(other) <==> records.contains_key(other))
            &&& other != attempt.source_id && records.contains_key(other) ==> after[other] == records[other]
        }),
{
}

/// The failures that are counted are those since the last success, or since the first
/// attempt.
pub proof fn law_failures_are_counted_since_the_last_success(
    attempts: Seq<AttemptView>,
    source_id: Text,
    failures: Seq<AttemptView>,
)
    requires
        forall|i: int|
            0 <= i < failures.len() ==> (#[trigger] failures[i]).source_id == source_id && failures[i].error is Some,
        0 < failures.len() < u32::MAX,
        attempts.len() > 0 ==> attempts.last().source_id == source_id && attempts.last().error is None,
    ensures
        after_attempts(attempts + failures).contains_key(source_id),
        after_attempts(attempts + failures)[source_id].consecutive_failures == failures.len(),
        after_attempts(attempts + failures)[source_id].last_error == failures.last().error,
        attempts.len() > 0 ==> after_attempts(attempts + failures)[source_id].last_success == Some(attempts.last().at),
        attempts.len() == 0 ==> after_attempts(attempts + failures)[source_id].last_success is None,
    decreases failures.len(),
{
    let all = attempts + failures;
    let rest = failures.drop_last();
    assert(all.drop_last() =~= attempts + rest);
    assert(all.last() == failures.last());
    assert(failures[failures.len() - 1] == failures.last());
    if rest.len() > 0 {
        assert forall|i: int| 0 <= i < rest.len() implies (#[trigger] rest[i]).source_id == source_id
            && rest[i].error is Some by {
            assert(rest[i] == failures[i]);
        }
        law_failures_are_counted_since_the_last_success(attempts, source_id, rest);
    } else {
        assert(attempts + rest =~= attempts);
    }
}

} // verus!

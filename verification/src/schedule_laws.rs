//! What holds of what runs by itself, and of the expressions that say when.

#[allow(unused_imports)]
use crate::cron::{cron_problem, first_unreadable, is_cron_char, readable, words_text};
#[allow(unused_imports)]
use crate::domain::enricher::EnricherModel;
#[allow(unused_imports)]
use crate::domain::source::SourceModel;
#[allow(unused_imports)]
use crate::domain::source_laws::lemma_in_filter_map;
#[allow(unused_imports)]
use crate::scheduler::{enricher_task, source_task, task, TaskModel};
#[allow(unused_imports)]
use crate::strmap::{ascending, lemma_prefix_step, lemma_prefix_whole, lemma_sorted, sorted};
#[allow(unused_imports)]
use crate::text::{decimal_text, is_space, text_lt, Text};
use vstd::prelude::*;

verus! {

proof fn lemma_tasks_in_order(ids: Seq<Text>, f: spec_fn(Text) -> Option<TaskModel>)
    requires
        ascending(ids),
        forall|id: Text| #[trigger] f(id) is Some ==> f(id)->0.id == id,
    ensures
        ids.filter_map(f).len() <= ids.len(),
        forall|i: int| 0 <= i < ids.filter_map(f).len() ==> ids.contains((#[trigger] ids.filter_map(f)[i]).id),
        forall|i: int, j: int|
            #![trigger ids.filter_map(f)[i], ids.filter_map(f)[j]]
            0 <= i < j < ids.filter_map(f).len() ==> text_lt(ids.filter_map(f)[i].id, ids.filter_map(f)[j].id),
    decreases ids.len(),
{
    if ids.len() > 0 {
        let n = ids.len() - 1;
        let rest = ids.take(n);
        assert forall|i: int, j: int| #![trigger rest[i], rest[j]] 0 <= i < j < rest.len() implies text_lt(
            rest[i],
            rest[j],
        ) by {
            assert(rest[i] == ids[i] && rest[j] == ids[j]);
        }
        lemma_tasks_in_order(rest, f);
        ids.lemma_filter_map_take_succ(f, n);
        assert(ids.take(n + 1) =~= ids);
        let before = rest.filter_map(f);
        let all = ids.filter_map(f);
        assert(f(ids[n]) is Some ==> f(ids[n])->0.id == ids[n]);
        assert forall|i: int| 0 <= i < all.len() implies ids.contains((#[trigger] all[i]).id) by {
            if i < before.len() {
                assert(all[i] == before[i]);
                let k = choose|k: int| 0 <= k < rest.len() && rest[k] == before[i].id;
                assert(ids[k] == before[i].id);
            } else {
                assert(all[i].id == ids[n]);
            }
        }
        assert forall|i: int, j: int| #![trigger all[i], all[j]] 0 <= i < j < all.len() implies text_lt(
            all[i].id,
            all[j].id,
        ) by {
            assert(all[i] == before[i]);
            if j < before.len() {
                assert(all[j] == before[j]);
            } else {
                assert(rest.contains(before[i].id));
                let k = choose|k: int| 0 <= k < rest.len() && rest[k] == before[i].id;
                assert(ids[k] == before[i].id);
            }
        }
    } else {
        assert(ids.filter_map(f) =~= Seq::empty());
    }
}

/// What runs by itself is each source with an interval of at least a second, as often as
/// that says, in the order of their names.
pub proof fn law_a_source_with_an_interval_is_synced(sources: Map<Text, SourceModel>, task: TaskModel)
    requires
        sources.dom().finite(),
    ensures
        ({
            let tasks = sorted(sources.dom()).filter_map(source_task(sources));
            &&& tasks.contains(task) <==> sources.contains_key(task.id) && task.interval_seconds > 0
                && sources[task.id].sync_interval_seconds == Some(task.interval_seconds)
            &&& forall|i: int, j: int|
                #![trigger tasks[i], tasks[j]]
                0 <= i < j < tasks.len() ==> text_lt(tasks[i].id, tasks[j].id)
        }),
{
    let ids = sorted(sources.dom());
    let f = source_task(sources);
    lemma_sorted(sources.dom());
    lemma_prefix_whole(sources.dom());
    lemma_tasks_in_order(ids, f);
    lemma_in_filter_map(ids, f, task);
    if sources.contains_key(task.id) && task.interval_seconds > 0 && sources[task.id].sync_interval_seconds == Some(
        task.interval_seconds,
    ) {
        assert(f(task.id) == Some(task));
        assert(ids.contains(task.id));
    }
}

/// What runs by itself is each enricher with an interval of at least a second, as often as
/// that says, in the order of their names.
pub proof fn law_an_enricher_with_an_interval_is_run(enrichers: Map<Text, EnricherModel>, task: TaskModel)
    requires
        enrichers.dom().finite(),
    ensures
        ({
            let tasks = sorted(enrichers.dom()).filter_map(enricher_task(enrichers));
            &&& tasks.contains(task) <==> enrichers.contains_key(task.id) && task.interval_seconds > 0
                && enrichers[task.id].sync_interval_seconds == Some(task.interval_seconds)
            &&& forall|i: int, j: int|
                #![trigger tasks[i], tasks[j]]
                0 <= i < j < tasks.len() ==> text_lt(tasks[i].id, tasks[j].id)
        }),
{
    let ids = sorted(enrichers.dom());
    let f = enricher_task(enrichers);
    lemma_sorted(enrichers.dom());
    lemma_prefix_whole(enrichers.dom());
    lemma_tasks_in_order(ids, f);
    lemma_in_filter_map(ids, f, task);
    if enrichers.contains_key(task.id) && task.interval_seconds > 0 && enrichers[task.id].sync_interval_seconds
        == Some(task.interval_seconds) {
        assert(f(task.id) == Some(task));
        assert(ids.contains(task.id));
    }
}

/// A field that has no space in it is one field, space alone is none, and what stands on
/// the two sides of a space are the fields of the one and then those of the other.
pub proof fn law_fields_stand_between_spaces(a: Text, space: char, b: Text)
    requires
        is_space(space),
    ensures
        a.len() > 0 && (forall|i: int| 0 <= i < a.len() ==> !is_space(#[trigger] a[i])) ==> words_text(a) == seq![a],
        (forall|i: int| 0 <= i < a.len() ==> is_space(#[trigger] a[i])) ==> words_text(a).len() == 0,
        words_text(a.push(space) + b) == words_text(a) + words_text(b),
        b.len() > 0 && !is_space(b.last()) ==> words_text(b).len() > 0,
    decreases a.len() + b.len(),
{
    let none = Seq::<char>::empty();
    if a.len() > 0 {
        let rest = a.drop_last();
        if forall|i: int| 0 <= i < a.len() ==> !is_space(#[trigger] a[i]) {
            assert(!is_space(a[a.len() - 1]));
            assert forall|i: int| 0 <= i < rest.len() implies !is_space(#[trigger] rest[i]) by {
                assert(rest[i] == a[i]);
            }
            law_fields_stand_between_spaces(rest, space, none);
            if rest.len() > 0 {
                assert(!is_space(a[a.len() - 2]));
                assert(rest.push(a.last()) =~= a);
                assert(words_text(a) =~= seq![a]);
            } else {
                assert(seq![a.last()] =~= a);
                assert(words_text(a) =~= seq![a]);
            }
        }
        if forall|i: int| 0 <= i < a.len() ==> is_space(#[trigger] a[i]) {
            assert(is_space(a[a.len() - 1]));
            assert forall|i: int| 0 <= i < rest.len() implies is_space(#[trigger] rest[i]) by {
                assert(rest[i] == a[i]);
            }
            law_fields_stand_between_spaces(rest, space, none);
        }
    }
    let whole = a.push(space) + b;
    if b.len() == 0 {
        assert(whole =~= a.push(space));
        assert(whole.drop_last() =~= a);
        assert(whole.last() == space);
        assert(words_text(b) =~= Seq::empty());
        assert(words_text(whole) =~= words_text(a) + words_text(b));
    } else {
        let rest = b.drop_last();
        law_fields_stand_between_spaces(a, space, rest);
        assert(whole.drop_last() =~= a.push(space) + rest);
        assert(whole.last() == b.last());
        let before = words_text(rest);
        if is_space(b.last()) {
            assert(words_text(whole) =~= words_text(a) + words_text(b));
        } else {
            if b.len() == 1 {
                assert(whole[whole.len() - 2] == space);
                assert(before =~= Seq::empty());
                assert(words_text(whole) =~= words_text(a) + words_text(b));
            } else {
                assert(whole[whole.len() - 2] == b[b.len() - 2]);
                if is_space(b[b.len() - 2]) {
                    assert(words_text(whole) =~= words_text(a) + words_text(b));
                } else {
                    assert(rest.last() == b[b.len() - 2]);
                    assert(before.len() > 0);
                    let both = words_text(a) + before;
                    assert(both.last() == before.last());
                    assert(both.drop_last() =~= words_text(a) + before.drop_last());
                    assert(words_text(whole) =~= words_text(a) + words_text(b));
                }
            }
        }
    }
}

proof fn lemma_first_unreadable(fields: Seq<Text>)
    ensures
        first_unreadable(fields) is None <==> forall|k: int, i: int|
            0 <= k < fields.len() && 0 <= i < fields[k].len() ==> is_cron_char(#[trigger] fields[k][i]),
        first_unreadable(fields) is Some ==> exists|k: int|
            0 <= k < fields.len() && #[trigger] fields[k] == first_unreadable(fields)->0 && !readable(fields[k])
                && forall|j: int| 0 <= j < k ==> readable(#[trigger] fields[j]),
    decreases fields.len(),
{
    if fields.len() > 0 {
        let n = fields.len() - 1;
        let rest = fields.drop_last();
        lemma_first_unreadable(rest);
        assert(fields[n] == fields.last());
        if first_unreadable(rest) is Some {
            let k = choose|k: int|
                0 <= k < rest.len() && #[trigger] rest[k] == first_unreadable(rest)->0 && !readable(rest[k])
                    && forall|j: int| 0 <= j < k ==> readable(#[trigger] rest[j]);
            assert(fields[k] == rest[k]);
            let i = choose|i: int| 0 <= i < rest[k].len() && !is_cron_char(#[trigger] rest[k][i]);
            assert(!is_cron_char(fields[k][i]));
            assert forall|j: int| 0 <= j < k implies readable(#[trigger] fields[j]) by {
                assert(rest[j] == fields[j]);
            }
        } else {
            assert forall|k: int, i: int| 0 <= k < n && 0 <= i < fields[k].len() implies is_cron_char(
                #[trigger] fields[k][i],
            ) by {
                assert(rest[k] == fields[k]);
                assert(is_cron_char(rest[k][i]));
            }
            assert forall|j: int| 0 <= j < n implies readable(#[trigger] fields[j]) by {
                assert forall|i: int| 0 <= i < fields[j].len() implies is_cron_char(#[trigger] fields[j][i]) by {}
            }
            if !readable(fields.last()) {
                let i = choose|i: int| 0 <= i < fields.last().len() && !is_cron_char(#[trigger] fields.last()[i]);
                assert(!is_cron_char(fields[n][i]));
            } else {
                assert forall|i: int| 0 <= i < fields[n].len() implies is_cron_char(#[trigger] fields[n][i]) by {}
            }
        }
    }
}

/// An expression is fine where it has five or six fields of digits, stars, commas, dashes
/// and slashes. Else it is told how many fields there are, or which is the first that
/// cannot be read.
pub proof fn law_an_expression_has_its_fields(expression: Text)
    ensures
        ({
            let fields = words_text(expression);
            let counted = fields.len() == 5 || fields.len() == 6;
            let clean = forall|k: int, i: int|
                0 <= k < fields.len() && 0 <= i < fields[k].len() ==> {
                    let c = #[trigger] fields[k][i];
                    '0' <= c <= '9' || c == '*' || c == ',' || c == '-' || c == '/'
                };
            &&& cron_problem(expression) is None <==> counted && clean
            &&& !counted ==> cron_problem(expression) == Some(
                "expected 5 or 6 fields, found "@ + decimal_text(fields.len()),
            )
            &&& counted && !clean ==> exists|k: int|
                0 <= k < fields.len() && cron_problem(expression) == Some(
                    "cannot read the field '"@ + #[trigger] fields[k] + "'"@,
                ) && !readable(fields[k]) && forall|j: int| 0 <= j < k ==> readable(#[trigger] fields[j])
        }),
{
    let fields = words_text(expression);
    lemma_first_unreadable(fields);
    let clean = forall|k: int, i: int|
        0 <= k < fields.len() && 0 <= i < fields[k].len() ==> {
            let c = #[trigger] fields[k][i];
            '0' <= c <= '9' || c == '*' || c == ',' || c == '-' || c == '/'
        };
    if first_unreadable(fields) is None {
        assert forall|k: int, i: int| 0 <= k < fields.len() && 0 <= i < fields[k].len() implies {
            let c = #[trigger] fields[k][i];
            '0' <= c <= '9' || c == '*' || c == ',' || c == '-' || c == '/'
        } by {
            assert(is_cron_char(fields[k][i]));
        }
    } else {
        let k = choose|k: int, i: int|
            0 <= k < fields.len() && 0 <= i < fields[k].len() && !is_cron_char(#[trigger] fields[k][i]);
        assert(!clean);
    }
}

} // verus!

//! Cron expressions.

#[allow(unused_imports)]
use crate::text::{decimal_text, is_space, Text};
use crate::text::{cat2, cat3, char_is_space, chars_of, decimal, push_char};
use vstd::prelude::*;

verus! {

/// The words of a text: its runs of characters that are no white space.
pub open spec fn words_text(t: Text) -> Seq<Text>
    decreases t.len(),
{
    if t.len() == 0 {
        Seq::empty()
    } else {
        let before = words_text(t.drop_last());
        if is_space(t.last()) {
            before
        } else if t.len() == 1 || is_space(t[t.len() - 2]) {
            before.push(seq![t.last()])
        } else {
            before.drop_last().push(before.last().push(t.last()))
        }
    }
}

/// A character that a field may hold.
pub open spec fn is_cron_char(c: char) -> bool {
    '0' <= c <= '9' || c == '*' || c == ',' || c == '-' || c == '/'
}

/// A field that can be read.
pub open spec fn readable(field: Text) -> bool {
    forall|i: int| 0 <= i < field.len() ==> is_cron_char(#[trigger] field[i])
}

/// The first field that cannot be read.
pub open spec fn first_unreadable(fields: Seq<Text>) -> Option<Text>
    decreases fields.len(),
{
    if fields.len() == 0 {
        None
    } else {
        match first_unreadable(fields.drop_last()) {
            Some(field) => Some(field),
            None => if readable(fields.last()) {
                None
            } else {
                Some(fields.last())
            },
        }
    }
}

/// What is wrong with a cron expression. It has five fields, or six with the seconds in
/// front; each is made of digits, `*`, `,`, `-` and `/`.
pub open spec fn cron_problem(expression: Text) -> Option<Text> {
    let fields = words_text(expression);
    if fields.len() != 5 && fields.len() != 6 {
        Some("expected 5 or 6 fields, found "@ + decimal_text(fields.len()))
    } else {
        match first_unreadable(fields) {
            Some(field) => Some("cannot read the field '"@ + field + "'"@),
            None => None,
        }
    }
}

fn words(s: &str) -> (found: Vec<String>)
    ensures
        found.deep_view() == words_text(s@),
{
    let chars = chars_of(s);
    let mut found: Vec<String> = Vec::new();
    let mut word = String::new();
    let mut open: bool = false;
    let mut i: usize = 0;
    assert(word@ =~= Seq::empty());
    assert(found.deep_view() =~= words_text(chars@.take(0)));
    while i < chars.len()
        invariant
            i <= chars@.len(),
            chars@ == s@,
            open == (i > 0 && !is_space(chars@[i - 1])),
            !open ==> word@ == Seq::<char>::empty(),
            words_text(chars@.take(i as int)) == (if open {
                found.deep_view().push(word@)
            } else {
                found.deep_view()
            }),
        decreases chars@.len() - i,
    {
        let c = chars[i];
        let ghost done = found.deep_view();
        let ghost started = word@;
        proof {
            assert(chars@.take(i + 1).drop_last() =~= chars@.take(i as int));
            assert(done.push(started).drop_last() =~= done);
        }
        if char_is_space(c) {
            if open {
                let mut next = String::new();
                std::mem::swap(&mut word, &mut next);
                found.push(next);
                open = false;
                assert(found.deep_view() =~= done.push(started));
                assert(word@ =~= Seq::empty());
            }
        } else {
            push_char(&mut word, c);
            assert(word@ =~= started.push(c));
            if !open {
                assert(word@ =~= seq![c]);
                open = true;
            }
        }
        i += 1;
    }
    assert(chars@.take(chars@.len() as int) =~= chars@);
    if open {
        let ghost done = found.deep_view();
        let ghost last = word@;
        found.push(word);
        assert(found.deep_view() =~= done.push(last));
    }
    found
}

fn is_readable(field: &str) -> (yes: bool)
    ensures
        yes == readable(field@),
{
    let chars = chars_of(field);
    let mut i: usize = 0;
    while i < chars.len()
        invariant
            i <= chars@.len(),
            chars@ == field@,
            forall|j: int| 0 <= j < i ==> is_cron_char(#[trigger] field@[j]),
        decreases chars@.len() - i,
    {
        let c = chars[i];
        if !(('0' <= c && c <= '9') || c == '*' || c == ',' || c == '-' || c == '/') {
            assert(!is_cron_char(field@[i as int]));
            return false;
        }
        i += 1;
    }
    true
}

/// What is wrong with a cron expression, where anything is.
pub fn cron_error(expression: &str) -> (error: Option<String>)
    ensures
        error.deep_view() == cron_problem(expression@),
{
    let fields = words(expression);
    let ghost all = fields.deep_view();
    assert(all.len() == fields@.len());
    if fields.len() != 5 && fields.len() != 6 {
        return Some(cat2("expected 5 or 6 fields, found ", decimal(fields.len() as u64).as_str()));
    }
    let mut odd: Option<&String> = None;
    let mut i: usize = 0;
    while i < fields.len()
        invariant
            i <= fields@.len(),
            all == fields.deep_view(),
            match odd {
                Some(field) => first_unreadable(all.take(i as int)) == Some(field@),
                None => first_unreadable(all.take(i as int)) is None,
            },
        decreases fields@.len() - i,
    {
        assert(all.take(i + 1).drop_last() =~= all.take(i as int));
        assert(all[i as int] == fields@[i as int]@);
        if odd.is_none() && !is_readable(fields[i].as_str()) {
            odd = Some(&fields[i]);
        }
        i += 1;
    }
    assert(all.take(all.len() as int) =~= all);
    match odd {
        Some(field) => Some(cat3("cannot read the field '", field.as_str(), "'")),
        None => None,
    }
}

} // verus!

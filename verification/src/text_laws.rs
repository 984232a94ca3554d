//! What holds of texts, of numbers as they are written, and of lists of names.

#[allow(unused_imports)]
use crate::strmap::{lemma_sorted, sorted};
#[allow(unused_imports)]
use crate::text::{
    csv_names, decimal_text, digit, hex_text, is_space, join_text, split_text, text_lt, trim_end_text,
    trim_start_text, trim_text, trimmed_name, Text,
};
use vstd::prelude::*;

verus! {

proof fn lemma_trim_start(t: Text)
    ensures
        trim_start_text(t).len() > 0 ==> !is_space(trim_start_text(t)[0]),
        trim_start_text(t).len() <= t.len(),
    decreases t.len(),
{
    if t.len() > 0 && is_space(t[0]) {
        lemma_trim_start(t.drop_first());
    }
}

proof fn lemma_trim_end(t: Text)
    ensures
        trim_end_text(t).len() > 0 ==> !is_space(trim_end_text(t).last()),
        trim_end_text(t).len() > 0 ==> t.len() > 0 && trim_end_text(t)[0] == t[0],
    decreases t.len(),
{
    if t.len() > 0 && is_space(t.last()) {
        lemma_trim_end(t.drop_last());
    }
}

/// A text without white space around it has none to lose.
pub proof fn law_trimming_twice_is_trimming(t: Text)
    ensures
        trim_text(trim_text(t)) == trim_text(t),
        trim_text(t).len() > 0 ==> !is_space(trim_text(t)[0]) && !is_space(trim_text(t).last()),
{
    lemma_trim_start(t);
    lemma_trim_end(trim_start_text(t));
}

/// A name in a list is never empty, and has no white space around it.
pub proof fn law_names_are_trimmed(value: Text, name: Text)
    requires
        csv_names(value).contains(name),
    ensures
        name.len() > 0,
        trim_text(name) == name,
{
    let pieces = split_text(value, ',');
    let f = |piece: Text| trimmed_name(piece);
    pieces.lemma_filter_map_contains(f, name);
    let piece = choose|p: Text| #[trigger] pieces.contains(p) && f(p) == Some(name);
    law_trimming_twice_is_trimming(piece);
}

/// One text comes before another where it is the beginning of it, or has the smaller
/// character at the first place where they differ.
pub proof fn law_texts_are_ordered_by_the_first_difference(a: Text, b: Text)
    ensures
        text_lt(a, b) <==> (a.len() < b.len() && a.is_prefix_of(b)) || exists|i: int|
            0 <= i < a.len() && i < b.len() && (#[trigger] a[i] as int) < (b[i] as int) && a.take(i) == b.take(i),
    decreases a.len(),
{
    if a.len() > 0 && b.len() > 0 && a[0] == b[0] {
        let x = a.drop_first();
        let y = b.drop_first();
        law_texts_are_ordered_by_the_first_difference(x, y);
        if x.is_prefix_of(y) {
            assert(a.is_prefix_of(b)) by {
                assert forall|k: int| 0 <= k < a.len() implies a[k] == b.take(a.len() as int)[k] by {
                    if k > 0 {
                        assert(a[k] == x[k - 1]);
                        assert(x[k - 1] == y.take(x.len() as int)[k - 1]);
                    }
                }
                assert(a =~= b.take(a.len() as int));
            }
        }
        if a.len() < b.len() && a.is_prefix_of(b) {
            assert forall|k: int| 0 <= k < x.len() implies x[k] == y[k] by {
                assert(a[k + 1] == b.take(a.len() as int)[k + 1]);
            }
            assert(x =~= y.take(x.len() as int));
            assert(x.is_prefix_of(y));
        }
        if exists|i: int|
            0 <= i < x.len() && i < y.len() && (#[trigger] x[i] as int) < (y[i] as int) && x.take(i) == y.take(i) {
            let i = choose|i: int|
                0 <= i < x.len() && i < y.len() && (#[trigger] x[i] as int) < (y[i] as int) && x.take(i) == y.take(i);
            assert(a[i + 1] == x[i] && b[i + 1] == y[i]);
            assert forall|k: int| 0 <= k < i + 1 implies a[k] == b[k] by {
                if k > 0 {
                    assert(x.take(i)[k - 1] == y.take(i)[k - 1]);
                }
            }
            assert(a.take(i + 1) =~= b.take(i + 1));
        }
        if exists|i: int|
            0 <= i < a.len() && i < b.len() && (#[trigger] a[i] as int) < (b[i] as int) && a.take(i) == b.take(i) {
            let i = choose|i: int|
                0 <= i < a.len() && i < b.len() && (#[trigger] a[i] as int) < (b[i] as int) && a.take(i) == b.take(i);
            assert(x[i - 1] == a[i] && y[i - 1] == b[i]);
            assert forall|k: int| 0 <= k < i - 1 implies x[k] == y[k] by {
                assert(a.take(i)[k + 1] == b.take(i)[k + 1]);
            }
            assert(x.take(i - 1) =~= y.take(i - 1));
        }
    } else if a.len() > 0 && b.len() > 0 {
        if (a[0] as int) < (b[0] as int) {
            assert(a.take(0) =~= b.take(0));
        }
        if a.len() < b.len() && a.is_prefix_of(b) {
            assert(a[0] == b.take(a.len() as int)[0]);
        }
        if exists|i: int|
            0 <= i < a.len() && i < b.len() && (#[trigger] a[i] as int) < (b[i] as int) && a.take(i) == b.take(i) {
            let i = choose|i: int|
                0 <= i < a.len() && i < b.len() && (#[trigger] a[i] as int) < (b[i] as int) && a.take(i) == b.take(i);
            if i > 0 {
                assert(a.take(i)[0] == b.take(i)[0]);
            }
        }
    } else if a.len() == 0 && b.len() > 0 {
        assert(a =~= b.take(0));
    }
}

/// A list in order holds what it is made of, once, the smaller first.
pub proof fn law_a_list_in_order_holds_the_set(set: Set<Text>, name: Text, i: int, j: int)
    requires
        set.finite(),
    ensures
        sorted(set).contains(name) <==> set.contains(name),
        sorted(set).len() == set.len(),
        0 <= i < j < sorted(set).len() ==> text_lt(sorted(set)[i], sorted(set)[j]) && sorted(set)[i] != sorted(set)[j],
{
    lemma_sorted(set);
    assert(sorted(set).to_set().contains(name) <==> sorted(set).contains(name));
}

/// Blanks, tabs and the ends of lines are space; no letter, digit or mark of ASCII is.
pub proof fn law_what_space_is(c: char)
    ensures
        c == ' ' || c == '\t' || c == '\n' || c == '\r' ==> is_space(c),
        '!' <= c <= '~' ==> !is_space(c),
{
}

proof fn lemma_start_cut(t: Text) -> (n: int)
    ensures
        0 <= n <= t.len(),
        trim_start_text(t) == t.subrange(n, t.len() as int),
        forall|k: int| 0 <= k < n ==> is_space(#[trigger] t[k]),
        n < t.len() ==> !is_space(t[n]),
    decreases t.len(),
{
    if t.len() > 0 && is_space(t[0]) {
        let rest = t.drop_first();
        let n = lemma_start_cut(rest);
        assert(rest.subrange(n, rest.len() as int) =~= t.subrange(n + 1, t.len() as int));
        assert forall|k: int| 0 <= k < n + 1 implies is_space(#[trigger] t[k]) by {
            if k > 0 {
                assert(is_space(rest[k - 1]));
            }
        }
        if n < rest.len() {
            assert(rest[n] == t[n + 1]);
        }
        n + 1
    } else {
        assert(t.subrange(0, t.len() as int) =~= t);
        0
    }
}

proof fn lemma_end_cut(t: Text) -> (n: int)
    ensures
        0 <= n <= t.len(),
        trim_end_text(t) == t.take(n),
        forall|k: int| n <= k < t.len() ==> is_space(#[trigger] t[k]),
        n > 0 ==> !is_space(t[n - 1]),
    decreases t.len(),
{
    if t.len() > 0 && is_space(t.last()) {
        let rest = t.drop_last();
        let n = lemma_end_cut(rest);
        assert(rest.take(n) =~= t.take(n));
        assert forall|k: int| n <= k < t.len() implies is_space(#[trigger] t[k]) by {
            if k < rest.len() {
                assert(is_space(rest[k]));
            }
        }
        n
    } else {
        assert(t.take(t.len() as int) =~= t);
        t.len() as int
    }
}

/// Trimming takes away the space at both ends, all of it and nothing else.
pub proof fn law_trimming_cuts_the_ends(t: Text) -> (ends: (int, int))
    ensures
        0 <= ends.0 <= ends.1 <= t.len(),
        trim_text(t) == t.subrange(ends.0, ends.1),
        forall|k: int| 0 <= k < ends.0 || ends.1 <= k < t.len() ==> is_space(#[trigger] t[k]),
        ends.0 < ends.1 ==> !is_space(t[ends.0]) && !is_space(t[ends.1 - 1]),
{
    let from = lemma_start_cut(t);
    let rest = trim_start_text(t);
    let n = lemma_end_cut(rest);
    assert(rest.take(n) =~= t.subrange(from, from + n));
    assert forall|k: int| 0 <= k < from || from + n <= k < t.len() implies is_space(#[trigger] t[k]) by {
        if k >= from {
            assert(rest[k - from] == t[k]);
        }
    }
    if n > 0 {
        assert(rest[n - 1] == t[from + n - 1]);
        assert(rest[0] == t[from]);
    }
    (from, from + n)
}

/// Splitting loses nothing: put together again with the separator between them, the pieces
/// are the text; and no piece has the separator in it.
pub proof fn law_splitting_loses_nothing(t: Text, sep: char)
    ensures
        split_text(t, sep).len() >= 1,
        join_text(split_text(t, sep), seq![sep]) == t,
        forall|i: int| 0 <= i < split_text(t, sep).len() ==> !(#[trigger] split_text(t, sep)[i]).contains(sep),
    decreases t.len(),
{
    let pieces = split_text(t, sep);
    if t.len() == 0 {
        assert(pieces =~= seq![t]);
        assert(join_text(pieces, seq![sep]) == t);
        assert forall|i: int| 0 <= i < pieces.len() implies !(#[trigger] pieces[i]).contains(sep) by {
            assert(pieces[i] == t);
        }
    } else {
        let rest = t.drop_last();
        law_splitting_loses_nothing(rest, sep);
        let before = split_text(rest, sep);
        assert(rest.push(t.last()) =~= t);
        if t.last() == sep {
            assert(pieces.drop_last() =~= before);
            assert(join_text(pieces, seq![sep]) == join_text(before, seq![sep]) + seq![sep] + pieces.last());
            assert(join_text(pieces, seq![sep]) =~= t);
            assert forall|i: int| 0 <= i < pieces.len() implies !(#[trigger] pieces[i]).contains(sep) by {
                if i < before.len() {
                    assert(pieces[i] == before[i]);
                } else {
                    assert(pieces[i] =~= Seq::empty());
                }
            }
        } else {
            let last = before.last().push(t.last());
            assert(pieces == before.drop_last().push(last));
            assert(pieces.drop_last() =~= before.drop_last());
            if before.len() > 1 {
                assert(join_text(before, seq![sep]) == join_text(before.drop_last(), seq![sep]) + seq![sep]
                    + before.last());
                assert(join_text(pieces, seq![sep]) == join_text(before.drop_last(), seq![sep]) + seq![sep] + last);
            } else {
                assert(join_text(before, seq![sep]) == before[0]);
                assert(join_text(pieces, seq![sep]) == pieces[0]);
            }
            assert(join_text(pieces, seq![sep]) =~= t);
            assert forall|i: int| 0 <= i < pieces.len() implies !(#[trigger] pieces[i]).contains(sep) by {
                if i < before.len() - 1 {
                    assert(pieces[i] == before[i]);
                } else {
                    assert(!before[i].contains(sep));
                    if last.contains(sep) {
                        let k = choose|k: int| 0 <= k < last.len() && last[k] == sep;
                        assert(before[i][k] == sep);
                    }
                }
            }
        }
    }
}

/// Where nothing is to be split there is one piece, and what stands before and after a
/// separator is split on its own.
pub proof fn law_each_side_is_split_on_its_own(a: Text, b: Text, sep: char)
    ensures
        !a.contains(sep) ==> split_text(a, sep) == seq![a],
        split_text(a.push(sep) + b, sep) == split_text(a, sep) + split_text(b, sep),
    decreases a.len() + b.len(),
{
    law_splitting_loses_nothing(b, sep);
    if !a.contains(sep) {
        if a.len() > 0 {
            let rest = a.drop_last();
            assert(!rest.contains(sep)) by {
                if rest.contains(sep) {
                    let k = choose|k: int| 0 <= k < rest.len() && rest[k] == sep;
                    assert(a[k] == sep);
                }
            }
            assert(a[a.len() - 1] == a.last());
            law_each_side_is_split_on_its_own(rest, Seq::empty(), sep);
            assert(rest.push(a.last()) =~= a);
            assert(split_text(a, sep) =~= seq![a]);
        } else {
            assert(split_text(a, sep) =~= seq![a]);
        }
    }
    let whole = a.push(sep) + b;
    if b.len() == 0 {
        assert(whole =~= a.push(sep));
        assert(whole.drop_last() =~= a);
        assert(whole.last() == sep);
        assert(b =~= Seq::empty());
        assert(split_text(b, sep) =~= seq![b]);
        assert(split_text(whole, sep) =~= split_text(a, sep) + split_text(b, sep));
    } else {
        let rest = b.drop_last();
        law_each_side_is_split_on_its_own(a, rest, sep);
        law_splitting_loses_nothing(rest, sep);
        assert(whole.drop_last() =~= a.push(sep) + rest);
        assert(whole.last() == b.last());
        let before = split_text(rest, sep);
        let both = split_text(a, sep) + before;
        assert(both.last() == before.last());
        if b.last() == sep {
            assert(split_text(whole, sep) =~= split_text(a, sep) + split_text(b, sep));
        } else {
            assert(both.drop_last() =~= split_text(a, sep) + before.drop_last());
            assert(split_text(whole, sep) =~= split_text(a, sep) + split_text(b, sep));
        }
    }
}

proof fn lemma_filter_map_split<A, B>(a: Seq<A>, b: Seq<A>, f: spec_fn(A) -> Option<B>)
    ensures
        (a + b).filter_map(f) == a.filter_map(f) + b.filter_map(f),
    decreases b.len(),
{
    if b.len() == 0 {
        assert(a + b =~= a);
        reveal_with_fuel(Seq::filter_map, 2);
        assert(b.filter_map(f) =~= Seq::empty());
        assert(a.filter_map(f) + b.filter_map(f) =~= a.filter_map(f));
    } else {
        lemma_filter_map_split(a, b.drop_last(), f);
        assert((a + b).drop_last() =~= a + b.drop_last());
        assert((a + b).last() == b.last());
        reveal_with_fuel(Seq::filter_map, 2);
        assert((a + b).filter_map(f) =~= a.filter_map(f) + b.filter_map(f));
    }
}

/// A list of names is what stands between the commas, without the space around it: a name
/// alone is itself, what is blank is no name, and two lists with a comma between them are
/// the names of the one and then those of the other.
pub proof fn law_names_stand_between_commas(a: Text, b: Text)
    ensures
        !a.contains(',') && trim_text(a).len() > 0 ==> csv_names(a) == seq![trim_text(a)],
        !a.contains(',') && trim_text(a).len() == 0 ==> csv_names(a).len() == 0,
        csv_names(a.push(',') + b) == csv_names(a) + csv_names(b),
{
    law_each_side_is_split_on_its_own(a, b, ',');
    let f = |piece: Text| trimmed_name(piece);
    lemma_filter_map_split(split_text(a, ','), split_text(b, ','), f);
    if !a.contains(',') {
        let one = seq![a];
        reveal_with_fuel(Seq::filter_map, 2);
        assert(one.drop_last() =~= Seq::empty());
        assert(one.drop_last().filter_map(f) =~= Seq::empty());
        assert(one.last() == a);
        if trim_text(a).len() > 0 {
            assert(one.filter_map(f) =~= seq![trim_text(a)]);
        } else {
            assert(one.filter_map(f) =~= Seq::empty());
        }
    }
}

/// What a text of digits says in a base.
pub open spec fn digits_value(t: Text, base: int) -> int
    decreases t.len(),
{
    if t.len() == 0 {
        0
    } else {
        digits_value(t.drop_last(), base) * base + digit_value(t.last())
    }
}

/// What a digit says.
pub open spec fn digit_value(c: char) -> int {
    if '0' <= c <= '9' {
        c as int - '0' as int
    } else {
        c as int - 'a' as int + 10
    }
}

proof fn lemma_digit(d: int)
    requires
        0 <= d < 16,
    ensures
        digit_value(digit(d)) == d,
        d < 10 ==> '0' <= digit(d) <= '9',
        d >= 10 ==> 'a' <= digit(d) <= 'f',
{
    reveal_strlit("0123456789abcdef");
}

/// A number is written in decimal digits that say it, without a zero before it.
pub proof fn law_a_number_is_written_in_digits(n: nat)
    ensures
        digits_value(decimal_text(n), 10) == n,
        decimal_text(n).len() >= 1,
        forall|i: int| 0 <= i < decimal_text(n).len() ==> '0' <= #[trigger] decimal_text(n)[i] <= '9',
        n > 0 ==> decimal_text(n)[0] != '0',
        n == 0 ==> decimal_text(n).len() == 1,
    decreases n,
{
    let t = decimal_text(n);
    if n < 10 {
        lemma_digit(n as int);
        assert(t.drop_last() =~= Seq::empty());
        assert(digits_value(t.drop_last(), 10) == 0);
    } else {
        law_a_number_is_written_in_digits(n / 10);
        lemma_digit((n % 10) as int);
        assert(t.drop_last() =~= decimal_text(n / 10));
    }
}

/// Two numbers that are written alike are one.
pub proof fn law_numbers_are_told_apart(a: nat, b: nat)
    requires
        decimal_text(a) == decimal_text(b),
    ensures
        a == b,
{
    law_a_number_is_written_in_digits(a);
    law_a_number_is_written_in_digits(b);
}

/// In so many hexadecimal digits a number is written that fits in them.
pub proof fn law_a_number_is_written_in_hexadecimal(n: nat, width: nat)
    ensures
        hex_text(n, width).len() == width,
        forall|i: int|
            0 <= i < width ==> '0' <= #[trigger] hex_text(n, width)[i] <= '9' || 'a' <= hex_text(n, width)[i] <= 'f',
        n < vstd::arithmetic::power::pow(16, width) ==> digits_value(hex_text(n, width), 16) == n,
    decreases width,
{
    reveal(vstd::arithmetic::power::pow);
    let t = hex_text(n, width);
    if width > 0 {
        law_a_number_is_written_in_hexadecimal(n / 16, (width - 1) as nat);
        lemma_digit((n % 16) as int);
        assert(t.drop_last() =~= hex_text(n / 16, (width - 1) as nat));
        assert(vstd::arithmetic::power::pow(16, width) == 16 * vstd::arithmetic::power::pow(16, (width - 1) as nat));
    }
}

} // verus!

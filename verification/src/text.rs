//! Text: the order of strings, and the few string operations the rest of the
//! library is written in.

use vstd::prelude::*;

verus! {

/// What a string holds.
pub type Text = Seq<char>;

/// `a` comes before `b` in the order of strings: character by character, a
/// prefix before what it begins.
pub open spec fn text_lt(a: Text, b: Text) -> bool
    decreases a.len(),
{
    if b.len() == 0 {
        false
    } else if a.len() == 0 {
        true
    } else if a[0] != b[0] {
        (a[0] as int) < (b[0] as int)
    } else {
        text_lt(a.drop_first(), b.drop_first())
    }
}

/// No text comes before itself.
pub proof fn lemma_text_lt_irreflexive(a: Text)
    ensures
        !text_lt(a, a),
    decreases a.len(),
{
    if a.len() > 0 {
        lemma_text_lt_irreflexive(a.drop_first());
    }
}

/// The order of texts is transitive.
pub proof fn lemma_text_lt_transitive(a: Text, b: Text, c: Text)
    requires
        text_lt(a, b),
        text_lt(b, c),
    ensures
        text_lt(a, c),
    decreases a.len(),
{
    if a.len() > 0 && b.len() > 0 && c.len() > 0 && a[0] == b[0] && b[0] == c[0] {
        lemma_text_lt_transitive(a.drop_first(), b.drop_first(), c.drop_first());
    }
}

/// Two texts are equal, or one of them comes first.
pub proof fn lemma_text_lt_total(a: Text, b: Text)
    ensures
        text_lt(a, b) || text_lt(b, a) || a == b,
    decreases a.len(),
{
    if a.len() == 0 {
        if b.len() == 0 {
            assert(a =~= b);
        }
    } else if b.len() > 0 && a[0] == b[0] {
        lemma_text_lt_total(a.drop_first(), b.drop_first());
        if a.drop_first() == b.drop_first() {
            assert(a =~= seq![a[0]] + a.drop_first());
            assert(b =~= seq![b[0]] + b.drop_first());
        }
    }
}

/// No two texts come each before the other.
pub proof fn lemma_text_lt_asymmetric(a: Text, b: Text)
    requires
        text_lt(a, b),
    ensures
        !text_lt(b, a),
{
    if text_lt(b, a) {
        lemma_text_lt_transitive(a, b, a);
        lemma_text_lt_irreflexive(a);
    }
}

/// `str`'s `<`: strings are ordered by their code points, lexicographically.
#[verifier::external_body]
pub(crate) fn str_lt(a: &str, b: &str) -> (less: bool)
    ensures
        less == text_lt(a@, b@),
{
    a < b
}

/// `str`'s `==`: the same characters in the same order.
#[verifier::external_body]
pub(crate) fn str_eq(a: &str, b: &str) -> (equal: bool)
    ensures
        equal == (a@ == b@),
{
    a == b
}

/// `String::push`: one character put on the end.
#[verifier::external_body]
pub(crate) fn push_char(s: &mut String, c: char)
    ensures
        final(s)@ == old(s)@.push(c),
{
    s.push(c)
}

/// The characters with Unicode's White_Space property.
pub open spec fn is_space(c: char) -> bool {
    let u = c as u32;
    ||| 0x9 <= u <= 0xd
    ||| u == 0x20
    ||| u == 0x85
    ||| u == 0xa0
    ||| u == 0x1680
    ||| 0x2000 <= u <= 0x200a
    ||| u == 0x2028
    ||| u == 0x2029
    ||| u == 0x202f
    ||| u == 0x205f
    ||| u == 0x3000
}

/// `char::is_whitespace`: the White_Space property of the Unicode Character Database.
#[verifier::external_body]
pub(crate) fn char_is_space(c: char) -> (space: bool)
    ensures
        space == is_space(c),
{
    c.is_whitespace()
}

/// A text without the white space it begins with.
pub open spec fn trim_start_text(t: Text) -> Text
    decreases t.len(),
{
    if t.len() > 0 && is_space(t[0]) {
        trim_start_text(t.drop_first())
    } else {
        t
    }
}

/// A text without the white space it ends with.
pub open spec fn trim_end_text(t: Text) -> Text
    decreases t.len(),
{
    if t.len() > 0 && is_space(t.last()) {
        trim_end_text(t.drop_last())
    } else {
        t
    }
}

/// A text without the white space around it.
pub open spec fn trim_text(t: Text) -> Text {
    trim_end_text(trim_start_text(t))
}

/// The pieces of a text between the separators; one more piece than separators.
pub open spec fn split_text(t: Text, sep: char) -> Seq<Text>
    decreases t.len(),
{
    if t.len() == 0 {
        seq![t]
    } else {
        let before = split_text(t.drop_last(), sep);
        if t.last() == sep {
            before.push(Seq::empty())
        } else {
            before.drop_last().push(before.last().push(t.last()))
        }
    }
}

/// The texts one after the other, with `sep` between them.
pub open spec fn join_text(parts: Seq<Text>, sep: Text) -> Text
    decreases parts.len(),
{
    if parts.len() == 0 {
        Seq::empty()
    } else if parts.len() == 1 {
        parts[0]
    } else {
        join_text(parts.drop_last(), sep) + sep + parts.last()
    }
}

/// The characters of a string.
pub(crate) fn chars_of(s: &str) -> (chars: Vec<char>)
    ensures
        chars@ == s@,
{
    let mut chars: Vec<char> = Vec::new();
    for c in it: s.chars()
        invariant
            it.seq() == s@,
            chars@ == s@.take(it.index()),
    {
        proof {
            assert(s@.take(it.index() + 1) =~= s@.take(it.index()).push(c));
        }
        chars.push(c);
    }
    assert(chars@ =~= s@);
    chars
}

/// The characters from position `from` up to position `to`, as a string.
pub(crate) fn string_of(chars: &Vec<char>, from: usize, to: usize) -> (s: String)
    requires
        from <= to <= chars@.len(),
    ensures
        s@ == chars@.subrange(from as int, to as int),
{
    let mut s = String::new();
    let mut i: usize = from;
    while i < to
        invariant
            from <= i <= to <= chars@.len(),
            s@ == chars@.subrange(from as int, i as int),
        decreases to - i,
    {
        push_char(&mut s, chars[i]);
        i += 1;
        assert(s@ =~= chars@.subrange(from as int, i as int));
    }
    s
}

/// A string without the white space it begins with.
pub(crate) fn trim_start(s: &str) -> (trimmed: String)
    ensures
        trimmed@ == trim_start_text(s@),
{
    let chars = chars_of(s);
    let mut from: usize = 0;
    assert(chars@.subrange(0, chars@.len() as int) =~= chars@);
    while from < chars.len() && char_is_space(chars[from])
        invariant
            from <= chars@.len(),
            chars@ == s@,
            trim_start_text(s@) == trim_start_text(chars@.subrange(from as int, chars@.len() as int)),
        decreases chars@.len() - from,
    {
        assert(chars@.subrange(from as int, chars@.len() as int).drop_first() =~= chars@.subrange(
            from + 1,
            chars@.len() as int,
        ));
        from += 1;
    }
    string_of(&chars, from, chars.len())
}

/// A string without the white space around it.
pub(crate) fn trim(s: &str) -> (trimmed: String)
    ensures
        trimmed@ == trim_text(s@),
{
    let rest = trim_start(s);
    let chars = chars_of(rest.as_str());
    let mut to: usize = chars.len();
    assert(chars@.subrange(0, to as int) =~= chars@);
    while to > 0 && char_is_space(chars[to - 1])
        invariant
            to <= chars@.len(),
            chars@ == rest@,
            trim_end_text(rest@) == trim_end_text(chars@.subrange(0, to as int)),
        decreases to,
    {
        assert(chars@.subrange(0, to as int).drop_last() =~= chars@.subrange(0, to - 1));
        to -= 1;
    }
    string_of(&chars, 0, to)
}

/// The pieces of a string between the separators.
pub(crate) fn split_on(s: &str, sep: char) -> (pieces: Vec<String>)
    ensures
        pieces.deep_view() == split_text(s@, sep),
{
    let chars = chars_of(s);
    let mut pieces: Vec<String> = Vec::new();
    let mut piece = String::new();
    let mut i: usize = 0;
    assert(chars@.take(0) =~= piece@);
    assert(split_text(chars@.take(0), sep) =~= pieces.deep_view().push(piece@));
    while i < chars.len()
        invariant
            i <= chars@.len(),
            chars@ == s@,
            split_text(chars@.take(i as int), sep) == pieces.deep_view().push(piece@),
        decreases chars@.len() - i,
    {
        let c = chars[i];
        let ghost done = pieces.deep_view();
        let ghost open = piece@;
        assert(chars@.take(i + 1).drop_last() =~= chars@.take(i as int));
        assert(done.push(open).drop_last() =~= done);
        if c == sep {
            let mut next = String::new();
            std::mem::swap(&mut piece, &mut next);
            pieces.push(next);
            assert(pieces.deep_view() =~= done.push(open));
            assert(piece@ =~= Seq::empty());
        } else {
            push_char(&mut piece, c);
        }
        i += 1;
    }
    let ghost done = pieces.deep_view();
    let ghost last = piece@;
    pieces.push(piece);
    assert(pieces.deep_view() =~= done.push(last));
    assert(chars@.take(chars@.len() as int) =~= chars@);
    pieces
}

/// The strings one after the other, with `sep` between them.
pub(crate) fn join(parts: &Vec<String>, sep: &str) -> (joined: String)
    ensures
        joined@ == join_text(parts.deep_view(), sep@),
{
    let mut joined = String::new();
    let mut i: usize = 0;
    let ghost all = parts.deep_view();
    assert(all.take(0) =~= Seq::empty());
    assert(joined@ =~= join_text(all.take(0), sep@));
    while i < parts.len()
        invariant
            i <= parts@.len(),
            all == parts.deep_view(),
            joined@ == join_text(all.take(i as int), sep@),
        decreases parts@.len() - i,
    {
        assert(all.take(i + 1).drop_last() =~= all.take(i as int));
        if i > 0 {
            joined.append(sep);
        }
        joined.append(parts[i].as_str());
        i += 1;
        assert(joined@ =~= join_text(all.take(i as int), sep@));
    }
    assert(all.take(parts@.len() as int) =~= all);
    joined
}

/// The hexadecimal digit of a number below sixteen.
pub open spec fn digit(d: int) -> char {
    "0123456789abcdef"@[d]
}

/// A number in decimal digits.
pub open spec fn decimal_text(n: nat) -> Text
    decreases n,
{
    if n < 10 {
        seq![digit(n as int)]
    } else {
        decimal_text(n / 10).push(digit((n % 10) as int))
    }
}

/// The last `width` hexadecimal digits of a number.
pub open spec fn hex_text(n: nat, width: nat) -> Text
    decreases width,
{
    if width == 0 {
        Seq::empty()
    } else {
        hex_text(n / 16, (width - 1) as nat).push(digit((n % 16) as int))
    }
}

fn digit_char(d: u64) -> (c: char)
    requires
        d < 16,
    ensures
        c == digit(d as int),
{
    proof {
        reveal_strlit("0123456789abcdef");
    }
    "0123456789abcdef".get_char(d as usize)
}

/// A number in decimal digits.
pub(crate) fn decimal(n: u64) -> (s: String)
    ensures
        s@ == decimal_text(n as nat),
    decreases n,
{
    let mut s: String = if n < 10 {
        String::new()
    } else {
        decimal(n / 10)
    };
    push_char(&mut s, digit_char(n % 10));
    assert(n < 10 ==> s@ =~= seq![digit(n as int)]);
    s
}

/// The last `width` hexadecimal digits of a number.
pub(crate) fn hexadecimal(n: u64, width: u64) -> (s: String)
    ensures
        s@ == hex_text(n as nat, width as nat),
    decreases width,
{
    if width == 0 {
        String::new()
    } else {
        let mut s: String = hexadecimal(n / 16, width - 1);
        push_char(&mut s, digit_char(n % 16));
        s
    }
}

/// The two strings, one after the other.
pub(crate) fn cat2(a: &str, b: &str) -> (s: String)
    ensures
        s@ == a@ + b@,
{
    a.to_owned().concat(b)
}

/// The three strings, one after the other.
pub(crate) fn cat3(a: &str, b: &str, c: &str) -> (s: String)
    ensures
        s@ == a@ + b@ + c@,
{
    a.to_owned().concat(b).concat(c)
}

/// The four strings, one after the other.
pub(crate) fn cat4(a: &str, b: &str, c: &str, d: &str) -> (s: String)
    ensures
        s@ == a@ + b@ + c@ + d@,
{
    a.to_owned().concat(b).concat(c).concat(d)
}

/// The five strings, one after the other.
pub(crate) fn cat5(a: &str, b: &str, c: &str, d: &str, e: &str) -> (s: String)
    ensures
        s@ == a@ + b@ + c@ + d@ + e@,
{
    a.to_owned().concat(b).concat(c).concat(d).concat(e)
}

/// A piece without the white space around it, where anything is left.
pub open spec fn trimmed_name(piece: Text) -> Option<Text> {
    if trim_text(piece).len() == 0 {
        None
    } else {
        Some(trim_text(piece))
    }
}

/// The names in a comma-separated list, without the white space around them and
/// without the empty ones.
pub open spec fn csv_names(value: Text) -> Seq<Text> {
    split_text(value, ',').filter_map(|piece: Text| trimmed_name(piece))
}

/// The names in a comma-separated list, without the white space around them and
/// without the empty ones.
pub(crate) fn comma_list(raw: &str) -> (names: Vec<String>)
    ensures
        names.deep_view() == csv_names(raw@),
{
    let pieces = split_on(raw, ',');
    let ghost all = pieces.deep_view();
    let ghost name_of = |piece: Text| trimmed_name(piece);
    let mut names: Vec<String> = Vec::new();
    let mut i: usize = 0;
    assert(all.take(0).filter_map(name_of) =~= names.deep_view());
    while i < pieces.len()
        invariant
            i <= pieces@.len(),
            all == pieces.deep_view(),
            name_of == (|piece: Text| trimmed_name(piece)),
            names.deep_view() == all.take(i as int).filter_map(name_of),
        decreases pieces@.len() - i,
    {
        let ghost before = names.deep_view();
        proof {
            all.lemma_filter_map_take_succ(name_of, i as int);
            assert(all[i as int] == pieces@[i as int]@);
        }
        let name = trim(pieces[i].as_str());
        let ghost text = name@;
        if name.as_str().unicode_len() > 0 {
            names.push(name);
            assert(names.deep_view() =~= before + seq![text]);
        }
        i += 1;
    }
    assert(all.take(all.len() as int) =~= all);
    names
}

} // verus!

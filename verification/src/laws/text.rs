//! What is done with texts.
use vstd::prelude::*;

use crate::text::{
    after_prefix, before_first, decimal, first_index, has_prefix, has_substring, has_suffix,
    is_char, is_space, joined, lemma_decimal_digits, lemma_split_on, lowered, lowered_char,
    occurs_at, precedes, signed_decimal, split_on, trimmed, trimmed_end, trimmed_start, two_digits,
    without_leading, without_trailing,
};

verus! {

// ---------------------------------------------------------------------------
// Parts of texts
// ---------------------------------------------------------------------------

/// A text opens with another, closes with it, or holds it, exactly where it is made of that text
/// and something behind it, before it, or on both sides.
pub proof fn lemma_parts_of_texts(s: Seq<char>, part: Seq<char>)
    ensures
        has_prefix(s, part) <==> exists|rest: Seq<char>| s == #[trigger] (part + rest),
        has_suffix(s, part) <==> exists|rest: Seq<char>| s == #[trigger] (rest + part),
        has_substring(s, part) <==> exists|before: Seq<char>, after: Seq<char>|
            s == #[trigger] (before + part + after),
{
    let n = part.len() as int;
    if has_prefix(s, part) {
        assert(s =~= part + s.skip(n));
    }
    if exists|rest: Seq<char>| s == #[trigger] (part + rest) {
        let rest = choose|rest: Seq<char>| s == #[trigger] (part + rest);
        assert(s.take(n) =~= part);
    }
    if has_suffix(s, part) {
        assert(s =~= s.take(s.len() - n) + part);
    }
    if exists|rest: Seq<char>| s == #[trigger] (rest + part) {
        let rest = choose|rest: Seq<char>| s == #[trigger] (rest + part);
        assert(s.skip(s.len() - n) =~= part);
    }
    if has_substring(s, part) {
        let at = choose|at: int| occurs_at(s, part, at);
        assert(s =~= s.take(at) + part + s.skip(at + n));
    }
    if exists|before: Seq<char>, after: Seq<char>| s == #[trigger] (before + part + after) {
        let (before, after) = choose|before: Seq<char>, after: Seq<char>|
            s == #[trigger] (before + part + after);
        assert(s.subrange(before.len() as int, before.len() + n) =~= part);
        assert(occurs_at(s, part, before.len() as int));
    }
}

/// What is left behind an opening is what stands behind it.
pub proof fn lemma_openings_are_stripped(part: Seq<char>, rest: Seq<char>, s: Seq<char>)
    ensures
        after_prefix(part + rest, part) == Some(rest),
        !has_prefix(s, part) ==> after_prefix(s, part) is None,
{
    assert((part + rest).take(part.len() as int) =~= part);
    assert((part + rest).skip(part.len() as int) =~= rest);
}

/// What precedes the first separator holds none, and what follows it starts with one or is empty.
pub proof fn lemma_first_pieces(piece: Seq<char>, rest: Seq<char>, sep: char)
    requires
        !piece.contains(sep),
    ensures
        before_first(piece + seq![sep] + rest, sep) == piece,
        before_first(piece, sep) == piece,
{
    let s = piece + seq![sep] + rest;
    assert forall|j: int| 0 <= j < piece.len() implies #[trigger] s[j] != sep by {
        assert(s[j] == piece[j]);
    }
    assert(s[piece.len() as int] == sep);
    crate::text::lemma_first_index(s, sep, piece.len() as int);
    assert(s.take(piece.len() as int) =~= piece);
    assert forall|j: int| 0 <= j < piece.len() implies #[trigger] piece[j] != sep by {
        assert(piece.contains(piece[j]));
    }
    crate::text::lemma_first_index(piece, sep, piece.len() as int);
    assert(piece.take(piece.len() as int) =~= piece);
}

/// The pieces of a text, joined by the separator, are the text.
pub proof fn lemma_pieces_make_the_text(s: Seq<char>, sep: char)
    ensures
        joined(split_on(s, sep), sep) == s,
    decreases s.len(),
{
    let pieces = split_on(s, sep);
    lemma_split_on(s, sep);
    if s.len() == 0 {
        assert(joined(pieces, sep) =~= s);
    } else {
        let before = split_on(s.drop_last(), sep);
        lemma_split_on(s.drop_last(), sep);
        lemma_pieces_make_the_text(s.drop_last(), sep);
        assert(s =~= s.drop_last().push(s.last()));
        if s.last() == sep {
            assert(pieces.drop_last() =~= before);
            assert(joined(pieces, sep) =~= s);
        } else {
            assert(pieces.drop_last() =~= before.drop_last());
            if before.len() == 1 {
                assert(joined(pieces, sep) =~= s);
            } else {
                assert(joined(pieces, sep) =~= s);
            }
        }
    }
}

/// Lower case changes the capital letters A to Z, each into its small letter, and nothing else.
pub proof fn lemma_lower_case(s: Seq<char>, i: int)
    requires
        0 <= i < s.len(),
    ensures
        lowered(s).len() == s.len(),
        'A' <= s[i] <= 'Z' ==> lowered(s)[i] as u32 == s[i] as u32 + 32,
        !('A' <= s[i] <= 'Z') ==> lowered(s)[i] == s[i],
{
}

// ---------------------------------------------------------------------------
// Trimming
// ---------------------------------------------------------------------------

proof fn lemma_leading(s: Seq<char>, drop: spec_fn(char) -> bool) -> (n: int)
    ensures
        0 <= n <= s.len(),
        without_leading(s, drop) == s.skip(n),
        forall|j: int| 0 <= j < n ==> drop(#[trigger] s[j]),
        n < s.len() ==> !drop(s[n]),
    decreases s.len(),
{
    if s.len() > 0 && drop(s[0]) {
        let n = lemma_leading(s.skip(1), drop);
        assert forall|j: int| 0 <= j < n + 1 implies drop(#[trigger] s[j]) by {
            if j > 0 {
                assert(s[j] == s.skip(1)[j - 1]);
            }
        }
        assert(s.skip(1).skip(n) =~= s.skip(n + 1));
        n + 1
    } else {
        assert(s.skip(0) =~= s);
        0
    }
}

proof fn lemma_trailing(s: Seq<char>, drop: spec_fn(char) -> bool) -> (n: int)
    ensures
        0 <= n <= s.len(),
        without_trailing(s, drop) == s.take(n),
        forall|j: int| n <= j < s.len() ==> drop(#[trigger] s[j]),
        n > 0 ==> !drop(s[n - 1]),
    decreases s.len(),
{
    if s.len() > 0 && drop(s.last()) {
        let n = lemma_trailing(s.drop_last(), drop);
        assert forall|j: int| n <= j < s.len() implies drop(#[trigger] s[j]) by {
            if j < s.len() - 1 {
                assert(s[j] == s.drop_last()[j]);
            }
        }
        assert(s.drop_last().take(n) =~= s.take(n));
        n
    } else {
        assert(s.take(s.len() as int) =~= s);
        s.len() as int
    }
}

/// A character only.
pub open spec fn all_are(s: Seq<char>, c: char) -> bool {
    forall|i: int| 0 <= i < s.len() ==> #[trigger] s[i] == c
}

/// White space only.
pub open spec fn all_blank(s: Seq<char>) -> bool {
    forall|i: int| 0 <= i < s.len() ==> is_space(#[trigger] s[i])
}

/// A trailing character is dropped as often as it stands there, and nothing else is.
pub proof fn lemma_trailing_characters_are_dropped(core: Seq<char>, tail: Seq<char>, c: char)
    requires
        core.len() == 0 || core.last() != c,
        all_are(tail, c),
    ensures
        trimmed_end(core + tail, c) == core,
{
    let s = core + tail;
    let n = lemma_trailing(s, is_char(c));
    if n < core.len() {
        assert(is_char(c)(s[core.len() - 1]));
    }
    if n > core.len() {
        assert(s[n - 1] == tail[n - 1 - core.len()]);
    }
    assert(s.take(core.len() as int) =~= core);
}

/// A leading character is dropped as often as it stands there, and nothing else is.
pub proof fn lemma_leading_characters_are_dropped(head: Seq<char>, core: Seq<char>, c: char)
    requires
        core.len() == 0 || core[0] != c,
        all_are(head, c),
    ensures
        trimmed_start(head + core, c) == core,
{
    let s = head + core;
    let n = lemma_leading(s, is_char(c));
    if n < head.len() {
        assert(s[n] == head[n]);
    }
    if n > head.len() {
        assert(is_char(c)(s[head.len() as int]));
    }
    assert(s.skip(head.len() as int) =~= core);
}

/// White space around a text is dropped, and nothing else is.
pub proof fn lemma_blanks_are_dropped(head: Seq<char>, core: Seq<char>, tail: Seq<char>)
    requires
        core.len() > 0 ==> !is_space(core[0]) && !is_space(core.last()),
        all_blank(head),
        all_blank(tail),
    ensures
        trimmed(head + core + tail) == core,
{
    let blank = |c: char| is_space(c);
    let s = head + core + tail;
    let n = lemma_leading(s, blank);
    if core.len() > 0 {
        if n < head.len() {
            assert(s[n] == head[n]);
        }
        if n > head.len() {
            assert(s[head.len() as int] == core[0]);
            assert(blank(s[head.len() as int]));
        }
        let rest = core + tail;
        assert(s.skip(n) =~= rest);
        let k = lemma_trailing(rest, blank);
        if k < core.len() {
            assert(rest[core.len() - 1] == core.last());
            assert(blank(rest[core.len() - 1]));
        }
        if k > core.len() {
            assert(rest[k - 1] == tail[k - 1 - core.len()]);
        }
        assert(rest.take(core.len() as int) =~= core);
    } else {
        if n < s.len() {
            if n < head.len() {
                assert(s[n] == head[n]);
            } else {
                assert(s[n] == tail[n - head.len()]);
            }
        }
        let rest = s.skip(n);
        assert(rest.len() == 0);
        assert(without_trailing(rest, blank) =~= core);
    }
}

/// What is left of a text without the white space around it stands inside it.
pub proof fn lemma_trimmed_is_inner(s: Seq<char>) -> (ends: (int, int))
    ensures
        0 <= ends.0 <= ends.1 <= s.len(),
        trimmed(s) == s.subrange(ends.0, ends.1),
        all_blank(s.take(ends.0)),
        all_blank(s.skip(ends.1)),
        trimmed(s).len() > 0 ==> !is_space(trimmed(s)[0]) && !is_space(trimmed(s).last()),
{
    let blank = |c: char| is_space(c);
    let n = lemma_leading(s, blank);
    let rest = s.skip(n);
    let k = lemma_trailing(rest, blank);
    assert(rest.take(k) =~= s.subrange(n, n + k));
    assert forall|i: int| 0 <= i < n implies is_space(#[trigger] s.take(n)[i]) by {
        assert(blank(s[i]));
    }
    assert forall|i: int| 0 <= i < s.len() - (n + k) implies is_space(
        #[trigger] s.skip(n + k)[i],
    ) by {
        assert(blank(rest[k + i]));
    }
    (n, n + k)
}

/// White space are exactly the characters that Unicode calls so, going by their numbers: no letter,
/// digit or sign of a name is among them.
pub proof fn lemma_white_space(c: char)
    ensures
        is_space(c) <==> ({
            let n = c as u32;
            9 <= n <= 13 || n == 32 || n == 133 || n == 160 || n == 5760 || 8192 <= n <= 8202 || n
                == 8232 || n == 8233 || n == 8239 || n == 8287 || n == 12288
        }),
        '!' <= c <= '~' ==> !is_space(c),
{
}

// ---------------------------------------------------------------------------
// Numbers
// ---------------------------------------------------------------------------

/// The number that decimal digits stand for.
pub open spec fn number(s: Seq<char>) -> int
    decreases s.len(),
{
    if s.len() == 0 {
        0
    } else {
        10 * number(s.drop_last()) + (s.last() as u32 - '0' as u32)
    }
}

/// The digits of a number stand for it, and there is no zero too many in front.
pub proof fn lemma_digits_stand_for_the_number(n: nat)
    ensures
        number(decimal(n)) == n,
        n > 0 ==> decimal(n)[0] != '0',
        n < 10 ==> decimal(n).len() == 1,
    decreases n,
{
    if n < 10 {
        assert(decimal(n).drop_last() =~= Seq::empty());
        reveal_with_fuel(number, 2);
    } else {
        lemma_digits_stand_for_the_number(n / 10);
        lemma_decimal_digits(n / 10);
        assert(decimal(n).drop_last() =~= decimal(n / 10));
        assert(decimal(n)[0] == decimal(n / 10)[0]);
    }
}

/// A negative number has a sign before the digits of its size, and any other only its digits.
pub proof fn lemma_signs(n: nat)
    ensures
        signed_decimal(n as int) == decimal(n),
        n > 0 ==> signed_decimal(-(n as int)) == seq!['-'] + decimal(n),
{
}

/// Two digits stand for a number below a hundred.
pub proof fn lemma_two_digits(n: nat)
    requires
        n < 100,
    ensures
        two_digits(n).len() == 2,
        number(two_digits(n)) == n,
{
    reveal_with_fuel(number, 3);
    let s = two_digits(n);
    assert(s.drop_last() =~= seq![s[0]]);
    assert(seq![s[0]].drop_last() =~= Seq::empty());
}

// ---------------------------------------------------------------------------
// Order
// ---------------------------------------------------------------------------

/// Two texts part at a position: they agree up to it, and there the first ends or has the lesser
/// character.
pub open spec fn parts_below(a: Seq<char>, b: Seq<char>, n: int) -> bool {
    &&& 0 <= n <= a.len()
    &&& n < b.len()
    &&& a.take(n) == b.take(n)
    &&& n == a.len() || a[n] < b[n]
}

/// A text stands before another exactly where the two part with it below.
pub proof fn lemma_order_of_texts(a: Seq<char>, b: Seq<char>)
    ensures
        precedes(a, b) <==> exists|n: int| parts_below(a, b, n),
    decreases a.len(),
{
    if b.len() > 0 && a.len() == 0 {
        assert(a.take(0) =~= b.take(0));
        assert(parts_below(a, b, 0));
    } else if b.len() > 0 && a[0] != b[0] {
        if a[0] < b[0] {
            assert(a.take(0) =~= b.take(0));
            assert(parts_below(a, b, 0));
        }
        if exists|n: int| parts_below(a, b, n) {
            let n = choose|n: int| parts_below(a, b, n);
            if n > 0 {
                assert(a.take(n)[0] == a[0]);
                assert(b.take(n)[0] == b[0]);
            }
        }
    } else if b.len() > 0 {
        let x = a.skip(1);
        let y = b.skip(1);
        lemma_order_of_texts(x, y);
        if exists|n: int| parts_below(x, y, n) {
            let n = choose|n: int| parts_below(x, y, n);
            assert(a.take(n + 1) =~= seq![a[0]] + x.take(n));
            assert(b.take(n + 1) =~= seq![b[0]] + y.take(n));
            assert(parts_below(a, b, n + 1));
        }
        if exists|n: int| parts_below(a, b, n) {
            let n = choose|n: int| parts_below(a, b, n);
            assert(n > 0);
            assert(x.take(n - 1) =~= a.take(n).skip(1));
            assert(y.take(n - 1) =~= b.take(n).skip(1));
            assert(parts_below(x, y, n - 1));
        }
    }
}

} // verus!

//! Text primitives: comparing, trimming, splitting, searching and number
//! formatting.
//!
//! Each function is stated over the sequence of characters that a text holds.
use vstd::prelude::*;
use vstd::string::*;
use vstd::utf8::*;

verus! {

broadcast use vstd::utf8::group_utf8_lib;

// ---------------------------------------------------------------------------
// Views of optional and repeated texts
// ---------------------------------------------------------------------------

/// What an optional value stands for.
pub open spec fn opt_view<T: View>(value: Option<T>) -> Option<T::V> {
    match value {
        Some(v) => Some(v@),
        None => None,
    }
}

/// The characters of an optional borrowed text.
pub open spec fn opt_str_view(text: Option<&str>) -> Option<Seq<char>> {
    match text {
        Some(t) => Some(t@),
        None => None,
    }
}

/// What each value of a list stands for.
pub open spec fn list_view<T: View>(values: Seq<T>) -> Seq<T::V> {
    values.map_values(|v: T| v@)
}

/// A list with one value more.
pub broadcast proof fn list_view_push<T: View>(values: Seq<T>, v: T)
    ensures
        #[trigger] list_view(values.push(v)) == list_view(values).push(v@),
{
    assert(list_view(values.push(v)) =~= list_view(values).push(v@));
}

/// A list without values.
pub broadcast proof fn list_view_empty<T: View>(values: Seq<T>)
    requires
        values.len() == 0,
    ensures
        #[trigger] list_view(values) == Seq::<T::V>::empty(),
{
    assert(list_view(values) =~= Seq::<T::V>::empty());
}

/// A list without its first value.
pub broadcast proof fn list_view_tail<T: View>(values: Seq<T>)
    requires
        values.len() > 0,
    ensures
        #[trigger] list_view(values.remove(0)) == list_view(values).skip(1),
{
    assert(list_view(values.remove(0)) =~= list_view(values).skip(1));
}

/// Two lists, one behind the other.
pub broadcast proof fn list_view_add<T: View>(a: Seq<T>, b: Seq<T>)
    ensures
        #[trigger] list_view(a + b) == list_view(a) + list_view(b),
{
    assert(list_view(a + b) =~= list_view(a) + list_view(b));
}

/// How the values of a list relate to what they stand for.
pub broadcast group group_list_view {
    list_view_push,
    list_view_empty,
    list_view_tail,
    list_view_add,
}

/// What either outcome of a fallible call stands for.
pub open spec fn result_view<T: View>(r: Result<T, String>) -> Result<T::V, Seq<char>> {
    match r {
        Ok(v) => Ok(v@),
        Err(e) => Err(e@),
    }
}

/// What either outcome of a fallible lookup stands for.
pub open spec fn lookup_view<T: View>(r: Result<Option<T>, String>) -> Result<
    Option<T::V>,
    Seq<char>,
> {
    match r {
        Ok(v) => Ok(opt_view(v)),
        Err(e) => Err(e@),
    }
}

/// What either outcome of a fallible listing stands for.
pub open spec fn listing_view<T: View>(r: Result<Vec<T>, String>) -> Result<
    Seq<T::V>,
    Seq<char>,
> {
    match r {
        Ok(v) => Ok(list_view(v@)),
        Err(e) => Err(e@),
    }
}

/// The value of a lookup, a failed one counting as an absent value.
pub open spec fn found<T>(r: Result<Option<T>, Seq<char>>) -> Option<T> {
    match r {
        Ok(v) => v,
        Err(_) => None,
    }
}

/// The value of a lookup, a failed one counting as an absent value.
pub fn found_text(r: Result<Option<String>, String>) -> (value: Option<String>)
    ensures
        opt_view(value) == found(lookup_view(r)),
{
    match r {
        Ok(v) => v,
        Err(_) => None,
    }
}

/// A copy of an optional text.
pub fn copy_opt(text: &Option<String>) -> (copy: Option<String>)
    ensures
        copy == *text,
{
    match text {
        Some(t) => Some(t.clone()),
        None => None,
    }
}

/// A copy of some bytes.
pub fn copy_bytes(bytes: &Vec<u8>) -> (copy: Vec<u8>)
    ensures
        copy@ == bytes@,
{
    let mut copy: Vec<u8> = Vec::new();
    let mut i: usize = 0;
    while i < bytes.len()
        invariant
            i <= bytes.len(),
            copy@ == bytes@.take(i as int),
        decreases bytes.len() - i,
    {
        copy.push(bytes[i]);
        i = i + 1;
        assert(copy@ =~= bytes@.take(i as int));
    }
    assert(bytes@.take(i as int) =~= bytes@);
    copy
}

// ---------------------------------------------------------------------------
// Comparing
// ---------------------------------------------------------------------------

/// Whether two texts hold the same characters.
pub fn text_eq(a: &str, b: &str) -> (same: bool)
    ensures
        same == (a@ == b@),
{
    a.to_owned() == b.to_owned()
}

/// The characters of a text, in order.
pub fn chars_of(s: &str) -> (chars: Vec<char>)
    ensures
        chars@ == s@,
{
    let mut chars: Vec<char> = Vec::new();
    for c in it: s.chars()
        invariant
            it.seq() == s@,
            chars@ == it.seq().take(it.index()),
    {
        chars.push(c);
    }
    assert(s@.take(s@.len() as int) == s@);
    chars
}

/// The ASCII lower-case form of a character.
pub open spec fn lowered_char(c: char) -> char {
    if 'A' <= c <= 'Z' {
        ((c as u8) + 32) as char
    } else {
        c
    }
}

/// A text with its ASCII letters in lower case.
pub open spec fn lowered(s: Seq<char>) -> Seq<char> {
    s.map_values(|c: char| lowered_char(c))
}

/// Whether the ASCII lower-case form of `s` is `other`.
pub fn lowered_eq(s: &str, other: &str) -> (same: bool)
    ensures
        same == (lowered(s@) == other@),
{
    let a = chars_of(s);
    let b = chars_of(other);
    if a.len() != b.len() {
        return false;
    }
    let n: usize = a.len();
    let mut i: usize = 0;
    while i < n
        invariant
            n == a.len() == b.len(),
            a@ == s@,
            b@ == other@,
            i <= n,
            forall|j: int| 0 <= j < i ==> lowered_char(s@[j]) == other@[j],
        decreases n - i,
    {
        let c = a[i];
        let l = if 'A' <= c && c <= 'Z' {
            ((c as u8) + 32u8) as char
        } else {
            c
        };
        if l != b[i] {
            assert(lowered(s@)[i as int] != other@[i as int]);
            return false;
        }
        i = i + 1;
    }
    assert(lowered(s@) =~= other@);
    true
}

// ---------------------------------------------------------------------------
// Prefixes, suffixes and substrings
// ---------------------------------------------------------------------------

/// `p` opens `s`.
pub open spec fn has_prefix(s: Seq<char>, p: Seq<char>) -> bool {
    p.len() <= s.len() && s.take(p.len() as int) == p
}

/// `p` closes `s`.
pub open spec fn has_suffix(s: Seq<char>, p: Seq<char>) -> bool {
    p.len() <= s.len() && s.skip(s.len() - p.len()) == p
}

/// `needle` stands in `s` at position `at`.
pub open spec fn occurs_at(s: Seq<char>, needle: Seq<char>, at: int) -> bool {
    0 <= at && at + needle.len() <= s.len() && s.subrange(at, at + needle.len()) == needle
}

/// `needle` stands somewhere in `s`.
pub open spec fn has_substring(s: Seq<char>, needle: Seq<char>) -> bool {
    exists|at: int| occurs_at(s, needle, at)
}

/// Whether `needle` stands in `chars` at position `at`.
fn matches_at(chars: &Vec<char>, needle: &Vec<char>, at: usize) -> (found: bool)
    requires
        at + needle.len() <= chars.len(),
    ensures
        found == occurs_at(chars@, needle@, at as int),
{
    let m: usize = needle.len();
    let mut i: usize = 0;
    while i < m
        invariant
            m == needle.len(),
            at + m <= chars.len(),
            i <= m,
            forall|j: int| 0 <= j < i ==> chars@[at + j] == needle@[j],
        decreases m - i,
    {
        if chars[at + i] != needle[i] {
            assert(chars@.subrange(at as int, at + m)[i as int] == chars@[at + i]);
            return false;
        }
        i = i + 1;
    }
    assert(chars@.subrange(at as int, at + m) =~= needle@);
    true
}

/// Whether `s` starts with `p`.
pub fn starts_with(s: &str, p: &str) -> (found: bool)
    ensures
        found == has_prefix(s@, p@),
{
    let chars = chars_of(s);
    let prefix = chars_of(p);
    if prefix.len() > chars.len() {
        return false;
    }
    assert(s@.take(p@.len() as int) =~= s@.subrange(0, p@.len() as int));
    matches_at(&chars, &prefix, 0)
}

/// Whether `s` ends with `p`.
pub fn ends_with(s: &str, p: &str) -> (found: bool)
    ensures
        found == has_suffix(s@, p@),
{
    let chars = chars_of(s);
    let suffix = chars_of(p);
    if suffix.len() > chars.len() {
        return false;
    }
    let at: usize = chars.len() - suffix.len();
    assert(s@.skip(at as int) =~= s@.subrange(at as int, at + p@.len()));
    matches_at(&chars, &suffix, at)
}

/// Whether `needle` occurs in `s`.
pub fn contains(s: &str, needle: &str) -> (found: bool)
    ensures
        found == has_substring(s@, needle@),
{
    let chars = chars_of(s);
    let sought = chars_of(needle);
    let m: usize = sought.len();
    if m > chars.len() {
        return false;
    }
    let last: usize = chars.len() - m;
    let mut at: usize = 0;
    loop
        invariant
            chars@ == s@,
            sought@ == needle@,
            m == sought.len(),
            m + last == chars.len(),
            at <= last,
            forall|j: int| 0 <= j < at ==> !occurs_at(s@, needle@, j),
        decreases last - at,
    {
        if matches_at(&chars, &sought, at) {
            assert(occurs_at(s@, needle@, at as int));
            return true;
        }
        if at == last {
            assert forall|j: int| !occurs_at(s@, needle@, j) by {
                if occurs_at(s@, needle@, j) {
                    assert(j <= last);
                }
            }
            return false;
        }
        at = at + 1;
    }
}

/// What follows a prefix, if the text starts with it.
pub open spec fn after_prefix(s: Seq<char>, p: Seq<char>) -> Option<Seq<char>> {
    if has_prefix(s, p) {
        Some(s.skip(p.len() as int))
    } else {
        None
    }
}

/// `s` without the prefix `p`, or `None` when it does not start with it.
pub fn strip_prefix<'a>(s: &'a str, p: &str) -> (rest: Option<&'a str>)
    ensures
        opt_str_view(rest) == after_prefix(s@, p@),
{
    if starts_with(s, p) {
        let from: usize = chars_of(p).len();
        let to: usize = chars_of(s).len();
        assert(s@.skip(from as int) =~= s@.subrange(from as int, to as int));
        Some(s.substring_char(from, to))
    } else {
        None
    }
}

// ---------------------------------------------------------------------------
// Trimming
// ---------------------------------------------------------------------------

/// The characters with the Unicode property `White_Space`.
pub open spec fn is_space(c: char) -> bool {
    ||| '\u{9}' <= c <= '\u{d}'
    ||| c == ' '
    ||| c == '\u{85}'
    ||| c == '\u{a0}'
    ||| c == '\u{1680}'
    ||| '\u{2000}' <= c <= '\u{200a}'
    ||| c == '\u{2028}'
    ||| c == '\u{2029}'
    ||| c == '\u{202f}'
    ||| c == '\u{205f}'
    ||| c == '\u{3000}'
}

/// Whether a character is white space.
fn space(c: char) -> (yes: bool)
    ensures
        yes == is_space(c),
{
    ('\u{9}' <= c && c <= '\u{d}') || c == ' ' || c == '\u{85}' || c == '\u{a0}' || c == '\u{1680}'
        || ('\u{2000}' <= c && c <= '\u{200a}') || c == '\u{2028}' || c == '\u{2029}' || c
        == '\u{202f}' || c == '\u{205f}' || c == '\u{3000}'
}

/// A text without the leading characters that satisfy `drop`.
pub open spec fn without_leading(s: Seq<char>, drop: spec_fn(char) -> bool) -> Seq<char>
    decreases s.len(),
{
    if s.len() > 0 && drop(s[0]) {
        without_leading(s.skip(1), drop)
    } else {
        s
    }
}

/// A text without the trailing characters that satisfy `drop`.
pub open spec fn without_trailing(s: Seq<char>, drop: spec_fn(char) -> bool) -> Seq<char>
    decreases s.len(),
{
    if s.len() > 0 && drop(s.last()) {
        without_trailing(s.drop_last(), drop)
    } else {
        s
    }
}

/// A text without white space at either end.
pub open spec fn trimmed(s: Seq<char>) -> Seq<char> {
    without_trailing(without_leading(s, |c: char| is_space(c)), |c: char| is_space(c))
}

/// The predicate of being one given character.
pub open spec fn is_char(only: char) -> spec_fn(char) -> bool {
    |c: char| c == only
}

/// A text without trailing occurrences of `end`.
pub open spec fn trimmed_end(s: Seq<char>, end: char) -> Seq<char> {
    without_trailing(s, is_char(end))
}

/// A text without leading occurrences of `start`.
pub open spec fn trimmed_start(s: Seq<char>, start: char) -> Seq<char> {
    without_leading(s, is_char(start))
}

/// Dropping leading characters one by one.
proof fn lemma_without_leading(s: Seq<char>, drop: spec_fn(char) -> bool, n: int)
    requires
        0 <= n <= s.len(),
        forall|j: int| 0 <= j < n ==> drop(#[trigger] s[j]),
        n < s.len() ==> !drop(s[n]),
    ensures
        without_leading(s, drop) == s.skip(n),
    decreases n,
{
    if n == 0 {
        assert(s.skip(0) =~= s);
    } else {
        let t = s.skip(1);
        assert forall|j: int| 0 <= j < n - 1 implies drop(#[trigger] t[j]) by {
            assert(t[j] == s[j + 1]);
        }
        lemma_without_leading(t, drop, n - 1);
        assert(t.skip(n - 1) =~= s.skip(n));
        assert(drop(s[0]));
    }
}

/// Dropping trailing characters one by one.
proof fn lemma_without_trailing(s: Seq<char>, drop: spec_fn(char) -> bool, n: int)
    requires
        0 <= n <= s.len(),
        forall|j: int| n <= j < s.len() ==> drop(#[trigger] s[j]),
        0 < n ==> !drop(s[n - 1]),
    ensures
        without_trailing(s, drop) == s.take(n),
    decreases s.len() - n,
{
    if n == s.len() {
        assert(s.take(n) =~= s);
    } else {
        let t = s.drop_last();
        assert(drop(s[s.len() - 1]));
        lemma_without_trailing(t, drop, n);
        assert(t.take(n) =~= s.take(n));
    }
}

/// `s` without white space at either end.
pub fn trim<'a>(s: &'a str) -> (core: &'a str)
    ensures
        core@ == trimmed(s@),
{
    let chars = chars_of(s);
    let n: usize = chars.len();
    let mut from: usize = 0;
    while from < n && space(chars[from])
        invariant
            n == chars.len(),
            from <= n,
            forall|j: int| 0 <= j < from ==> is_space(#[trigger] chars@[j]),
        decreases n - from,
    {
        from = from + 1;
    }
    let mut to: usize = n;
    while from < to && space(chars[to - 1])
        invariant
            n == chars.len(),
            from <= to <= n,
            forall|j: int| to <= j < n ==> is_space(#[trigger] chars@[j]),
        decreases to,
    {
        to = to - 1;
    }
    proof {
        let drop = |c: char| is_space(c);
        lemma_without_leading(s@, drop, from as int);
        let t = s@.skip(from as int);
        assert forall|j: int| to - from <= j < t.len() implies drop(#[trigger] t[j]) by {
            assert(t[j] == chars@[j + from]);
        }
        lemma_without_trailing(t, drop, to - from);
        assert(t.take(to - from) =~= s@.subrange(from as int, to as int));
    }
    s.substring_char(from, to)
}

/// `s` without trailing occurrences of `end`.
pub fn trim_end_matches<'a>(s: &'a str, end: char) -> (core: &'a str)
    ensures
        core@ == trimmed_end(s@, end),
{
    let chars = chars_of(s);
    let n: usize = chars.len();
    let mut to: usize = n;
    while 0 < to && chars[to - 1] == end
        invariant
            n == chars.len(),
            to <= n,
            forall|j: int| to <= j < n ==> #[trigger] chars@[j] == end,
        decreases to,
    {
        to = to - 1;
    }
    proof {
        lemma_without_trailing(s@, is_char(end), to as int);
        assert(s@.take(to as int) =~= s@.subrange(0, to as int));
    }
    s.substring_char(0, to)
}

/// `s` without leading occurrences of `start`.
pub fn trim_start_matches<'a>(s: &'a str, start: char) -> (core: &'a str)
    ensures
        core@ == trimmed_start(s@, start),
{
    let chars = chars_of(s);
    let n: usize = chars.len();
    let mut from: usize = 0;
    while from < n && chars[from] == start
        invariant
            n == chars.len(),
            from <= n,
            forall|j: int| 0 <= j < from ==> #[trigger] chars@[j] == start,
        decreases n - from,
    {
        from = from + 1;
    }
    proof {
        lemma_without_leading(s@, is_char(start), from as int);
        assert(s@.skip(from as int) =~= s@.subrange(from as int, n as int));
    }
    s.substring_char(from, n)
}

// ---------------------------------------------------------------------------
// Splitting
// ---------------------------------------------------------------------------

/// The pieces of a text between occurrences of `sep`.
///
/// A text without `sep` is one piece; each `sep` closes a piece and opens the
/// next, so there is always at least one, possibly empty.
pub open spec fn split_on(s: Seq<char>, sep: char) -> Seq<Seq<char>>
    decreases s.len(),
{
    if s.len() == 0 {
        seq![Seq::<char>::empty()]
    } else {
        let before = split_on(s.drop_last(), sep);
        if s.last() == sep {
            before.push(Seq::<char>::empty())
        } else {
            before.drop_last().push(before.last().push(s.last()))
        }
    }
}

/// There is always a last piece, and no piece holds the separator.
pub proof fn lemma_split_on(s: Seq<char>, sep: char)
    ensures
        split_on(s, sep).len() > 0,
        forall|i: int, j: int|
            0 <= i < split_on(s, sep).len() && 0 <= j < split_on(s, sep)[i].len()
                ==> #[trigger] split_on(s, sep)[i][j] != sep,
    decreases s.len(),
{
    if s.len() > 0 {
        lemma_split_on(s.drop_last(), sep);
        let before = split_on(s.drop_last(), sep);
        let all = split_on(s, sep);
        assert forall|i: int, j: int| 0 <= i < all.len() && 0 <= j < all[i].len() implies (
        #[trigger] all[i][j]) != sep by {
            if i < all.len() - 1 {
                assert(all[i] == before[i]);
                assert(before[i][j] != sep);
            } else if s.last() != sep {
                if j < before.last().len() {
                    assert(before[before.len() - 1][j] != sep);
                }
            }
        }
    }
}

/// The pieces of `s` between occurrences of `sep`.
pub fn split<'a>(s: &'a str, sep: char) -> (pieces: Vec<String>)
    ensures
        list_view(pieces@) == split_on(s@, sep),
{
    let chars = chars_of(s);
    let n: usize = chars.len();
    let mut pieces: Vec<String> = Vec::new();
    let mut from: usize = 0;
    let mut i: usize = 0;
    assert(list_view(pieces@) =~= Seq::<Seq<char>>::empty());
    assert(s@.take(0) =~= Seq::<char>::empty());
    assert(split_on(s@.take(0), sep) =~= seq![Seq::<char>::empty()]);
    assert(s@.subrange(0, 0) =~= Seq::<char>::empty());
    while i < n
        invariant
            n == chars.len(),
            chars@ == s@,
            from <= i <= n,
            split_on(s@.take(i as int), sep) =~= list_view(pieces@).push(
                s@.subrange(from as int, i as int),
            ),
        decreases n - i,
    {
        proof {
            assert(s@.take(i + 1).drop_last() =~= s@.take(i as int));
            assert(s@.take(i + 1).last() == s@[i as int]);
        }
        let ghost seen = list_view(pieces@);
        if chars[i] == sep {
            pieces.push(s.substring_char(from, i).to_owned());
            from = i + 1;
            assert(list_view(pieces@) =~= seen.push(pieces@.last()@));
            assert(s@.subrange(from as int, i + 1) =~= Seq::<char>::empty());
        } else {
            assert(s@.subrange(from as int, i + 1) =~= s@.subrange(from as int, i as int).push(
                s@[i as int],
            ));
            assert(seen.push(s@.subrange(from as int, i as int)).drop_last() =~= seen);
        }
        i = i + 1;
    }
    let ghost seen = list_view(pieces@);
    pieces.push(s.substring_char(from, n).to_owned());
    assert(s@.take(n as int) =~= s@);
    assert(list_view(pieces@) =~= seen.push(pieces@.last()@));
    pieces
}

/// The non-empty pieces of a text between occurrences of `sep`, in order.
pub open spec fn segments_on(s: Seq<char>, sep: char) -> Seq<Seq<char>> {
    split_on(s, sep).filter(non_empty())
}

/// The texts that hold a character.
pub open spec fn non_empty() -> spec_fn(Seq<char>) -> bool {
    |p: Seq<char>| p.len() > 0
}

/// A separator between two texts splits there, and nowhere else.
pub proof fn lemma_split_at(a: Seq<char>, b: Seq<char>, sep: char)
    ensures
        split_on(a + seq![sep] + b, sep) == split_on(a, sep) + split_on(b, sep),
    decreases b.len(),
{
    let all = a + seq![sep] + b;
    if b.len() == 0 {
        assert(all.drop_last() =~= a);
        assert(all.last() == sep);
        assert(split_on(all, sep) =~= split_on(a, sep) + split_on(b, sep));
    } else {
        let front = b.drop_last();
        lemma_split_at(a, front, sep);
        lemma_split_on(front, sep);
        assert(all.drop_last() =~= a + seq![sep] + front);
        assert(all.last() == b.last());
        let before = split_on(a, sep) + split_on(front, sep);
        assert(before.last() == split_on(front, sep).last());
        assert(before.drop_last() =~= split_on(a, sep) + split_on(front, sep).drop_last());
        assert(split_on(all, sep) =~= split_on(a, sep) + split_on(b, sep));
    }
}

/// The segments of two texts with a separator between them are those of the one and
/// then those of the other.
pub proof fn lemma_segments_at(a: Seq<char>, b: Seq<char>, sep: char)
    ensures
        segments_on(a + seq![sep] + b, sep) == segments_on(a, sep) + segments_on(b, sep),
{
    lemma_split_at(a, b, sep);
    Seq::filter_distributes_over_add(split_on(a, sep), split_on(b, sep), non_empty());
}

/// A text of separators alone has no segments.
proof fn lemma_separators_have_no_segments(s: Seq<char>, sep: char)
    requires
        forall|i: int| 0 <= i < s.len() ==> #[trigger] s[i] == sep,
    ensures
        segments_on(s, sep) == Seq::<Seq<char>>::empty(),
    decreases s.len(),
{
    reveal(Seq::filter);
    if s.len() == 0 {
        let one = split_on(s, sep);
        one.drop_last().lemma_filter_len(non_empty());
        assert(!non_empty()(one.last()));
        assert(segments_on(s, sep) =~= Seq::<Seq<char>>::empty());
    } else {
        let front = s.drop_last();
        assert(forall|i: int| 0 <= i < front.len() ==> #[trigger] front[i] == s[i]);
        lemma_separators_have_no_segments(front, sep);
        lemma_separators_have_no_segments(Seq::<char>::empty(), sep);
        assert(s =~= front + seq![sep] + Seq::<char>::empty());
        lemma_segments_at(front, Seq::<char>::empty(), sep);
        assert(segments_on(s, sep) =~= Seq::<Seq<char>>::empty());
    }
}

/// Separators in front of a text and behind it change nothing.
pub proof fn lemma_outer_separators_do_not_count(
    lead: Seq<char>,
    s: Seq<char>,
    trail: Seq<char>,
    sep: char,
)
    requires
        forall|i: int| 0 <= i < lead.len() ==> #[trigger] lead[i] == sep,
        forall|i: int| 0 <= i < trail.len() ==> #[trigger] trail[i] == sep,
    ensures
        segments_on(lead + s + trail, sep) == segments_on(s, sep),
{
    if lead.len() > 0 {
        let less = lead.drop_last();
        assert(forall|i: int| 0 <= i < less.len() ==> #[trigger] less[i] == lead[i]);
        assert(lead[lead.len() - 1] == sep);
        assert(lead + s =~= less + seq![sep] + s);
        lemma_separators_have_no_segments(less, sep);
        lemma_segments_at(less, s, sep);
    } else {
        assert(lead + s =~= s);
    }
    assert(segments_on(lead + s, sep) =~= segments_on(s, sep));
    if trail.len() > 0 {
        let rest = trail.skip(1);
        assert(forall|i: int| 0 <= i < rest.len() ==> #[trigger] rest[i] == trail[i + 1]);
        assert(trail[0] == sep);
        assert(lead + s + trail =~= (lead + s) + seq![sep] + rest);
        lemma_separators_have_no_segments(rest, sep);
        lemma_segments_at(lead + s, rest, sep);
    } else {
        assert(lead + s + trail =~= lead + s);
    }
    assert(segments_on(lead + s + trail, sep) =~= segments_on(s, sep));
}

proof fn lemma_kept_pieces(parts: Seq<Seq<char>>, sep: char)
    requires
        forall|i: int, j: int|
            0 <= i < parts.len() && 0 <= j < parts[i].len() ==> #[trigger] parts[i][j] != sep,
    ensures
        forall|i: int|
            0 <= i < parts.filter(non_empty()).len() ==> (#[trigger] parts.filter(
                non_empty(),
            )[i]).len() > 0 && !parts.filter(non_empty())[i].contains(sep),
    decreases parts.len(),
{
    reveal(Seq::filter);
    if parts.len() > 0 {
        let front = parts.drop_last();
        assert forall|i: int, j: int| 0 <= i < front.len() && 0 <= j < front[i].len() implies (
        #[trigger] front[i][j]) != sep by {
            assert(parts[i][j] != sep);
        }
        lemma_kept_pieces(front, sep);
        assert forall|j: int| 0 <= j < parts.last().len() implies parts.last()[j] != sep by {
            assert(parts[parts.len() - 1][j] != sep);
        }
        let kept = front.filter(non_empty());
        let all = parts.filter(non_empty());
        assert(all == if parts.last().len() > 0 {
            kept.push(parts.last())
        } else {
            kept
        });
        assert forall|i: int| 0 <= i < all.len() implies (#[trigger] all[i]).len() > 0
            && !all[i].contains(sep) by {
            if i < kept.len() {
                assert(all[i] == kept[i]);
            } else {
                assert(all[i] == parts.last());
            }
        }
    } else {
        parts.lemma_filter_len(non_empty());
    }
}

/// No segment is empty or holds a separator.
pub proof fn lemma_segments_are_plain(s: Seq<char>, sep: char)
    ensures
        forall|i: int|
            0 <= i < segments_on(s, sep).len() ==> (#[trigger] segments_on(s, sep)[i]).len() > 0
                && !segments_on(s, sep)[i].contains(sep),
{
    lemma_split_on(s, sep);
    lemma_kept_pieces(split_on(s, sep), sep);
}

/// Texts one behind the other.
pub open spec fn concatenated(parts: Seq<Seq<char>>) -> Seq<char>
    decreases parts.len(),
{
    if parts.len() == 0 {
        Seq::empty()
    } else {
        concatenated(parts.drop_last()) + parts.last()
    }
}

/// The characters other than a given one.
pub open spec fn is_not(sep: char) -> spec_fn(char) -> bool {
    |c: char| c != sep
}

proof fn lemma_concatenated_pieces(s: Seq<char>, sep: char)
    ensures
        concatenated(split_on(s, sep)) == s.filter(is_not(sep)),
    decreases s.len(),
{
    reveal(Seq::filter);
    reveal_with_fuel(concatenated, 2);
    if s.len() == 0 {
        assert(concatenated(split_on(s, sep)) =~= s.filter(is_not(sep)));
    } else {
        let before = split_on(s.drop_last(), sep);
        let all = split_on(s, sep);
        lemma_concatenated_pieces(s.drop_last(), sep);
        lemma_split_on(s.drop_last(), sep);
        assert(all.drop_last() =~= if s.last() == sep {
            before
        } else {
            before.drop_last()
        });
        assert(concatenated(all) =~= s.filter(is_not(sep)));
    }
}

proof fn lemma_empty_pieces_add_nothing(parts: Seq<Seq<char>>)
    ensures
        concatenated(parts.filter(non_empty())) == concatenated(parts),
    decreases parts.len(),
{
    reveal(Seq::filter);
    if parts.len() > 0 {
        lemma_empty_pieces_add_nothing(parts.drop_last());
        let kept = parts.drop_last().filter(non_empty());
        if parts.last().len() > 0 {
            assert(kept.push(parts.last()).drop_last() =~= kept);
        }
        assert(concatenated(parts.filter(non_empty())) =~= concatenated(parts));
    }
}

/// The segments of a text one behind the other are the text without its separators.
pub proof fn lemma_segments_hold_the_rest(s: Seq<char>, sep: char)
    ensures
        concatenated(segments_on(s, sep)) == s.filter(is_not(sep)),
{
    lemma_concatenated_pieces(s, sep);
    lemma_empty_pieces_add_nothing(split_on(s, sep));
}

/// Texts with a separator between each two.
pub open spec fn joined(parts: Seq<Seq<char>>, sep: char) -> Seq<char>
    decreases parts.len(),
{
    if parts.len() == 0 {
        Seq::empty()
    } else if parts.len() == 1 {
        parts[0]
    } else {
        joined(parts.drop_last(), sep) + seq![sep] + parts.last()
    }
}

proof fn lemma_one_piece(s: Seq<char>, sep: char)
    requires
        !s.contains(sep),
    ensures
        split_on(s, sep) == seq![s],
    decreases s.len(),
{
    if s.len() == 0 {
        assert(s =~= Seq::<char>::empty());
    } else {
        let front = s.drop_last();
        assert(s[s.len() - 1] != sep);
        assert(!front.contains(sep)) by {
            if front.contains(sep) {
                let k = choose|k: int| 0 <= k < front.len() && front[k] == sep;
                assert(s[k] == sep);
            }
        }
        lemma_one_piece(front, sep);
        assert(front.push(s.last()) =~= s);
        assert(split_on(s, sep) =~= seq![s]);
    }
}

/// Joining texts that are not empty and hold no separator, and splitting the result,
/// gives them back.
pub proof fn lemma_split_undoes_join(parts: Seq<Seq<char>>, sep: char)
    requires
        forall|i: int|
            0 <= i < parts.len() ==> (#[trigger] parts[i]).len() > 0 && !parts[i].contains(sep),
    ensures
        segments_on(joined(parts, sep), sep) == parts,
    decreases parts.len(),
{
    reveal(Seq::filter);
    if parts.len() == 0 {
        lemma_separators_have_no_segments(joined(parts, sep), sep);
        assert(parts =~= Seq::<Seq<char>>::empty());
    } else {
        let last = parts.last();
        assert(parts[parts.len() - 1].len() > 0);
        lemma_one_piece(last, sep);
        seq![last].drop_last().lemma_filter_len(non_empty());
        assert(seq![last].last() == last);
        assert(segments_on(last, sep) =~= seq![last]);
        if parts.len() == 1 {
            assert(parts =~= seq![last]);
        } else {
            let front = parts.drop_last();
            assert(forall|i: int| 0 <= i < front.len() ==> #[trigger] front[i] == parts[i]);
            lemma_split_undoes_join(front, sep);
            lemma_segments_at(joined(front, sep), last, sep);
            assert(parts =~= front + seq![last]);
        }
    }
}

/// The segments of a text, joined and split again, are the same.
pub proof fn lemma_segments_round_trip(s: Seq<char>, sep: char)
    ensures
        segments_on(joined(segments_on(s, sep), sep), sep) == segments_on(s, sep),
{
    lemma_segments_are_plain(s, sep);
    lemma_split_undoes_join(segments_on(s, sep), sep);
}

/// The non-empty pieces of `s` between occurrences of `sep`.
pub fn segments(s: &str, sep: char) -> (kept: Vec<String>)
    ensures
        list_view(kept@) == segments_on(s@, sep),
{
    let pieces = split(s, sep);
    let ghost nonempty = non_empty();
    let ghost all = split_on(s@, sep);
    let n: usize = pieces.len();
    let mut kept: Vec<String> = Vec::new();
    let mut i: usize = 0;
    assert(all.take(0).filter(nonempty) =~= Seq::<Seq<char>>::empty()) by {
        reveal(Seq::filter);
    }
    assert(list_view(kept@) =~= Seq::<Seq<char>>::empty());
    while i < n
        invariant
            n == pieces.len(),
            list_view(pieces@) == all,
            all.len() == n,
            nonempty == non_empty(),
            i <= n,
            list_view(kept@) == all.take(i as int).filter(nonempty),
        decreases n - i,
    {
        let ghost seen = list_view(kept@);
        assert(all[i as int] == pieces@[i as int]@);
        assert(all.take(i + 1).drop_last() =~= all.take(i as int));
        if !pieces[i].as_str().is_empty() {
            kept.push(pieces[i].clone());
            assert(list_view(kept@) =~= seen.push(pieces@[i as int]@));
        }
        assert(all.take(i + 1).filter(nonempty) == if nonempty(all[i as int]) {
            seen.push(all[i as int])
        } else {
            seen
        }) by {
            reveal(Seq::filter);
        }
        i = i + 1;
    }
    assert(all.take(n as int) =~= all);
    kept
}

/// The position of the first occurrence of `sep`, or the length without one.
pub open spec fn first_index(s: Seq<char>, sep: char) -> int
    decreases s.len(),
{
    if s.len() == 0 || s[0] == sep {
        0
    } else {
        1 + first_index(s.skip(1), sep)
    }
}

/// The first occurrence is the one before which there is none.
pub proof fn lemma_first_index(s: Seq<char>, sep: char, at: int)
    requires
        0 <= at <= s.len(),
        forall|j: int| 0 <= j < at ==> #[trigger] s[j] != sep,
        at < s.len() ==> s[at] == sep,
    ensures
        first_index(s, sep) == at,
    decreases at,
{
    if at > 0 {
        let t = s.skip(1);
        assert forall|j: int| 0 <= j < at - 1 implies #[trigger] t[j] != sep by {
            assert(t[j] == s[j + 1]);
        }
        assert(s[0] != sep);
        lemma_first_index(t, sep, at - 1);
    }
}

/// What precedes the first occurrence of `sep`, or the whole text without one.
pub open spec fn before_first(s: Seq<char>, sep: char) -> Seq<char> {
    s.take(first_index(s, sep))
}

/// The position of the first `sep` in `s`, or the length of `s` without one.
fn find(s: &str, sep: char) -> (at: usize)
    ensures
        at <= s@.len(),
        at == first_index(s@, sep),
        forall|j: int| 0 <= j < at ==> #[trigger] s@[j] != sep,
        at < s@.len() ==> s@[at as int] == sep,
{
    let chars = chars_of(s);
    let n: usize = chars.len();
    let mut at: usize = 0;
    while at < n && chars[at] != sep
        invariant
            n == chars.len(),
            chars@ == s@,
            at <= n,
            forall|j: int| 0 <= j < at ==> #[trigger] s@[j] != sep,
        decreases n - at,
    {
        at = at + 1;
    }
    proof {
        lemma_first_index(s@, sep, at as int);
    }
    at
}

/// What precedes the first `sep` in `s`, or all of `s` without one.
pub fn first_piece<'a>(s: &'a str, sep: char) -> (piece: &'a str)
    ensures
        piece@ == before_first(s@, sep),
{
    let at = find(s, sep);
    assert(s@.take(at as int) =~= s@.subrange(0, at as int));
    s.substring_char(0, at)
}

/// What precedes the first `sep` in `s`, or `None` without one.
pub fn split_head<'a>(s: &'a str, sep: char) -> (piece: Option<&'a str>)
    ensures
        opt_str_view(piece) == (if s@.contains(sep) {
            Some(before_first(s@, sep))
        } else {
            None
        }),
{
    let at = find(s, sep);
    let n: usize = chars_of(s).len();
    if at < n {
        assert(s@[at as int] == sep);
        assert(s@.take(at as int) =~= s@.subrange(0, at as int));
        Some(s.substring_char(0, at))
    } else {
        assert(!s@.contains(sep));
        None
    }
}

// ---------------------------------------------------------------------------
// Replacing
// ---------------------------------------------------------------------------

/// A text with `@` and `/` turned into `_`.
pub open spec fn flattened(s: Seq<char>) -> Seq<char> {
    s.map_values(|c: char| if c == '@' || c == '/' { '_' } else { c })
}

/// `s` with `@` and `/` turned into `_`.
pub fn flatten(s: &str) -> (flat: String)
    ensures
        flat@ == flattened(s@),
{
    let chars = chars_of(s);
    let n: usize = chars.len();
    let mut flat = String::new();
    let mut i: usize = 0;
    proof {
        reveal_strlit("_");
    }
    while i < n
        invariant
            n == chars.len(),
            chars@ == s@,
            i <= n,
            "_"@ == seq!['_'],
            flat@ == flattened(s@).take(i as int),
        decreases n - i,
    {
        if chars[i] == '@' || chars[i] == '/' {
            flat.append("_");
        } else {
            flat.append(s.substring_char(i, i + 1));
        }
        assert(flattened(s@).take(i + 1) =~= flattened(s@).take(i as int).push(
            flattened(s@)[i as int],
        ));
        i = i + 1;
    }
    assert(flattened(s@).take(n as int) =~= flattened(s@));
    flat
}

// ---------------------------------------------------------------------------
// Numbers
// ---------------------------------------------------------------------------

/// The character of a decimal digit.
pub open spec fn digit_char(d: nat) -> char {
    if d == 0 {
        '0'
    } else if d == 1 {
        '1'
    } else if d == 2 {
        '2'
    } else if d == 3 {
        '3'
    } else if d == 4 {
        '4'
    } else if d == 5 {
        '5'
    } else if d == 6 {
        '6'
    } else if d == 7 {
        '7'
    } else if d == 8 {
        '8'
    } else {
        '9'
    }
}

/// The decimal digits of a number, without leading zeros.
pub open spec fn decimal(n: nat) -> Seq<char>
    decreases n,
{
    if n < 10 {
        seq![digit_char(n)]
    } else {
        decimal(n / 10).push(digit_char(n % 10))
    }
}

/// The decimal digits of an integer, after a sign when it is negative.
pub open spec fn signed_decimal(n: int) -> Seq<char> {
    if n < 0 {
        seq!['-'] + decimal((-n) as nat)
    } else {
        decimal(n as nat)
    }
}

/// The text of one decimal digit.
fn digit_text(d: u64) -> (t: &'static str)
    requires
        d < 10,
    ensures
        t@ == seq![digit_char(d as nat)],
{
    proof {
        reveal_strlit("0");
        reveal_strlit("1");
        reveal_strlit("2");
        reveal_strlit("3");
        reveal_strlit("4");
        reveal_strlit("5");
        reveal_strlit("6");
        reveal_strlit("7");
        reveal_strlit("8");
        reveal_strlit("9");
    }
    if d == 0 {
        "0"
    } else if d == 1 {
        "1"
    } else if d == 2 {
        "2"
    } else if d == 3 {
        "3"
    } else if d == 4 {
        "4"
    } else if d == 5 {
        "5"
    } else if d == 6 {
        "6"
    } else if d == 7 {
        "7"
    } else if d == 8 {
        "8"
    } else {
        "9"
    }
}

/// `n` in decimal.
pub fn u64_text(n: u64) -> (t: String)
    ensures
        t@ == decimal(n as nat),
    decreases n,
{
    if n < 10 {
        digit_text(n).to_owned()
    } else {
        let t = u64_text(n / 10).concat(digit_text(n % 10));
        assert(t@ =~= decimal((n / 10) as nat).push(digit_char((n % 10) as nat)));
        t
    }
}

/// `n` in decimal.
pub fn usize_text(n: usize) -> (t: String)
    ensures
        t@ == decimal(n as nat),
{
    u64_text(n as u64)
}

/// `n` in decimal, signed.
pub fn i64_text(n: i64) -> (t: String)
    ensures
        t@ == signed_decimal(n as int),
{
    if n >= 0 {
        u64_text(n as u64)
    } else {
        proof {
            reveal_strlit("-");
            assert("-"@ =~= seq!['-']);
        }
        let magnitude: u64 = if n == i64::MIN {
            9223372036854775808u64
        } else {
            (-n) as u64
        };
        "-".to_owned().concat(u64_text(magnitude).as_str())
    }
}

/// A decimal is never empty and its characters are digits.
pub proof fn lemma_decimal_digits(n: nat)
    ensures
        decimal(n).len() > 0,
        forall|i: int| 0 <= i < decimal(n).len() ==> '0' <= #[trigger] decimal(n)[i] <= '9',
    decreases n,
{
    if n >= 10 {
        lemma_decimal_digits(n / 10);
    }
}

/// Different numbers have different decimals.
pub proof fn lemma_decimal_injective(a: nat, b: nat)
    requires
        decimal(a) == decimal(b),
    ensures
        a == b,
    decreases a,
{
    if a < 10 && b < 10 {
        assert(decimal(a)[0] == digit_char(a));
        assert(decimal(b)[0] == digit_char(b));
    } else if a >= 10 && b >= 10 {
        assert(decimal(a).last() == digit_char(a % 10));
        assert(decimal(b).last() == digit_char(b % 10));
        assert(decimal(a).drop_last() =~= decimal(a / 10));
        assert(decimal(b).drop_last() =~= decimal(b / 10));
        lemma_decimal_injective(a / 10, b / 10);
    } else if a < 10 {
        lemma_decimal_digits(b / 10);
        assert(decimal(a).len() == 1);
        assert(decimal(b) == decimal(b / 10).push(digit_char(b % 10)));
    } else {
        lemma_decimal_digits(a / 10);
        assert(decimal(b).len() == 1);
        assert(decimal(a) == decimal(a / 10).push(digit_char(a % 10)));
    }
}

/// Different integers have different signed decimals.
pub proof fn lemma_signed_decimal_injective(a: int, b: int)
    requires
        signed_decimal(a) == signed_decimal(b),
    ensures
        a == b,
{
    let ta = signed_decimal(a);
    let tb = signed_decimal(b);
    if a >= 0 {
        lemma_decimal_digits(a as nat);
        assert('0' <= ta[0]);
    }
    if b >= 0 {
        lemma_decimal_digits(b as nat);
        assert('0' <= tb[0]);
    }
    if a < 0 && b < 0 {
        assert(ta.skip(1) =~= decimal((-a) as nat));
        assert(tb.skip(1) =~= decimal((-b) as nat));
        lemma_decimal_injective((-a) as nat, (-b) as nat);
    } else if a >= 0 && b >= 0 {
        lemma_decimal_injective(a as nat, b as nat);
    } else {
        assert(ta[0] == tb[0]);
    }
}

/// Two decimal digits.
pub open spec fn two_digits(n: nat) -> Seq<char> {
    seq![digit_char(n / 10), digit_char(n % 10)]
}

/// `n` as two decimal digits.
pub fn two_digit_text(n: u64) -> (t: String)
    requires
        n < 100,
    ensures
        t@ == two_digits(n as nat),
{
    let t = digit_text(n / 10).to_owned().concat(digit_text(n % 10));
    assert(t@ =~= two_digits(n as nat));
    t
}

// ---------------------------------------------------------------------------
// Order
// ---------------------------------------------------------------------------

/// `a` stands before `b` in the order of texts: at the first character in which
/// they differ it has the lesser one, or it ends there.
pub open spec fn precedes(a: Seq<char>, b: Seq<char>) -> bool
    decreases a.len(),
{
    if b.len() == 0 {
        false
    } else if a.len() == 0 {
        true
    } else if a[0] != b[0] {
        a[0] < b[0]
    } else {
        precedes(a.skip(1), b.skip(1))
    }
}

/// Of two different texts one stands before the other.
pub proof fn lemma_precedes_total(a: Seq<char>, b: Seq<char>)
    ensures
        precedes(a, b) || precedes(b, a) || a == b,
    decreases a.len(),
{
    if a.len() == 0 {
        if b.len() == 0 {
            assert(a =~= b);
        }
    } else if b.len() > 0 && a[0] == b[0] {
        lemma_precedes_total(a.skip(1), b.skip(1));
        if a.skip(1) == b.skip(1) {
            assert(a =~= seq![a[0]] + a.skip(1));
            assert(b =~= seq![b[0]] + b.skip(1));
        }
    }
}

/// No text stands before itself, nor both before and behind another.
pub proof fn lemma_precedes_strict(a: Seq<char>, b: Seq<char>)
    ensures
        !(precedes(a, b) && precedes(b, a)),
        !precedes(a, a),
    decreases a.len(),
{
    if a.len() > 0 {
        if b.len() > 0 {
            lemma_precedes_strict(a.skip(1), b.skip(1));
        } else {
            lemma_precedes_strict(a.skip(1), b);
        }
    }
}

/// The order of texts is transitive.
pub proof fn lemma_precedes_transitive(a: Seq<char>, b: Seq<char>, c: Seq<char>)
    requires
        precedes(a, b),
        precedes(b, c),
    ensures
        precedes(a, c),
    decreases a.len(),
{
    if a.len() > 0 && a[0] == b[0] && b[0] == c[0] {
        lemma_precedes_transitive(a.skip(1), b.skip(1), c.skip(1));
    }
}

/// Where two texts agree on their first `n` characters, the rest decides.
proof fn lemma_precedes_after(a: Seq<char>, b: Seq<char>, n: int)
    requires
        0 <= n <= a.len(),
        n <= b.len(),
        a.take(n) == b.take(n),
    ensures
        precedes(a, b) == precedes(a.skip(n), b.skip(n)),
    decreases n,
{
    if n == 0 {
        assert(a.skip(0) =~= a);
        assert(b.skip(0) =~= b);
    } else {
        assert(a[0] == a.take(n)[0]);
        assert(b[0] == b.take(n)[0]);
        assert(a.skip(1).take(n - 1) =~= a.take(n).skip(1));
        assert(b.skip(1).take(n - 1) =~= b.take(n).skip(1));
        lemma_precedes_after(a.skip(1), b.skip(1), n - 1);
        assert(a.skip(1).skip(n - 1) =~= a.skip(n));
        assert(b.skip(1).skip(n - 1) =~= b.skip(n));
    }
}

/// Whether `a` stands before `b` in the order of texts.
pub fn text_precedes(a: &str, b: &str) -> (before: bool)
    ensures
        before == precedes(a@, b@),
{
    let x = chars_of(a);
    let y = chars_of(b);
    let mut i: usize = 0;
    while i < x.len() && i < y.len() && x[i] == y[i]
        invariant
            x@ == a@,
            y@ == b@,
            i <= x.len(),
            i <= y.len(),
            x@.take(i as int) == y@.take(i as int),
        decreases x.len() - i,
    {
        i = i + 1;
        assert(x@.take(i as int) =~= x@.take(i - 1).push(x@[i - 1]));
        assert(y@.take(i as int) =~= y@.take(i - 1).push(y@[i - 1]));
    }
    proof {
        lemma_precedes_after(x@, y@, i as int);
    }
    if i == y.len() {
        false
    } else if i == x.len() {
        true
    } else {
        x[i] < y[i]
    }
}

/// How many texts at the front of a list stand before `name`.
pub open spec fn lead(list: Seq<Seq<char>>, name: Seq<char>) -> int
    decreases list.len(),
{
    if list.len() == 0 || !precedes(list[0], name) {
        0
    } else {
        1 + lead(list.skip(1), name)
    }
}

proof fn lemma_lead(list: Seq<Seq<char>>, name: Seq<char>, n: int)
    requires
        0 <= n <= list.len(),
        forall|j: int| 0 <= j < n ==> precedes(list[j], name),
        n == list.len() || !precedes(list[n], name),
    ensures
        lead(list, name) == n,
    decreases n,
{
    if n > 0 {
        assert(precedes(list[0], name));
        assert forall|j: int| 0 <= j < n - 1 implies precedes(list.skip(1)[j], name) by {
            assert(list.skip(1)[j] == list[j + 1]);
        }
        lemma_lead(list.skip(1), name, n - 1);
    }
}

proof fn lemma_lead_bounds(list: Seq<Seq<char>>, name: Seq<char>)
    ensures
        0 <= lead(list, name) <= list.len(),
        forall|j: int| 0 <= j < lead(list, name) ==> precedes(#[trigger] list[j], name),
        lead(list, name) < list.len() ==> !precedes(list[lead(list, name)], name),
    decreases list.len(),
{
    if list.len() > 0 && precedes(list[0], name) {
        lemma_lead_bounds(list.skip(1), name);
        assert forall|j: int| 0 <= j < lead(list, name) implies precedes(
            #[trigger] list[j],
            name,
        ) by {
            if j > 0 {
                assert(list[j] == list.skip(1)[j - 1]);
            }
        }
    }
}

/// A list with `name` in its place, where it is not there yet.
pub open spec fn with_name(list: Seq<Seq<char>>, name: Seq<char>) -> Seq<Seq<char>> {
    if list.contains(name) {
        list
    } else {
        list.insert(lead(list, name), name)
    }
}

/// The texts of a list in order, each once.
pub open spec fn in_order(names: Seq<Seq<char>>) -> Seq<Seq<char>>
    decreases names.len(),
{
    if names.len() == 0 {
        Seq::empty()
    } else {
        with_name(in_order(names.drop_last()), names.last())
    }
}

/// Each text of a list stands before the later ones.
pub open spec fn ascending(list: Seq<Seq<char>>) -> bool {
    forall|i: int, j: int| 0 <= i < j < list.len() ==> #[trigger] precedes(list[i], list[j])
}

proof fn lemma_with_name(list: Seq<Seq<char>>, name: Seq<char>)
    requires
        ascending(list),
    ensures
        ascending(with_name(list, name)),
        forall|n: Seq<char>|
            #[trigger] with_name(list, name).contains(n) <==> list.contains(n) || n == name,
{
    if !list.contains(name) {
        let at = lead(list, name);
        let grown = list.insert(at, name);
        lemma_lead_bounds(list, name);
        assert forall|i: int, j: int| 0 <= i < j < grown.len() implies #[trigger] precedes(
            grown[i],
            grown[j],
        ) by {
            if i < at && j == at {
            } else if i == at {
                assert(grown[j] == list[j - 1]);
                lemma_precedes_total(list[at], name);
                assert(list.contains(list[at]));
                if at < j - 1 {
                    assert(precedes(list[at], list[j - 1]));
                    lemma_precedes_transitive(name, list[at], list[j - 1]);
                }
            } else {
                let a = if i < at {
                    i
                } else {
                    i - 1
                };
                let b = if j < at {
                    j
                } else {
                    j - 1
                };
                assert(grown[i] == list[a]);
                assert(grown[j] == list[b]);
            }
        }
        assert forall|n: Seq<char>| #[trigger] grown.contains(n) <==> list.contains(n) || n
            == name by {
            if list.contains(n) {
                let k = choose|k: int| 0 <= k < list.len() && list[k] == n;
                assert(grown[if k < at { k } else { k + 1 }] == n);
            }
            if n == name {
                assert(grown[at] == n);
            }
            if grown.contains(n) && n != name {
                let k = choose|k: int| 0 <= k < grown.len() && grown[k] == n;
                assert(list[if k < at { k } else { k - 1 }] == n);
            }
        }
    }
}

/// Ordering a list keeps what is in it, and puts each text before the later ones,
/// so that none occurs twice.
pub proof fn lemma_in_order(names: Seq<Seq<char>>)
    ensures
        ascending(in_order(names)),
        forall|n: Seq<char>| #[trigger] in_order(names).contains(n) <==> names.contains(n),
    decreases names.len(),
{
    if names.len() > 0 {
        let front = names.drop_last();
        lemma_in_order(front);
        lemma_with_name(in_order(front), names.last());
        assert forall|n: Seq<char>| #[trigger] in_order(names).contains(n) <==> names.contains(n) by {
            assert(names =~= front.push(names.last()));
            if front.contains(n) {
                let k = choose|k: int| 0 <= k < front.len() && front[k] == n;
                assert(names[k] == n);
            }
            if names.contains(n) && n != names.last() {
                let k = choose|k: int| 0 <= k < names.len() && names[k] == n;
                assert(front[k] == n);
            }
            assert(names[names.len() - 1] == names.last());
        }
    }
}

/// Whether a text is in a list.
pub fn list_contains(list: &Vec<String>, name: &str) -> (found: bool)
    ensures
        found == list_view(list@).contains(name@),
{
    let mut i: usize = 0;
    while i < list.len()
        invariant
            i <= list.len(),
            forall|j: int| 0 <= j < i ==> list@[j]@ != name@,
        decreases list.len() - i,
    {
        if text_eq(list[i].as_str(), name) {
            assert(list_view(list@)[i as int] == name@);
            return true;
        }
        i = i + 1;
    }
    assert forall|j: int| 0 <= j < list@.len() implies list_view(list@)[j] != name@ by {
        assert(list_view(list@)[j] == list@[j]@);
    }
    false
}

/// Puts a text in its place, where it is not there yet.
pub fn insert_name(list: &mut Vec<String>, name: String)
    ensures
        list_view(final(list)@) == with_name(list_view(old(list)@), name@),
{
    if list_contains(list, name.as_str()) {
        return;
    }
    let mut i: usize = 0;
    while i < list.len() && text_precedes(list[i].as_str(), name.as_str())
        invariant
            i <= list.len(),
            *list == *old(list),
            forall|j: int| 0 <= j < i ==> precedes(#[trigger] list_view(list@)[j], name@),
        decreases list.len() - i,
    {
        assert(list_view(list@)[i as int] == list@[i as int]@);
        i = i + 1;
    }
    proof {
        lemma_lead(list_view(list@), name@, i as int);
        assert(list_view(list@.insert(i as int, name)) =~= list_view(list@).insert(
            i as int,
            name@,
        ));
    }
    list.insert(i, name);
}

/// The texts of a list in order, each once.
pub fn sort_names(names: &Vec<String>) -> (list: Vec<String>)
    ensures
        list_view(list@) == in_order(list_view(names@)),
{
    let mut list: Vec<String> = Vec::new();
    let mut i: usize = 0;
    assert(list_view(names@).take(0) =~= Seq::empty());
    assert(list_view(list@) =~= in_order(list_view(names@).take(0)));
    while i < names.len()
        invariant
            i <= names.len(),
            list_view(list@) == in_order(list_view(names@).take(i as int)),
        decreases names.len() - i,
    {
        insert_name(&mut list, names[i].clone());
        i = i + 1;
        let ghost seen = list_view(names@).take(i as int);
        assert(seen.drop_last() =~= list_view(names@).take(i - 1));
        assert(seen.last() == names@[i - 1]@);
    }
    assert(list_view(names@).take(i as int) =~= list_view(names@));
    list
}

} // verus!

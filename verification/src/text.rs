//! Text primitives on sequences of characters: substring replacement,
//! ASCII case folding, substring search and the lexicographic order.
//!
//! Every function states its result over `Seq<char>`, the view of `str` and
//! `String`.

use vstd::prelude::*;
use vstd::std_specs::iter::IteratorSpec;

verus! {

/// `String::push` appends the given character to the end of the string.
pub assume_specification[ String::push ](s: &mut String, c: char)
    ensures
        final(s)@ == old(s)@.push(c),
;

/// The characters of `s`, in order.
pub fn chars_of(s: &str) -> (out: Vec<char>)
    ensures
        out@ == s@,
{
    let mut out: Vec<char> = Vec::new();
    for c in it: s.chars()
        invariant
            out@ == it.seq().take(it.index()),
            it.seq() == s@,
    {
        out.push(c);
    }
    out
}

/// The string made of the characters of `chars`, in order.
pub fn string_of(chars: &[char]) -> (out: String)
    ensures
        out@ == chars@,
{
    let mut out = String::new();
    let mut i: usize = 0;
    while i < chars.len()
        invariant
            i <= chars.len(),
            out@ == chars@.take(i as int),
        decreases chars.len() - i,
    {
        out.push(chars[i]);
        i += 1;
    }
    out
}

/// `s` begins with `prefix`.
pub open spec fn starts_with(s: Seq<char>, prefix: Seq<char>) -> bool {
    prefix.len() <= s.len() && s.take(prefix.len() as int) == prefix
}

/// `s` with every occurrence of `from` replaced by `to`, scanning from the
/// left; occurrences do not overlap. An empty `from` replaces nothing.
pub open spec fn replace_all(s: Seq<char>, from: Seq<char>, to: Seq<char>) -> Seq<char>
    decreases s.len(),
{
    if from.len() == 0 || s.len() == 0 {
        s
    } else if starts_with(s, from) {
        to + replace_all(s.skip(from.len() as int), from, to)
    } else {
        seq![s[0]] + replace_all(s.skip(1), from, to)
    }
}

/// `needle` occurs in `s` at position `at`.
pub open spec fn occurs_at(s: Seq<char>, at: int, needle: Seq<char>) -> bool {
    0 <= at && at + needle.len() <= s.len() && s.subrange(at, at + needle.len()) == needle
}

/// `needle` occurs somewhere in `s`.
pub open spec fn contains(s: Seq<char>, needle: Seq<char>) -> bool {
    exists|at: int| occurs_at(s, at, needle)
}

/// Whether `needle` occurs in `s` at position `at`.
pub fn matches_at(s: &[char], at: usize, needle: &[char]) -> (found: bool)
    ensures
        found == occurs_at(s@, at as int, needle@),
{
    if at > s.len() || needle.len() > s.len() - at {
        return false;
    }
    let mut k: usize = 0;
    while k < needle.len()
        invariant
            k <= needle.len(),
            at + needle.len() <= s.len(),
            forall|j: int| 0 <= j < k ==> s@[at + j] == needle@[j],
        decreases needle.len() - k,
    {
        if s[at + k] != needle[k] {
            assert(s@.subrange(at as int, at + needle.len())[k as int] != needle@[k as int]);
            return false;
        }
        k += 1;
    }
    assert(s@.subrange(at as int, at + needle.len()) =~= needle@);
    true
}

/// Replaces every occurrence of `from` in `s` by `to`.
pub fn replace_chars(s: &[char], from: &[char], to: &[char]) -> (out: Vec<char>)
    requires
        from.len() > 0,
    ensures
        out@ == replace_all(s@, from@, to@),
{
    let mut out: Vec<char> = Vec::new();
    let mut i: usize = 0;
    assert(s@.skip(0) =~= s@);
    assert(out@ + replace_all(s@, from@, to@) =~= replace_all(s@, from@, to@));
    while i < s.len()
        invariant
            i <= s.len(),
            from.len() > 0,
            replace_all(s@, from@, to@) == out@ + replace_all(s@.skip(i as int), from@, to@),
        decreases s.len() - i,
    {
        let ghost rest = s@.skip(i as int);
        let ghost before = out@;
        if matches_at(s, i, from) {
            assert(rest.take(from.len() as int) =~= s@.subrange(i as int, i + from.len()));
            assert(rest.skip(from.len() as int) =~= s@.skip(i + from.len()));
            let mut k: usize = 0;
            while k < to.len()
                invariant
                    k <= to.len(),
                    out@ == before + to@.take(k as int),
                decreases to.len() - k,
            {
                out.push(to[k]);
                k += 1;
                assert(out@ =~= before + to@.take(k as int));
            }
            assert(to@.take(to.len() as int) =~= to@);
            i += from.len();
            assert(before + (to@ + replace_all(s@.skip(i as int), from@, to@)) =~= out@
                + replace_all(s@.skip(i as int), from@, to@));
        } else {
            assert(from.len() <= rest.len() ==> rest.take(from.len() as int) =~= s@.subrange(
                i as int,
                i + from.len(),
            ));
            assert(rest.skip(1) =~= s@.skip(i + 1));
            out.push(s[i]);
            i += 1;
            assert(before + (seq![rest[0]] + replace_all(s@.skip(i as int), from@, to@)) =~= out@
                + replace_all(s@.skip(i as int), from@, to@));
        }
    }
    assert(out@ + Seq::<char>::empty() =~= out@);
    out
}

/// Whether `needle` occurs somewhere in `s`.
pub fn contains_chars(s: &[char], needle: &[char]) -> (found: bool)
    ensures
        found == contains(s@, needle@),
{
    let mut i: usize = 0;
    while i < s.len()
        invariant
            i <= s.len(),
            forall|at: int| 0 <= at < i ==> !occurs_at(s@, at, needle@),
        decreases s.len() - i,
    {
        if matches_at(s, i, needle) {
            return true;
        }
        i += 1;
    }
    matches_at(s, i, needle)
}

/// Whether `needle` occurs somewhere in `s`.
pub fn str_contains(s: &str, needle: &str) -> (found: bool)
    ensures
        found == contains(s@, needle@),
{
    let s_chars = chars_of(s);
    let needle_chars = chars_of(needle);
    contains_chars(s_chars.as_slice(), needle_chars.as_slice())
}

/// `s` with each character for which `hit` holds replaced by `with`.
pub open spec fn replace_each(s: Seq<char>, hit: spec_fn(char) -> bool, with: char) -> Seq<char> {
    Seq::new(s.len(), |i: int| if hit(s[i]) { with } else { s[i] })
}

/// The lower-case form of an ASCII upper-case letter; any other character
/// unchanged.
pub open spec fn ascii_lower(c: char) -> char {
    if 'A' <= c && c <= 'Z' {
        ((c as u32) + 32) as char
    } else {
        c
    }
}

/// `a` and `b` are equal up to the case of their ASCII letters.
pub open spec fn eq_ignoring_ascii_case(a: Seq<char>, b: Seq<char>) -> bool {
    a.len() == b.len() && forall|i: int| 0 <= i < a.len() ==> ascii_lower(a[i]) == ascii_lower(b[i])
}

/// Whether the two characters are equal up to ASCII case.
pub fn char_eq_ignore_ascii_case(a: char, b: char) -> (same: bool)
    ensures
        same == (ascii_lower(a) == ascii_lower(b)),
{
    let x: u32 = a as u32;
    let y: u32 = b as u32;
    let lx: u32 = if 'A' <= a && a <= 'Z' {
        x + 32
    } else {
        x
    };
    let ly: u32 = if 'A' <= b && b <= 'Z' {
        y + 32
    } else {
        y
    };
    assert(ascii_lower(a) as u32 == lx);
    assert(ascii_lower(b) as u32 == ly);
    lx == ly
}

/// Whether `a` and `b` are equal up to the case of their ASCII letters.
pub fn eq_ignore_ascii_case(a: &str, b: &str) -> (same: bool)
    ensures
        same == eq_ignoring_ascii_case(a@, b@),
{
    let mut rest_a = a.chars();
    let mut rest_b = b.chars();
    let ghost mut k: int = 0;
    assert(a@.skip(0) =~= a@);
    assert(b@.skip(0) =~= b@);
    loop
        invariant
            0 <= k <= a@.len(),
            k <= b@.len(),
            rest_a.remaining() == a@.skip(k),
            rest_b.remaining() == b@.skip(k),
            forall|j: int| 0 <= j < k ==> ascii_lower(a@[j]) == ascii_lower(b@[j]),
        decreases a@.len() - k,
    {
        match (rest_a.next(), rest_b.next()) {
            (None, None) => {
                return true;
            },
            (Some(x), Some(y)) => {
                assert(x == a@[k]);
                assert(y == b@[k]);
                if !char_eq_ignore_ascii_case(x, y) {
                    return false;
                }
                assert(a@.skip(k).drop_first() =~= a@.skip(k + 1));
                assert(b@.skip(k).drop_first() =~= b@.skip(k + 1));
                proof {
                    k = k + 1;
                }
            },
            _ => {
                return false;
            },
        }
    }
}

/// Equality up to ASCII case is symmetric and transitive.
pub proof fn lemma_eq_ignoring_ascii_case_equivalence(a: Seq<char>, b: Seq<char>, c: Seq<char>)
    ensures
        eq_ignoring_ascii_case(a, a),
        eq_ignoring_ascii_case(a, b) ==> eq_ignoring_ascii_case(b, a),
        eq_ignoring_ascii_case(a, b) && eq_ignoring_ascii_case(b, c) ==> eq_ignoring_ascii_case(
            a,
            c,
        ),
{
}

/// `a` comes before `b` in the lexicographic order by character code: they
/// agree on the first `k` characters, and there `a` ends and `b` goes on, or
/// `a` goes on with the smaller character.
pub open spec fn lex_less_at(a: Seq<char>, b: Seq<char>, k: int) -> bool {
    &&& 0 <= k <= a.len()
    &&& k < b.len()
    &&& a.take(k) == b.take(k)
    &&& (k == a.len() || a[k] < b[k])
}

/// `a` comes strictly before `b` in the lexicographic order by character
/// code, the order of `str` and `String`.
pub open spec fn lex_less(a: Seq<char>, b: Seq<char>) -> bool {
    exists|k: int| lex_less_at(a, b, k)
}

/// How a string stands to another in the lexicographic order.
#[derive(Debug, Clone, Copy, PartialEq, Eq, Structural)]
pub enum Position {
    Before,
    Same,
    After,
}

/// Where `a` stands to `b` in the lexicographic order.
pub open spec fn position_of(a: Seq<char>, b: Seq<char>) -> Position {
    if a == b {
        Position::Same
    } else if lex_less(a, b) {
        Position::Before
    } else {
        Position::After
    }
}

/// The lexicographic order is irreflexive.
pub proof fn lemma_lex_less_irreflexive(a: Seq<char>)
    ensures
        !lex_less(a, a),
{
}

/// The lexicographic order is transitive.
pub proof fn lemma_lex_less_transitive(a: Seq<char>, b: Seq<char>, c: Seq<char>)
    requires
        lex_less(a, b),
        lex_less(b, c),
    ensures
        lex_less(a, c),
{
    let i = choose|k: int| lex_less_at(a, b, k);
    let j = choose|k: int| lex_less_at(b, c, k);
    if i <= j {
        assert(a.take(i) =~= c.take(i)) by {
            assert forall|n: int| 0 <= n < i implies a[n] == c[n] by {
                assert(a.take(i)[n] == b.take(i)[n]);
                assert(b.take(j)[n] == c.take(j)[n]);
            }
        }
        if i < j {
            assert(b.take(j)[i] == c.take(j)[i]);
        }
        assert(lex_less_at(a, c, i));
    } else {
        assert(a.take(j) =~= c.take(j)) by {
            assert forall|n: int| 0 <= n < j implies a[n] == c[n] by {
                assert(a.take(i)[n] == b.take(i)[n]);
                assert(b.take(j)[n] == c.take(j)[n]);
            }
        }
        assert(a.take(i)[j] == b.take(i)[j]);
        assert(lex_less_at(a, c, j));
    }
}

/// Two different strings are ordered one way or the other.
pub proof fn lemma_lex_less_total(a: Seq<char>, b: Seq<char>)
    ensures
        a == b || lex_less(a, b) || lex_less(b, a),
{
    if a =~= b {
    } else {
        let k = first_difference(a, b);
        lemma_first_difference(a, b);
        assert(a.take(a.len() as int) =~= a);
        assert(b.take(b.len() as int) =~= b);
        if k == a.len() {
            assert(lex_less_at(a, b, k));
        } else if k == b.len() {
            assert(lex_less_at(b, a, k));
        } else if a[k] < b[k] {
            assert(lex_less_at(a, b, k));
        } else {
            assert(lex_less_at(b, a, k));
        }
    }
}

/// The length of the longest common prefix of `a` and `b`.
pub open spec fn first_difference(a: Seq<char>, b: Seq<char>) -> int
    decreases a.len(),
{
    if a.len() == 0 || b.len() == 0 || a[0] != b[0] {
        0
    } else {
        1 + first_difference(a.skip(1), b.skip(1))
    }
}

/// `a` and `b` agree before `first_difference(a, b)` and, where both go on,
/// differ there.
pub proof fn lemma_first_difference(a: Seq<char>, b: Seq<char>)
    ensures
        0 <= first_difference(a, b) <= a.len(),
        first_difference(a, b) <= b.len(),
        a.take(first_difference(a, b)) == b.take(first_difference(a, b)),
        first_difference(a, b) < a.len() && first_difference(a, b) < b.len() ==> a[first_difference(
            a,
            b,
        )] != b[first_difference(a, b)],
    decreases a.len(),
{
    if a.len() == 0 || b.len() == 0 || a[0] != b[0] {
        assert(a.take(0) =~= b.take(0));
    } else {
        lemma_first_difference(a.skip(1), b.skip(1));
        let k = first_difference(a.skip(1), b.skip(1));
        assert(a.take(k + 1) =~= b.take(k + 1)) by {
            assert forall|n: int| 0 <= n < k + 1 implies a[n] == b[n] by {
                if n > 0 {
                    assert(a.skip(1).take(k)[n - 1] == b.skip(1).take(k)[n - 1]);
                }
            }
        }
    }
}

/// Where `a` stands to `b` in the lexicographic order.
pub fn str_position(a: &str, b: &str) -> (position: Position)
    ensures
        position == position_of(a@, b@),
{
    let mut rest_a = a.chars();
    let mut rest_b = b.chars();
    let ghost mut k: int = 0;
    assert(a@.skip(0) =~= a@);
    assert(b@.skip(0) =~= b@);
    assert(a@.take(0) =~= b@.take(0));
    loop
        invariant
            0 <= k <= a@.len(),
            k <= b@.len(),
            rest_a.remaining() == a@.skip(k),
            rest_b.remaining() == b@.skip(k),
            a@.take(k) == b@.take(k),
        decreases a@.len() - k,
    {
        let next_a = rest_a.next();
        let next_b = rest_b.next();
        match (next_a, next_b) {
            (None, None) => {
                assert(a@ =~= a@.take(k));
                assert(b@ =~= b@.take(k));
                return Position::Same;
            },
            (None, Some(_)) => {
                assert(lex_less_at(a@, b@, k));
                return Position::Before;
            },
            (Some(_), None) => {
                assert(lex_less_at(b@, a@, k));
                proof {
                    lemma_lex_less_asymmetric(b@, a@);
                }
                return Position::After;
            },
            (Some(x), Some(y)) => {
                assert(x == a@[k]);
                assert(y == b@[k]);
                if x < y {
                    assert(lex_less_at(a@, b@, k));
                    return Position::Before;
                } else if y < x {
                    assert(lex_less_at(b@, a@, k));
                    proof {
                        lemma_lex_less_asymmetric(b@, a@);
                    }
                    return Position::After;
                }
                assert(a@.take(k + 1) =~= a@.take(k).push(x));
                assert(b@.take(k + 1) =~= b@.take(k).push(y));
                assert(a@.skip(k).drop_first() =~= a@.skip(k + 1));
                assert(b@.skip(k).drop_first() =~= b@.skip(k + 1));
                proof {
                    k = k + 1;
                }
            },
        }
    }
}

/// No two strings are each before the other.
pub proof fn lemma_lex_less_asymmetric(a: Seq<char>, b: Seq<char>)
    requires
        lex_less(a, b),
    ensures
        !lex_less(b, a),
        a != b,
{
    if lex_less(b, a) {
        lemma_lex_less_transitive(a, b, a);
    }
    lemma_lex_less_irreflexive(a);
}

} // verus!

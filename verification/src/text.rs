//! Character sequences: conversions between strings and vectors of
//! characters, splitting at a separator, and decimal digits.

use vstd::prelude::*;

verus! {

/// `String::push` appends one character to the string.
pub assume_specification[ String::push ](s: &mut String, c: char)
    ensures
        final(s)@ == old(s)@.push(c),
;

/// `str`'s `==` holds exactly where the two hold the same characters.
pub assume_specification[ <str as PartialEq>::eq ](a: &str, b: &str) -> (r: bool)
    ensures
        r == (a@ == b@),
;

/// Reports whether `a` and `b` hold the same characters.
pub fn same_text(a: &str, b: &str) -> (r: bool)
    ensures
        r == (a@ == b@),
{
    *a == *b
}

/// The texts of a list of strings.
pub open spec fn words(list: Seq<String>) -> Seq<Seq<char>> {
    Seq::new(list.len(), |i: int| list[i]@)
}

/// Reports whether `a` and `b` hold the same characters.
pub fn same_chars(a: &Vec<char>, b: &Vec<char>) -> (r: bool)
    ensures
        r == (a@ == b@),
{
    if a.len() != b.len() {
        return false;
    }
    let mut i: usize = 0;
    while i < a.len()
        invariant
            i <= a.len(),
            a.len() == b.len(),
            forall|j: int| 0 <= j < i ==> a@[j] == b@[j],
        decreases a.len() - i,
    {
        if a[i] != b[i] {
            return false;
        }
        i += 1;
    }
    assert(a@ =~= b@);
    true
}

/// The characters of `s`, in order.
pub fn chars_of(s: &str) -> (v: Vec<char>)
    ensures
        v@ == s@,
{
    let mut v: Vec<char> = Vec::new();
    for c in it: s.chars()
        invariant
            it.seq() == s@,
            v@ == s@.take(it.index()),
    {
        v.push(c);
    }
    assert(s@.take(s@.len() as int) == s@);
    v
}

/// The string that holds the characters of `v`, in order.
pub fn string_of(v: &Vec<char>) -> (s: String)
    ensures
        s@ == v@,
{
    let mut s = String::new();
    let mut i: usize = 0;
    while i < v.len()
        invariant
            i <= v.len(),
            s@ == v@.take(i as int),
        decreases v.len() - i,
    {
        s.push(v[i]);
        i += 1;
    }
    assert(v@.take(v@.len() as int) == v@);
    s
}

/// The index of the first occurrence of `c` in `s`, or the length of `s`
/// where `c` does not occur.
pub open spec fn first_index(s: Seq<char>, c: char) -> int
    decreases s.len(),
{
    if s.len() == 0 || s[0] == c {
        0
    } else {
        1 + first_index(s.drop_first(), c)
    }
}

/// Whether `c` occurs in `s`.
pub open spec fn occurs(s: Seq<char>, c: char) -> bool {
    first_index(s, c) < s.len()
}

/// What stands in `s` before the first `c`: all of `s` where `c` does not
/// occur.
pub open spec fn head(s: Seq<char>, c: char) -> Seq<char> {
    s.take(first_index(s, c))
}

/// What stands in `s` after the first `c`: nothing where `c` does not occur.
pub open spec fn tail(s: Seq<char>, c: char) -> Seq<char> {
    if occurs(s, c) {
        s.skip(first_index(s, c) + 1)
    } else {
        Seq::empty()
    }
}

/// `first_index` is the least index that holds `c`, where there is one.
pub proof fn lemma_first_index(s: Seq<char>, c: char)
    ensures
        0 <= first_index(s, c) <= s.len(),
        forall|j: int| 0 <= j < first_index(s, c) ==> s[j] != c,
        first_index(s, c) < s.len() ==> s[first_index(s, c)] == c,
        occurs(s, c) <==> s.contains(c),
    decreases s.len(),
{
    if s.len() == 0 || s[0] == c {
    } else {
        let rest = s.drop_first();
        lemma_first_index(rest, c);
        assert forall|j: int| 0 <= j < first_index(s, c) implies s[j] != c by {
            if j > 0 {
                assert(s[j] == rest[j - 1]);
            }
        }
        if first_index(s, c) < s.len() {
            assert(s[first_index(s, c)] == rest[first_index(rest, c)]);
        }
    }
    if s.contains(c) {
        let k = choose|k: int| 0 <= k < s.len() && s[k] == c;
        assert(first_index(s, c) <= k);
    }
}

/// An index that holds `c` and has no `c` before it is the first index.
pub proof fn lemma_first_index_is(s: Seq<char>, c: char, i: int)
    requires
        0 <= i <= s.len(),
        forall|j: int| 0 <= j < i ==> s[j] != c,
        i < s.len() ==> s[i] == c,
    ensures
        first_index(s, c) == i,
{
    lemma_first_index(s, c);
    let f = first_index(s, c);
    if f < i {
        assert(s[f] != c);
    }
    if i < f {
        assert(s[i] == c);
    }
}

/// In `a + [c] + b`, where `a` holds no `c`, the head is `a` and the tail `b`.
pub proof fn lemma_split_joined(a: Seq<char>, c: char, b: Seq<char>)
    requires
        !occurs(a, c),
    ensures
        occurs(a.push(c) + b, c),
        head(a.push(c) + b, c) == a,
        tail(a.push(c) + b, c) == b,
{
    let s = a.push(c) + b;
    lemma_first_index(a, c);
    assert forall|j: int| 0 <= j < a.len() implies s[j] != c by {
        assert(s[j] == a[j]);
    }
    assert(s[a.len() as int] == c);
    lemma_first_index_is(s, c, a.len() as int);
    assert(s.take(a.len() as int) =~= a);
    assert(s.skip(a.len() as int + 1) =~= b);
}

/// The index of the first `c` in `v`, or the length of `v`.
pub fn position(v: &Vec<char>, c: char) -> (i: usize)
    ensures
        i == first_index(v@, c),
        i <= v.len(),
{
    let mut i: usize = 0;
    while i < v.len() && v[i] != c
        invariant
            i <= v.len(),
            forall|j: int| 0 <= j < i ==> v@[j] != c,
        decreases v.len() - i,
    {
        i += 1;
    }
    proof {
        lemma_first_index_is(v@, c, i as int);
    }
    i
}

/// The part of `v` from index `from` up to, not including, index `to`.
pub fn part(v: &Vec<char>, from: usize, to: usize) -> (r: Vec<char>)
    requires
        from <= to <= v.len(),
    ensures
        r@ == v@.subrange(from as int, to as int),
{
    let mut r: Vec<char> = Vec::new();
    let mut i: usize = from;
    while i < to
        invariant
            from <= i <= to <= v.len(),
            r@ == v@.subrange(from as int, i as int),
        decreases to - i,
    {
        r.push(v[i]);
        assert(v@.subrange(from as int, i as int).push(v@[i as int]) == v@.subrange(
            from as int,
            i as int + 1,
        ));
        i += 1;
    }
    r
}

/// Splits `v` at its first `c`: what stands before it, and what stands after
/// it where there is one.
pub fn split_first(v: &Vec<char>, c: char) -> (r: (Vec<char>, Option<Vec<char>>))
    ensures
        r.0@ == head(v@, c),
        occurs(v@, c) ==> r.1 is Some && r.1->0@ == tail(v@, c),
        !occurs(v@, c) ==> r.1 is None,
{
    let i = position(v, c);
    let before = part(v, 0, i);
    if i < v.len() {
        let after = part(v, i + 1, v.len());
        (before, Some(after))
    } else {
        (before, None)
    }
}

/// Whether `c` is one of the ten ASCII decimal digits.
pub open spec fn is_digit(c: char) -> bool {
    '0' <= c && c <= '9'
}

/// The number that the decimal digit `c` stands for.
pub open spec fn digit_value(c: char) -> int {
    c as int - '0' as int
}

/// Whether `s` is made of decimal digits alone.
pub open spec fn all_digits(s: Seq<char>) -> bool {
    forall|i: int| 0 <= i < s.len() ==> is_digit(#[trigger] s[i])
}

/// The number that the decimal digits of `s` spell, the most significant
/// first.
pub open spec fn decimal_value(s: Seq<char>) -> int
    decreases s.len(),
{
    if s.len() == 0 {
        0
    } else {
        decimal_value(s.drop_last()) * 10 + digit_value(s.last())
    }
}

/// The digit that stands for `n`.
pub open spec fn digit_char(n: int) -> char
    recommends
        0 <= n <= 9,
{
    (n + '0' as int) as char
}

/// The decimal digits of `n` without leading zeros; `"0"` for zero.
pub open spec fn decimal_digits(n: nat) -> Seq<char>
    decreases n,
{
    if n < 10 {
        seq![digit_char(n as int)]
    } else {
        decimal_digits(n / 10).push(digit_char((n % 10) as int))
    }
}

/// The decimal digits of `n`.
pub fn digits_of(n: u16) -> (r: Vec<char>)
    ensures
        r@ == decimal_digits(n as nat),
    decreases n,
{
    if n < 10 {
        let mut r: Vec<char> = Vec::new();
        r.push(char_of_digit(n as u8));
        assert(r@ =~= decimal_digits(n as nat));
        r
    } else {
        let mut r = digits_of(n / 10);
        r.push(char_of_digit((n % 10) as u8));
        r
    }
}

/// The digits of `n` are digits, and spell `n`.
pub proof fn lemma_decimal_digits(n: nat)
    ensures
        decimal_digits(n).len() >= 1,
        all_digits(decimal_digits(n)),
        decimal_value(decimal_digits(n)) == n,
    decreases n,
{
    if n < 10 {
        let s = decimal_digits(n);
        assert(s.drop_last() =~= Seq::<char>::empty());
        assert(decimal_value(s.drop_last()) == 0);
    } else {
        lemma_decimal_digits(n / 10);
        let s = decimal_digits(n);
        assert(s.drop_last() =~= decimal_digits(n / 10));
    }
}

/// A sequence of digits spells a number that is not negative, and each of
/// its prefixes spells a number that is not greater.
pub proof fn lemma_decimal_value_prefix(s: Seq<char>, k: int)
    requires
        all_digits(s),
        0 <= k <= s.len(),
    ensures
        0 <= decimal_value(s.take(k)) <= decimal_value(s),
    decreases s.len() - k,
{
    if k == s.len() {
        assert(s.take(k) =~= s);
        lemma_decimal_value_nonnegative(s);
    } else {
        lemma_decimal_value_prefix(s, k + 1);
        let t = s.take(k + 1);
        assert(t.drop_last() =~= s.take(k));
        assert(is_digit(t.last()));
        lemma_decimal_value_nonnegative(s.take(k));
    }
}

/// A sequence of digits spells a number that is not negative.
pub proof fn lemma_decimal_value_nonnegative(s: Seq<char>)
    requires
        all_digits(s),
    ensures
        0 <= decimal_value(s),
    decreases s.len(),
{
    if s.len() > 0 {
        lemma_decimal_value_nonnegative(s.drop_last());
        assert(is_digit(s.last()));
    }
}

/// Reports whether `c` is a decimal digit.
pub fn char_is_digit(c: char) -> (r: bool)
    ensures
        r == is_digit(c),
{
    '0' <= c && c <= '9'
}

/// The number that the decimal digit `c` stands for.
pub fn value_of_digit(c: char) -> (r: u8)
    requires
        is_digit(c),
    ensures
        r == digit_value(c),
        r <= 9,
{
    ((c as u32) - ('0' as u32)) as u8
}

/// The digit that stands for `n`.
pub fn char_of_digit(n: u8) -> (c: char)
    requires
        n <= 9,
    ensures
        c == digit_char(n as int),
        is_digit(c),
        digit_value(c) == n,
{
    (n + 48u8) as char
}

/// The number that `s` spells, where `s` is made of digits alone, holds at
/// least one, and spells a number up to `limit`.
pub open spec fn parse_decimal_spec(s: Seq<char>, limit: int) -> Option<u32> {
    if s.len() > 0 && all_digits(s) && decimal_value(s) <= limit {
        Some(decimal_value(s) as u32)
    } else {
        None
    }
}

/// Reads `v` as a decimal number: `Some` of the number that its digits
/// spell where `v` is made of digits alone, holds at least one, and spells
/// a number up to `limit`; `None` for every other `v`.
pub fn parse_decimal(v: &Vec<char>, limit: u32) -> (r: Option<u32>)
    requires
        limit <= 100_000_000,
    ensures
        r == parse_decimal_spec(v@, limit as int),
{
    if v.len() == 0 {
        return None;
    }
    let mut acc: u32 = 0;
    let mut i: usize = 0;
    while i < v.len()
        invariant
            i <= v.len(),
            limit <= 100_000_000,
            all_digits(v@.take(i as int)),
            acc == decimal_value(v@.take(i as int)),
            acc <= limit,
        decreases v.len() - i,
    {
        let c = v[i];
        if !char_is_digit(c) {
            assert(!all_digits(v@)) by {
                assert(!is_digit(v@[i as int]));
            }
            return None;
        }
        let d: u8 = value_of_digit(c);
        let next: u32 = acc * 10 + d as u32;
        proof {
            let t = v@.take(i as int + 1);
            assert(t.drop_last() =~= v@.take(i as int));
            assert(t.last() == c);
            assert(all_digits(t)) by {
                assert forall|j: int| 0 <= j < t.len() implies is_digit(#[trigger] t[j]) by {
                    if j < i {
                        assert(t[j] == v@.take(i as int)[j]);
                    }
                }
            }
            assert(decimal_value(t) == next);
        }
        if next > limit {
            proof {
                if all_digits(v@) {
                    lemma_decimal_value_prefix(v@, i as int + 1);
                }
            }
            return None;
        }
        acc = next;
        i += 1;
    }
    assert(v@.take(v@.len() as int) =~= v@);
    Some(acc)
}

/// Whether `a` stands before `b` in the order of strings: at the first
/// index at which they differ `a` has ended, or holds the lesser character.
pub open spec fn precedes(a: Seq<char>, b: Seq<char>) -> bool
    decreases a.len(),
{
    if b.len() == 0 {
        false
    } else if a.len() == 0 {
        true
    } else if a[0] != b[0] {
        a[0] < b[0]
    } else {
        precedes(a.drop_first(), b.drop_first())
    }
}

/// No string stands before itself.
pub proof fn lemma_precedes_irreflexive(a: Seq<char>)
    ensures
        !precedes(a, a),
    decreases a.len(),
{
    if a.len() > 0 {
        lemma_precedes_irreflexive(a.drop_first());
    }
}

/// Two strings that start with blocks of one length are ordered by those
/// blocks where the blocks differ, and by what follows them where not.
pub proof fn lemma_precedes_blocks(x: Seq<char>, y: Seq<char>, a: Seq<char>, b: Seq<char>)
    requires
        x.len() == y.len(),
    ensures
        precedes(x + a, y + b) == (if x == y {
            precedes(a, b)
        } else {
            precedes(x, y)
        }),
    decreases x.len(),
{
    if x.len() == 0 {
        assert(x =~= y);
        assert(x + a =~= a);
        assert(y + b =~= b);
    } else {
        let xs = x.drop_first();
        let ys = y.drop_first();
        assert((x + a)[0] == x[0]);
        assert((y + b)[0] == y[0]);
        assert((x + a).drop_first() =~= xs + a);
        assert((y + b).drop_first() =~= ys + b);
        lemma_precedes_blocks(xs, ys, a, b);
        if x[0] == y[0] {
            if xs == ys {
                assert forall|i: int| 0 <= i < x.len() implies x[i] == y[i] by {
                    if i > 0 {
                        assert(x[i] == xs[i - 1]);
                        assert(y[i] == ys[i - 1]);
                    }
                }
                assert(x =~= y);
            } else {
                assert(x != y);
            }
        } else {
            assert(x != y);
        }
    }
}

} // verus!

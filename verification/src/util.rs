//! Sequence helpers shared by the map and container logic.

use vstd::prelude::*;

verus! {

/// `s` with its first occurrence of `x` removed (unchanged if `x` does not occur).
pub open spec fn remove_first<T>(s: Seq<T>, x: T) -> Seq<T>
    decreases s.len(),
{
    if s.len() == 0 {
        s
    } else if s[0] == x {
        s.drop_first()
    } else {
        seq![s[0]] + remove_first(s.drop_first(), x)
    }
}

/// Removing the first occurrence at index `i` is removing index `i`.
pub proof fn lemma_remove_first_at<T>(s: Seq<T>, x: T, i: int)
    requires
        0 <= i < s.len(),
        s[i] == x,
        forall|j: int| 0 <= j < i ==> s[j] != x,
    ensures
        remove_first(s, x) == s.remove(i),
    decreases i,
{
    if i == 0 {
        assert(s.drop_first() =~= s.remove(0));
    } else {
        lemma_remove_first_at(s.drop_first(), x, i - 1);
        assert(s =~= seq![s[0]] + s.drop_first());
        assert(seq![s[0]] + s.drop_first().remove(i - 1) =~= s.remove(i));
    }
}

/// Removing something that does not occur changes nothing.
pub proof fn lemma_remove_first_absent<T>(s: Seq<T>, x: T)
    requires
        !s.contains(x),
    ensures
        remove_first(s, x) == s,
    decreases s.len(),
{
    if s.len() > 0 {
        assert(s[0] != x) by {
            assert(s.contains(s[0]));
        }
        assert forall|y: T| s.drop_first().contains(y) implies s.contains(y) by {
            let k = choose|k: int| 0 <= k < s.drop_first().len() && s.drop_first()[k] == y;
            assert(s[k + 1] == y);
        }
        lemma_remove_first_absent(s.drop_first(), x);
        assert(s =~= seq![s[0]] + s.drop_first());
    }
}

/// Finds the index of the first occurrence of `x` in `v`.
pub fn position_of(v: &Vec<u16>, x: u16) -> (r: Option<usize>)
    ensures
        match r {
            Some(i) => i < v@.len() && v@[i as int] == x && forall|j: int| 0 <= j < i ==> v@[j] != x,
            None => !v@.contains(x),
        },
{
    let mut i: usize = 0;
    while i < v.len()
        invariant
            i <= v@.len(),
            forall|j: int| 0 <= j < i ==> v@[j] != x,
        decreases v.len() - i,
    {
        if v[i] == x {
            return Some(i);
        }
        i = i + 1;
    }
    None
}

/// Removes the first occurrence of `x` from `v`; returns whether one was found.
pub fn remove_first_u16(v: &mut Vec<u16>, x: u16) -> (found: bool)
    ensures
        found == old(v)@.contains(x),
        final(v)@ == remove_first(old(v)@, x),
{
    match position_of(v, x) {
        Some(i) => {
            proof {
                lemma_remove_first_at(v@, x, i as int);
            }
            v.remove(i);
            true
        },
        None => {
            proof {
                lemma_remove_first_absent(v@, x);
            }
            false
        },
    }
}

/// The first element of `s` that satisfies `pred`, if any.
pub open spec fn first_where<T>(s: Seq<T>, pred: spec_fn(T) -> bool) -> Option<T>
    decreases s.len(),
{
    if s.len() == 0 {
        None
    } else if pred(s[0]) {
        Some(s[0])
    } else {
        first_where(s.drop_first(), pred)
    }
}

/// The first match is the element at the first index that satisfies `pred`.
pub proof fn lemma_first_where_at<T>(s: Seq<T>, pred: spec_fn(T) -> bool, i: int)
    requires
        0 <= i < s.len(),
        pred(s[i]),
        forall|j: int| 0 <= j < i ==> !pred(s[j]),
    ensures
        first_where(s, pred) == Some(s[i]),
    decreases i,
{
    if i > 0 {
        lemma_first_where_at(s.drop_first(), pred, i - 1);
    }
}

/// Without any element that satisfies `pred` there is no match.
pub proof fn lemma_first_where_none<T>(s: Seq<T>, pred: spec_fn(T) -> bool)
    requires
        forall|j: int| 0 <= j < s.len() ==> !pred(s[j]),
    ensures
        first_where(s, pred) is None,
    decreases s.len(),
{
    if s.len() > 0 {
        lemma_first_where_none(s.drop_first(), pred);
    }
}

/// Some element satisfies `pred` exactly when there is a match, and the match satisfies `pred`.
pub proof fn lemma_first_where_some<T>(s: Seq<T>, pred: spec_fn(T) -> bool, i: int)
    requires
        0 <= i < s.len(),
        pred(s[i]),
    ensures
        first_where(s, pred) is Some,
    decreases i,
{
    if !pred(s[0]) {
        lemma_first_where_some(s.drop_first(), pred, i - 1);
    }
}

/// A match satisfies the predicate and is an element of the sequence.
pub proof fn lemma_first_where_satisfies<T>(s: Seq<T>, pred: spec_fn(T) -> bool)
    requires
        first_where(s, pred) is Some,
    ensures
        pred(first_where(s, pred)->0),
        exists|i: int| 0 <= i < s.len() && s[i] == first_where(s, pred)->0,
    decreases s.len(),
{
    if !pred(s[0]) {
        lemma_first_where_satisfies(s.drop_first(), pred);
        let i = choose|i: int| 0 <= i < s.drop_first().len() && s.drop_first()[i] == first_where(s, pred)->0;
        assert(s[i + 1] == first_where(s, pred)->0);
    } else {
        assert(s[0] == first_where(s, pred)->0);
    }
}

/// The index of the first element of `s` that satisfies `pred`, if any.
pub open spec fn first_index<T>(s: Seq<T>, pred: spec_fn(T) -> bool) -> Option<int>
    decreases s.len(),
{
    if s.len() == 0 {
        None
    } else if pred(s[0]) {
        Some(0)
    } else {
        match first_index(s.drop_first(), pred) {
            Some(i) => Some(i + 1),
            None => None,
        }
    }
}

/// The first index is the index of the first match, and the first match is the element there.
pub proof fn lemma_first_index<T>(s: Seq<T>, pred: spec_fn(T) -> bool)
    ensures
        first_index(s, pred) matches Some(i) ==> 0 <= i < s.len() && pred(s[i]) && forall|j: int|
            0 <= j < i ==> !pred(#[trigger] s[j]),
        first_index(s, pred) is None ==> forall|j: int| 0 <= j < s.len() ==> !pred(#[trigger] s[j]),
        first_where(s, pred) == match first_index(s, pred) {
            Some(i) => Some(s[i]),
            None => None,
        },
    decreases s.len(),
{
    if s.len() > 0 && !pred(s[0]) {
        lemma_first_index(s.drop_first(), pred);
        assert forall|j: int| 0 <= j < s.len() && (first_index(s, pred) is None || j < first_index(s, pred)->0)
            implies !pred(#[trigger] s[j]) by {
            if j > 0 {
                assert(s[j] == s.drop_first()[j - 1]);
            }
        }
        if first_index(s, pred) is Some {
            assert(s[first_index(s, pred)->0] == s.drop_first()[first_index(s, pred)->0 - 1]);
        }
    }
}

/// The characters of a string.
pub fn chars_of(s: &str) -> (v: Vec<char>)
    ensures
        v@ == s@,
{
    let mut v: Vec<char> = Vec::new();
    for c in it: s.chars()
        invariant
            it.seq() == s@,
            v@ == s@.take(it.index() as int),
    {
        v.push(c);
        proof {
            assert(s@.take(it.index() + 1) =~= s@.take(it.index() as int).push(c));
        }
    }
    proof {
        assert(s@.take(s@.len() as int) =~= s@);
    }
    v
}

/// The code point of a character with ASCII upper-case letters turned to lower case.
pub open spec fn ascii_lower(c: char) -> u32 {
    if 'A' <= c <= 'Z' {
        ((c as u32) + 32) as u32
    } else {
        c as u32
    }
}

/// Two texts are equal when ASCII letters are compared without regard to case.
pub open spec fn spec_eq_ignore_ascii_case(a: Seq<char>, b: Seq<char>) -> bool {
    a.len() == b.len() && forall|i: int| 0 <= i < a.len() ==> ascii_lower(a[i]) == ascii_lower(b[i])
}

fn lower_char(c: char) -> (r: u32)
    ensures
        r == ascii_lower(c),
{
    if 'A' <= c && c <= 'Z' {
        c as u32 + 32
    } else {
        c as u32
    }
}

/// Compares two strings, treating ASCII letters case-insensitively.
pub fn eq_ignore_ascii_case(a: &str, b: &str) -> (r: bool)
    ensures
        r == spec_eq_ignore_ascii_case(a@, b@),
{
    let va = chars_of(a);
    let vb = chars_of(b);
    if va.len() != vb.len() {
        return false;
    }
    let mut i: usize = 0;
    while i < va.len()
        invariant
            va@ == a@,
            vb@ == b@,
            va@.len() == vb@.len(),
            i <= va@.len(),
            forall|j: int| 0 <= j < i ==> ascii_lower(va@[j]) == ascii_lower(vb@[j]),
        decreases va.len() - i,
    {
        if lower_char(va[i]) != lower_char(vb[i]) {
            return false;
        }
        i = i + 1;
    }
    true
}

/// Encoding a concatenation is concatenating the encodings.
pub proof fn lemma_encode_utf8_concat(a: Seq<char>, b: Seq<char>)
    ensures
        vstd::utf8::encode_utf8(a + b) == vstd::utf8::encode_utf8(a) + vstd::utf8::encode_utf8(b),
    decreases a.len(),
{
    if a.len() == 0 {
        assert(a + b =~= b);
        assert(vstd::utf8::encode_utf8(a) =~= Seq::<u8>::empty());
        assert(Seq::<u8>::empty() + vstd::utf8::encode_utf8(b) =~= vstd::utf8::encode_utf8(b));
    } else {
        assert((a + b).drop_first() =~= a.drop_first() + b);
        assert((a + b)[0] == a[0]);
        lemma_encode_utf8_concat(a.drop_first(), b);
        assert(vstd::utf8::encode_utf8(a + b) =~= vstd::utf8::encode_scalar(a[0] as u32) + (
        vstd::utf8::encode_utf8(a.drop_first()) + vstd::utf8::encode_utf8(b)));
    }
}

/// The decimal digit character for `d < 10`.
pub open spec fn digit_char(d: nat) -> char {
    (d + 48) as char
}

/// The decimal representation of a number, without leading zeros.
pub open spec fn decimal(n: nat) -> Seq<char>
    decreases n,
{
    if n < 10 {
        seq![digit_char(n)]
    } else {
        decimal(n / 10).push(digit_char(n % 10))
    }
}

/// Appends the decimal representation of `n`.
pub fn push_decimal(s: &mut String, n: u32)
    ensures
        final(s)@ == old(s)@ + decimal(n as nat),
    decreases n,
{
    if n >= 10 {
        push_decimal(s, n / 10);
    }
    let d: u8 = (n % 10) as u8;
    let ghost before = s@;
    crate::io::push_char(s, (48u8 + d) as char);
    proof {
        if n >= 10 {
            assert(s@ =~= old(s)@ + decimal(n as nat));
        } else {
            assert(s@ =~= old(s)@ + decimal(n as nat));
        }
    }
}

} // verus!

//! Small helpers on character sequences.

use vstd::prelude::*;

verus! {

/// Views an optional string as an optional character sequence.
pub open spec fn opt_text(o: Option<&String>) -> Option<Seq<char>> {
    match o {
        Some(s) => Some(s@),
        None => None,
    }
}

/// Views an optional owned string as an optional character sequence.
pub open spec fn opt_owned_text(o: Option<String>) -> Option<Seq<char>> {
    match o {
        Some(s) => Some(s@),
        None => None,
    }
}

/// Whether `a` comes before `b` on account of position `k`: the two agree
/// before `k`, and there `a` ends while `b` goes on, or `a` has the smaller
/// character.
pub open spec fn precedes_at(a: Seq<char>, b: Seq<char>, k: int) -> bool {
    &&& 0 <= k <= a.len()
    &&& k <= b.len()
    &&& a.take(k) == b.take(k)
    &&& if k == a.len() {
        k < b.len()
    } else {
        k < b.len() && (a[k] as u32) < (b[k] as u32)
    }
}

/// Whether `a` comes before `b` in the order of a dictionary.
pub open spec fn text_precedes(a: Seq<char>, b: Seq<char>) -> bool {
    exists|k: int| precedes_at(a, b, k)
}

/// No text comes before itself.
pub proof fn lemma_precedes_irreflexive(a: Seq<char>)
    ensures
        !text_precedes(a, a),
{
}

/// Of two texts, at most one comes before the other.
pub proof fn lemma_precedes_asymmetric(a: Seq<char>, b: Seq<char>)
    requires
        text_precedes(a, b),
    ensures
        !text_precedes(b, a),
{
    let i = choose|i: int| precedes_at(a, b, i);
    if text_precedes(b, a) {
        let j = choose|j: int| precedes_at(b, a, j);
        if i < j {
            assert(b.take(j)[i] == a.take(j)[i]);
        } else if j < i {
            assert(a.take(i)[j] == b.take(i)[j]);
        }
    }
}

/// The order of two texts is the order of what follows a common beginning.
pub proof fn lemma_precedes_after_prefix(x: Seq<char>, a: Seq<char>, b: Seq<char>)
    requires
        text_precedes(a, b),
    ensures
        text_precedes(x + a, x + b),
{
    let k = choose|k: int| precedes_at(a, b, k);
    let n = x.len() as int;
    assert((x + a).take(n + k) =~= x + a.take(k));
    assert((x + b).take(n + k) =~= x + b.take(k));
    assert(precedes_at(x + a, x + b, n + k));
}

/// The characters of `s`, in order.
pub fn chars_of(s: &str) -> (out: Vec<char>)
    ensures
        out@ == s@,
{
    let mut out: Vec<char> = Vec::new();
    for c in it: s.chars()
        invariant
            out@ == it.seq().take(it.index@),
    {
        out.push(c);
    }
    out
}

/// Whether the characters `chars[from..to]` spell `word`.
pub fn spells(chars: &Vec<char>, from: usize, to: usize, word: &str) -> (r: bool)
    requires
        from <= to <= chars@.len(),
    ensures
        r == (chars@.subrange(from as int, to as int) == word@),
{
    let letters = chars_of(word);
    if letters.len() != to - from {
        return false;
    }
    let ghost part = chars@.subrange(from as int, to as int);
    let mut k: usize = 0;
    while k < letters.len()
        invariant
            from <= to <= chars@.len(),
            letters@ == word@,
            letters@.len() == to - from,
            part == chars@.subrange(from as int, to as int),
            0 <= k <= letters@.len(),
            forall|j: int| 0 <= j < k ==> part[j] == letters@[j],
        decreases letters@.len() - k,
    {
        if chars[from + k] != letters[k] {
            assert(part[k as int] != word@[k as int]);
            return false;
        }
        k += 1;
    }
    assert(part =~= word@);
    true
}

/// Looks for the first `c` among `chars[from..to]`; the result is its offset
/// from `from`.
pub fn find_char(chars: &Vec<char>, from: usize, to: usize, c: char) -> (r: Option<usize>)
    requires
        from <= to <= chars@.len(),
    ensures
        match r {
            Some(k) => chars@.subrange(from as int, to as int).index_of_first(c) == Some(k as int)
                && from + k < to,
            None => chars@.subrange(from as int, to as int).index_of_first(c).is_none(),
        },
{
    let ghost part = chars@.subrange(from as int, to as int);
    let mut k: usize = 0;
    while from + k < to
        invariant
            from <= to <= chars@.len(),
            part == chars@.subrange(from as int, to as int),
            from + k <= to,
            forall|j: int| 0 <= j < k ==> part[j] != c,
        decreases to - from - k,
    {
        if chars[from + k] == c {
            proof {
                assert(part[k as int] == c);
                part.index_of_first_ensures(c);
            }
            return Some(k);
        }
        k += 1;
    }
    proof {
        part.index_of_first_ensures(c);
    }
    None
}

/// Whether two strings hold the same characters.
pub fn same_text(a: &str, b: &str) -> (r: bool)
    ensures
        r == (a@ == b@),
{
    let left = chars_of(a);
    let n: usize = left.len();
    let r = spells(&left, 0, n, b);
    assert(left@.subrange(0, n as int) =~= left@);
    r
}

} // verus!

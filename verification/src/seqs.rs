//! Searching, splitting and rewriting sequences of bytes or characters.

use vstd::prelude::*;
use vstd::slice::slice_subrange;

verus! {

/// An element that can be told apart from others: a byte or a character.
pub trait Symbol: Copy {
    /// Whether two elements are the same one.
    fn same(self, other: Self) -> (same: bool)
        ensures
            same == (self == other),
    ;
}

impl Symbol for u8 {
    fn same(self, other: Self) -> (same: bool) {
        self == other
    }
}

impl Symbol for char {
    fn same(self, other: Self) -> (same: bool) {
        self == other
    }
}

/// The index of the first `x` in `s`, or the length of `s` if there is none.
pub open spec fn first_index<T>(s: Seq<T>, x: T) -> int
    decreases s.len(),
{
    if s.len() == 0 || s[0] == x {
        0
    } else {
        1 + first_index(s.skip(1), x)
    }
}

/// Where `pattern` first occurs in `s`.
pub open spec fn first_match<T>(s: Seq<T>, pattern: Seq<T>) -> Option<int>
    decreases s.len(),
{
    if pattern.is_prefix_of(s) {
        Some(0int)
    } else if s.len() == 0 {
        None
    } else {
        match first_match(s.skip(1), pattern) {
            Some(i) => Some(i + 1),
            None => None,
        }
    }
}

/// The pieces of `s` between the occurrences of `sep`; at least one.
pub open spec fn pieces<T>(s: Seq<T>, sep: T) -> Seq<Seq<T>>
    decreases s.len(),
{
    let i = first_index(s, sep);
    if 0 <= i < s.len() {
        seq![s.take(i)] + pieces(s.skip(i + 1), sep)
    } else {
        seq![s]
    }
}

/// `s` with every occurrence of `pattern`, taken from the left and without
/// overlap, replaced by `by`.
pub open spec fn replaced<T>(s: Seq<T>, pattern: Seq<T>, by: Seq<T>) -> Seq<T>
    decreases s.len(),
{
    if s.len() == 0 || pattern.len() == 0 {
        s
    } else if pattern.is_prefix_of(s) {
        by + replaced(s.skip(pattern.len() as int), pattern, by)
    } else {
        seq![s[0]] + replaced(s.skip(1), pattern, by)
    }
}

/// What a list of slices holds.
pub open spec fn contents<T>(slices: Seq<&[T]>) -> Seq<Seq<T>> {
    slices.map_values(|slice: &[T]| slice@)
}

/// The first index is the only position before which no `x` stands and at
/// which one does, unless there is none.
pub proof fn lemma_first_index<T>(s: Seq<T>, x: T)
    ensures
        0 <= first_index(s, x) <= s.len(),
        forall|j: int| 0 <= j < first_index(s, x) ==> s[j] != x,
        first_index(s, x) < s.len() ==> s[first_index(s, x)] == x,
        first_index(s, x) < s.len() <==> s.contains(x),
    decreases s.len(),
{
    if s.len() != 0 && s[0] != x {
        let rest = s.skip(1);
        lemma_first_index(rest, x);
        let n = first_index(rest, x);
        assert forall|j: int| 0 <= j < first_index(s, x) implies s[j] != x by {
            if j > 0 {
                assert(rest[j - 1] == s[j]);
            }
        }
        if n < rest.len() {
            assert(s[n + 1] == rest[n]);
        } else if s.contains(x) {
            let k = choose|k: int| 0 <= k < s.len() && s[k] == x;
            assert(rest[k - 1] == x);
        }
    }
}

/// Whatever has the properties of the first index is the first index.
pub proof fn lemma_first_index_is<T>(s: Seq<T>, x: T, i: int)
    requires
        0 <= i <= s.len(),
        forall|j: int| 0 <= j < i ==> s[j] != x,
        i < s.len() ==> s[i] == x,
    ensures
        first_index(s, x) == i,
{
    lemma_first_index(s, x);
}

/// The index of the first `x` in a slice, or its length.
pub fn index_of<T: Symbol>(s: &[T], x: T) -> (index: usize)
    ensures
        index == first_index(s@, x),
        index <= s@.len(),
{
    let mut i: usize = 0;
    while i < s.len()
        invariant
            i <= s@.len(),
            forall|j: int| 0 <= j < i ==> s@[j] != x,
        decreases s@.len() - i,
    {
        if s[i].same(x) {
            proof {
                lemma_first_index_is(s@, x, i as int);
            }
            return i;
        }
        i = i + 1;
    }
    proof {
        lemma_first_index_is(s@, x, i as int);
    }
    i
}

/// Whether two slices hold the same elements.
pub fn equal<T: Symbol>(a: &[T], b: &[T]) -> (same: bool)
    ensures
        same == (a@ == b@),
{
    if a.len() != b.len() {
        return false;
    }
    let mut i: usize = 0;
    while i < a.len()
        invariant
            a@.len() == b@.len(),
            i <= a@.len(),
            forall|j: int| 0 <= j < i ==> a@[j] == b@[j],
        decreases a@.len() - i,
    {
        if !a[i].same(b[i]) {
            return false;
        }
        i = i + 1;
    }
    assert(a@ =~= b@);
    true
}

/// Whether a slice begins with the elements of another.
pub fn starts_with<T: Symbol>(s: &[T], prefix: &[T]) -> (yes: bool)
    ensures
        yes == prefix@.is_prefix_of(s@),
{
    prefix.len() <= s.len() && equal(slice_subrange(s, 0, prefix.len()), prefix)
}

/// Whether a slice ends with the elements of another.
pub fn ends_with<T: Symbol>(s: &[T], suffix: &[T]) -> (yes: bool)
    ensures
        yes == suffix@.is_suffix_of(s@),
{
    suffix.len() <= s.len() && equal(
        slice_subrange(s, s.len() - suffix.len(), s.len()),
        suffix,
    )
}

/// Where one slice first occurs in another.
pub fn find<T: Symbol>(s: &[T], pattern: &[T]) -> (index: Option<usize>)
    ensures
        match index {
            Some(i) => first_match(s@, pattern@) == Some(i as int) && i + pattern@.len()
                <= s@.len(),
            None => first_match(s@, pattern@) is None,
        },
{
    let mut i: usize = 0;
    assert(s@.skip(0) =~= s@);
    while i <= s.len()
        invariant
            i <= s@.len() + 1,
            first_match(s@, pattern@) == (if i <= s@.len() {
                match first_match(s@.skip(i as int), pattern@) {
                    Some(k) => Some(k + i),
                    None => None,
                }
            } else {
                None
            }),
        decreases s@.len() + 1 - i,
    {
        let rest = slice_subrange(s, i, s.len());
        if starts_with(rest, pattern) {
            return Some(i);
        }
        if i == s.len() {
            return None;
        }
        assert(s@.skip(i as int).skip(1) =~= s@.skip(i + 1));
        i = i + 1;
    }
    None
}

/// Splits a slice at every `sep`.
pub fn split<'a, T: Symbol>(s: &'a [T], sep: T) -> (parts: Vec<&'a [T]>)
    ensures
        contents(parts@) == pieces(s@, sep),
{
    let mut parts: Vec<&'a [T]> = Vec::new();
    let mut rest: &'a [T] = s;
    loop
        invariant
            contents(parts@) + pieces(rest@, sep) == pieces(s@, sep),
        decreases rest@.len(),
    {
        let i: usize = index_of(rest, sep);
        let ghost before = parts@;
        if i >= rest.len() {
            parts.push(rest);
            assert(contents(parts@) =~= contents(before).push(rest@));
            assert(contents(parts@) =~= contents(before) + seq![rest@]);
            return parts;
        }
        let part = slice_subrange(rest, 0, i);
        parts.push(part);
        assert(contents(parts@) =~= contents(before).push(part@));
        let ghost old_rest = rest@;
        rest = slice_subrange(rest, i + 1, rest.len());
        assert(pieces(old_rest, sep) == seq![part@] + pieces(rest@, sep));
        assert(contents(parts@) + pieces(rest@, sep) =~= contents(before) + pieces(old_rest, sep));
    }
}

/// Replaces every occurrence of a pattern.
pub fn replace<T: Symbol>(s: &[T], pattern: &[T], by: &[T]) -> (result: Vec<T>)
    requires
        pattern@.len() > 0,
    ensures
        result@ == replaced(s@, pattern@, by@),
{
    let mut result: Vec<T> = Vec::new();
    let mut i: usize = 0;
    assert(s@.skip(0) =~= s@);
    assert(result@ + replaced(s@, pattern@, by@) =~= replaced(s@, pattern@, by@));
    while i < s.len()
        invariant
            pattern@.len() > 0,
            i <= s@.len(),
            result@ + replaced(s@.skip(i as int), pattern@, by@) == replaced(s@, pattern@, by@),
        decreases s@.len() - i,
    {
        let rest = slice_subrange(s, i, s.len());
        let ghost done = result@;
        if starts_with(rest, pattern) {
            append(&mut result, by);
            i = i + pattern.len();
            assert(rest@.skip(pattern@.len() as int) =~= s@.skip(i as int));
            assert(result@ + replaced(s@.skip(i as int), pattern@, by@) =~= done + replaced(
                rest@,
                pattern@,
                by@,
            ));
        } else {
            result.push(s[i]);
            i = i + 1;
            assert(rest@.skip(1) =~= s@.skip(i as int));
            assert(result@ + replaced(s@.skip(i as int), pattern@, by@) =~= done + replaced(
                rest@,
                pattern@,
                by@,
            ));
        }
    }
    assert(s@.skip(i as int) =~= Seq::empty());
    assert(result@ + replaced(s@.skip(i as int), pattern@, by@) =~= result@);
    result
}

/// Appends the elements of a slice.
pub fn append<T: Symbol>(v: &mut Vec<T>, s: &[T])
    ensures
        final(v)@ == old(v)@ + s@,
{
    let mut i: usize = 0;
    assert(s@.take(0) =~= Seq::empty());
    assert(v@ =~= old(v)@ + s@.take(0));
    while i < s.len()
        invariant
            i <= s@.len(),
            v@ == old(v)@ + s@.take(i as int),
        decreases s@.len() - i,
    {
        v.push(s[i]);
        i = i + 1;
        assert(v@ =~= old(v)@ + s@.take(i as int));
    }
    assert(s@.take(i as int) =~= s@);
}

/// Appends bytes.
pub fn append_bytes(v: &mut Vec<u8>, s: &[u8])
    ensures
        final(v)@ == old(v)@ + s@,
{
    v.extend_from_slice(s);
    assert(v@ =~= old(v)@ + s@);
}

} // verus!

//! What searching, splitting and rewriting sequences comes to.

use crate::seqs::{
    first_index, first_match, lemma_first_index, lemma_first_index_is, pieces, replaced,
};
use vstd::prelude::*;

verus! {

/// Whether a pattern stands in a sequence at some place.
pub open spec fn stands_at<T>(s: Seq<T>, pattern: Seq<T>, i: int) -> bool {
    0 <= i && i + pattern.len() <= s.len() && s.subrange(i, i + pattern.len()) == pattern
}

/// A pattern is found at the first place where it stands, and not found only if
/// it stands nowhere.
pub proof fn first_place_is_found<T>(s: Seq<T>, pattern: Seq<T>)
    ensures
        match first_match(s, pattern) {
            Some(i) => {
                &&& 0 <= i && i + pattern.len() <= s.len()
                &&& s.subrange(i, i + pattern.len()) == pattern
                &&& forall|j: int| 0 <= j < i ==> !#[trigger] stands_at(s, pattern, j)
            },
            None => forall|j: int| !#[trigger] stands_at(s, pattern, j),
        },
    decreases s.len(),
{
    let n = pattern.len() as int;
    if pattern.is_prefix_of(s) {
        assert(s.subrange(0, n) =~= pattern);
    } else if s.len() == 0 {
        assert forall|j: int| !#[trigger] stands_at(s, pattern, j) by {
            if stands_at(s, pattern, j) {
                assert(pattern =~= s.subrange(0, n));
            }
        }
    } else {
        let rest = s.skip(1);
        first_place_is_found(rest, pattern);
        assert forall|j: int| #[trigger] stands_at(s, pattern, j) implies stands_at(
            rest,
            pattern,
            j - 1,
        ) by {
            if j == 0 {
                assert(pattern =~= s.subrange(0, n));
            }
            assert(rest.subrange(j - 1, j - 1 + n) =~= s.subrange(j, j + n));
        }
        if let Some(i) = first_match(rest, pattern) {
            assert(s.subrange(i + 1, i + 1 + n) =~= rest.subrange(i, i + n));
        }
    }
}

/// Where a pattern first stands, it is found.
pub proof fn place_is_found<T>(s: Seq<T>, pattern: Seq<T>, i: int)
    requires
        stands_at(s, pattern, i),
        forall|j: int| 0 <= j < i ==> !#[trigger] stands_at(s, pattern, j),
    ensures
        first_match(s, pattern) == Some(i),
{
    first_place_is_found(s, pattern);
    if let Some(k) = first_match(s, pattern) {
        assert(stands_at(s, pattern, k));
    }
}

/// What has no separator in it is one piece; and what stands on either side of a
/// separator is split on its own.
pub proof fn pieces_part_at_separators<T>(a: Seq<T>, b: Seq<T>, sep: T)
    ensures
        !a.contains(sep) ==> pieces(a, sep) == seq![a],
        pieces(a + seq![sep] + b, sep) == pieces(a, sep) + pieces(b, sep),
    decreases a.len(),
{
    lemma_first_index(a, sep);
    let i = first_index(a, sep);
    let whole = a + seq![sep] + b;
    lemma_first_index_is(whole, sep, i);
    if i == a.len() {
        assert(pieces(a, sep) =~= seq![a]);
        assert(whole.take(i) =~= a);
        assert(whole.skip(i + 1) =~= b);
        assert(pieces(whole, sep) =~= pieces(a, sep) + pieces(b, sep));
    } else {
        let rest = a.skip(i + 1);
        assert(whole.take(i) =~= a.take(i));
        assert(whole.skip(i + 1) =~= rest + seq![sep] + b);
        pieces_part_at_separators(rest, b, sep);
        assert(pieces(whole, sep) =~= pieces(a, sep) + pieces(b, sep));
    }
}

/// No piece has a separator in it.
pub proof fn pieces_have_no_separators<T>(s: Seq<T>, sep: T)
    ensures
        pieces(s, sep).len() > 0,
        forall|i: int| 0 <= i < pieces(s, sep).len() ==> !(#[trigger] pieces(s, sep)[i]).contains(
            sep,
        ),
    decreases s.len(),
{
    lemma_first_index(s, sep);
    let i = first_index(s, sep);
    if i < s.len() {
        let rest = s.skip(i + 1);
        pieces_have_no_separators(rest, sep);
        assert forall|k: int| 0 <= k < pieces(s, sep).len() implies !(#[trigger] pieces(
            s,
            sep,
        )[k]).contains(sep) by {
            if k > 0 {
                assert(pieces(s, sep)[k] == pieces(rest, sep)[k - 1]);
            } else {
                assert(pieces(s, sep)[0] == s.take(i));
            }
        }
    }
}

/// Where a pattern stands nowhere nothing is replaced; where it first stands it
/// is replaced, what comes before stays, and what comes after is treated alike.
pub proof fn occurrences_are_replaced<T>(s: Seq<T>, pattern: Seq<T>, by: Seq<T>)
    requires
        pattern.len() > 0,
    ensures
        (forall|j: int| !#[trigger] stands_at(s, pattern, j)) ==> replaced(s, pattern, by) == s,
        forall|i: int|
            #![trigger s.take(i)]
            stands_at(s, pattern, i) && (forall|j: int|
                0 <= j < i ==> !#[trigger] stands_at(s, pattern, j)) ==> replaced(s, pattern, by)
                == s.take(i) + by + replaced(s.skip(i + pattern.len()), pattern, by),
    decreases s.len(),
{
    let n = pattern.len() as int;
    if s.len() == 0 {
    } else if pattern.is_prefix_of(s) {
        assert(s.subrange(0, n) =~= pattern);
        assert(stands_at(s, pattern, 0));
        assert forall|i: int|
            #![trigger s.take(i)]
            stands_at(s, pattern, i) && (forall|j: int|
                0 <= j < i ==> !#[trigger] stands_at(s, pattern, j)) implies replaced(
            s,
            pattern,
            by,
        ) == s.take(i) + by + replaced(s.skip(i + pattern.len()), pattern, by) by {
            assert(i == 0);
            assert(s.take(0) + by =~= by);
        }
    } else {
        let rest = s.skip(1);
        occurrences_are_replaced(rest, pattern, by);
        assert forall|j: int| #[trigger] stands_at(s, pattern, j) implies j > 0 && stands_at(
            rest,
            pattern,
            j - 1,
        ) by {
            if j == 0 {
                assert(pattern =~= s.subrange(0, n));
            }
            assert(rest.subrange(j - 1, j - 1 + n) =~= s.subrange(j, j + n));
        }
        assert forall|j: int| #[trigger] stands_at(rest, pattern, j) implies stands_at(
            s,
            pattern,
            j + 1,
        ) by {
            assert(s.subrange(j + 1, j + 1 + n) =~= rest.subrange(j, j + n));
        }
        if forall|j: int| !#[trigger] stands_at(s, pattern, j) {
            assert(replaced(s, pattern, by) =~= s);
        }
        assert forall|i: int|
            #![trigger s.take(i)]
            stands_at(s, pattern, i) && (forall|j: int|
                0 <= j < i ==> !#[trigger] stands_at(s, pattern, j)) implies replaced(
            s,
            pattern,
            by,
        ) == s.take(i) + by + replaced(s.skip(i + pattern.len()), pattern, by) by {
            assert forall|j: int| 0 <= j < i - 1 implies !#[trigger] stands_at(
                rest,
                pattern,
                j,
            ) by {
                if stands_at(rest, pattern, j) {
                    assert(stands_at(s, pattern, j + 1));
                }
            }
            assert(replaced(rest, pattern, by) == rest.take(i - 1) + by + replaced(
                rest.skip(i - 1 + n),
                pattern,
                by,
            ));
            assert(rest.skip(i - 1 + n) =~= s.skip(i + n));
            assert(replaced(s, pattern, by) =~= s.take(i) + by + replaced(
                s.skip(i + n),
                pattern,
                by,
            ));
        }
    }
}

} // verus!

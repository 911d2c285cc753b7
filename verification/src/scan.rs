//! Linear scans over fetched collections: the first element satisfying a
//! predicate, and lemmas that pin down what a scan returns.

use vstd::prelude::*;

verus! {

/// The first element of `s` satisfying `pred`, if any.
pub open spec fn find_first<T>(s: Seq<T>, pred: spec_fn(T) -> bool) -> Option<T>
    decreases s.len(),
{
    if s.len() == 0 {
        None
    } else if pred(s[0]) {
        Some(s[0])
    } else {
        find_first(s.drop_first(), pred)
    }
}

/// What [`find_first`] returns: the match at the least matching position,
/// or `None` exactly when nothing matches.
pub proof fn lemma_find_first_characterizes<T>(s: Seq<T>, pred: spec_fn(T) -> bool)
    ensures
        (match find_first(s, pred) {
            Some(x) => exists|i: int|
                0 <= i < s.len() && pred(#[trigger] s[i]) && x == s[i] && (forall|j: int|
                    0 <= j < i ==> !pred(#[trigger] s[j])),
            None => forall|i: int| 0 <= i < s.len() ==> !pred(#[trigger] s[i]),
        }),
    decreases s.len(),
{
    if s.len() > 0 {
        if !pred(s[0]) {
            lemma_find_first_characterizes(s.drop_first(), pred);
            match find_first(s.drop_first(), pred) {
                Some(x) => {
                    let i = choose|i: int|
                        0 <= i < s.drop_first().len() && pred(#[trigger] s.drop_first()[i]) && x
                            == s.drop_first()[i] && (forall|j: int|
                            0 <= j < i ==> !pred(#[trigger] s.drop_first()[j]));
                    assert(s[i + 1] == s.drop_first()[i]);
                    assert forall|j: int| 0 <= j < i + 1 implies !pred(#[trigger] s[j]) by {
                        if j > 0 {
                            assert(s.drop_first()[j - 1] == s[j]);
                            assert(!pred(s.drop_first()[j - 1]));
                        }
                    }
                    assert(pred(s[i + 1]) && find_first(s, pred)->Some_0 == s[i + 1]);
                },
                None => {
                    assert forall|i: int| 0 <= i < s.len() implies !pred(#[trigger] s[i]) by {
                        if i > 0 {
                            assert(s.drop_first()[i - 1] == s[i]);
                            assert(!pred(s.drop_first()[i - 1]));
                        }
                    }
                },
            }
        }
    }
}

/// When exactly one element matches, the scan returns that element.
pub proof fn lemma_find_first_unique<T>(s: Seq<T>, pred: spec_fn(T) -> bool, i: int)
    requires
        0 <= i < s.len(),
        pred(s[i]),
        forall|j: int| 0 <= j < s.len() && j != i ==> !pred(#[trigger] s[j]),
    ensures
        find_first(s, pred) == Some(s[i]),
{
    lemma_find_first_characterizes(s, pred);
    match find_first(s, pred) {
        Some(x) => {
            let k = choose|k: int|
                0 <= k < s.len() && pred(#[trigger] s[k]) && x == s[k] && (forall|j: int|
                    0 <= j < k ==> !pred(#[trigger] s[j]));
            assert(k == i);
        },
        None => {
            assert(!pred(s[i]));
        },
    }
}

/// When nothing matches, the scan reports an explicit absence.
pub proof fn lemma_find_first_absent<T>(s: Seq<T>, pred: spec_fn(T) -> bool)
    requires
        forall|i: int| 0 <= i < s.len() ==> !pred(#[trigger] s[i]),
    ensures
        find_first(s, pred) is None,
{
    lemma_find_first_characterizes(s, pred);
    match find_first(s, pred) {
        Some(x) => {
            let i = choose|i: int|
                0 <= i < s.len() && pred(#[trigger] s[i]) && x == s[i] && (forall|j: int|
                    0 <= j < i ==> !pred(#[trigger] s[j]));
            assert(!pred(s[i]));
        },
        None => {},
    }
}

/// One step of a scan from position `k`: a non-match passes through.
pub proof fn lemma_find_first_skip_step<T>(s: Seq<T>, pred: spec_fn(T) -> bool, k: int)
    requires
        0 <= k < s.len(),
        !pred(s[k]),
    ensures
        find_first(s.skip(k), pred) == find_first(s.skip(k + 1), pred),
{
    assert(s.skip(k)[0] == s[k]);
    assert(s.skip(k).drop_first() =~= s.skip(k + 1));
}

/// A scan that reaches position `k` on a match returns that element.
pub proof fn lemma_find_first_skip_found<T>(s: Seq<T>, pred: spec_fn(T) -> bool, k: int)
    requires
        0 <= k < s.len(),
        pred(s[k]),
    ensures
        find_first(s.skip(k), pred) == Some(s[k]),
{
    assert(s.skip(k)[0] == s[k]);
}

/// What a filtered sequence holds: exactly the elements of `s` satisfying
/// `pred`.
pub proof fn lemma_filter_membership<T>(s: Seq<T>, pred: spec_fn(T) -> bool)
    ensures
        forall|x: T| #[trigger] s.filter(pred).contains(x) ==> s.contains(x) && pred(x),
        forall|x: T| s.contains(x) && pred(x) ==> #[trigger] s.filter(pred).contains(x),
    decreases s.len(),
{
    reveal(Seq::filter);
    if s.len() == 0 {
        assert forall|x: T| #[trigger] s.filter(pred).contains(x) implies s.contains(x) && pred(
            x,
        ) by {}
        assert forall|x: T| s.contains(x) && pred(x) implies #[trigger] s.filter(pred).contains(
            x,
        ) by {}
    } else {
        let ds = s.drop_last();
        lemma_filter_membership(ds, pred);
        assert forall|x: T| #[trigger] s.filter(pred).contains(x) implies s.contains(x) && pred(
            x,
        ) by {
            let j = choose|j: int| 0 <= j < s.filter(pred).len() && s.filter(pred)[j] == x;
            if pred(s.last()) && j == s.filter(pred).len() - 1 {
                assert(x == s.last());
                assert(s.contains(x)) by {
                    assert(s[s.len() - 1] == x);
                }
            } else {
                assert(ds.filter(pred).contains(x)) by {
                    assert(ds.filter(pred)[j] == x);
                }
                let i = choose|i: int| 0 <= i < ds.len() && ds[i] == x;
                assert(s[i] == x);
            }
        }
        assert forall|x: T| s.contains(x) && pred(x) implies #[trigger] s.filter(pred).contains(
            x,
        ) by {
            let i = choose|i: int| 0 <= i < s.len() && s[i] == x;
            if i == s.len() - 1 {
                assert(s.filter(pred).last() == x);
            } else {
                assert(ds[i] == x);
                assert(ds.contains(x));
                assert(ds.filter(pred).contains(x));
                let j = choose|j: int| 0 <= j < ds.filter(pred).len() && ds.filter(pred)[j] == x;
                assert(s.filter(pred)[j] == x);
            }
        }
    }
}

/// One step of building a filtered prefix.
pub proof fn lemma_filter_take_step<T>(s: Seq<T>, pred: spec_fn(T) -> bool, k: int)
    requires
        0 <= k < s.len(),
    ensures
        s.take(k + 1).filter(pred) == (if pred(s[k]) {
            s.take(k).filter(pred).push(s[k])
        } else {
            s.take(k).filter(pred)
        }),
{
    reveal(Seq::filter);
    assert(s.take(k + 1).drop_last() =~= s.take(k));
    assert(s.take(k + 1).last() == s[k]);
}

} // verus!

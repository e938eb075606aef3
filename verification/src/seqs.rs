//! Facts about sequences that several modules use.
use vstd::prelude::*;

verus! {

/// The first element with the property.
pub open spec fn find_first<T>(s: Seq<T>, p: spec_fn(T) -> bool) -> Option<T>
    decreases s.len(),
{
    if s.len() == 0 {
        None
    } else if p(s[0]) {
        Some(s[0])
    } else {
        find_first(s.skip(1), p)
    }
}

/// The element at `k` is the first with the property.
pub proof fn lemma_find_first_at<T>(s: Seq<T>, p: spec_fn(T) -> bool, k: int)
    requires
        0 <= k < s.len(),
        p(s[k]),
        forall|j: int| 0 <= j < k ==> !p(#[trigger] s[j]),
    ensures
        find_first(s, p) == Some(s[k]),
    decreases s.len(),
{
    if k > 0 {
        let rest = s.skip(1);
        assert forall|j: int| 0 <= j < k - 1 implies !p(#[trigger] rest[j]) by {
            assert(rest[j] == s[j + 1]);
        }
        lemma_find_first_at(rest, p, k - 1);
    }
}

/// No element has the property.
pub proof fn lemma_find_first_none<T>(s: Seq<T>, p: spec_fn(T) -> bool)
    requires
        forall|j: int| 0 <= j < s.len() ==> !p(#[trigger] s[j]),
    ensures
        find_first(s, p) is None,
    decreases s.len(),
{
    if s.len() > 0 {
        let rest = s.skip(1);
        assert forall|j: int| 0 <= j < rest.len() implies !p(#[trigger] rest[j]) by {
            assert(rest[j] == s[j + 1]);
        }
        lemma_find_first_none(rest, p);
    }
}

/// What `find_first` finds.
pub proof fn lemma_find_first_meaning<T>(s: Seq<T>, p: spec_fn(T) -> bool)
    ensures
        find_first(s, p) matches Some(x) ==> s.contains(x) && p(x),
        find_first(s, p) is None ==> forall|j: int| 0 <= j < s.len() ==> !p(#[trigger] s[j]),
    decreases s.len(),
{
    if s.len() > 0 {
        let rest = s.skip(1);
        lemma_find_first_meaning(rest, p);
        if p(s[0]) {
            assert(s.contains(s[0]));
        } else {
            if find_first(rest, p) is Some {
                let x = find_first(rest, p)->0;
                let j = choose|j: int| 0 <= j < rest.len() && rest[j] == x;
                assert(s[j + 1] == x);
            }
            assert forall|j: int|
                find_first(rest, p) is None && 0 <= j < s.len() implies !p(#[trigger] s[j]) by {
                if j > 0 {
                    assert(rest[j - 1] == s[j]);
                }
            }
        }
    }
}

/// Filtering one element more.
pub proof fn lemma_filter_push<T>(s: Seq<T>, p: spec_fn(T) -> bool, x: T)
    ensures
        s.push(x).filter(p) == (if p(x) {
            s.filter(p).push(x)
        } else {
            s.filter(p)
        }),
{
    reveal(Seq::filter);
    assert(s.push(x).drop_last() =~= s);
}

/// Where `find_first` finds something: at the first place with the property.
pub proof fn lemma_find_first_index<T>(s: Seq<T>, p: spec_fn(T) -> bool)
    ensures
        find_first(s, p) matches Some(x) ==> exists|k: int|
            0 <= k < s.len() && s[k] == x && p(s[k]) && forall|j: int|
                0 <= j < k ==> !p(#[trigger] s[j]),
        find_first(s, p) is None ==> forall|j: int| 0 <= j < s.len() ==> !p(#[trigger] s[j]),
    decreases s.len(),
{
    lemma_find_first_meaning(s, p);
    if s.len() > 0 && !p(s[0]) {
        let rest = s.skip(1);
        lemma_find_first_index(rest, p);
        if find_first(rest, p) is Some {
            let x = find_first(rest, p)->0;
            let k = choose|k: int|
                0 <= k < rest.len() && rest[k] == x && p(rest[k]) && forall|j: int|
                    0 <= j < k ==> !p(#[trigger] rest[j]);
            assert(s[k + 1] == x);
            assert forall|j: int| 0 <= j < k + 1 implies !p(#[trigger] s[j]) by {
                if j > 0 {
                    assert(rest[j - 1] == s[j]);
                }
            }
        }
    } else if s.len() > 0 {
        assert(p(s[0]));
    }
}

/// Filtering keeps the order of two lists that stand behind each other.
pub proof fn lemma_filter_concat<T>(a: Seq<T>, b: Seq<T>, p: spec_fn(T) -> bool)
    ensures
        (a + b).filter(p) == a.filter(p) + b.filter(p),
    decreases b.len(),
{
    reveal(Seq::filter);
    if b.len() == 0 {
        assert(a + b =~= a);
        assert(a.filter(p) + b.filter(p) =~= a.filter(p));
    } else {
        lemma_filter_concat(a, b.drop_last(), p);
        assert((a + b).drop_last() =~= a + b.drop_last());
        assert((a + b).last() == b.last());
        assert(a.filter(p) + b.drop_last().filter(p).push(b.last()) =~= (a.filter(p)
            + b.drop_last().filter(p)).push(b.last()));
    }
}

/// Looking in a filtered list is looking for both properties.
pub proof fn lemma_find_first_filtered<T>(
    s: Seq<T>,
    q: spec_fn(T) -> bool,
    p: spec_fn(T) -> bool,
    both: spec_fn(T) -> bool,
)
    requires
        forall|x: T| #[trigger] both(x) == (q(x) && p(x)),
    ensures
        find_first(s.filter(q), p) == find_first(s, both),
    decreases s.len(),
{
    reveal(Seq::filter);
    if s.len() > 0 {
        let rest = s.skip(1);
        let head = seq![s[0]];
        assert(head + rest =~= s);
        lemma_filter_concat(head, rest, q);
        lemma_find_first_filtered(rest, q, p, both);
        assert(Seq::<T>::empty().filter(q) =~= Seq::empty());
        assert(head =~= Seq::empty().push(s[0]));
        lemma_filter_push(Seq::empty(), q, s[0]);
        assert(both(s[0]) == (q(s[0]) && p(s[0])));
        if q(s[0]) {
            assert(head.filter(q) =~= head);
            assert((head + rest.filter(q)).skip(1) =~= rest.filter(q));
        } else {
            assert(head.filter(q) =~= Seq::empty());
            assert(Seq::empty() + rest.filter(q) =~= rest.filter(q));
        }
    }
}

} // verus!

//! Sorting by a comparison that the caller gives.
use vstd::prelude::*;

verus! {

/// Whether a comparison decides a relation.
pub open spec fn decides<T, F: Fn(&T, &T) -> bool>(less: F, lt: spec_fn(T, T) -> bool) -> bool {
    forall|a: T, b: T, r: bool| #[trigger] call_ensures(less, (&a, &b), r) ==> r == lt(a, b)
}

/// Whether a relation orders: nothing comes both before and after another, and what is not
/// before a third by way of a second is not before it.
pub open spec fn orders<T>(lt: spec_fn(T, T) -> bool) -> bool {
    &&& forall|a: T, b: T| #[trigger] lt(a, b) ==> !lt(b, a)
    &&& forall|a: T, b: T, c: T|
        !(#[trigger] lt(a, b)) && !(#[trigger] lt(b, c)) ==> !lt(a, c)
}

/// Whether `from` says where each element of a rearranged list of `n` elements came from.
pub open spec fn rearranges(from: Seq<int>, n: nat) -> bool {
    &&& from.len() == n
    &&& from.no_duplicates()
    &&& forall|i: int| 0 <= i < n ==> 0 <= #[trigger] from[i] < n
}

/// Whether the elements are where `from` says that they came from.
pub open spec fn taken_from<T>(before: Seq<T>, after: Seq<T>, from: Seq<int>) -> bool {
    after.len() == from.len() && forall|i: int|
        0 <= i < from.len() ==> #[trigger] after[i] == before[from[i]]
}

/// Whether the elements are in order, and those of which neither is before the other in the order
/// in which they came.
pub open spec fn in_order<T>(after: Seq<T>, from: Seq<int>, lt: spec_fn(T, T) -> bool) -> bool {
    forall|i: int, j: int|
        #![trigger after[i], after[j]]
        0 <= i < j < after.len() ==> lt(after[i], after[j]) || (!lt(after[j], after[i]) && from[i]
            < from[j])
}

/// Whether `after` holds what `before` holds, in order, and otherwise in the old order.
pub open spec fn stably_sorted<T>(
    before: Seq<T>,
    after: Seq<T>,
    lt: spec_fn(T, T) -> bool,
) -> bool {
    exists|from: Seq<int>| #[trigger]
        rearranges(from, before.len()) && taken_from(before, after, from) && in_order(
            after,
            from,
            lt,
        )
}

proof fn lemma_insert<T>(
    before: Seq<T>,
    after: Seq<T>,
    from: Seq<int>,
    n: int,
    at: int,
)
    requires
        0 <= n < before.len(),
        rearranges(from, n as nat),
        taken_from(before, after, from),
        0 <= at <= n,
    ensures
        rearranges(from.insert(at, n), (n + 1) as nat),
        taken_from(before, after.insert(at, before[n]), from.insert(at, n)),
{
    let next = from.insert(at, n);
    assert forall|i: int| 0 <= i < n + 1 implies 0 <= #[trigger] next[i] < n + 1 by {
        if i < at {
            assert(next[i] == from[i]);
        } else if i > at {
            assert(next[i] == from[i - 1]);
        }
    }
    assert forall|i: int, j: int| 0 <= i < next.len() && 0 <= j < next.len() && i != j implies next[i]
        != next[j] by {
        let oi = if i < at {
            i
        } else {
            i - 1
        };
        let oj = if j < at {
            j
        } else {
            j - 1
        };
        if i != at {
            assert(next[i] == from[oi]);
        }
        if j != at {
            assert(next[j] == from[oj]);
        }
    }
    let list = after.insert(at, before[n]);
    assert forall|i: int| 0 <= i < next.len() implies #[trigger] list[i] == before[next[i]] by {
        if i < at {
            assert(list[i] == after[i]);
        } else if i > at {
            assert(list[i] == after[i - 1]);
        }
    }
}

proof fn lemma_insert_in_order<T>(
    after: Seq<T>,
    from: Seq<int>,
    n: int,
    x: T,
    at: int,
    lt: spec_fn(T, T) -> bool,
)
    requires
        rearranges(from, n as nat),
        after.len() == n,
        0 <= at <= n,
        orders(lt),
        in_order(after, from, lt),
        at > 0 ==> !lt(x, after[at - 1]),
        forall|i: int| at <= i < n ==> lt(x, #[trigger] after[i]),
    ensures
        in_order(after.insert(at, x), from.insert(at, n), lt),
{
    let list = after.insert(at, x);
    let next = from.insert(at, n);
    assert forall|i: int, j: int|
        #![trigger list[i], list[j]]
        0 <= i < j < list.len() implies lt(list[i], list[j]) || (!lt(list[j], list[i]) && next[i]
        < next[j]) by {
        if j == at {
            assert(list[i] == after[i]);
            assert(next[i] == from[i]);
            assert(0 <= from[i] < n);
            if i < at - 1 {
                assert(after[at - 1] == after[at - 1] && after[i] == after[i]);
                assert(!lt(after[at - 1], after[i]));
            }
            assert(!lt(x, after[i]));
        } else if i == at {
            assert(list[j] == after[j - 1]);
        } else {
            let oi = if i < at {
                i
            } else {
                i - 1
            };
            let oj = if j < at {
                j
            } else {
                j - 1
            };
            assert(list[i] == after[oi] && list[j] == after[oj]);
            assert(next[i] == from[oi] && next[j] == from[oj]);
        }
    }
}

/// Sorts stably: the result holds what was given; and if the comparison decides a relation that
/// orders, the result is in that order.
pub fn stable_sort<T, F: Fn(&T, &T) -> bool>(items: Vec<T>, less: &F) -> (sorted: Vec<T>)
    requires
        forall|a: T, b: T| #[trigger] call_requires(*less, (&a, &b)),
    ensures
        exists|from: Seq<int>| #[trigger]
            rearranges(from, items@.len()) && taken_from(items@, sorted@, from),
        forall|lt: spec_fn(T, T) -> bool| #[trigger]
            orders(lt) && decides(*less, lt) ==> stably_sorted(items@, sorted@, lt),
{
    let ghost before = items@;
    let mut items = items;
    let mut sorted: Vec<T> = Vec::new();
    let ghost mut from: Seq<int> = Seq::empty();
    let ghost mut n: int = 0;
    while items.len() > 0
        invariant
            forall|a: T, b: T| #[trigger] call_requires(*less, (&a, &b)),
            0 <= n <= before.len(),
            items@ == before.skip(n),
            sorted.len() == n,
            rearranges(from, n as nat),
            taken_from(before, sorted@, from),
            forall|lt: spec_fn(T, T) -> bool| #[trigger]
                orders(lt) && decides(*less, lt) ==> in_order(sorted@, from, lt),
        decreases items.len(),
    {
        let x = items.remove(0);
        assert(x == before[n]);
        assert(items@ =~= before.skip(n + 1));
        let mut at: usize = sorted.len();
        let mut seeking = at > 0;
        while seeking
            invariant
                forall|a: T, b: T| #[trigger] call_requires(*less, (&a, &b)),
                at <= sorted.len(),
                seeking ==> at > 0,
                forall|lt: spec_fn(T, T) -> bool, i: int|
                    #![trigger orders(lt), sorted@[i]]
                    orders(lt) && decides(*less, lt) && at <= i < sorted.len() ==> lt(x, sorted@[i]),
                !seeking && at > 0 ==> forall|lt: spec_fn(T, T) -> bool| #[trigger]
                    orders(lt) && decides(*less, lt) ==> !lt(x, sorted@[at - 1]),
            decreases at + if seeking {
                1int
            } else {
                0int
            },
        {
            let ghost answer_at = at - 1;
            if less(&x, &sorted[at - 1]) {
                assert(call_ensures(*less, (&x, &sorted@[answer_at]), true));
                at = at - 1;
                seeking = at > 0;
            } else {
                assert(call_ensures(*less, (&x, &sorted@[answer_at]), false));
                seeking = false;
            }
        }
        proof {
            lemma_insert(before, sorted@, from, n, at as int);
            assert forall|lt: spec_fn(T, T) -> bool| #[trigger]
                orders(lt) && decides(*less, lt) implies in_order(
                sorted@.insert(at as int, x),
                from.insert(at as int, n),
                lt,
            ) by {
                lemma_insert_in_order(sorted@, from, n, x, at as int, lt);
            }
        }
        sorted.insert(at, x);
        proof {
            from = from.insert(at as int, n);
            n = n + 1;
        }
    }
    assert(n == before.len());
    sorted
}

/// A stable sort holds each element as often as before, puts none before another that belongs before
/// it, and leaves two of which neither belongs before the other as they stood.
pub proof fn law_stable_sort<T>(before: Seq<T>, after: Seq<T>, lt: spec_fn(T, T) -> bool)
    requires
        stably_sorted(before, after, lt),
    ensures
        after.len() == before.len(),
        forall|i: int, j: int|
            #![trigger after[i], after[j]]
            0 <= i < j < after.len() ==> lt(after[i], after[j]) || !lt(after[j], after[i]),
        exists|from: Seq<int>|
            #![trigger from.no_duplicates()]
            from.no_duplicates() && from.len() == before.len() && (forall|i: int|
                0 <= i < after.len() ==> 0 <= #[trigger] from[i] < before.len() && after[i]
                    == before[from[i]]) && (forall|i: int, j: int|
                #![trigger from[i], from[j]]
                0 <= i < j < after.len() && !lt(after[i], after[j]) ==> from[i] < from[j]),
{
    let from = choose|from: Seq<int>| #[trigger]
        rearranges(from, before.len()) && taken_from(before, after, from) && in_order(
            after,
            from,
            lt,
        );
    assert(from.no_duplicates());
    assert forall|i: int| 0 <= i < after.len() implies 0 <= #[trigger] from[i] < before.len() && after[i]
        == before[from[i]] by {
        assert(after[i] == before[from[i]]);
    }
    assert forall|i: int, j: int|
        #![trigger from[i], from[j]]
        0 <= i < j < after.len() && !lt(after[i], after[j]) implies from[i] < from[j] by {
        assert(after[i] == after[i] && after[j] == after[j]);
    }
}

/// A relation orders exactly if nothing comes both before and after another, and whatever comes
/// before a second comes before any third or else the second does not come after it.
pub proof fn law_orders<T>(lt: spec_fn(T, T) -> bool)
    ensures
        orders(lt) <==> (forall|a: T, b: T| #[trigger] lt(a, b) ==> !lt(b, a)) && (forall|
            a: T,
            b: T,
            c: T,
        |
            #![trigger lt(a, c), lt(a, b)]
            #![trigger lt(a, c), lt(b, c)]
            lt(a, c) ==> lt(a, b) || lt(b, c)),
{
    if forall|a: T, b: T, c: T|
        #![trigger lt(a, c), lt(a, b)]
        #![trigger lt(a, c), lt(b, c)]
        lt(a, c) ==> lt(a, b) || lt(b, c) {
        assert forall|a: T, b: T, c: T|
            !(#[trigger] lt(a, b)) && !(#[trigger] lt(b, c)) implies !lt(a, c) by {}
    }
}

/// A list that is rearranged has all the elements of the other, each from another place.
pub proof fn law_rearranged<T>(before: Seq<T>, after: Seq<T>, from: Seq<int>, x: T)
    requires
        rearranges(from, before.len()),
        taken_from(before, after, from),
    ensures
        after.len() == before.len(),
        forall|i: int|
            0 <= i < after.len() ==> 0 <= #[trigger] from[i] < before.len() && after[i]
                == before[from[i]],
        forall|i: int, j: int|
            0 <= i < j < after.len() ==> #[trigger] from[i] != #[trigger] from[j],
        after.contains(x) <==> before.contains(x),
{
    assert forall|i: int| 0 <= i < after.len() implies 0 <= #[trigger] from[i] < before.len()
        && after[i] == before[from[i]] by {
        assert(after[i] == before[from[i]]);
    }
    if after.contains(x) {
        let i = choose|i: int| 0 <= i < after.len() && after[i] == x;
        assert(before[from[i]] == x);
    }
    if before.contains(x) {
        let k = choose|k: int| 0 <= k < before.len() && before[k] == x;
        lemma_every_place(from, before.len(), k);
        let i = choose|i: int| 0 <= i < from.len() && #[trigger] from[i] == k;
        assert(after[i] == x);
    }
}

proof fn lemma_every_place(from: Seq<int>, n: nat, k: int)
    requires
        rearranges(from, n),
        0 <= k < n,
    ensures
        exists|i: int| 0 <= i < from.len() && #[trigger] from[i] == k,
    decreases n,
{
    let m = n - 1;
    if from.last() == m {
        if k < m {
            let rest = from.drop_last();
            assert forall|i: int| 0 <= i < m implies 0 <= #[trigger] rest[i] < m by {
                assert(from[i] != from[m]);
            }
            lemma_every_place(rest, m as nat, k);
            let i = choose|i: int| 0 <= i < rest.len() && #[trigger] rest[i] == k;
            assert(from[i] == k);
        } else {
            assert(from[m] == k);
        }
    } else if k == from.last() {
        assert(from[m] == k);
    } else {
        // The place of the largest goes to the one that stands last, which makes room for it.
        let swapped = from.drop_last().map_values(
            |x: int|
                if x == m {
                    from.last()
                } else {
                    x
                },
        );
        assert forall|i: int| 0 <= i < m implies 0 <= #[trigger] swapped[i] < m by {
            assert(0 <= from[i] < n);
            assert(0 <= from[m] < n);
        }
        assert(swapped.no_duplicates()) by {
            assert forall|i: int, j: int|
                0 <= i < swapped.len() && 0 <= j < swapped.len() && i != j implies swapped[i]
                != swapped[j] by {
                assert(from[i] != from[j]);
                assert(from[i] != from[m]);
                assert(from[j] != from[m]);
            }
        }
        assert(rearranges(swapped, m as nat));
        let want = if k == m {
            from.last()
        } else {
            k
        };
        lemma_every_place(swapped, m as nat, want);
        let i = choose|i: int| 0 <= i < swapped.len() && #[trigger] swapped[i] == want;
        assert(from[i] != from[m]);
        assert(from[i] == k);
    }
}

/// A comparison decides a relation exactly if it can say yes only where the relation holds and no
/// only where it does not.
pub proof fn law_decides<T, F: Fn(&T, &T) -> bool>(less: F, lt: spec_fn(T, T) -> bool)
    ensures
        decides(less, lt) <==> (forall|a: T, b: T| #[trigger]
            call_ensures(less, (&a, &b), true) ==> lt(a, b)) && (forall|a: T, b: T| #[trigger]
            call_ensures(less, (&a, &b), false) ==> !lt(a, b)),
{
    if (forall|a: T, b: T| #[trigger] call_ensures(less, (&a, &b), true) ==> lt(a, b)) && (forall|
        a: T,
        b: T,
    | #[trigger] call_ensures(less, (&a, &b), false) ==> !lt(a, b)) {
        assert forall|a: T, b: T, r: bool| #[trigger] call_ensures(less, (&a, &b), r) implies r
            == lt(a, b) by {
            if r {
                assert(call_ensures(less, (&a, &b), true));
            } else {
                assert(call_ensures(less, (&a, &b), false));
            }
        }
    }
}

} // verus!

//! Stable ordering of a sequence by a natural-number key, as a mathematical
//! function, with the facts that tie it to the usual description of a stable
//! sort.

use vstd::prelude::*;

verus! {

/// The test "has key `k`".
pub open spec fn has_key<A>(key: spec_fn(A) -> nat, k: nat) -> spec_fn(A) -> bool {
    |x: A| key(x) == k
}

/// The test "has a key less than `k`".
pub open spec fn has_key_below<A>(key: spec_fn(A) -> nat, k: nat) -> spec_fn(A) -> bool {
    |x: A| key(x) < k
}

/// The elements of `s` whose key is `k`, in the order they have in `s`.
pub open spec fn keyed<A>(s: Seq<A>, key: spec_fn(A) -> nat, k: nat) -> Seq<A> {
    s.filter(has_key(key, k))
}

/// The elements of `s` whose key is less than `k`, in the order they have in `s`.
pub open spec fn below<A>(s: Seq<A>, key: spec_fn(A) -> nat, k: nat) -> Seq<A> {
    s.filter(has_key_below(key, k))
}

/// `s` ordered by key, for keys less than `bound`: the elements of key 0 as
/// they follow each other in `s`, then those of key 1, and so on.
pub open spec fn stable_sort<A>(s: Seq<A>, key: spec_fn(A) -> nat, bound: nat) -> Seq<A>
    decreases bound,
{
    if bound == 0 {
        Seq::empty()
    } else {
        stable_sort(s, key, (bound - 1) as nat) + keyed(s, key, (bound - 1) as nat)
    }
}

/// Keys never decrease along `s`.
pub open spec fn sorted_by<A>(s: Seq<A>, key: spec_fn(A) -> nat) -> bool {
    forall|i: int, j: int|
        #![trigger s[i], s[j]]
        0 <= i <= j < s.len() ==> key(s[i]) <= key(s[j])
}

/// Every key in `s` is less than `bound`.
pub open spec fn keys_below<A>(s: Seq<A>, key: spec_fn(A) -> nat, bound: nat) -> bool {
    forall|i: int| 0 <= i < s.len() ==> key(#[trigger] s[i]) < bound
}

/// For each key, `a` and `b` hold the same elements in the same order.
pub open spec fn same_groups<A>(a: Seq<A>, b: Seq<A>, key: spec_fn(A) -> nat) -> bool {
    forall|k: nat| #[trigger] keyed(a, key, k) == keyed(b, key, k)
}

/// A test that no element passes lets nothing through.
pub proof fn lemma_filter_none<A>(s: Seq<A>, pred: spec_fn(A) -> bool)
    requires
        forall|i: int| 0 <= i < s.len() ==> !pred(#[trigger] s[i]),
    ensures
        s.filter(pred) == Seq::<A>::empty(),
    decreases s.len(),
{
    reveal(Seq::filter);
    if s.len() > 0 {
        let front = s.drop_last();
        assert forall|i: int| 0 <= i < front.len() implies !pred(#[trigger] front[i]) by {
            assert(front[i] == s[i]);
        }
        lemma_filter_none(front, pred);
        assert(!pred(s[s.len() - 1]));
    }
}

/// A test that every element passes lets the whole sequence through.
pub proof fn lemma_filter_all<A>(s: Seq<A>, pred: spec_fn(A) -> bool)
    requires
        forall|i: int| 0 <= i < s.len() ==> pred(#[trigger] s[i]),
    ensures
        s.filter(pred) == s,
    decreases s.len(),
{
    reveal(Seq::filter);
    if s.len() > 0 {
        let front = s.drop_last();
        assert forall|i: int| 0 <= i < front.len() implies pred(#[trigger] front[i]) by {
            assert(front[i] == s[i]);
        }
        lemma_filter_all(front, pred);
        assert(pred(s[s.len() - 1]));
        assert(front.push(s.last()) =~= s);
    }
}

/// What putting `x` at the end of `s` does to the group of key `k`.
pub proof fn lemma_keyed_push<A>(s: Seq<A>, x: A, key: spec_fn(A) -> nat, k: nat)
    ensures
        keyed(s.push(x), key, k) == if key(x) == k {
            keyed(s, key, k).push(x)
        } else {
            keyed(s, key, k)
        },
{
    s.lemma_filter_push(x, has_key(key, k));
}

/// Putting `x` into a sorted sequence, behind the smaller keys and before
/// the others, keeps it sorted and puts `x` at the front of its group.
pub proof fn lemma_insert_sorted<A>(s: Seq<A>, pos: int, x: A, key: spec_fn(A) -> nat)
    requires
        sorted_by(s, key),
        0 <= pos <= s.len(),
        forall|j: int| 0 <= j < pos ==> key(#[trigger] s[j]) < key(x),
        forall|j: int| pos <= j < s.len() ==> key(x) <= key(#[trigger] s[j]),
    ensures
        sorted_by(s.insert(pos, x), key),
        forall|k: nat| #[trigger]
            keyed(s.insert(pos, x), key, k) == (if key(x) == k {
                seq![x]
            } else {
                Seq::<A>::empty()
            }) + keyed(s, key, k),
{
    let t = s.insert(pos, x);
    assert forall|i: int, j: int| 0 <= i <= j < t.len() implies key(t[i]) <= key(t[j]) by {
        if i < pos {
            assert(t[i] == s[i]);
        } else if i > pos {
            assert(t[i] == s[i - 1]);
        }
        if j < pos {
            assert(t[j] == s[j]);
        } else if j > pos {
            assert(t[j] == s[j - 1]);
        }
    }
    let head = s.take(pos);
    let tail = s.skip(pos);
    assert(s =~= head + tail);
    assert(t =~= head + seq![x] + tail);
    assert forall|k: nat| #[trigger]
        keyed(t, key, k) == (if key(x) == k {
            seq![x]
        } else {
            Seq::<A>::empty()
        }) + keyed(s, key, k) by {
        let pred = has_key(key, k);
        Seq::filter_distributes_over_add(head, tail, pred);
        Seq::filter_distributes_over_add(head, seq![x], pred);
        Seq::filter_distributes_over_add(head + seq![x], tail, pred);
        assert(seq![x] =~= Seq::<A>::empty().push(x));
        Seq::<A>::empty().lemma_filter_push(x, pred);
        lemma_filter_none(Seq::<A>::empty(), pred);
        if key(x) == k {
            assert forall|i: int| 0 <= i < head.len() implies !pred(#[trigger] head[i]) by {
                assert(head[i] == s[i]);
            }
            lemma_filter_none(head, pred);
            assert(seq![x].filter(pred) =~= seq![x]);
            assert(keyed(t, key, k) =~= seq![x] + keyed(s, key, k));
        } else {
            assert(seq![x].filter(pred) =~= Seq::<A>::empty());
            assert(keyed(t, key, k) =~= Seq::<A>::empty() + keyed(s, key, k));
        }
    }
}

proof fn lemma_below_step<A>(s: Seq<A>, key: spec_fn(A) -> nat, n: nat)
    requires
        sorted_by(s, key),
    ensures
        below(s, key, n) + keyed(s, key, n) == below(s, key, n + 1),
    decreases s.len(),
{
    let lt = has_key_below(key, n);
    let eq = has_key(key, n);
    let le = has_key_below(key, n + 1);
    if s.len() == 0 {
        lemma_filter_none(s, lt);
        lemma_filter_none(s, eq);
        lemma_filter_none(s, le);
        assert(Seq::<A>::empty() + Seq::<A>::empty() =~= Seq::<A>::empty());
    } else {
        let front = s.drop_last();
        let x = s.last();
        assert(s =~= front.push(x));
        assert forall|i: int, j: int| 0 <= i <= j < front.len() implies key(front[i]) <= key(
            front[j],
        ) by {
            assert(front[i] == s[i] && front[j] == s[j]);
        }
        lemma_below_step(front, key, n);
        front.lemma_filter_push(x, lt);
        front.lemma_filter_push(x, eq);
        front.lemma_filter_push(x, le);
        if key(x) < n {
            assert forall|i: int| 0 <= i < front.len() implies !eq(#[trigger] front[i]) by {
                assert(front[i] == s[i]);
                assert(key(s[i]) <= key(s[s.len() - 1]));
            }
            lemma_filter_none(front, eq);
            assert(front.filter(lt) + Seq::<A>::empty() =~= front.filter(lt));
            assert(front.filter(lt).push(x) + Seq::<A>::empty() =~= front.filter(lt).push(x));
        } else if key(x) == n {
            assert(front.filter(lt) + front.filter(eq).push(x) =~= (front.filter(lt)
                + front.filter(eq)).push(x));
        }
    }
}

proof fn lemma_sorted_is_below<A>(s: Seq<A>, key: spec_fn(A) -> nat, n: nat)
    requires
        sorted_by(s, key),
    ensures
        stable_sort(s, key, n) == below(s, key, n),
    decreases n,
{
    if n == 0 {
        lemma_filter_none(s, has_key_below(key, 0));
    } else {
        lemma_sorted_is_below(s, key, (n - 1) as nat);
        lemma_below_step(s, key, (n - 1) as nat);
    }
}

proof fn lemma_same_groups_same_sort<A>(a: Seq<A>, b: Seq<A>, key: spec_fn(A) -> nat, n: nat)
    requires
        same_groups(a, b, key),
    ensures
        stable_sort(a, key, n) == stable_sort(b, key, n),
    decreases n,
{
    if n > 0 {
        lemma_same_groups_same_sort(a, b, key, (n - 1) as nat);
        assert(keyed(a, key, (n - 1) as nat) == keyed(b, key, (n - 1) as nat));
    }
}

/// A sorted sequence that holds, for each key, the elements that `s` holds
/// with that key and in the same order, is the stable sort of `s`: no other
/// sequence is.
pub proof fn lemma_stable_sort_unique<A>(
    s: Seq<A>,
    out: Seq<A>,
    key: spec_fn(A) -> nat,
    bound: nat,
)
    requires
        sorted_by(out, key),
        same_groups(out, s, key),
        keys_below(out, key, bound),
    ensures
        out == stable_sort(s, key, bound),
{
    lemma_same_groups_same_sort(out, s, key, bound);
    lemma_sorted_is_below(out, key, bound);
    lemma_filter_all(out, has_key_below(key, bound));
}

proof fn lemma_stable_sort_groups<A>(s: Seq<A>, key: spec_fn(A) -> nat, n: nat, k: nat)
    ensures
        keyed(stable_sort(s, key, n), key, k) == if k < n {
            keyed(s, key, k)
        } else {
            Seq::<A>::empty()
        },
    decreases n,
{
    let pred = has_key(key, k);
    if n == 0 {
        lemma_filter_none(Seq::<A>::empty(), pred);
    } else {
        let m = (n - 1) as nat;
        let front = stable_sort(s, key, m);
        let group = keyed(s, key, m);
        lemma_stable_sort_groups(s, key, m, k);
        Seq::filter_distributes_over_add(front, group, pred);
        assert forall|i: int| 0 <= i < group.len() implies key(#[trigger] group[i]) == m by {
            s.lemma_filter_pred(has_key(key, m), i);
        }
        if k == m {
            lemma_filter_all(group, pred);
            assert(Seq::<A>::empty() + group =~= group);
        } else {
            lemma_filter_none(group, pred);
            assert(front.filter(pred) + Seq::<A>::empty() =~= front.filter(pred));
        }
    }
}

proof fn lemma_stable_sort_sorted<A>(s: Seq<A>, key: spec_fn(A) -> nat, n: nat)
    ensures
        sorted_by(stable_sort(s, key, n), key),
        keys_below(stable_sort(s, key, n), key, n),
    decreases n,
{
    if n > 0 {
        let m = (n - 1) as nat;
        let front = stable_sort(s, key, m);
        let group = keyed(s, key, m);
        lemma_stable_sort_sorted(s, key, m);
        assert forall|i: int| 0 <= i < group.len() implies key(#[trigger] group[i]) == m by {
            s.lemma_filter_pred(has_key(key, m), i);
        }
        let all = front + group;
        assert forall|i: int| 0 <= i < all.len() implies key(#[trigger] all[i]) < n by {
            if i < front.len() {
                assert(all[i] == front[i]);
            } else {
                assert(all[i] == group[i - front.len()]);
            }
        }
        assert forall|i: int, j: int| 0 <= i <= j < all.len() implies key(all[i]) <= key(
            all[j],
        ) by {
            if i < front.len() {
                assert(all[i] == front[i]);
            } else {
                assert(all[i] == group[i - front.len()]);
            }
            if j < front.len() {
                assert(all[j] == front[j]);
            } else {
                assert(all[j] == group[j - front.len()]);
            }
        }
    }
}

/// The stable sort of `s` is sorted, and for each key it holds the elements
/// that `s` holds with that key, in the order they have in `s`.
pub proof fn lemma_stable_sort_is_stable<A>(s: Seq<A>, key: spec_fn(A) -> nat, bound: nat)
    requires
        keys_below(s, key, bound),
    ensures
        sorted_by(stable_sort(s, key, bound), key),
        same_groups(stable_sort(s, key, bound), s, key),
{
    lemma_stable_sort_sorted(s, key, bound);
    assert forall|k: nat| #[trigger]
        keyed(stable_sort(s, key, bound), key, k) == keyed(s, key, k) by {
        lemma_stable_sort_groups(s, key, bound, k);
        if k >= bound {
            assert forall|i: int| 0 <= i < s.len() implies !(key(#[trigger] s[i]) == k) by {}
            lemma_filter_none(s, has_key(key, k));
        }
    }
}

/// The first element of `s` with the key of `s[i]` is the first of its
/// group.
pub proof fn lemma_group_first<A>(s: Seq<A>, key: spec_fn(A) -> nat, i: int)
    requires
        0 <= i < s.len(),
        forall|j: int| 0 <= j < i ==> key(#[trigger] s[j]) != key(s[i]),
    ensures
        keyed(s, key, key(s[i])).len() > 0,
        keyed(s, key, key(s[i]))[0] == s[i],
    decreases s.len(),
{
    let pred = has_key(key, key(s[i]));
    let front = s.drop_last();
    assert(s =~= front.push(s.last()));
    front.lemma_filter_push(s.last(), pred);
    if i == s.len() - 1 {
        assert forall|j: int| 0 <= j < front.len() implies !pred(#[trigger] front[j]) by {
            assert(front[j] == s[j]);
        }
        lemma_filter_none(front, pred);
    } else {
        assert(front[i] == s[i]);
        assert forall|j: int| 0 <= j < i implies key(#[trigger] front[j]) != key(front[i]) by {
            assert(front[j] == s[j]);
        }
        lemma_group_first(front, key, i);
    }
}

/// Sequences with the same groups hold the same elements.
pub proof fn lemma_same_groups_same_elements<A>(
    a: Seq<A>,
    b: Seq<A>,
    key: spec_fn(A) -> nat,
    i: int,
)
    requires
        same_groups(a, b, key),
        0 <= i < a.len(),
    ensures
        b.contains(a[i]),
{
    let k = key(a[i]);
    a.lemma_filter_contains(has_key(key, k), i);
    assert(keyed(a, key, k) == keyed(b, key, k));
    b.lemma_filter_contains_rev(has_key(key, k), a[i]);
}

/// A value that is ordered by a rank read off its model.
pub trait Ranked: DeepView {
    /// The rank of a value, given its model.
    spec fn rank_of(model: Self::V) -> nat;

    /// A number that no rank reaches.
    spec fn rank_bound() -> nat;

    /// The rank of this value.
    fn rank(&self) -> (r: u64)
        ensures
            r == Self::rank_of(self.deep_view()),
            r < Self::rank_bound(),
    ;
}

/// The rank as a key on models.
pub open spec fn rank_key<T: Ranked>() -> spec_fn(T::V) -> nat {
    |model: T::V| T::rank_of(model)
}

/// The first place in `items` whose rank is not less than `r`.
fn insertion_point<T: Ranked>(items: &Vec<T>, r: u64) -> (pos: usize)
    ensures
        pos <= items@.len(),
        forall|j: int| 0 <= j < pos ==> T::rank_of(#[trigger] items.deep_view()[j]) < r,
        pos < items@.len() ==> T::rank_of(items.deep_view()[pos as int]) >= r,
{
    let mut pos: usize = 0;
    while pos < items.len()
        invariant
            pos <= items@.len(),
            forall|j: int| 0 <= j < pos ==> T::rank_of(#[trigger] items.deep_view()[j]) < r,
        decreases items@.len() - pos,
    {
        if items[pos].rank() >= r {
            return pos;
        }
        pos = pos + 1;
    }
    pos
}

/// Orders `items` by rank; items of equal rank keep the order they came in.
pub fn stable_sort_by_rank<T: Ranked>(items: Vec<T>) -> (sorted: Vec<T>)
    ensures
        sorted.deep_view() == stable_sort(items.deep_view(), rank_key::<T>(), T::rank_bound()),
{
    let ghost key = rank_key::<T>();
    let ghost all = items.deep_view();
    // The items are taken from the back and put in front of those of their
    // rank, so that items of one rank stay in the order they came in.
    let mut rest = items;
    let mut sorted: Vec<T> = Vec::new();
    proof {
        assert forall|k: nat| #[trigger]
            keyed(all, key, k) == keyed(rest.deep_view(), key, k) + keyed(
                sorted.deep_view(),
                key,
                k,
            ) by {
            lemma_filter_none(sorted.deep_view(), has_key(key, k));
            assert(keyed(all, key, k) + Seq::<T::V>::empty() =~= keyed(all, key, k));
        }
    }
    while rest.len() > 0
        invariant
            key == rank_key::<T>(),
            sorted_by(sorted.deep_view(), key),
            keys_below(sorted.deep_view(), key, T::rank_bound()),
            forall|k: nat| #[trigger]
                keyed(all, key, k) == keyed(rest.deep_view(), key, k) + keyed(
                    sorted.deep_view(),
                    key,
                    k,
                ),
        decreases rest@.len(),
    {
        let ghost rest_before = rest.deep_view();
        let ghost sorted_before = sorted.deep_view();
        let item = rest.pop().unwrap();
        let r = item.rank();
        let pos = insertion_point(&sorted, r);
        let ghost model = item.deep_view();
        sorted.insert(pos, item);
        proof {
            let rest_after = rest.deep_view();
            let sorted_after = sorted.deep_view();
            assert(rest_before =~= rest_after.push(model));
            assert(sorted_after =~= sorted_before.insert(pos as int, model));
            assert forall|j: int| pos <= j < sorted_before.len() implies key(model) <= key(
                #[trigger] sorted_before[j],
            ) by {
                assert(key(sorted_before[pos as int]) <= key(sorted_before[j]));
            }
            lemma_insert_sorted(sorted_before, pos as int, model, key);
            assert forall|k: nat| #[trigger]
                keyed(all, key, k) == keyed(rest_after, key, k) + keyed(sorted_after, key, k) by {
                lemma_keyed_push(rest_after, model, key, k);
                let added = if key(model) == k {
                    seq![model]
                } else {
                    Seq::<T::V>::empty()
                };
                assert(keyed(sorted_after, key, k) == added + keyed(sorted_before, key, k));
                assert(keyed(rest_before, key, k) =~= keyed(rest_after, key, k) + added);
                assert(keyed(rest_after, key, k) + (added + keyed(sorted_before, key, k))
                    =~= (keyed(rest_after, key, k) + added) + keyed(sorted_before, key, k));
            }
            assert forall|i: int| 0 <= i < sorted_after.len() implies key(
                #[trigger] sorted_after[i],
            ) < T::rank_bound() by {
                if i < pos {
                    assert(sorted_after[i] == sorted_before[i]);
                } else if i > pos {
                    assert(sorted_after[i] == sorted_before[i - 1]);
                }
            }
        }
    }
    proof {
        assert forall|k: nat| #[trigger]
            keyed(sorted.deep_view(), key, k) == keyed(all, key, k) by {
            lemma_filter_none(rest.deep_view(), has_key(key, k));
            assert(Seq::<T::V>::empty() + keyed(sorted.deep_view(), key, k) =~= keyed(
                sorted.deep_view(),
                key,
                k,
            ));
        }
        lemma_stable_sort_unique(all, sorted.deep_view(), key, T::rank_bound());
    }
    sorted
}

} // verus!

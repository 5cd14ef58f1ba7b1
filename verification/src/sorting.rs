use vstd::prelude::*;

verus! {

/// Puts the index `x` into `order`, behind every index whose key is not greater
/// than the key of `x`.
pub open spec fn insert_index(order: Seq<int>, keys: Seq<int>, x: int) -> Seq<int>
    decreases order.len(),
{
    if order.len() == 0 || keys[order.last()] <= keys[x] {
        order.push(x)
    } else {
        insert_index(order.drop_last(), keys, x).push(order.last())
    }
}

/// The order in which a stable sort visits the indices of `keys`: by ascending key,
/// and among equal keys by ascending index.
pub open spec fn sorted_order(keys: Seq<int>) -> Seq<int>
    decreases keys.len(),
{
    if keys.len() == 0 {
        Seq::empty()
    } else {
        insert_index(sorted_order(keys.drop_last()), keys, keys.len() - 1)
    }
}

/// `order` visits the indices below `n`, each of them once, by ascending key and
/// among equal keys by ascending index.
pub open spec fn is_stable_order(order: Seq<int>, keys: Seq<int>, n: int) -> bool {
    &&& order.len() == n
    &&& forall|i: int| 0 <= i < n ==> 0 <= #[trigger] order[i] < n
    &&& forall|k: int| 0 <= k < n ==> #[trigger] order.contains(k)
    &&& forall|i: int, j: int|
        0 <= i < j < n ==> keys[#[trigger] order[i]] <= keys[#[trigger] order[j]]
    &&& forall|i: int, j: int|
        0 <= i < j < n && keys[#[trigger] order[i]] == keys[#[trigger] order[j]] ==> order[i]
            < order[j]
}

/// Where an index goes when it is inserted: to the place `at`, if the keys from
/// there on are greater and the key just before is not.
pub proof fn insert_index_at(order: Seq<int>, keys: Seq<int>, x: int, at: int)
    requires
        0 <= at <= order.len(),
        forall|j: int| at <= j < order.len() ==> keys[#[trigger] order[j]] > keys[x],
        at > 0 ==> keys[order[at - 1]] <= keys[x],
    ensures
        insert_index(order, keys, x) == order.insert(at, x),
    decreases order.len() - at,
{
    if at == order.len() {
        assert(order.insert(at, x) =~= order.push(x));
    } else {
        let shorter = order.drop_last();
        assert(keys[order[order.len() - 1]] > keys[x]);
        assert forall|j: int| at <= j < shorter.len() implies keys[#[trigger] shorter[j]]
            > keys[x] by {
            assert(shorter[j] == order[j]);
        }
        insert_index_at(shorter, keys, x, at);
        assert(shorter.insert(at, x).push(order.last()) =~= order.insert(at, x));
    }
}

/// The place at which an index is inserted.
pub open spec fn insert_place(order: Seq<int>, keys: Seq<int>, x: int) -> int
    decreases order.len(),
{
    if order.len() == 0 || keys[order.last()] <= keys[x] {
        order.len() as int
    } else {
        insert_place(order.drop_last(), keys, x)
    }
}

proof fn insert_place_holds(order: Seq<int>, keys: Seq<int>, x: int)
    ensures
        0 <= insert_place(order, keys, x) <= order.len(),
        forall|j: int|
            insert_place(order, keys, x) <= j < order.len() ==> keys[#[trigger] order[j]]
                > keys[x],
        insert_place(order, keys, x) > 0 ==> keys[order[insert_place(order, keys, x) - 1]]
            <= keys[x],
        insert_index(order, keys, x) == order.insert(insert_place(order, keys, x), x),
    decreases order.len(),
{
    if order.len() == 0 || keys[order.last()] <= keys[x] {
    } else {
        let shorter = order.drop_last();
        insert_place_holds(shorter, keys, x);
        let at = insert_place(shorter, keys, x);
        assert forall|j: int| at <= j < order.len() implies keys[#[trigger] order[j]]
            > keys[x] by {
            if j < shorter.len() {
                assert(shorter[j] == order[j]);
            }
        }
        if at > 0 {
            assert(shorter[at - 1] == order[at - 1]);
        }
    }
    insert_index_at(order, keys, x, insert_place(order, keys, x));
}

/// The sorted order is the stable one: a permutation of the indices, ascending by
/// key, that keeps indices with equal keys in their order.
pub proof fn sorted_order_is_stable(keys: Seq<int>)
    ensures
        is_stable_order(sorted_order(keys), keys, keys.len() as int),
    decreases keys.len(),
{
    let n = keys.len() as int;
    if n > 0 {
        let fewer = keys.drop_last();
        let before = sorted_order(fewer);
        sorted_order_is_stable(fewer);
        insert_place_holds(before, keys, n - 1);
        let at = insert_place(before, keys, n - 1);
        let order = sorted_order(keys);
        assert(order == before.insert(at, n - 1));
        assert forall|i: int| 0 <= i < n - 1 implies keys[#[trigger] before[i]]
            == fewer[before[i]] by {}
        assert forall|k: int| 0 <= k < n implies #[trigger] order.contains(k) by {
            if k == n - 1 {
                assert(order[at] == k);
            } else {
                assert(before.contains(k));
                let i = choose|i: int| 0 <= i < before.len() && before[i] == k;
                if i < at {
                    assert(order[i] == k);
                } else {
                    assert(order[i + 1] == k);
                }
            }
        }
        assert forall|i: int, j: int| 0 <= i < j < n implies keys[#[trigger] order[i]]
            <= keys[#[trigger] order[j]] by {
            sorted_pair(before, keys, fewer, at, n, i, j);
        }
        assert forall|i: int, j: int|
            0 <= i < j < n && keys[#[trigger] order[i]] == keys[#[trigger] order[j]] implies order[i]
            < order[j] by {
            sorted_pair(before, keys, fewer, at, n, i, j);
        }
    } else {
        assert(sorted_order(keys) =~= Seq::<int>::empty());
    }
}

proof fn sorted_pair(before: Seq<int>, keys: Seq<int>, fewer: Seq<int>, at: int, n: int, i: int, j: int)
    requires
        n == keys.len(),
        n > 0,
        fewer == keys.drop_last(),
        is_stable_order(before, fewer, n - 1),
        0 <= at <= before.len(),
        forall|j: int| at <= j < before.len() ==> keys[#[trigger] before[j]] > keys[n - 1],
        at > 0 ==> keys[before[at - 1]] <= keys[n - 1],
        0 <= i < j < n,
    ensures
        keys[before.insert(at, n - 1)[i]] <= keys[before.insert(at, n - 1)[j]],
        keys[before.insert(at, n - 1)[i]] == keys[before.insert(at, n - 1)[j]] ==> before.insert(
            at,
            n - 1,
        )[i] < before.insert(at, n - 1)[j],
{
    let order = before.insert(at, n - 1);
    let bi = if i < at { i } else { i - 1 };
    let bj = if j < at { j } else { j - 1 };
    if i != at {
        assert(order[i] == before[bi]);
        assert(fewer[before[bi]] == keys[before[bi]]);
    }
    if j != at {
        assert(order[j] == before[bj]);
        assert(fewer[before[bj]] == keys[before[bj]]);
    }
    if i == at {
        assert(keys[before[bj]] > keys[n - 1]);
    } else if j == at {
        if at > 0 {
            assert(fewer[before[at - 1]] == keys[before[at - 1]]);
            if bi < at - 1 {
                assert(fewer[before[bi]] <= fewer[before[at - 1]]);
            }
        }
        assert(before[bi] < n - 1);
    } else {
        assert(fewer[before[bi]] <= fewer[before[bj]]);
    }
}

/// The keys of a vector, as integers.
pub open spec fn key_seq(keys: Seq<i32>) -> Seq<int> {
    Seq::new(keys.len(), |i: int| keys[i] as int)
}

/// The indices of a vector, as integers.
pub open spec fn index_seq(order: Seq<usize>) -> Seq<int> {
    Seq::new(order.len(), |i: int| order[i] as int)
}

/// Sorts the indices of `keys` by ascending key, keeping indices with equal keys in
/// their order.
pub fn sorted_indices(keys: &Vec<i32>) -> (order: Vec<usize>)
    ensures
        index_seq(order@) == sorted_order(key_seq(keys@)),
        order@.len() == keys@.len(),
        forall|i: int| 0 <= i < order@.len() ==> #[trigger] order@[i] < keys@.len(),
{
    let n = keys.len();
    let mut order: Vec<usize> = Vec::new();
    let mut i: usize = 0;
    assert(key_seq(keys@).take(0) =~= Seq::<int>::empty());
    assert(index_seq(order@) =~= Seq::<int>::empty());
    while i < n
        invariant
            n == keys@.len(),
            i <= n,
            order@.len() == i,
            index_seq(order@) == sorted_order(key_seq(keys@).take(i as int)),
            forall|k: int| 0 <= k < order@.len() ==> #[trigger] order@[k] < i,
        decreases n - i,
    {
        let ghost before = index_seq(order@);
        let ghost upto = key_seq(keys@).take(i + 1);
        let mut at: usize = order.len();
        while at > 0 && keys[order[at - 1]] > keys[i]
            invariant
                n == keys@.len(),
                i < n,
                at <= order@.len(),
                order@.len() == i,
                forall|k: int| 0 <= k < order@.len() ==> #[trigger] order@[k] < i,
                forall|j: int| at <= j < order@.len() ==> keys@[#[trigger] order@[j] as int] > keys@[i as int],
            decreases at,
        {
            at -= 1;
        }
        proof {
            assert(upto.drop_last() =~= key_seq(keys@).take(i as int));
            assert forall|j: int| at <= j < before.len() implies upto[#[trigger] before[j]]
                > upto[i as int] by {
                assert(before[j] == order@[j]);
            }
            if at > 0 {
                assert(before[at - 1] == order@[at - 1]);
            }
            insert_index_at(before, upto, i as int, at as int);
        }
        order.insert(at, i);
        assert(index_seq(order@) =~= before.insert(at as int, i as int));
        i += 1;
    }
    assert(key_seq(keys@).take(n as int) =~= key_seq(keys@));
    order
}

} // verus!

//! Dependency order: the graph theory behind instantiation.
//!
//! A binding table `b` says, for every component `c` and every import `s` of
//! `c`, which component `b[c][s]` the import is bound to. The composition
//! root may create an instance only after all the instances it is bound to,
//! so it needs an order of the components in which every component comes
//! after its providers. Such an order exists exactly when no component
//! depends on itself through a chain of bindings.

use vstd::prelude::*;
use vstd::set_lib::{lemma_int_range, lemma_len_subset, set_int_range};

verus! {

/// The numbers in `v`, as mathematical integers.
pub open spec fn ints(v: Seq<usize>) -> Seq<int> {
    v.map_values(|x: usize| x as int)
}

/// The binding table that the rows `t` hold.
pub open spec fn table_model(t: Seq<Vec<usize>>) -> Seq<Seq<int>> {
    t.map_values(|row: Vec<usize>| ints(row@))
}

/// Every binding of the table names a component of the table.
pub open spec fn table_wf(b: Seq<Seq<int>>) -> bool {
    forall|c: int, s: int|
        0 <= c < b.len() && 0 <= s < b[c].len() ==> 0 <= #[trigger] b[c][s] < b.len()
}

/// Component `c` has an import that is bound to component `p`.
pub open spec fn depends_on(b: Seq<Seq<int>>, c: int, p: int) -> bool {
    0 <= c < b.len() && exists|s: int| 0 <= s < b[c].len() && #[trigger] b[c][s] == p
}

/// Entry `i` of the chain depends on entry `i + 1`.
pub open spec fn links(b: Seq<Seq<int>>, chain: Seq<int>, i: int) -> bool {
    depends_on(b, chain[i], chain[i + 1])
}

/// Every entry of the chain depends on the next one.
pub open spec fn is_dependency_chain(b: Seq<Seq<int>>, chain: Seq<int>) -> bool {
    &&& chain.len() >= 1
    &&& forall|i: int| 0 <= i < chain.len() - 1 ==> #[trigger] links(b, chain, i)
}

/// The chain leads from a component back to itself.
pub open spec fn is_cycle(b: Seq<Seq<int>>, chain: Seq<int>) -> bool {
    &&& chain.len() >= 2
    &&& is_dependency_chain(b, chain)
    &&& chain.first() == chain.last()
}

/// Some component depends, directly or through others, on itself.
pub open spec fn has_cycle(b: Seq<Seq<int>>) -> bool {
    exists|chain: Seq<int>| is_cycle(b, chain)
}

/// All providers of component `c` have a rank below `k`.
pub open spec fn providers_before(b: Seq<Seq<int>>, rank: Seq<int>, c: int, k: int) -> bool {
    forall|s: int| 0 <= s < b[c].len() ==> rank[#[trigger] b[c][s]] < k
}

/// `order` lists every component once, `rank` is its inverse (the place of
/// each component in `order`), and every component comes after all of its
/// providers.
pub open spec fn is_dependency_order(b: Seq<Seq<int>>, order: Seq<int>, rank: Seq<int>) -> bool {
    &&& order.len() == b.len()
    &&& rank.len() == b.len()
    &&& forall|k: int|
        0 <= k < b.len() ==> 0 <= #[trigger] order[k] < b.len() && rank[order[k]] == k
    &&& forall|c: int| 0 <= c < b.len() ==> 0 <= #[trigger] rank[c] < b.len() && order[rank[c]] == c
    &&& forall|c: int, s: int|
        0 <= c < b.len() && 0 <= s < b[c].len() ==> rank[#[trigger] b[c][s]] < rank[c]
}

/// Component `c` can be instantiated at step `k`: it has no instance yet and
/// all of its providers have one.
pub open spec fn ready_at(b: Seq<Seq<int>>, rank: Seq<int>, c: int, k: int) -> bool {
    &&& 0 <= c < b.len()
    &&& rank[c] >= k
    &&& providers_before(b, rank, c, k)
}

/// A dependency order that, at every step, takes the first component of the
/// table that can be instantiated.
pub open spec fn is_first_ready_order(b: Seq<Seq<int>>, order: Seq<int>, rank: Seq<int>) -> bool {
    &&& is_dependency_order(b, order, rank)
    &&& forall|k: int, c: int|
        0 <= k < b.len() && #[trigger] ready_at(b, rank, c, k) ==> order[k] <= c
}

/// Among more than `bound` numbers below `bound`, two are equal.
proof fn lemma_pigeonhole(s: Seq<int>, bound: int)
    requires
        0 <= bound < s.len(),
        forall|i: int| 0 <= i < s.len() ==> 0 <= #[trigger] s[i] < bound,
    ensures
        exists|i: int, j: int| 0 <= i < j < s.len() && s[i] == s[j],
{
    if s.no_duplicates() {
        s.unique_seq_to_set();
        lemma_int_range(0, bound);
        assert(s.to_set().subset_of(set_int_range(0, bound)));
        lemma_len_subset(s.to_set(), set_int_range(0, bound));
        assert(false);
    } else {
        let (i, j) = choose|i: int, j: int|
            0 <= i < s.len() && 0 <= j < s.len() && i != j && s[i] == s[j];
        if i < j {
            assert(0 <= i < j < s.len() && s[i] == s[j]);
        } else {
            assert(0 <= j < i < s.len() && s[j] == s[i]);
        }
    }
}

/// Along a dependency chain the rank falls with every step.
proof fn lemma_rank_falls(
    b: Seq<Seq<int>>,
    order: Seq<int>,
    rank: Seq<int>,
    chain: Seq<int>,
    i: int,
)
    requires
        table_wf(b),
        is_dependency_order(b, order, rank),
        is_dependency_chain(b, chain),
        0 <= i < chain.len(),
    ensures
        0 <= chain[i] < b.len() || i == 0,
        i > 0 ==> 0 <= chain[0] < b.len(),
        rank[chain[i]] <= rank[chain[0]] - i,
    decreases i,
{
    if i > 0 {
        lemma_rank_falls(b, order, rank, chain, i - 1);
        assert(links(b, chain, i - 1));
        let c = chain[i - 1];
        let s = choose|s: int| 0 <= s < b[c].len() && #[trigger] b[c][s] == chain[i];
        assert(providers_before(b, rank, c, rank[c]));
    }
}

/// A table with a dependency order has no cycle: whatever can be
/// instantiated in some order depends on nothing that depends on it.
pub proof fn lemma_order_excludes_cycle(b: Seq<Seq<int>>, order: Seq<int>, rank: Seq<int>)
    requires
        table_wf(b),
        is_dependency_order(b, order, rank),
    ensures
        !has_cycle(b),
{
    if has_cycle(b) {
        let chain = choose|chain: Seq<int>| is_cycle(b, chain);
        lemma_rank_falls(b, order, rank, chain, chain.len() - 1);
    }
}

/// Two first-ready orders of one table agree on their first `k` places.
proof fn lemma_first_ready_prefix(
    b: Seq<Seq<int>>,
    o1: Seq<int>,
    r1: Seq<int>,
    o2: Seq<int>,
    r2: Seq<int>,
    k: int,
)
    requires
        table_wf(b),
        is_first_ready_order(b, o1, r1),
        is_first_ready_order(b, o2, r2),
        0 <= k <= b.len(),
    ensures
        forall|j: int| 0 <= j < k ==> o1[j] == o2[j],
    decreases k,
{
    if k > 0 {
        lemma_first_ready_prefix(b, o1, r1, o2, r2, k - 1);
        lemma_ready_in_other(b, o1, r1, o2, r2, k - 1);
        lemma_ready_in_other(b, o2, r2, o1, r1, k - 1);
    }
}

/// Where two dependency orders agree before place `k`, what the second puts
/// at place `k` can be instantiated at step `k` of the first.
proof fn lemma_ready_in_other(
    b: Seq<Seq<int>>,
    o1: Seq<int>,
    r1: Seq<int>,
    o2: Seq<int>,
    r2: Seq<int>,
    k: int,
)
    requires
        table_wf(b),
        is_dependency_order(b, o1, r1),
        is_dependency_order(b, o2, r2),
        0 <= k < b.len(),
        forall|j: int| 0 <= j < k ==> o1[j] == o2[j],
    ensures
        ready_at(b, r1, o2[k], k),
{
    let c = o2[k];
    if r1[c] < k {
        assert(o1[r1[c]] == c);
        assert(o2[r1[c]] == c);
    }
    assert(providers_before(b, r2, c, r2[c]));
    assert forall|s: int| 0 <= s < b[c].len() implies r1[#[trigger] b[c][s]] < k by {
        let p = b[c][s];
        assert(r2[p] < k);
        assert(o2[r2[p]] == p);
        assert(o1[r2[p]] == p);
    }
}

/// A table has at most one first-ready order.
pub proof fn lemma_first_ready_order_unique(
    b: Seq<Seq<int>>,
    o1: Seq<int>,
    r1: Seq<int>,
    o2: Seq<int>,
    r2: Seq<int>,
)
    requires
        table_wf(b),
        is_first_ready_order(b, o1, r1),
        is_first_ready_order(b, o2, r2),
    ensures
        o1 == o2,
        r1 == r2,
{
    lemma_first_ready_prefix(b, o1, r1, o2, r2, b.len() as int);
    assert(o1 =~= o2);
    assert forall|c: int| 0 <= c < b.len() implies r1[c] == r2[c] by {
        assert(o1[r1[c]] == c);
        assert(o2[r2[c]] == c);
    }
    assert(r1 =~= r2);
}

/// The state of the search for a first-ready order after `k` steps: `order`
/// holds the `k` components placed so far, and `rank` holds the place of each
/// of them and the number of components for every other one.
spec fn is_partial_order(b: Seq<Seq<int>>, order: Seq<int>, rank: Seq<int>, k: int) -> bool {
    &&& 0 <= k <= b.len()
    &&& order.len() == k
    &&& rank.len() == b.len()
    &&& forall|j: int| 0 <= j < k ==> 0 <= #[trigger] order[j] < b.len() && rank[order[j]] == j
    &&& forall|c: int|
        0 <= c < b.len() ==> (#[trigger] rank[c] == b.len() || (0 <= rank[c] < k
            && order[rank[c]] == c))
    &&& forall|c: int|
        0 <= c < b.len() && rank[c] < k ==> #[trigger] providers_before(b, rank, c, rank[c])
    &&& forall|j: int, c: int| 0 <= j < k && #[trigger] ready_at(b, rank, c, j) ==> order[j] <= c
}

/// Placing the first ready component extends the search by one step.
proof fn lemma_place(b: Seq<Seq<int>>, order: Seq<int>, rank: Seq<int>, k: int, c: int)
    requires
        table_wf(b),
        is_partial_order(b, order, rank, k),
        k < b.len(),
        ready_at(b, rank, c, k),
        forall|x: int| 0 <= x < c ==> !ready_at(b, rank, x, k),
    ensures
        is_partial_order(b, order.push(c), rank.update(c, k), k + 1),
{
    let o2 = order.push(c);
    let r2 = rank.update(c, k);
    assert forall|x: int, j: int| 0 <= x < b.len() && 0 <= j <= k && providers_before(
        b,
        r2,
        x,
        j,
    ) implies providers_before(b, rank, x, j) by {
        assert forall|s: int| 0 <= s < b[x].len() implies rank[#[trigger] b[x][s]] < j by {
            assert(r2[b[x][s]] < j);
        }
    }
    assert forall|x: int| 0 <= x < b.len() && r2[x] < k + 1 implies #[trigger] providers_before(
        b,
        r2,
        x,
        r2[x],
    ) by {
        if x == c {
            assert forall|s: int| 0 <= s < b[x].len() implies r2[#[trigger] b[x][s]] < k by {
                assert(rank[b[x][s]] < k);
            }
        } else {
            assert(providers_before(b, rank, x, rank[x]));
            assert forall|s: int| 0 <= s < b[x].len() implies r2[#[trigger] b[x][s]]
                < rank[x] by {
                assert(rank[b[x][s]] < rank[x]);
            }
        }
    }
    assert forall|j: int, x: int| 0 <= j < k + 1 && #[trigger] ready_at(
        b,
        r2,
        x,
        j,
    ) implies o2[j] <= x by {
        if x != c {
            assert(providers_before(b, rank, x, j));
            assert(ready_at(b, rank, x, j));
        } else if j < k {
            assert(providers_before(b, rank, x, j));
            assert(ready_at(b, rank, x, j));
        }
    }
}

/// The walk from `start` that goes, at every step, from a component to one of
/// its providers that has no place before `k`.
spec fn blocked_walk(b: Seq<Seq<int>>, rank: Seq<int>, k: int, start: int, i: nat) -> int
    decreases i,
{
    if i == 0 {
        start
    } else {
        let c = blocked_walk(b, rank, k, start, (i - 1) as nat);
        let s = choose|s: int| 0 <= s < b[c].len() && rank[#[trigger] b[c][s]] >= k;
        b[c][s]
    }
}

/// Where nothing is ready at step `k`, the walk never leaves the components
/// without a place before `k`.
proof fn lemma_blocked_walk(b: Seq<Seq<int>>, rank: Seq<int>, k: int, start: int, i: nat)
    requires
        table_wf(b),
        rank.len() == b.len(),
        0 <= start < b.len(),
        rank[start] >= k,
        forall|c: int| 0 <= c < b.len() ==> !ready_at(b, rank, c, k),
    ensures
        0 <= blocked_walk(b, rank, k, start, i) < b.len(),
        rank[blocked_walk(b, rank, k, start, i)] >= k,
        i > 0 ==> depends_on(
            b,
            blocked_walk(b, rank, k, start, (i - 1) as nat),
            blocked_walk(b, rank, k, start, i),
        ),
    decreases i,
{
    if i > 0 {
        lemma_blocked_walk(b, rank, k, start, (i - 1) as nat);
        let c = blocked_walk(b, rank, k, start, (i - 1) as nat);
        assert(!ready_at(b, rank, c, k));
        assert(!providers_before(b, rank, c, k));
        let s = choose|s: int| 0 <= s < b[c].len() && rank[#[trigger] b[c][s]] >= k;
        assert(b[c][s] == blocked_walk(b, rank, k, start, i));
    }
}

/// Where some component has no place yet and none can be given one, the
/// table has a cycle.
proof fn lemma_stuck_has_cycle(b: Seq<Seq<int>>, rank: Seq<int>, k: int, start: int)
    requires
        table_wf(b),
        rank.len() == b.len(),
        0 <= start < b.len(),
        rank[start] >= k,
        forall|c: int| 0 <= c < b.len() ==> !ready_at(b, rank, c, k),
    ensures
        has_cycle(b),
{
    let n = b.len() as int;
    let walk = Seq::new((n + 1) as nat, |i: int| blocked_walk(b, rank, k, start, i as nat));
    assert forall|i: int| 0 <= i < walk.len() implies 0 <= #[trigger] walk[i] < n by {
        lemma_blocked_walk(b, rank, k, start, i as nat);
    }
    lemma_pigeonhole(walk, n);
    let (i, j) = choose|i: int, j: int| 0 <= i < j < walk.len() && walk[i] == walk[j];
    let chain = walk.subrange(i, j + 1);
    assert forall|t: int| 0 <= t < chain.len() - 1 implies #[trigger] links(b, chain, t) by {
        lemma_blocked_walk(b, rank, k, start, (i + t + 1) as nat);
    }
    assert(is_cycle(b, chain));
}

/// After fewer steps than there are components, some component has no place.
proof fn lemma_some_unplaced(b: Seq<Seq<int>>, order: Seq<int>, rank: Seq<int>, k: int) -> (c:
    int)
    requires
        is_partial_order(b, order, rank, k),
        k < b.len(),
    ensures
        0 <= c < b.len(),
        rank[c] == b.len(),
{
    if forall|c: int| 0 <= c < b.len() ==> rank[c] != b.len() {
        assert forall|c: int| 0 <= c < rank.len() implies 0 <= #[trigger] rank[c] < k by {}
        lemma_pigeonhole(rank, k);
        let (i, j) = choose|i: int, j: int| 0 <= i < j < rank.len() && rank[i] == rank[j];
        assert(order[rank[i]] == i);
        assert(order[rank[j]] == j);
        assert(false);
    }
    choose|c: int| 0 <= c < b.len() && rank[c] == b.len()
}

/// After as many steps as there are components, every component has a place.
proof fn lemma_all_placed(b: Seq<Seq<int>>, order: Seq<int>, rank: Seq<int>)
    requires
        is_partial_order(b, order, rank, b.len() as int),
    ensures
        is_first_ready_order(b, order, rank),
{
    let n = b.len() as int;
    if exists|c: int| 0 <= c < n && rank[c] == n {
        let gap = choose|c: int| 0 <= c < n && rank[c] == n;
        let packed = Seq::new(
            n as nat,
            |j: int|
                if order[j] < gap {
                    order[j]
                } else {
                    order[j] - 1
                },
        );
        assert forall|j: int| 0 <= j < packed.len() implies 0 <= #[trigger] packed[j] < n - 1 by {
            assert(rank[order[j]] == j);
        }
        lemma_pigeonhole(packed, n - 1);
        let (i, j) = choose|i: int, j: int| 0 <= i < j < packed.len() && packed[i] == packed[j];
        assert(rank[order[i]] == i);
        assert(rank[order[j]] == j);
        assert(false);
    }
    assert forall|c: int, s: int| 0 <= c < n && 0 <= s < b[c].len() implies rank[#[trigger] b[c][s]]
        < rank[c] by {
        assert(providers_before(b, rank, c, rank[c]));
    }
}

/// True when every provider in `row` has a rank below `k`.
fn providers_placed(row: &Vec<usize>, rank: &Vec<usize>, k: usize) -> (r: bool)
    requires
        forall|s: int| 0 <= s < row.len() ==> #[trigger] row[s] < rank.len(),
    ensures
        r == forall|s: int| 0 <= s < row.len() ==> rank[#[trigger] row[s] as int] < k,
{
    let mut s: usize = 0;
    while s < row.len()
        invariant
            s <= row.len(),
            forall|t: int| 0 <= t < row.len() ==> #[trigger] row[t] < rank.len(),
            forall|t: int| 0 <= t < s ==> rank[#[trigger] row[t] as int] < k,
        decreases row.len() - s,
    {
        if rank[row[s]] >= k {
            return false;
        }
        s += 1;
    }
    true
}

/// True when every binding of the table names a component of the table.
pub fn names_components(table: &Vec<Vec<usize>>) -> (r: bool)
    ensures
        r == table_wf(table_model(table@)),
{
    let ghost b = table_model(table@);
    let mut c: usize = 0;
    while c < table.len()
        invariant
            c <= table.len(),
            b == table_model(table@),
            forall|x: int, s: int|
                0 <= x < c && 0 <= s < b[x].len() ==> 0 <= #[trigger] b[x][s] < b.len(),
        decreases table.len() - c,
    {
        let row = &table[c];
        let mut s: usize = 0;
        while s < row.len()
            invariant
                c < table.len(),
                s <= row.len(),
                row == table[c as int],
                b == table_model(table@),
                forall|t: int| 0 <= t < s ==> 0 <= #[trigger] b[c as int][t] < b.len(),
            decreases row.len() - s,
        {
            if row[s] >= table.len() {
                assert(b[c as int][s as int] == row[s as int]);
                return false;
            }
            s += 1;
        }
        c += 1;
    }
    true
}

/// Puts the components of a binding table in dependency order.
///
/// Returns the order together with its inverse, the rank of every component.
/// At every step the first component of the table that can be instantiated
/// is taken, so a table has one result only. Returns `None` where a binding
/// names no component of the table, and where the table has a cycle.
pub fn dependency_order(table: &Vec<Vec<usize>>) -> (r: Option<(Vec<usize>, Vec<usize>)>)
    ensures
        r is None <==> !table_wf(table_model(table@)) || has_cycle(table_model(table@)),
        match r {
            Some((order, rank)) => is_first_ready_order(
                table_model(table@),
                ints(order@),
                ints(rank@),
            ),
            None => true,
        },
{
    if !names_components(table) {
        return None;
    }
    let n = table.len();
    let ghost b = table_model(table@);
    let mut rank: Vec<usize> = Vec::new();
    let mut c: usize = 0;
    while c < n
        invariant
            c <= n,
            rank.len() == c,
            forall|x: int| 0 <= x < c ==> rank[x] == n,
        decreases n - c,
    {
        rank.push(n);
        c += 1;
    }
    let mut order: Vec<usize> = Vec::new();
    let mut k: usize = 0;
    while k < n
        invariant
            n == table.len(),
            b == table_model(table@),
            table_wf(b),
            k == order.len(),
            is_partial_order(b, ints(order@), ints(rank@), k as int),
        decreases n - k,
    {
        let mut c: usize = 0;
        let mut found = false;
        while c < n && !found
            invariant
                n == table.len(),
                b == table_model(table@),
                table_wf(b),
                k < n,
                c <= n,
                is_partial_order(b, ints(order@), ints(rank@), k as int),
                forall|x: int| 0 <= x < c ==> !ready_at(b, ints(rank@), x, k as int),
                found ==> c < n && ready_at(b, ints(rank@), c as int, k as int),
            decreases n - c + (if found { 0int } else { 1int }),
        {
            proof {
                let row = table[c as int];
                assert forall|s: int| 0 <= s < row.len() implies #[trigger] row[s] < rank.len() by {
                    assert(b[c as int][s] == row[s]);
                }
            }
            if rank[c] == n && providers_placed(&table[c], &rank, k) {
                found = true;
            } else {
                proof {
                    if rank[c as int] == n {
                        let row = table[c as int];
                        let s = choose|s: int|
                            0 <= s < row.len() && !(rank[#[trigger] row[s] as int] < k);
                        assert(ints(rank@)[b[c as int][s]] >= k);
                    }
                }
                c += 1;
            }
        }
        if !found {
            proof {
                let start = lemma_some_unplaced(b, ints(order@), ints(rank@), k as int);
                lemma_stuck_has_cycle(b, ints(rank@), k as int, start);
            }
            return None;
        }
        proof {
            lemma_place(b, ints(order@), ints(rank@), k as int, c as int);
            assert(ints(order@.push(c)) =~= ints(order@).push(c as int));
            assert(ints(rank@.update(c as int, k)) =~= ints(rank@).update(c as int, k as int));
        }
        rank.set(c, k);
        order.push(c);
        k += 1;
    }
    proof {
        lemma_all_placed(b, ints(order@), ints(rank@));
        lemma_order_excludes_cycle(b, ints(order@), ints(rank@));
    }
    Some((order, rank))
}

} // verus!

use vstd::prelude::*;

verus! {

/// The work items `0, 1, .., n - 1`.
pub open spec fn workload(n: nat) -> Seq<usize> {
    Seq::new(n, |i: int| i as usize)
}

/// The length of the chunks a workload is cut into: an even share of the
/// workload per worker, rounded down, and never less than one item. With no
/// worker at all the workload stays in one piece.
pub open spec fn chunk_len(items: nat, workers: nat) -> nat {
    let share = if workers == 0 {
        items
    } else {
        items / workers
    };
    if share == 0 {
        1
    } else {
        share
    }
}

/// The number of chunks that `n` work items fall into when cut into chunks
/// of `len` items: `n / len`, rounded up.
pub open spec fn chunk_count(n: nat, len: nat) -> nat {
    if len == 0 {
        0
    } else {
        ((n + len - 1) / (len as int)) as nat
    }
}

/// The work items of chunk `k`: `len` consecutive items from `k * len` on,
/// or as many as are left of the `n`.
pub open spec fn chunk_items(n: nat, len: nat, k: nat) -> Seq<usize> {
    let start = k * len;
    let end = if start + len <= n {
        start + len
    } else {
        n
    };
    Seq::new((end - start) as nat, |j: int| (start + j) as usize)
}

/// Computes the chunk length for a workload of `items` items and `workers`
/// workers.
pub fn chunk_size(items: usize, workers: usize) -> (len: usize)
    ensures
        len == chunk_len(items as nat, workers as nat),
        len >= 1,
{
    let share: usize = if workers == 0 {
        items
    } else {
        items / workers
    };
    if share == 0 {
        1
    } else {
        share
    }
}

/// Every chunk starts inside the workload, and the chunks together reach
/// its end.
pub proof fn lemma_chunk_bounds(n: nat, len: nat, k: nat)
    requires
        len >= 1,
    ensures
        k < chunk_count(n, len) ==> k * len < n,
        chunk_count(n, len) * len >= n,
        n > 0 ==> chunk_count(n, len) > 0,
{
    let total = (n + len - 1) as int;
    let d = len as int;
    vstd::arithmetic::div_mod::lemma_fundamental_div_mod(total, d);
    vstd::arithmetic::div_mod::lemma_mod_bound(total, d);
    let q = total / d;
    let r = total % d;
    assert(total == d * q + r);
    assert(q >= 0) by (nonlinear_arith)
        requires
            total == d * q + r,
            total >= 0,
            0 <= r < d,
    ;
    assert(q * d >= n) by (nonlinear_arith)
        requires
            total == d * q + r,
            total == n + d - 1,
            0 <= r < d,
    ;
    if k < chunk_count(n, len) {
        assert(k * d < n) by (nonlinear_arith)
            requires
                total == d * q + r,
                total == n + d - 1,
                0 <= r < d,
                0 <= k <= q - 1,
        ;
    }
    if n > 0 && q == 0 {
        assert(q * d == 0) by (nonlinear_arith)
            requires
                q == 0,
        ;
    }
}

/// The first `m` chunks hold the first `m * len` work items, or all `n` of
/// them if there are fewer: chunk after chunk, no item is left out and none
/// comes twice.
pub proof fn lemma_chunks_cover_the_workload(n: nat, len: nat, m: nat)
    requires
        len >= 1,
        m <= chunk_count(n, len),
    ensures
        Seq::new(m, |k: int| chunk_items(n, len, k as nat)).flatten() == workload(
            if m * len <= n {
                m * len
            } else {
                n
            },
        ),
    decreases m,
{
    let chunks = Seq::new(m, |k: int| chunk_items(n, len, k as nat));
    if m == 0 {
        assert(chunks.flatten() =~= Seq::<usize>::empty());
        assert(0 * len == 0) by (nonlinear_arith);
        assert(workload(0) =~= Seq::<usize>::empty());
    } else {
        let k = (m - 1) as nat;
        lemma_chunks_cover_the_workload(n, len, k);
        lemma_chunk_bounds(n, len, k);
        let before = Seq::new(k, |k: int| chunk_items(n, len, k as nat));
        assert(chunks =~= before.push(chunk_items(n, len, k)));
        before.lemma_flatten_push(chunk_items(n, len, k));
        assert(m * len == k * len + len) by (nonlinear_arith)
            requires
                m == k + 1,
        ;
        let start = k * len;
        let end: nat = if m * len <= n {
            m * len
        } else {
            n
        };
        assert(before.flatten() == workload(start));
        assert(workload(start) + chunk_items(n, len, k) =~= workload(end));
    }
}

} // verus!

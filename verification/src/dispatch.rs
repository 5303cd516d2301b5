use crate::chunks::{
    chunk_count, chunk_items, chunk_len, chunk_size, lemma_chunk_bounds,
    lemma_chunks_cover_the_workload, workload,
};
use rayon::iter::{IndexedParallelIterator, IntoParallelIterator, ParallelIterator};
use vstd::prelude::*;

verus! {

/// `part` is what one call of `job` on work item `i` may return.
pub open spec fn may_return<T, G: Fn(usize) -> Vec<T>>(job: &G, i: usize, part: Seq<T>) -> bool {
    exists|r: Vec<T>| call_ensures(job, (i,), r) && r@ == part
}

/// `parts` holds, for each work item of `items` in turn, what one call of
/// `job` on it may return.
pub open spec fn outcomes_on<T, G: Fn(usize) -> Vec<T>>(
    job: &G,
    items: Seq<usize>,
    parts: Seq<Seq<T>>,
) -> bool {
    &&& parts.len() == items.len()
    &&& forall|k: int| 0 <= k < items.len() ==> may_return(job, items[k], #[trigger] parts[k])
}

/// `rows` is what running `job` once on each of `items`, in turn, and
/// joining the results in that order may give.
pub open spec fn gathered_in_order<T, G: Fn(usize) -> Vec<T>>(
    job: &G,
    items: Seq<usize>,
    rows: Seq<T>,
) -> bool {
    exists|parts: Seq<Seq<T>>| outcomes_on(job, items, parts) && rows == parts.flatten()
}

/// `rows` holds, in some order, what running `job` once on each of `items`
/// may give: as a multiset, the rows are those of all the calls together.
pub open spec fn gathered<T, G: Fn(usize) -> Vec<T>>(
    job: &G,
    items: Seq<usize>,
    rows: Seq<T>,
) -> bool {
    exists|parts: Seq<Seq<T>>|
        outcomes_on(job, items, parts) && rows.to_multiset() == parts.flatten().to_multiset()
}

/// `rows` holds, in some order, what running `job` chunk by chunk may give:
/// the work items `0..n` are cut into chunks of `len` items, each chunk is
/// run on its own as `run_chunk` runs it, and `rows` holds, as a multiset,
/// the rows of all chunks together.
pub open spec fn gathered_by_chunks<T, G: Fn(usize) -> Vec<T>>(
    job: &G,
    n: nat,
    len: nat,
    rows: Seq<T>,
) -> bool {
    exists|chunk_rows: Seq<Seq<T>>|
        {
            &&& chunk_rows.len() == chunk_count(n, len)
            &&& forall|k: int|
                0 <= k < chunk_rows.len() ==> gathered_in_order(
                    job,
                    chunk_items(n, len, k as nat),
                    #[trigger] chunk_rows[k],
                )
            &&& rows.to_multiset() == chunk_rows.flatten().to_multiset()
        }
}

/// `rows` holds, in some order, what running `job` on the worker pool may
/// give: for some number of workers, the work items `0..n` were run in
/// chunks of `chunk_len(n, workers)` items.
pub open spec fn gathered_on_pool<T, G: Fn(usize) -> Vec<T>>(
    job: &G,
    n: nat,
    rows: Seq<T>,
) -> bool {
    exists|workers: nat| gathered_by_chunks(job, n, chunk_len(n, workers), rows)
}

/// What the first `m` chunks returned is what `job` may return on their
/// work items, taken one after the other.
proof fn lemma_parts_of_chunks<T, G: Fn(usize) -> Vec<T>>(
    job: &G,
    n: nat,
    len: nat,
    chunk_rows: Seq<Seq<T>>,
    m: nat,
) -> (parts: Seq<Seq<T>>)
    requires
        m <= chunk_rows.len(),
        forall|k: int|
            0 <= k < chunk_rows.len() ==> gathered_in_order(
                job,
                chunk_items(n, len, k as nat),
                #[trigger] chunk_rows[k],
            ),
    ensures
        outcomes_on(job, Seq::new(m, |k: int| chunk_items(n, len, k as nat)).flatten(), parts),
        parts.flatten() == chunk_rows.take(m as int).flatten(),
    decreases m,
{
    let chunks = Seq::new(m, |k: int| chunk_items(n, len, k as nat));
    if m == 0 {
        let parts = Seq::<Seq<T>>::empty();
        assert(chunks.flatten() =~= Seq::<usize>::empty());
        assert(chunk_rows.take(0).flatten() =~= parts.flatten());
        parts
    } else {
        let k = (m - 1) as nat;
        let before = lemma_parts_of_chunks(job, n, len, chunk_rows, k);
        let items_before = Seq::new(k, |k: int| chunk_items(n, len, k as nat));
        let own_items = chunk_items(n, len, k);
        assert(gathered_in_order(job, own_items, chunk_rows[k as int]));
        let own = choose|own: Seq<Seq<T>>|
            outcomes_on(job, own_items, own) && chunk_rows[k as int] == own.flatten();
        let parts = before + own;

        assert(chunks =~= items_before.push(own_items));
        items_before.lemma_flatten_push(own_items);
        let items = chunks.flatten();
        assert(items == items_before.flatten() + own_items);
        assert forall|i: int| 0 <= i < items.len() implies may_return(
            job,
            items[i],
            #[trigger] parts[i],
        ) by {
            if i < before.len() {
                assert(parts[i] == before[i]);
            } else {
                assert(parts[i] == own[i - before.len()]);
            }
        }

        assert(chunk_rows.take(m as int) =~= chunk_rows.take(k as int).push(chunk_rows[k as int]));
        chunk_rows.take(k as int).lemma_flatten_push(chunk_rows[k as int]);
        vstd::seq_lib::lemma_flatten_concat(before, own);
        parts
    }
}

/// Running a workload chunk by chunk loses nothing and adds nothing: the
/// rows gathered from the chunks are the rows of one call of `job` on each
/// work item.
pub proof fn lemma_chunks_gather_everything<T, G: Fn(usize) -> Vec<T>>(
    job: &G,
    n: nat,
    len: nat,
    rows: Seq<T>,
)
    requires
        len >= 1,
        gathered_by_chunks(job, n, len, rows),
    ensures
        gathered(job, workload(n), rows),
{
    let chunk_rows = choose|chunk_rows: Seq<Seq<T>>|
        {
            &&& chunk_rows.len() == chunk_count(n, len)
            &&& forall|k: int|
                0 <= k < chunk_rows.len() ==> gathered_in_order(
                    job,
                    chunk_items(n, len, k as nat),
                    #[trigger] chunk_rows[k],
                )
            &&& rows.to_multiset() == chunk_rows.flatten().to_multiset()
        };
    let count = chunk_count(n, len);
    let parts = lemma_parts_of_chunks(job, n, len, chunk_rows, count);
    lemma_chunk_bounds(n, len, count);
    lemma_chunks_cover_the_workload(n, len, count);
    assert(chunk_rows.take(count as int) =~= chunk_rows);
    assert(outcomes_on(job, workload(n), parts));
}

/// One more work item run adds its result to the outcomes and its rows to
/// the end of the rows.
proof fn lemma_one_more_outcome<T, G: Fn(usize) -> Vec<T>>(
    job: &G,
    items: Seq<usize>,
    parts: Seq<Seq<T>>,
    item: usize,
    part: Seq<T>,
)
    requires
        outcomes_on(job, items, parts),
        may_return(job, item, part),
    ensures
        outcomes_on(job, items.push(item), parts.push(part)),
        parts.push(part).flatten() == parts.flatten() + part,
{
    let grown = parts.push(part);
    assert forall|k: int| 0 <= k < items.push(item).len() implies may_return(
        job,
        items.push(item)[k],
        #[trigger] grown[k],
    ) by {
        if k < items.len() {
            assert(grown[k] == parts[k]);
        }
    }
    parts.lemma_flatten_push(part);
}

/// Runs `job` on every work item of one chunk, one after the other, and
/// joins the results in that order.
pub fn run_chunk<T, G: Fn(usize) -> Vec<T>>(items: &Vec<usize>, job: &G) -> (rows: Vec<T>)
    requires
        forall|k: int| 0 <= k < items.len() ==> call_requires(job, (#[trigger] items[k],)),
    ensures
        gathered_in_order(job, items@, rows@),
{
    let mut rows: Vec<T> = Vec::new();
    let ghost mut parts: Seq<Seq<T>> = Seq::empty();
    let mut k: usize = 0;
    while k < items.len()
        invariant
            k <= items.len(),
            forall|k: int| 0 <= k < items.len() ==> call_requires(job, (#[trigger] items[k],)),
            outcomes_on(job, items@.take(k as int), parts),
            rows@ == parts.flatten(),
        decreases items.len() - k,
    {
        let mut part: Vec<T> = job(items[k]);
        proof {
            assert(may_return(job, items@[k as int], part@));
            lemma_one_more_outcome(job, items@.take(k as int), parts, items@[k as int], part@);
            assert(items@.take(k + 1) =~= items@.take(k as int).push(items@[k as int]));
            parts = parts.push(part@);
        }
        rows.append(&mut part);
        k += 1;
    }
    assert(items@.take(k as int) =~= items@);
    rows
}

/// The number of worker threads of the pool a parallel run would use
/// (`rayon::current_num_threads`). The number depends on the machine and on
/// how the pool was configured, so nothing is claimed of it.
#[verifier::external_body]
fn worker_count() -> usize {
    rayon::current_num_threads()
}

/// Runs `job` on the work items `0..n` on the worker pool: the range is cut
/// into consecutive chunks of `len` items (the last may be shorter),
/// every chunk goes through `run_chunk` on some worker, and the rows of all
/// chunks are collected into one vector (rayon's `into_par_iter`, `chunks`,
/// `map`, `flatten` and `collect`).
///
/// Claimed without proof: the vector holds the rows that `run_chunk`
/// returned for those chunks, all of them and no others. No order of the
/// rows is claimed. `chunks` panics on a chunk size of zero, which the
/// precondition leaves out.
#[verifier::external_body]
fn run_chunks_on_pool<T, G>(n: usize, len: usize, job: &G) -> (rows: Vec<T>)
    where
        T: Send,
        G: Fn(usize) -> Vec<T> + Sync,
    requires
        len >= 1,
        forall|i: usize| i < n ==> call_requires(job, (i,)),
    ensures
        gathered_by_chunks(job, n as nat, len as nat, rows@),
{
    (0..n).into_par_iter().chunks(len).map(|chunk| run_chunk(&chunk, job)).flatten().collect()
}

/// Runs `job` once on each of the work items `0..n` on the worker pool, in
/// chunks of `chunk_size(n, workers)` items, and returns all rows in some
/// order. `workers` only sets the chunk length; how many threads take part
/// is the pool's own affair.
pub fn dispatch_with_workers<T, G>(n: usize, workers: usize, job: &G) -> (rows: Vec<T>)
    where
        T: Send,
        G: Fn(usize) -> Vec<T> + Sync,
    requires
        forall|i: usize| i < n ==> call_requires(job, (i,)),
    ensures
        gathered_by_chunks(job, n as nat, chunk_len(n as nat, workers as nat), rows@),
        gathered(job, workload(n as nat), rows@),
{
    let len: usize = chunk_size(n, workers);
    let rows = run_chunks_on_pool(n, len, job);
    proof {
        lemma_chunks_gather_everything(job, n as nat, len as nat, rows@);
    }
    rows
}

/// Runs `job` once on each of the work items `0..n` and returns all rows.
/// A serial run takes the items in order on the calling thread; a parallel
/// run cuts them into one chunk per worker of the pool, as
/// `dispatch_with_workers` does. Both give the same rows; only a serial run
/// fixes their order.
pub fn dispatch<T, G>(n: usize, parallel: bool, job: &G) -> (rows: Vec<T>)
    where
        T: Send,
        G: Fn(usize) -> Vec<T> + Sync,
    requires
        forall|i: usize| i < n ==> call_requires(job, (i,)),
    ensures
        gathered(job, workload(n as nat), rows@),
        parallel ==> gathered_on_pool(job, n as nat, rows@),
        !parallel ==> gathered_in_order(job, workload(n as nat), rows@),
{
    if parallel {
        let workers: usize = worker_count();
        dispatch_with_workers(n, workers, job)
    } else {
        let mut rows: Vec<T> = Vec::new();
        let ghost mut parts: Seq<Seq<T>> = Seq::empty();
        let mut i: usize = 0;
        while i < n
            invariant
                i <= n,
                forall|i: usize| i < n ==> call_requires(job, (i,)),
                outcomes_on(job, workload(i as nat), parts),
                rows@ == parts.flatten(),
            decreases n - i,
        {
            let mut part: Vec<T> = job(i);
            proof {
                assert(may_return(job, i, part@));
                lemma_one_more_outcome(job, workload(i as nat), parts, i, part@);
                assert(workload((i + 1) as nat) =~= workload(i as nat).push(i));
                parts = parts.push(part@);
            }
            rows.append(&mut part);
            i += 1;
        }
        rows
    }
}

} // verus!

use vstd::prelude::*;

verus! {

/// Row indices from the last to the first: `rows - 1, rows - 2, ..., 0`.
/// With frequencies in ascending order this visits the highest (cheapest) first.
pub open spec fn descending_rows(rows: nat) -> Seq<usize> {
    Seq::new(rows, |k: int| (rows - 1 - k) as usize)
}

/// The number of rows each worker takes: `rows / threads`, rounded up.
pub open spec fn chunk_size(rows: nat, threads: nat) -> nat {
    if threads == 0 {
        0
    } else if rows % threads == 0 {
        rows / threads
    } else {
        rows / threads + 1
    }
}

/// `items` cut into consecutive pieces of `size` items; the last may be shorter.
pub open spec fn chunks_of(items: Seq<usize>, size: nat) -> Seq<Seq<usize>>
    decreases items.len(),
{
    if items.len() == 0 || size == 0 {
        Seq::empty()
    } else if items.len() <= size {
        seq![items]
    } else {
        seq![items.take(size as int)] + chunks_of(items.skip(size as int), size)
    }
}

/// The work of each worker: the rows in descending order, cut into chunks.
pub open spec fn schedule(rows: nat, threads: nat) -> Seq<Seq<usize>> {
    chunks_of(descending_rows(rows), chunk_size(rows, threads))
}

/// The chunks, taken in order, give back the items they were cut from.
pub proof fn lemma_chunks_concatenate(items: Seq<usize>, size: nat)
    requires
        size >= 1,
    ensures
        chunks_of(items, size).flatten() == items,
    decreases items.len(),
{
    if items.len() == 0 {
    } else if items.len() <= size {
        let ss = seq![items];
        assert(ss.drop_first() =~= Seq::<Seq<usize>>::empty());
        assert(ss.drop_first().flatten() == Seq::<usize>::empty());
        assert(ss.flatten() =~= items);
    } else {
        let rest = chunks_of(items.skip(size as int), size);
        let ss = seq![items.take(size as int)] + rest;
        lemma_chunks_concatenate(items.skip(size as int), size);
        assert(ss.drop_first() =~= rest);
        assert(ss.first() == items.take(size as int));
        assert(items.take(size as int) + items.skip(size as int) =~= items);
    }
}

/// Every row is scheduled exactly once, in the same order, whatever the number
/// of workers: the workers' chunks, taken in order, are the rows from last to
/// first, so the matrix gathered from them does not depend on the worker count.
pub proof fn lemma_schedule_independent_of_threads(rows: nat, threads: nat, other: nat)
    requires
        threads >= 1,
        other >= 1,
    ensures
        schedule(rows, threads).flatten() == descending_rows(rows),
        schedule(rows, threads).flatten() == schedule(rows, other).flatten(),
{
    if rows > 0 {
        assert(chunk_size(rows, threads) >= 1) by (nonlinear_arith)
            requires
                rows > 0,
                threads >= 1,
                chunk_size(rows, threads) == (if rows % threads == 0 {
                    rows / threads
                } else {
                    rows / threads + 1
                }),
        ;
        assert(chunk_size(rows, other) >= 1) by (nonlinear_arith)
            requires
                rows > 0,
                other >= 1,
                chunk_size(rows, other) == (if rows % other == 0 {
                    rows / other
                } else {
                    rows / other + 1
                }),
        ;
        lemma_chunks_concatenate(descending_rows(rows), chunk_size(rows, threads));
        lemma_chunks_concatenate(descending_rows(rows), chunk_size(rows, other));
    } else {
        assert(descending_rows(rows) =~= Seq::<usize>::empty());
    }
}

/// Each vector of a list, seen as a sequence.
pub open spec fn views<T>(v: Seq<Vec<T>>) -> Seq<Seq<T>> {
    v.map_values(|c: Vec<T>| c@)
}

/// Splits the rows of a transform among `threads` workers: the rows in
/// descending order, cut into consecutive chunks of `rows / threads` (rounded
/// up) rows, one chunk per worker.
pub fn work_chunks(rows: usize, threads: u32) -> (r: Vec<Vec<usize>>)
    requires
        threads >= 1,
    ensures
        views(r@) == schedule(rows as nat, threads as nat),
{
    let t = threads as usize;
    let q = rows / t;
    assert(rows % t != 0 ==> q < rows) by (nonlinear_arith)
        requires
            t >= 1,
            q == rows / t,
    ;
    let size: usize = if rows % t == 0 { q } else { q + 1 };
    let ghost items = descending_rows(rows as nat);
    let mut chunks: Vec<Vec<usize>> = Vec::new();
    let mut start: usize = 0;
    if size == 0 {
        assert(rows == 0) by (nonlinear_arith)
            requires
                rows % t == 0 ==> size == rows / t,
                rows % t != 0 ==> size == rows / t + 1,
                size == 0,
                t >= 1,
        ;
        assert(items.len() == 0);
        assert(views(chunks@) =~= schedule(rows as nat, threads as nat));
        return chunks;
    }
    assert(items.subrange(0, rows as int) =~= items);
    assert(views(chunks@) + chunks_of(items, size as nat) =~= chunks_of(items, size as nat));
    while start < rows
        invariant
            size >= 1,
            size == chunk_size(rows as nat, threads as nat),
            start <= rows,
            items == descending_rows(rows as nat),
            views(chunks@) + chunks_of(items.subrange(start as int, rows as int), size as nat)
                == chunks_of(items, size as nat),
        decreases rows - start,
    {
        let end: usize = if rows - start <= size { rows } else { start + size };
        let mut chunk: Vec<usize> = Vec::with_capacity(end - start);
        for k in start..end
            invariant
                start <= end <= rows,
                chunk@ == items.subrange(start as int, k as int),
                items == descending_rows(rows as nat),
        {
            chunk.push(rows - 1 - k);
        }
        let ghost rest = items.subrange(start as int, rows as int);
        proof {
            if rest.len() <= size {
                assert(chunk@ =~= rest);
                assert(items.subrange(end as int, rows as int) =~= Seq::<usize>::empty());
            } else {
                assert(chunk@ =~= rest.take(size as int));
                assert(rest.skip(size as int) =~= items.subrange(end as int, rows as int));
            }
        }
        let ghost before = chunks@;
        chunks.push(chunk);
        proof {
            assert(views(chunks@) =~= views(before) + seq![chunk@]);
            let tail = chunks_of(items.subrange(end as int, rows as int), size as nat);
            if rest.len() <= size {
                assert(chunks_of(rest, size as nat) =~= seq![chunk@]);
                assert(tail =~= Seq::<Seq<usize>>::empty());
                assert(views(chunks@) + tail =~= views(before) + chunks_of(rest, size as nat));
            } else {
                assert(chunks_of(rest, size as nat) == seq![chunk@] + tail);
                assert(views(chunks@) + tail =~= views(before) + chunks_of(rest, size as nat));
            }
        }
        start = end;
    }
    assert(items.subrange(start as int, rows as int) =~= Seq::<usize>::empty());
    assert(views(chunks@) =~= chunks_of(items, size as nat));
    chunks
}

/// Whether some pair of `results` is for row `i`.
pub open spec fn has_row<T>(results: Seq<(usize, Seq<T>)>, i: int) -> bool {
    exists|j: int| 0 <= j < results.len() && results[j].0 == i
}

/// The matrix of `rows` rows in which row `i` is the row that `results` pairs
/// with index `i`, or empty when none is.
pub open spec fn gathered<T>(results: Seq<(usize, Seq<T>)>, rows: nat) -> Seq<Seq<T>> {
    Seq::new(
        rows,
        |i: int|
            if has_row(results, i) {
                results[choose|j: int| 0 <= j < results.len() && results[j].0 == i].1
            } else {
                Seq::empty()
            },
    )
}

/// The pairs of a list of computed rows, with each row seen as a sequence.
pub open spec fn pair_views<T>(results: Seq<(usize, Vec<T>)>) -> Seq<(usize, Seq<T>)> {
    results.map_values(|p: (usize, Vec<T>)| (p.0, p.1@))
}

/// The matrix built from the rows of the scheduled work, each computed by
/// `row_of` from its index, is `row_of` at every index, whatever the number of
/// workers: spreading rows over more workers changes no row and moves none.
pub proof fn lemma_gathered_schedule<T>(rows: nat, threads: nat, row_of: spec_fn(int) -> Seq<T>)
    requires
        threads >= 1,
        rows <= usize::MAX,
    ensures
        gathered(
            schedule(rows, threads).flatten().map_values(|k: usize| (k, row_of(k as int))),
            rows,
        ) == Seq::new(rows, |i: int| row_of(i)),
{
    lemma_schedule_independent_of_threads(rows, threads, threads);
    let work = schedule(rows, threads).flatten();
    let results = work.map_values(|k: usize| (k, row_of(k as int)));
    assert forall|i: int| 0 <= i < rows implies #[trigger] gathered(results, rows)[i] == row_of(i) by {
        let j = rows - 1 - i;
        assert(work[j] == descending_rows(rows)[j]);
        assert(results[j].0 == i);
        assert(has_row(results, i));
    }
    assert(gathered(results, rows) =~= Seq::new(rows, |i: int| row_of(i)));
}

/// The transform has one row per frequency, each as long as the signal, for
/// any number of workers, when each computed row is as long as the signal.
pub proof fn lemma_gathered_shape<T>(
    rows: nat,
    threads: nat,
    n: nat,
    row_of: spec_fn(int) -> Seq<T>,
)
    requires
        threads >= 1,
        rows <= usize::MAX,
        forall|i: int| 0 <= i < rows ==> (#[trigger] row_of(i)).len() == n,
    ensures
        ({
            let matrix = gathered(
                schedule(rows, threads).flatten().map_values(|k: usize| (k, row_of(k as int))),
                rows,
            );
            &&& matrix.len() == rows
            &&& forall|i: int| 0 <= i < rows ==> (#[trigger] matrix[i]).len() == n
        }),
{
    lemma_gathered_schedule(rows, threads, row_of);
}

/// Places each computed row at its own index: `results` pairs a row index with
/// the row computed for it; rows that no pair names stay empty.
pub fn gather_rows<T>(results: Vec<(usize, Vec<T>)>, rows: usize) -> (r: Vec<Vec<T>>)
    requires
        forall|j: int| 0 <= j < results@.len() ==> results@[j].0 < rows,
        forall|j: int, k: int|
            0 <= j < k < results@.len() ==> results@[j].0 != results@[k].0,
    ensures
        r@.len() == rows,
        forall|j: int| 0 <= j < results@.len() ==> r@[results@[j].0 as int]@ == results@[j].1@,
        forall|i: int|
            0 <= i < rows && (forall|j: int| 0 <= j < results@.len() ==> results@[j].0 != i)
                ==> r@[i]@.len() == 0,
        views(r@) == gathered(pair_views(results@), rows as nat),
{
    let mut matrix: Vec<Vec<T>> = Vec::with_capacity(rows);
    for i in 0..rows
        invariant
            matrix@.len() == i,
            forall|k: int| 0 <= k < i ==> matrix@[k]@.len() == 0,
    {
        matrix.push(Vec::new());
    }
    let ghost all = results@;
    let mut results = results;
    while results.len() > 0
        invariant
            matrix@.len() == rows,
            results@ == all.subrange(0, results@.len() as int),
            results@.len() <= all.len(),
            forall|j: int| 0 <= j < all.len() ==> all[j].0 < rows,
            forall|j: int, k: int| 0 <= j < k < all.len() ==> all[j].0 != all[k].0,
            forall|j: int|
                results@.len() <= j < all.len() ==> matrix@[all[j].0 as int]@ == all[j].1@,
            forall|i: int|
                0 <= i < rows && (forall|j: int| results@.len() <= j < all.len() ==> all[j].0 != i)
                    ==> matrix@[i]@.len() == 0,
        decreases results@.len(),
    {
        let ghost n = results@.len() - 1;
        let (index, row) = results.pop().unwrap();
        assert(index == all[n].0 && row@ == all[n].1@);
        matrix.set(index, row);
        assert forall|i: int|
            0 <= i < rows && (forall|j: int| n <= j < all.len() ==> all[j].0 != i)
                implies matrix@[i]@.len() == 0 by {
            assert(all[n].0 != i);
        }
    }
    proof {
        let pv = pair_views(all);
        assert forall|i: int| 0 <= i < rows implies #[trigger] views(matrix@)[i] == gathered(
            pv,
            rows as nat,
        )[i] by {
            if has_row(pv, i) {
                let j = choose|j: int| 0 <= j < pv.len() && pv[j].0 == i;
                assert(all[j].0 == i);
            } else {
                assert forall|j: int| 0 <= j < all.len() implies all[j].0 != i by {
                    assert(pv[j].0 == all[j].0);
                }
            }
        }
        assert(views(matrix@) =~= gathered(pv, rows as nat));
    }
    matrix
}

} // verus!

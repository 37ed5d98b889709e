//! Ingestion and sync planning.
//!
//! Catch-up sync walks from the activation height to the chain tip in
//! fixed-size height batches, never skipped and never reordered; polling
//! then processes exactly the new blocks in ascending order.  The plans are
//! computed here; fetching inscriptions and reading the chain height are
//! I/O that stays outside the library.

use vstd::prelude::*;

verus! {

/// The batch start heights for catch-up sync from `start_height` to
/// `end_height`: `start_height`, then every `batch_size` heights, while the
/// start still lies at or before `end_height`.  The batch at each start
/// holds the `batch_size` heights from it (clipped at `end_height`), so the
/// batches tile the whole range: see [`batch_heights`] and
/// [`lemma_batches_tile_range`].
pub fn sync_batch_starts(start_height: u64, end_height: u64, batch_size: usize) -> (r: Vec<u64>)
    requires
        batch_size >= 1,
    ensures
        start_height > end_height ==> r@.len() == 0,
        start_height <= end_height ==> r@.len() >= 1 && r@[0] == start_height && r@[r@.len() - 1]
            + batch_size > end_height,
        forall|i: int| 0 <= i < r@.len() ==> r@[i] <= end_height,
        forall|i: int| 0 < i < r@.len() ==> #[trigger] r@[i] == r@[i - 1] + batch_size,
{
    let mut r: Vec<u64> = Vec::new();
    if start_height > end_height {
        return r;
    }
    let step: u64 = batch_size as u64;
    let mut h: u64 = start_height;
    let mut more: bool = true;
    while more
        invariant
            step == batch_size as u64,
            step >= 1,
            start_height <= end_height,
            forall|i: int| 0 <= i < r@.len() ==> r@[i] <= end_height,
            forall|i: int| 0 < i < r@.len() ==> #[trigger] r@[i] == r@[i - 1] + step,
            r@.len() >= 1 ==> r@[0] == start_height,
            more ==> h <= end_height,
            more ==> (r@.len() == 0 ==> h == start_height),
            more ==> (r@.len() >= 1 ==> h == r@[r@.len() - 1] + step),
            !more ==> r@.len() >= 1 && r@[r@.len() - 1] + step > end_height,
        decreases (if more {
            end_height - h + 1
        } else {
            0
        }) as int,
    {
        r.push(h);
        if end_height - h < step {
            more = false;
        } else {
            h = h + step;
        }
    }
    r
}

/// The heights the polling loop still has to process when the chain tip has
/// moved from `current_height` to `new_height`: exactly the new blocks, in
/// ascending order, each once.
pub fn pending_heights(current_height: u64, new_height: u64) -> (r: Vec<u64>)
    requires
        current_height <= new_height ==> new_height - current_height <= usize::MAX,
    ensures
        new_height <= current_height ==> r@.len() == 0,
        new_height > current_height ==> r@.len() == new_height - current_height,
        forall|i: int| 0 <= i < r@.len() ==> r@[i] == current_height + 1 + i,
{
    let mut r: Vec<u64> = Vec::new();
    let mut h: u64 = current_height;
    while h < new_height
        invariant
            current_height <= h,
            h <= (if new_height > current_height {
                new_height
            } else {
                current_height
            }),
            r@.len() == h - current_height,
            forall|i: int| 0 <= i < r@.len() ==> r@[i] == current_height + 1 + i,
            current_height <= new_height ==> new_height - current_height <= usize::MAX,
        decreases new_height - h,
    {
        h = h + 1;
        r.push(h);
    }
    r
}

/// The heights of the catch-up batch starting at `batch_start`: the next
/// `batch_size` heights, in ascending order, clipped at `end_height`.
pub fn batch_heights(batch_start: u64, end_height: u64, batch_size: usize) -> (r: Vec<u64>)
    requires
        batch_size >= 1,
        batch_start <= end_height,
    ensures
        r@.len() == (if end_height - batch_start < batch_size {
            end_height - batch_start + 1
        } else {
            batch_size as int
        }),
        forall|i: int| 0 <= i < r@.len() ==> r@[i] == batch_start + i,
{
    let remaining: u64 = end_height - batch_start;
    let count: usize = if remaining >= batch_size as u64 {
        batch_size
    } else {
        (remaining + 1) as usize
    };
    let mut r: Vec<u64> = Vec::new();
    let mut i: usize = 0;
    while i < count
        invariant
            0 <= i <= count,
            count as int <= end_height - batch_start + 1,
            r@.len() == i,
            forall|k: int| 0 <= k < r@.len() ==> r@[k] == batch_start + k,
        decreases count - i,
    {
        r.push(batch_start + i as u64);
        i = i + 1;
    }
    r
}

/// Along the batch plan, later starts only grow, by at least one full batch
/// per step.
proof fn lemma_starts_increase(starts: Seq<u64>, batch_size: usize, i: int, j: int)
    requires
        forall|k: int| 0 < k < starts.len() ==> #[trigger] starts[k] == starts[k - 1] + batch_size,
        batch_size >= 1,
        0 <= i < j < starts.len(),
    ensures
        starts[j] >= starts[i] + batch_size,
    decreases j - i,
{
    assert(starts[i + 1] == starts[i] + batch_size);
    if j > i + 1 {
        lemma_starts_increase(starts, batch_size, i + 1, j);
    }
}

/// The catch-up batches tile the range: every height from `start_height` to
/// `end_height` falls inside exactly one batch of the plan, so no height is
/// skipped and none is processed twice.  The plan properties required here
/// are exactly what [`sync_batch_starts`] ensures.
pub proof fn lemma_batches_tile_range(
    starts: Seq<u64>,
    start_height: u64,
    end_height: u64,
    batch_size: usize,
    h: u64,
)
    requires
        batch_size >= 1,
        starts.len() >= 1,
        starts[0] == start_height,
        starts[starts.len() - 1] + batch_size > end_height,
        forall|i: int| 0 <= i < starts.len() ==> #[trigger] starts[i] <= end_height,
        forall|i: int| 0 < i < starts.len() ==> #[trigger] starts[i] == starts[i - 1] + batch_size,
        start_height <= h <= end_height,
    ensures
        exists|i: int|
            0 <= i < starts.len() && #[trigger] starts[i] <= h && h < starts[i] + batch_size,
        forall|i: int, j: int|
            0 <= i < starts.len() && 0 <= j < starts.len() && starts[i] <= h && h < starts[i]
                + batch_size && starts[j] <= h && h < starts[j] + batch_size ==> i == j,
    decreases starts.len(),
{
    if h < starts[0] + batch_size {
        assert(starts[0] <= h && h < starts[0] + batch_size);
    } else {
        if starts.len() == 1 {
            assert(starts[0] + batch_size > end_height);
            assert(false);
        }
        let rest = starts.subrange(1, starts.len() as int);
        assert(starts[1] == starts[0] + batch_size);
        assert(rest[0] == starts[1]);
        assert(rest[rest.len() - 1] == starts[starts.len() - 1]);
        assert forall|i: int| 0 < i < rest.len() implies #[trigger] rest[i] == rest[i - 1]
            + batch_size by {
            assert(rest[i] == starts[i + 1]);
            assert(rest[i - 1] == starts[i]);
            assert(starts[i + 1] == starts[i] + batch_size);
        }
        lemma_batches_tile_range(rest, starts[1], end_height, batch_size, h);
        let k = choose|k: int|
            0 <= k < rest.len() && #[trigger] rest[k] <= h && h < rest[k] + batch_size;
        assert(starts[k + 1] <= h && h < starts[k + 1] + batch_size);
    }
    assert forall|i: int, j: int|
        0 <= i < starts.len() && 0 <= j < starts.len() && starts[i] <= h && h < starts[i]
            + batch_size && starts[j] <= h && h < starts[j] + batch_size implies i == j by {
        if i < j {
            lemma_starts_increase(starts, batch_size, i, j);
        }
        if j < i {
            lemma_starts_increase(starts, batch_size, j, i);
        }
    }
}

} // verus!

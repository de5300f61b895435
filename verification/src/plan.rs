//! From a canvas, an image and a configuration to the workers that draw it.

use vstd::prelude::*;
use crate::geometry::{resolve, resolve_spec, GeometryError, Placement};
use crate::partition::{
    even_split_spec, is_permutation, lemma_chunk_bounds, lemma_row_band_members, row_band_split,
    row_band_split_spec, shuffled_even_split, slice_views,
};
use crate::protocol::CanvasSize;
use crate::raster::{extract_ops, DrawOp, Image};
use crate::worker::{first_delay, fits_at, position, Phase, Worker, WorkerConfig, WorkerView};

verus! {

/// How the draw operations are divided among the workers.
#[derive(Clone, Copy, Debug, PartialEq, Eq, Structural)]
pub enum Strategy {
    /// Horizontal bands of equal height, each drawn from the top down.
    RowBands,
    /// All operations in a random order, cut into equal parts.
    ShuffledEvenSplit,
}

/// Why no plan could be made.
#[derive(Clone, Copy, Debug, PartialEq, Eq, Structural)]
pub enum PlanError {
    /// The image does not fit on the canvas at the anchor asked for.
    Geometry(GeometryError),
    /// Drawn at the offset asked for, some pixel would have a coordinate of
    /// more than 32 bits.
    CoordinateRange,
}

/// Whether every operation, moved by the offset, has coordinates of 32 bits.
pub open spec fn all_fit(ops: Seq<DrawOp>, offset_x: u32, offset_y: u32) -> bool {
    forall|i: int| 0 <= i < ops.len() ==> fits_at(#[trigger] ops[i], offset_x, offset_y)
}

/// Whether `slices` is a division of `ops` by the given strategy: the row
/// bands of `ops`, or the even split of `ops` in some order.
pub open spec fn is_split(
    slices: Seq<Seq<DrawOp>>,
    ops: Seq<DrawOp>,
    height: nat,
    workers: nat,
    strategy: Strategy,
) -> bool {
    match strategy {
        Strategy::RowBands => slices == row_band_split_spec(ops, height, workers),
        Strategy::ShuffledEvenSplit => exists|shuffled: Seq<DrawOp>|
            is_permutation(ops, shuffled) && slices == #[trigger] even_split_spec(
                shuffled,
                workers,
            ),
    }
}

/// A worker that has not started yet.
pub open spec fn fresh_worker(
    slice: Seq<DrawOp>,
    offset_x: u32,
    offset_y: u32,
    config: WorkerConfig,
) -> WorkerView {
    WorkerView {
        slice,
        offset_x,
        offset_y,
        config,
        phase: Phase::Ready,
        cursor: 0,
        delay: first_delay(config.policy),
        established: false,
    }
}

/// The same operations in another order hold the same operations.
pub proof fn lemma_permutation_contains(a: Seq<DrawOp>, b: Seq<DrawOp>, op: DrawOp)
    requires
        is_permutation(a, b),
    ensures
        a.contains(op) <==> b.contains(op),
{
    vstd::seq_lib::to_multiset_contains(a, op);
    vstd::seq_lib::to_multiset_contains(b, op);
}

/// Whatever the strategy, every operation of every slice is one of the
/// operations that were divided.
pub proof fn lemma_split_members(
    slices: Seq<Seq<DrawOp>>,
    ops: Seq<DrawOp>,
    height: nat,
    workers: nat,
    strategy: Strategy,
    i: int,
    k: int,
)
    requires
        workers > 0,
        is_split(slices, ops, height, workers, strategy),
        0 <= i < slices.len(),
        0 <= k < slices[i].len(),
    ensures
        slices.len() == workers,
        ops.contains(slices[i][k]),
{
    let op = slices[i][k];
    assert(slices[i].contains(op));
    match strategy {
        Strategy::RowBands => {
            lemma_row_band_members(ops, height, workers, i, op);
        },
        Strategy::ShuffledEvenSplit => {
            let shuffled = choose|shuffled: Seq<DrawOp>|
                is_permutation(ops, shuffled) && slices == #[trigger] even_split_spec(
                    shuffled,
                    workers,
                );
            lemma_chunk_bounds(shuffled.len(), workers, i);
            assert(shuffled.contains(op));
            lemma_permutation_contains(ops, shuffled, op);
        },
    }
}

/// Whether every operation can be drawn at the offset.
fn check_all_fit(ops: &[DrawOp], offset_x: u32, offset_y: u32) -> (res: bool)
    ensures
        res == all_fit(ops@, offset_x, offset_y),
{
    let mut i: usize = 0;
    while i < ops.len()
        invariant
            i <= ops@.len(),
            forall|k: int| 0 <= k < i ==> fits_at(#[trigger] ops@[k], offset_x, offset_y),
        decreases ops@.len() - i,
    {
        if position(&ops[i], offset_x, offset_y).is_none() {
            return false;
        }
        i = i + 1;
    }
    true
}

/// Plans a run: resolves where the image goes, takes the draw operations
/// out of the image, divides them among `workers` workers and makes a
/// worker for every slice, in the order of the slices.
///
/// Fails with a geometry error exactly when the placement cannot be
/// resolved, and with a range error exactly when it can but some draw
/// operation would leave the 32-bit coordinate range.
pub fn plan(
    canvas: CanvasSize,
    image: &Image,
    placement: &Placement,
    strategy: Strategy,
    workers: u32,
    config: WorkerConfig,
) -> (res: Result<Vec<Worker>, PlanError>)
    requires
        workers > 0,
    ensures
        match res {
            Err(PlanError::Geometry(e)) => resolve_spec(
                canvas.width,
                canvas.height,
                image@.width as u32,
                image@.height as u32,
                *placement,
            ) == Err::<(u32, u32), GeometryError>(e),
            Err(PlanError::CoordinateRange) => resolve_spec(
                canvas.width,
                canvas.height,
                image@.width as u32,
                image@.height as u32,
                *placement,
            ) matches Ok(offset) && !all_fit(image@.opaque_ops(), offset.0, offset.1),
            Ok(made) => resolve_spec(
                canvas.width,
                canvas.height,
                image@.width as u32,
                image@.height as u32,
                *placement,
            ) matches Ok(offset) && all_fit(image@.opaque_ops(), offset.0, offset.1)
                && exists|slices: Seq<Seq<DrawOp>>|
                {
                    &&& #[trigger] is_split(
                        slices,
                        image@.opaque_ops(),
                        image@.height,
                        workers as nat,
                        strategy,
                    )
                    &&& made@.len() == workers
                    &&& slices.len() == workers
                    &&& forall|i: int|
                        0 <= i < workers ==> (#[trigger] made@[i])@ == fresh_worker(
                            slices[i],
                            offset.0,
                            offset.1,
                            config,
                        )
                },
        },
{
    let width = image.width();
    let height = image.height();
    let (x, y) = match resolve(canvas.width, canvas.height, width, height, placement) {
        Ok(offset) => offset,
        Err(e) => { return Err(PlanError::Geometry(e)); },
    };
    let ops = extract_ops(image);
    if !check_all_fit(ops.as_slice(), x, y) {
        return Err(PlanError::CoordinateRange);
    }
    let ghost all = ops@;
    let mut slices = match strategy {
        Strategy::RowBands => row_band_split(ops.as_slice(), height, workers),
        Strategy::ShuffledEvenSplit => shuffled_even_split(ops, workers),
    };
    let ghost views = slice_views(slices@);
    assert(is_split(views, all, height as nat, workers as nat, strategy));
    // The slices are taken from the back, so the workers come out in
    // reverse; a second pass puts them in the order of the slices.
    let mut reversed: Vec<Worker> = Vec::new();
    while slices.len() > 0
        invariant
            workers > 0,
            views.len() == workers,
            is_split(views, all, height as nat, workers as nat, strategy),
            all_fit(all, x, y),
            slices@.len() <= workers,
            slice_views(slices@) == views.take(slices@.len() as int),
            reversed@.len() == workers - slices@.len(),
            forall|j: int|
                0 <= j < reversed@.len() ==> (#[trigger] reversed@[j])@ == fresh_worker(
                    views[workers - 1 - j],
                    x,
                    y,
                    config,
                ),
        decreases slices@.len(),
    {
        let ghost at = slices@.len() - 1;
        let ghost before = slices@;
        let slice = slices.pop().unwrap();
        assert(slice@ == slice_views(before)[at]);
        assert(slice@ == views[at]);
        proof {
            assert forall|k: int| 0 <= k < slice@.len() implies fits_at(
                #[trigger] slice@[k],
                x,
                y,
            ) by {
                lemma_split_members(views, all, height as nat, workers as nat, strategy, at, k);
                let j = choose|j: int| 0 <= j < all.len() && all[j] == slice@[k];
                assert(fits_at(all[j], x, y));
            }
            assert(slice_views(slices@) =~= views.take(slices@.len() as int));
        }
        match Worker::new(slice, x, y, config) {
            Some(worker) => { reversed.push(worker); },
            None => { assert(false); },
        }
    }
    let mut made: Vec<Worker> = Vec::new();
    while reversed.len() > 0
        invariant
            views.len() == workers,
            reversed@.len() <= workers,
            made@.len() == workers - reversed@.len(),
            forall|j: int|
                0 <= j < reversed@.len() ==> (#[trigger] reversed@[j])@ == fresh_worker(
                    views[workers - 1 - j],
                    x,
                    y,
                    config,
                ),
            forall|i: int|
                0 <= i < made@.len() ==> (#[trigger] made@[i])@ == fresh_worker(
                    views[i],
                    x,
                    y,
                    config,
                ),
        decreases reversed@.len(),
    {
        let worker = reversed.pop().unwrap();
        made.push(worker);
    }
    Ok(made)
}

} // verus!

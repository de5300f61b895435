//! Dividing the draw operations among the workers.

use vstd::prelude::*;
use vstd::seq_lib::lemma_multiset_commutative;
use crate::raster::DrawOp;

verus! {

/// The contents of each slice, in order.
pub open spec fn slice_views(slices: Seq<Vec<DrawOp>>) -> Seq<Seq<DrawOp>> {
    slices.map_values(|s: Vec<DrawOp>| s@)
}

/// The number of operations every worker gets in an even split.
pub open spec fn chunk_size(total: nat, workers: nat) -> nat {
    total / workers
}

/// The `i`-th slice of an even split: the `i`-th run of `chunk_size` operations.
pub open spec fn even_chunk(ops: Seq<DrawOp>, workers: nat, i: int) -> Seq<DrawOp> {
    let c = chunk_size(ops.len(), workers);
    ops.subrange(i * c, (i + 1) * c)
}

/// The first `k` slices of an even split among `workers` workers.
pub open spec fn even_split_prefix(ops: Seq<DrawOp>, workers: nat, k: nat) -> Seq<Seq<DrawOp>> {
    Seq::new(k, |i: int| even_chunk(ops, workers, i))
}

/// An even split: one contiguous slice per worker, all of the same length.
/// The last `ops.len() % workers` operations belong to no slice.
pub open spec fn even_split_spec(ops: Seq<DrawOp>, workers: nat) -> Seq<Seq<DrawOp>> {
    even_split_prefix(ops, workers, workers)
}

/// Whether `b` holds the same operations as `a`, each as often, in any order.
pub open spec fn is_permutation(a: Seq<DrawOp>, b: Seq<DrawOp>) -> bool {
    a.to_multiset() == b.to_multiset()
}

/// The slices of an even split lie inside the sequence, one after another.
pub proof fn lemma_chunk_bounds(total: nat, workers: nat, i: int)
    requires
        workers > 0,
        0 <= i < workers,
    ensures
        0 <= i * chunk_size(total, workers),
        i * chunk_size(total, workers) + chunk_size(total, workers) == (i + 1) * chunk_size(
            total,
            workers,
        ),
        (i + 1) * chunk_size(total, workers) <= workers * chunk_size(total, workers),
        workers * chunk_size(total, workers) <= total,
{
    let c = chunk_size(total, workers) as int;
    assert(0 <= i * c && i * c + c == (i + 1) * c && (i + 1) * c <= workers * c) by (nonlinear_arith)
        requires
            0 <= i < workers,
            0 <= c,
    ;
    assert(workers * (total as int / workers as int) <= total) by (nonlinear_arith)
        requires
            workers > 0,
    ;
}

/// Copies the operations at positions `start..end`.
fn copy_range(ops: &[DrawOp], start: usize, end: usize) -> (out: Vec<DrawOp>)
    requires
        start <= end <= ops@.len(),
    ensures
        out@ == ops@.subrange(start as int, end as int),
{
    let mut out: Vec<DrawOp> = Vec::new();
    let mut j: usize = start;
    while j < end
        invariant
            start <= j <= end <= ops@.len(),
            out@ == ops@.subrange(start as int, j as int),
        decreases end - j,
    {
        out.push(ops[j]);
        proof {
            assert(out@ =~= ops@.subrange(start as int, j as int + 1));
        }
        j = j + 1;
    }
    out
}

/// Divides the operations into `workers` contiguous slices of
/// `ops.len() / workers` operations each, in order. What is left over at the
/// end, fewer than `workers` operations, is assigned to nobody.
pub fn even_split(ops: &[DrawOp], workers: u32) -> (slices: Vec<Vec<DrawOp>>)
    requires
        workers > 0,
    ensures
        slice_views(slices@) == even_split_spec(ops@, workers as nat),
        slices@.len() == workers,
        forall|i: int|
            0 <= i < workers ==> (#[trigger] slices@[i])@ == even_chunk(ops@, workers as nat, i),
{
    let total: usize = ops.len();
    let size: usize = total / (workers as usize);
    let mut slices: Vec<Vec<DrawOp>> = Vec::new();
    let mut i: usize = 0;
    while i < workers as usize
        invariant
            workers > 0,
            i <= workers,
            total == ops@.len(),
            size == chunk_size(ops@.len(), workers as nat),
            slices@.len() == i,
            forall|k: int| 0 <= k < i ==> (#[trigger] slices@[k])@ == even_chunk(ops@, workers as nat, k),
        decreases workers - i,
    {
        proof {
            lemma_chunk_bounds(ops@.len(), workers as nat, i as int);
        }
        let start: usize = i * size;
        let chunk = copy_range(ops, start, start + size);
        slices.push(chunk);
        i = i + 1;
    }
    proof {
        assert(slice_views(slices@) =~= even_split_spec(ops@, workers as nat));
    }
    slices
}

/// The number of rows in every band when `height` rows are divided among
/// `workers` workers.
pub open spec fn band_height(height: nat, workers: nat) -> nat {
    height / workers
}

/// Whether `row` lies in the band of worker `band`.
pub open spec fn in_band(height: nat, workers: nat, band: int, row: int) -> bool {
    band * band_height(height, workers) <= row < (band + 1) * band_height(height, workers)
}

/// The test that keeps the operations whose row lies in the band of worker `band`.
pub open spec fn band_pred(height: nat, workers: nat, band: int) -> spec_fn(DrawOp) -> bool {
    |op: DrawOp| in_band(height, workers, band, op.dy as int)
}

/// The operations of worker `band` in a row-band split: those whose row
/// lies in its band, in the order in which they were given.
pub open spec fn row_band(ops: Seq<DrawOp>, height: nat, workers: nat, band: int) -> Seq<DrawOp> {
    ops.filter(band_pred(height, workers, band))
}

/// A row-band split: one slice per worker, each holding the operations in
/// that worker's band of rows. The rows from
/// `workers * (height / workers)` on belong to no band.
pub open spec fn row_band_split_spec(ops: Seq<DrawOp>, height: nat, workers: nat) -> Seq<
    Seq<DrawOp>,
> {
    Seq::new(workers, |i: int| row_band(ops, height, workers, i))
}

/// The bands lie one below the other, from the top row down to the last
/// row that they cover together.
pub proof fn lemma_band_bounds(height: nat, workers: nat, band: int)
    requires
        workers > 0,
        0 <= band < workers,
    ensures
        0 <= band * band_height(height, workers),
        band * band_height(height, workers) + band_height(height, workers) == (band + 1)
            * band_height(height, workers),
        (band + 1) * band_height(height, workers) <= workers * band_height(height, workers),
        workers * band_height(height, workers) <= height,
{
    let h = band_height(height, workers) as int;
    assert(0 <= band * h && band * h + h == (band + 1) * h && (band + 1) * h <= workers * h)
        by (nonlinear_arith)
        requires
            0 <= band < workers,
            0 <= h,
    ;
    assert(workers * (height as int / workers as int) <= height) by (nonlinear_arith)
        requires
            workers > 0,
    ;
}

/// The rows that some band holds are exactly the rows
/// `0 .. workers * (height / workers)`: every one of them lies in a band,
/// and no row from there on lies in any.
pub proof fn lemma_row_bands_cover(height: nat, workers: nat, row: int)
    requires
        workers > 0,
    ensures
        (exists|band: int| 0 <= band < workers && #[trigger] in_band(height, workers, band, row))
            <==> 0 <= row < workers * band_height(height, workers),
{
    let h = band_height(height, workers) as int;
    if 0 <= row < workers * h {
        assert(h > 0) by (nonlinear_arith)
            requires
                0 <= row < workers * h,
                workers > 0,
                h >= 0,
        ;
        let band = row / h;
        assert(0 <= band < workers && band * h <= row < (band + 1) * h) by (nonlinear_arith)
            requires
                0 <= row < workers * h,
                h > 0,
                band == row / h,
        ;
        assert(in_band(height, workers, band, row));
    }
    if exists|band: int| 0 <= band < workers && #[trigger] in_band(height, workers, band, row) {
        let band = choose|band: int|
            0 <= band < workers && #[trigger] in_band(height, workers, band, row);
        lemma_band_bounds(height, workers, band);
    }
}

/// No row lies in two bands.
pub proof fn lemma_row_bands_disjoint(height: nat, workers: nat, a: int, b: int, row: int)
    requires
        workers > 0,
        in_band(height, workers, a, row),
        in_band(height, workers, b, row),
    ensures
        a == b,
{
    let h = band_height(height, workers) as int;
    assert(a == b) by (nonlinear_arith)
        requires
            a * h <= row < (a + 1) * h,
            b * h <= row < (b + 1) * h,
            h >= 0,
    ;
}

/// A worker's slice in a row-band split holds exactly the given operations
/// whose row lies in its band.
pub proof fn lemma_row_band_members(
    ops: Seq<DrawOp>,
    height: nat,
    workers: nat,
    band: int,
    op: DrawOp,
)
    ensures
        row_band(ops, height, workers, band).contains(op) <==> ops.contains(op) && in_band(
            height,
            workers,
            band,
            op.dy as int,
        ),
{
    let keep = band_pred(height, workers, band);
    let kept = row_band(ops, height, workers, band);
    if ops.contains(op) && in_band(height, workers, band, op.dy as int) {
        let i = choose|i: int| 0 <= i < ops.len() && ops[i] == op;
        ops.lemma_filter_contains(keep, i);
    }
    if kept.contains(op) {
        ops.lemma_filter_contains_rev(keep, op);
        let i = choose|i: int| 0 <= i < kept.len() && kept[i] == op;
        ops.lemma_filter_pred(keep, i);
    }
}

/// In a row-band split an operation is handed to some worker exactly if
/// its row is one of the first `workers * (height / workers)` rows, and
/// never to two workers.
pub proof fn lemma_row_band_split_covers(ops: Seq<DrawOp>, height: nat, workers: nat, op: DrawOp)
    requires
        workers > 0,
        ops.contains(op),
    ensures
        (exists|band: int|
            0 <= band < workers && (#[trigger] row_band_split_spec(
                ops,
                height,
                workers,
            )[band]).contains(op)) <==> op.dy < workers * band_height(height, workers),
        forall|a: int, b: int|
            0 <= a < workers && 0 <= b < workers && (#[trigger] row_band_split_spec(
                ops,
                height,
                workers,
            )[a]).contains(op) && (#[trigger] row_band_split_spec(ops, height, workers)[b]).contains(
                op,
            ) ==> a == b,
{
    let split = row_band_split_spec(ops, height, workers);
    let row = op.dy as int;
    lemma_row_bands_cover(height, workers, row);
    assert forall|band: int| 0 <= band < workers implies ((#[trigger] split[band]).contains(op)
        <==> in_band(height, workers, band, row)) by {
        lemma_row_band_members(ops, height, workers, band, op);
    }
    if row < workers * band_height(height, workers) {
        let band = choose|band: int|
            0 <= band < workers && #[trigger] in_band(height, workers, band, row);
        assert(split[band].contains(op));
    }
    assert forall|a: int, b: int|
        0 <= a < workers && 0 <= b < workers && (#[trigger] split[a]).contains(op) && (
        #[trigger] split[b]).contains(op) implies a == b by {
        lemma_row_bands_disjoint(height, workers, a, b, row);
    }
}

/// The test that keeps the operations in the rows of the first `k` bands:
/// the rows `0 .. k * (height / workers)`.
pub open spec fn covered_pred(height: nat, workers: nat, k: int) -> spec_fn(DrawOp) -> bool {
    |op: DrawOp| op.dy < k * band_height(height, workers)
}

/// A sequence without operations holds none.
proof fn lemma_empty_holds_nothing(ops: Seq<DrawOp>)
    requires
        ops.len() == 0,
    ensures
        ops.to_multiset() == vstd::multiset::Multiset::<DrawOp>::empty(),
{
    vstd::seq_lib::to_multiset_len(ops);
    vstd::multiset::lemma_multiset_empty_len(ops.to_multiset());
}

/// What two tests that exclude each other keep is, taken together, what
/// the test for either keeps.
pub proof fn lemma_filter_disjoint_union(
    ops: Seq<DrawOp>,
    p: spec_fn(DrawOp) -> bool,
    q: spec_fn(DrawOp) -> bool,
    either: spec_fn(DrawOp) -> bool,
)
    requires
        forall|op: DrawOp| #[trigger] either(op) <==> p(op) || q(op),
        forall|op: DrawOp| !(#[trigger] p(op) && q(op)),
    ensures
        ops.filter(either).to_multiset() == ops.filter(p).to_multiset().add(
            ops.filter(q).to_multiset(),
        ),
    decreases ops.len(),
{
    broadcast use vstd::multiset::group_multiset_axioms;

    if ops.len() == 0 {
        ops.lemma_filter_len(p);
        ops.lemma_filter_len(q);
        ops.lemma_filter_len(either);
        lemma_empty_holds_nothing(ops.filter(p));
        lemma_empty_holds_nothing(ops.filter(q));
        lemma_empty_holds_nothing(ops.filter(either));
        assert(ops.filter(either).to_multiset() =~= ops.filter(p).to_multiset().add(
            ops.filter(q).to_multiset(),
        ));
    } else {
        let init = ops.drop_last();
        let last = ops.last();
        lemma_filter_disjoint_union(init, p, q, either);
        assert(ops =~= init.push(last));
        init.lemma_filter_push(last, p);
        init.lemma_filter_push(last, q);
        init.lemma_filter_push(last, either);
        vstd::seq_lib::to_multiset_build(init.filter(p), last);
        vstd::seq_lib::to_multiset_build(init.filter(q), last);
        vstd::seq_lib::to_multiset_build(init.filter(either), last);
        assert(ops.filter(either).to_multiset() =~= ops.filter(p).to_multiset().add(
            ops.filter(q).to_multiset(),
        ));
    }
}

/// The first `k` bands of a row-band split hold, taken together, exactly
/// the operations in the rows `0 .. k * (height / workers)`, each as often
/// as it was given.
pub proof fn lemma_row_bands_prefix(ops: Seq<DrawOp>, height: nat, workers: nat, k: nat)
    requires
        workers > 0,
        k <= workers,
    ensures
        row_band_split_spec(ops, height, workers).take(k as int).flatten().to_multiset()
            == ops.filter(covered_pred(height, workers, k as int)).to_multiset(),
    decreases k,
{
    broadcast use vstd::multiset::group_multiset_axioms;

    let split = row_band_split_spec(ops, height, workers);
    let h = band_height(height, workers) as int;
    if k == 0 {
        assert(split.take(0) =~= Seq::<Seq<DrawOp>>::empty());
        assert(split.take(0).flatten() =~= Seq::<DrawOp>::empty());
        let none = covered_pred(height, workers, 0);
        assert forall|i: int| 0 <= i < ops.len() implies !none(#[trigger] ops[i]) by {
            assert(0 * h == 0);
        }
        ops.lemma_all_neg_filter_empty(none);
        lemma_empty_holds_nothing(ops.filter(none));
        lemma_empty_holds_nothing(split.take(0).flatten());
    } else {
        let before = (k - 1) as nat;
        lemma_row_bands_prefix(ops, height, workers, before);
        lemma_band_bounds(height, workers, before as int);
        let band = split[before as int];
        assert(split.take(k as int) =~= split.take(before as int).push(band));
        split.take(before as int).lemma_flatten_push(band);
        lemma_multiset_commutative(split.take(before as int).flatten(), band);
        lemma_filter_disjoint_union(
            ops,
            covered_pred(height, workers, before as int),
            band_pred(height, workers, before as int),
            covered_pred(height, workers, k as int),
        );
    }
}

/// A row-band split hands out exactly the operations in the rows
/// `0 .. workers * (height / workers)`, each as often as it was given: no
/// operation goes to two workers, and only those in the rows below the last
/// band go to none.
pub proof fn lemma_row_band_split_is_partial_partition(
    ops: Seq<DrawOp>,
    height: nat,
    workers: nat,
)
    requires
        workers > 0,
    ensures
        row_band_split_spec(ops, height, workers).len() == workers,
        row_band_split_spec(ops, height, workers).flatten().to_multiset() == ops.filter(
            covered_pred(height, workers, workers as int),
        ).to_multiset(),
{
    let split = row_band_split_spec(ops, height, workers);
    lemma_row_bands_prefix(ops, height, workers, workers);
    assert(split.take(workers as int) =~= split);
}

/// Keeps the operations whose row lies in `lo..hi`, in order.
fn filter_rows(ops: &[DrawOp], lo: u32, hi: u32, Ghost(keep): Ghost<spec_fn(DrawOp) -> bool>) -> (out:
    Vec<DrawOp>)
    requires
        forall|op: DrawOp| #[trigger] keep(op) <==> lo <= op.dy < hi,
    ensures
        out@ == ops@.filter(keep),
{
    let mut out: Vec<DrawOp> = Vec::new();
    let mut j: usize = 0;
    proof {
        assert(ops@.take(0) =~= Seq::<DrawOp>::empty());
        reveal(Seq::filter);
    }
    while j < ops.len()
        invariant
            j <= ops@.len(),
            forall|op: DrawOp| #[trigger] keep(op) <==> lo <= op.dy < hi,
            out@ == ops@.take(j as int).filter(keep),
        decreases ops@.len() - j,
    {
        let op: DrawOp = ops[j];
        proof {
            assert(ops@.take(j as int + 1) =~= ops@.take(j as int).push(op));
            ops@.take(j as int).lemma_filter_push(op, keep);
        }
        if lo <= op.dy && op.dy < hi {
            out.push(op);
        }
        j = j + 1;
    }
    proof {
        assert(ops@.take(j as int) =~= ops@);
    }
    out
}

/// Divides the rows `0 .. image_height` into `workers` bands of
/// `image_height / workers` rows each and gives every worker the
/// operations in its band, in the order in which they were given. Rows
/// below the last band are assigned to nobody.
pub fn row_band_split(ops: &[DrawOp], image_height: u32, workers: u32) -> (slices: Vec<Vec<DrawOp>>)
    requires
        workers > 0,
    ensures
        slice_views(slices@) == row_band_split_spec(ops@, image_height as nat, workers as nat),
        slices@.len() == workers,
        forall|i: int|
            0 <= i < workers ==> (#[trigger] slices@[i])@ == row_band(
                ops@,
                image_height as nat,
                workers as nat,
                i,
            ),
{
    let rows: u32 = image_height / workers;
    let mut slices: Vec<Vec<DrawOp>> = Vec::new();
    let mut i: u32 = 0;
    while i < workers
        invariant
            workers > 0,
            i <= workers,
            rows == band_height(image_height as nat, workers as nat),
            slices@.len() == i,
            forall|k: int|
                0 <= k < i ==> (#[trigger] slices@[k])@ == row_band(
                    ops@,
                    image_height as nat,
                    workers as nat,
                    k,
                ),
        decreases workers - i,
    {
        proof {
            lemma_band_bounds(image_height as nat, workers as nat, i as int);
        }
        let lo: u32 = i * rows;
        let hi: u32 = lo + rows;
        let band = filter_rows(
            ops,
            lo,
            hi,
            Ghost(band_pred(image_height as nat, workers as nat, i as int)),
        );
        slices.push(band);
        i = i + 1;
    }
    proof {
        assert(slice_views(slices@) =~= row_band_split_spec(
            ops@,
            image_height as nat,
            workers as nat,
        ));
    }
    slices
}

/// `rand::seq::SliceRandom::shuffle` on the vector's slice, driven by
/// `rand::thread_rng()`. The shuffle only swaps elements of the slice with
/// one another, so afterwards the vector holds the operations it held
/// before, each as often; nothing is claimed about their order. The
/// generator is seeded by the operating system when a thread first uses it
/// and again from time to time, and `rand` panics if the system gives it
/// no seed.
#[verifier::external_body]
fn shuffle_in_place(ops: &mut Vec<DrawOp>)
    ensures
        is_permutation(old(ops)@, final(ops)@),
{
    rand::seq::SliceRandom::shuffle(ops.as_mut_slice(), &mut rand::thread_rng());
}

/// Puts the operations in a random order. The result holds the operations
/// that were handed in, each as often.
pub fn shuffle(ops: Vec<DrawOp>) -> (shuffled: Vec<DrawOp>)
    ensures
        is_permutation(ops@, shuffled@),
        shuffled@.len() == ops@.len(),
{
    let mut shuffled = ops;
    shuffle_in_place(&mut shuffled);
    proof {
        ops@.to_multiset_ensures();
        shuffled@.to_multiset_ensures();
    }
    shuffled
}

/// Puts the operations in a random order and divides them evenly: the
/// slices are the even split of some reordering of `ops`.
pub fn shuffled_even_split(ops: Vec<DrawOp>, workers: u32) -> (slices: Vec<Vec<DrawOp>>)
    requires
        workers > 0,
    ensures
        exists|shuffled: Seq<DrawOp>|
            is_permutation(ops@, shuffled) && slice_views(slices@) == #[trigger] even_split_spec(
                shuffled,
                workers as nat,
            ),
        slices@.len() == workers,
        forall|i: int|
            0 <= i < workers ==> (#[trigger] slices@[i])@.len() == ops@.len() / (workers as nat),
{
    let shuffled = shuffle(ops);
    let slices = even_split(shuffled.as_slice(), workers);
    proof {
        lemma_even_split_is_partial_partition(shuffled@, workers as nat);
        assert forall|i: int| 0 <= i < workers implies (#[trigger] slices@[i])@.len() == ops@.len()
            / (workers as nat) by {
            assert(slices@[i]@ == even_split_spec(shuffled@, workers as nat)[i]);
        }
    }
    slices
}

/// The first `k` slices of an even split, laid end to end, are the first
/// `k * chunk_size` operations.
pub proof fn lemma_even_split_prefix_flatten(ops: Seq<DrawOp>, workers: nat, k: nat)
    requires
        workers > 0,
        k <= workers,
    ensures
        even_split_prefix(ops, workers, k).flatten() == ops.take(
            (k * chunk_size(ops.len(), workers)) as int,
        ),
    decreases k,
{
    let c = chunk_size(ops.len(), workers);
    if k == 0 {
        assert(even_split_prefix(ops, workers, 0) =~= Seq::<Seq<DrawOp>>::empty());
        assert(ops.take(0) =~= Seq::<DrawOp>::empty());
        assert(0 * c == 0);
    } else {
        let before = (k - 1) as nat;
        lemma_even_split_prefix_flatten(ops, workers, before);
        lemma_chunk_bounds(ops.len(), workers, before as int);
        let chunk = even_chunk(ops, workers, before as int);
        assert(even_split_prefix(ops, workers, k) =~= even_split_prefix(ops, workers, before).push(
            chunk,
        ));
        even_split_prefix(ops, workers, before).lemma_flatten_push(chunk);
        assert(ops.take((before * c) as int) + chunk =~= ops.take((k * c) as int));
    }
}

/// The first operations of a sequence are among its operations, each no
/// more often than in the whole.
pub proof fn lemma_take_is_sub_multiset(ops: Seq<DrawOp>, n: int)
    requires
        0 <= n <= ops.len(),
    ensures
        ops.take(n).to_multiset().subset_of(ops.to_multiset()),
{
    lemma_multiset_commutative(ops.take(n), ops.skip(n));
    assert(ops.take(n) + ops.skip(n) =~= ops);
    assert forall|op: DrawOp| ops.take(n).to_multiset().count(op) <= ops.to_multiset().count(
        op,
    ) by {
        vstd::multiset::axiom_multiset_add(ops.take(n).to_multiset(), ops.skip(n).to_multiset(), op);
    }
}

/// An even split hands out exactly `workers * (total / workers)`
/// operations: every slice has `total / workers` of them, and the slices
/// laid end to end are the first so many operations of the sequence, so
/// none is handed out twice and the remainder is handed to nobody.
pub proof fn lemma_even_split_is_partial_partition(ops: Seq<DrawOp>, workers: nat)
    requires
        workers > 0,
    ensures
        even_split_spec(ops, workers).len() == workers,
        forall|i: int|
            0 <= i < workers ==> (#[trigger] even_split_spec(ops, workers)[i]).len() == ops.len()
                / workers,
        even_split_spec(ops, workers).flatten() == ops.take(
            (workers * (ops.len() / workers)) as int,
        ),
        even_split_spec(ops, workers).flatten().len() == workers * (ops.len() / workers),
        even_split_spec(ops, workers).flatten().to_multiset().subset_of(ops.to_multiset()),
{
    let c = chunk_size(ops.len(), workers);
    assert forall|i: int| 0 <= i < workers implies (#[trigger] even_split_spec(
        ops,
        workers,
    )[i]).len() == c by {
        lemma_chunk_bounds(ops.len(), workers, i);
    }
    lemma_even_split_prefix_flatten(ops, workers, workers);
    lemma_chunk_bounds(ops.len(), workers, workers - 1);
    lemma_take_is_sub_multiset(ops, (workers * c) as int);
}

/// The shuffled even split of `total` operations among `workers` workers
/// hands out `workers * (total / workers)` operations, all drawn from the
/// operations given, none more often than it occurs there.
pub proof fn lemma_shuffled_split_is_partial_partition(
    given: Seq<DrawOp>,
    shuffled: Seq<DrawOp>,
    workers: nat,
)
    requires
        workers > 0,
        is_permutation(given, shuffled),
    ensures
        even_split_spec(shuffled, workers).len() == workers,
        forall|i: int|
            0 <= i < workers ==> (#[trigger] even_split_spec(shuffled, workers)[i]).len()
                == given.len() / workers,
        even_split_spec(shuffled, workers).flatten().len() == workers * (given.len() / workers),
        even_split_spec(shuffled, workers).flatten().to_multiset().subset_of(
            given.to_multiset(),
        ),
{
    given.to_multiset_ensures();
    shuffled.to_multiset_ensures();
    lemma_even_split_is_partial_partition(shuffled, workers);
}

} // verus!

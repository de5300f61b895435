//! A decoded image as a grid of RGBA pixels, and the draw operations it yields.

use vstd::prelude::*;

verus! {

/// One unit of work: a position relative to the image's top-left corner and
/// an opaque colour.
#[derive(Clone, Copy, Debug, PartialEq, Eq, Structural)]
pub struct DrawOp {
    pub dx: u32,
    pub dy: u32,
    pub r: u8,
    pub g: u8,
    pub b: u8,
}

/// The colour and opacity of one pixel.
#[derive(Clone, Copy, Debug, PartialEq, Eq, Structural)]
pub struct Rgba {
    pub r: u8,
    pub g: u8,
    pub b: u8,
    pub a: u8,
}

/// The alpha value of a fully opaque pixel.
pub const OPAQUE: u8 = 255;

/// What an image is: its dimensions and its samples, four per pixel in the
/// order red, green, blue, alpha, pixels row by row from the top left.
pub struct ImageView {
    pub width: nat,
    pub height: nat,
    pub data: Seq<u8>,
}

impl ImageView {
    /// The number of pixels.
    pub open spec fn pixel_count(self) -> nat {
        self.width * self.height
    }

    /// Whether the dimensions fit in 32 bits and there are exactly four
    /// samples for every pixel.
    pub open spec fn wf(self) -> bool {
        &&& self.width <= u32::MAX
        &&& self.height <= u32::MAX
        &&& self.data.len() == 4 * self.pixel_count()
    }

    /// The `k`-th pixel in row-major order.
    pub open spec fn rgba(self, k: int) -> Rgba {
        Rgba {
            r: self.data[4 * k],
            g: self.data[4 * k + 1],
            b: self.data[4 * k + 2],
            a: self.data[4 * k + 3],
        }
    }

    /// The pixel in column `x` of row `y`.
    pub open spec fn pixel(self, x: int, y: int) -> Rgba {
        self.rgba(y * self.width + x)
    }

    /// Whether the `k`-th pixel is fully opaque.
    pub open spec fn is_opaque(self, k: int) -> bool {
        self.rgba(k).a == OPAQUE
    }

    /// The draw operation for the `k`-th pixel in row-major order.
    pub open spec fn op(self, k: int) -> DrawOp {
        DrawOp {
            dx: (k % self.width as int) as u32,
            dy: (k / self.width as int) as u32,
            r: self.rgba(k).r,
            g: self.rgba(k).g,
            b: self.rgba(k).b,
        }
    }

    /// The test that keeps the fully opaque pixels.
    pub open spec fn opaque_pred(self) -> spec_fn(int) -> bool {
        |k: int| self.is_opaque(k)
    }

    /// The row-major indices below `n` of the fully opaque pixels, ascending.
    pub open spec fn opaque_indices_below(self, n: nat) -> Seq<int> {
        indices(n).filter(self.opaque_pred())
    }

    /// The draw operations for the pixels at the given indices, in the same order.
    pub open spec fn ops_at(self, at: Seq<int>) -> Seq<DrawOp> {
        at.map_values(|k: int| self.op(k))
    }

    /// The draw operations of the image: one for every fully opaque pixel,
    /// in row-major order.
    pub open spec fn opaque_ops(self) -> Seq<DrawOp> {
        self.ops_at(self.opaque_indices_below(self.pixel_count()))
    }
}

/// The numbers `0, 1, .., n - 1`.
pub open spec fn indices(n: nat) -> Seq<int> {
    Seq::new(n, |k: int| k)
}

/// A decoded image: a random-access grid of RGBA pixels.
pub struct Image {
    width: u32,
    height: u32,
    data: Vec<u8>,
}

impl View for Image {
    type V = ImageView;

    closed spec fn view(&self) -> ImageView {
        ImageView { width: self.width as nat, height: self.height as nat, data: self.data@ }
    }
}

impl Image {
    #[verifier::type_invariant]
    spec fn inv(self) -> bool {
        self.data@.len() == 4 * (self.width as nat * self.height as nat)
    }

    /// Builds an image from its dimensions and its samples in row-major
    /// RGBA order. Gives `None` unless there are four samples per pixel.
    pub fn from_raw(width: u32, height: u32, data: Vec<u8>) -> (res: Option<Image>)
        ensures
            res is Some <==> data@.len() == 4 * (width as nat * height as nat),
            res matches Some(image) ==> image@ == (ImageView {
                width: width as nat,
                height: height as nat,
                data: data@,
            }),
    {
        assert((width as nat) * (height as nat) <= 0xffff_ffff * 0xffff_ffff) by (nonlinear_arith);
        let pixels: u64 = (width as u64) * (height as u64);
        let given: usize = data.len();
        if pixels > (u64::MAX / 4) {
            return None;
        }
        let samples: u64 = pixels * 4;
        if given as u64 != samples {
            return None;
        }
        Some(Image { width, height, data })
    }

    /// The number of columns.
    pub fn width(&self) -> (w: u32)
        ensures
            w == self@.width,
            self@.wf(),
    {
        proof {
            use_type_invariant(self);
        }
        self.width
    }

    /// The number of rows.
    pub fn height(&self) -> (h: u32)
        ensures
            h == self@.height,
            self@.wf(),
    {
        proof {
            use_type_invariant(self);
        }
        self.height
    }

    /// The number of pixels.
    pub fn pixel_count(&self) -> (n: usize)
        ensures
            n == self@.pixel_count(),
            self@.wf(),
    {
        proof {
            use_type_invariant(self);
        }
        self.data.len() / 4
    }

    /// The `k`-th pixel in row-major order.
    pub fn rgba(&self, k: usize) -> (p: Rgba)
        requires
            k < self@.pixel_count(),
        ensures
            p == self@.rgba(k as int),
    {
        proof {
            use_type_invariant(self);
        }
        let samples: usize = self.data.len();
        assert(samples == 4 * self@.pixel_count());
        let base: usize = k * 4;
        Rgba {
            r: self.data[base],
            g: self.data[base + 1],
            b: self.data[base + 2],
            a: self.data[base + 3],
        }
    }

    /// The pixel in column `x` of row `y`, or `None` outside the image.
    pub fn get_pixel(&self, x: u32, y: u32) -> (res: Option<Rgba>)
        ensures
            res is Some <==> x < self@.width && y < self@.height,
            res matches Some(p) ==> p == self@.pixel(x as int, y as int),
    {
        proof {
            use_type_invariant(self);
        }
        if x >= self.width || y >= self.height {
            return None;
        }
        let samples: usize = self.data.len();
        proof {
            lemma_index_in_grid(self.width as nat, self.height as nat, x as nat, y as nat);
            assert(samples == 4 * self@.pixel_count());
        }
        let k: usize = (y as usize) * (self.width as usize) + (x as usize);
        Some(self.rgba(k))
    }
}

/// Taking one more pixel into account appends its draw operation if the
/// pixel is fully opaque, and changes nothing otherwise.
pub proof fn lemma_opaque_indices_step(v: ImageView, n: nat)
    ensures
        v.opaque_indices_below(n + 1) == if v.is_opaque(n as int) {
            v.opaque_indices_below(n).push(n as int)
        } else {
            v.opaque_indices_below(n)
        },
        v.ops_at(v.opaque_indices_below(n + 1)) == if v.is_opaque(n as int) {
            v.ops_at(v.opaque_indices_below(n)).push(v.op(n as int))
        } else {
            v.ops_at(v.opaque_indices_below(n))
        },
{
    assert(indices(n + 1) =~= indices(n).push(n as int));
    indices(n).lemma_filter_push(n as int, v.opaque_pred());
    if v.is_opaque(n as int) {
        assert(v.ops_at(v.opaque_indices_below(n).push(n as int)) =~= v.ops_at(
            v.opaque_indices_below(n),
        ).push(v.op(n as int)));
    }
}

/// The indices kept are exactly those of the fully opaque pixels.
pub proof fn lemma_opaque_indices_are_the_opaque_pixels(v: ImageView, k: int)
    ensures
        v.opaque_indices_below(v.pixel_count()).contains(k) <==> 0 <= k < v.pixel_count()
            && v.is_opaque(k),
{
    let all = indices(v.pixel_count());
    let kept = v.opaque_indices_below(v.pixel_count());
    if 0 <= k < v.pixel_count() && v.is_opaque(k) {
        assert(all[k] == k);
        all.lemma_filter_contains(v.opaque_pred(), k);
    }
    if kept.contains(k) {
        all.lemma_filter_contains_rev(v.opaque_pred(), k);
        let i = choose|i: int| 0 <= i < kept.len() && kept[i] == k;
        all.lemma_filter_pred(v.opaque_pred(), i);
    }
}

/// The indices kept are below the bound and strictly ascending: the
/// operations come in row-major order and no pixel is drawn twice.
pub proof fn lemma_opaque_indices_ascending(v: ImageView, n: nat)
    ensures
        forall|i: int|
            0 <= i < v.opaque_indices_below(n).len() ==> 0 <= #[trigger] v.opaque_indices_below(
                n,
            )[i] < n,
        forall|i: int, j: int|
            0 <= i < j < v.opaque_indices_below(n).len() ==> v.opaque_indices_below(n)[i]
                < v.opaque_indices_below(n)[j],
    decreases n,
{
    if n == 0 {
        assert(indices(0) =~= Seq::<int>::empty());
        reveal(Seq::filter);
    } else {
        let before = (n - 1) as nat;
        lemma_opaque_indices_ascending(v, before);
        lemma_opaque_indices_step(v, before);
    }
}

/// Every draw operation of an image stands for one of its fully opaque
/// pixels and lies inside the image.
pub proof fn lemma_opaque_ops_in_image(v: ImageView, i: int)
    requires
        v.wf(),
        0 <= i < v.opaque_ops().len(),
    ensures
        ({
            let k = v.opaque_indices_below(v.pixel_count())[i];
            &&& 0 <= k < v.pixel_count()
            &&& v.is_opaque(k)
            &&& v.opaque_ops()[i] == v.op(k)
            &&& v.opaque_ops()[i].dx < v.width
            &&& v.opaque_ops()[i].dy < v.height
            &&& v.opaque_ops()[i].dy * v.width + v.opaque_ops()[i].dx == k
        }),
{
    let kept = v.opaque_indices_below(v.pixel_count());
    let k = kept[i];
    assert(kept.contains(k));
    lemma_opaque_indices_are_the_opaque_pixels(v, k);
    lemma_position_in_grid(v.width, v.height, k as nat);
}

/// Extraction depends on nothing but the image: images of the same
/// dimensions with the same samples have the same draw operations, in the
/// same order.
pub proof fn lemma_extraction_is_deterministic(a: ImageView, b: ImageView)
    requires
        a.width == b.width,
        a.height == b.height,
        a.data =~= b.data,
    ensures
        a.opaque_ops() == b.opaque_ops(),
{
}

/// Walks the image in row-major order and keeps a draw operation for every
/// fully opaque pixel; every other pixel is dropped.
pub fn extract_ops(image: &Image) -> (ops: Vec<DrawOp>)
    ensures
        ops@ == image@.opaque_ops(),
        forall|i: int|
            0 <= i < ops@.len() ==> (#[trigger] ops@[i]).dx < image@.width && ops@[i].dy
                < image@.height,
{
    let count: usize = image.pixel_count();
    let width: usize = image.width() as usize;
    let mut ops: Vec<DrawOp> = Vec::new();
    let mut k: usize = 0;
    proof {
        assert(indices(0) =~= Seq::<int>::empty());
        reveal(Seq::filter);
        assert(image@.ops_at(image@.opaque_indices_below(0)) =~= Seq::<DrawOp>::empty());
    }
    while k < count
        invariant
            k <= count,
            count == image@.pixel_count(),
            width == image@.width,
            image@.wf(),
            ops@ == image@.ops_at(image@.opaque_indices_below(k as nat)),
            forall|i: int|
                0 <= i < ops@.len() ==> (#[trigger] ops@[i]).dx < image@.width && ops@[i].dy
                    < image@.height,
        decreases count - k,
    {
        let p: Rgba = image.rgba(k);
        proof {
            lemma_position_in_grid(image@.width, image@.height, k as nat);
            lemma_opaque_indices_step(image@, k as nat);
        }
        if p.a == OPAQUE {
            let op = DrawOp { dx: (k % width) as u32, dy: (k / width) as u32, r: p.r, g: p.g, b: p.b };
            assert(op == image@.op(k as int));
            ops.push(op);
        }
        k = k + 1;
    }
    ops
}

/// A position inside a grid has a row-major index below the pixel count.
pub proof fn lemma_index_in_grid(width: nat, height: nat, x: nat, y: nat)
    requires
        x < width,
        y < height,
    ensures
        y * width + x < width * height,
        y * width >= 0,
{
    assert(y * width + x < width * height) by (nonlinear_arith)
        requires
            x < width,
            y < height,
    ;
}

/// A row-major index below the pixel count lies in a column and a row of the grid.
pub proof fn lemma_position_in_grid(width: nat, height: nat, k: nat)
    requires
        k < width * height,
    ensures
        width > 0,
        0 <= k % width < width,
        0 <= k / width < height,
        (k / width) * width + k % width == k,
{
    assert(width > 0) by (nonlinear_arith)
        requires
            k < width * height,
    ;
    assert(0 <= k / width < height && (k / width) * width + k % width == k) by (nonlinear_arith)
        requires
            k < width * height,
            width > 0,
    ;
}

} // verus!

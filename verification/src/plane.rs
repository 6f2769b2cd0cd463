//! Planes of pixels with padding around them, and the distance of two blocks.
use crate::num::abs_int;
use vstd::prelude::*;

verus! {

/// The largest block area whose distance from another block is sure to fit in 32
/// bits, with pixels of 16 bits.
pub const MAX_BLOCK_AREA: usize = 65537;

/// Whether a block is of a size that can be searched for.
pub open spec fn searchable(blk_w: usize, blk_h: usize) -> bool {
    &&& blk_w <= MAX_BLOCK_AREA
    &&& blk_h <= MAX_BLOCK_AREA
    &&& blk_w * blk_h <= MAX_BLOCK_AREA
}

/// A sample of a plane: a byte, or 16 bits for high bit depths.
pub trait Pixel: Copy {
    /// The sample as a number.
    spec fn value(self) -> int;

    /// A sample is not negative and has at most 16 bits.
    proof fn lemma_value_range(self)
        ensures
            0 <= self.value() <= 65535,
    ;

    /// The sample as a number.
    fn to_i32(self) -> (r: i32)
        ensures
            r == self.value(),
    ;

    /// The darkest sample.
    fn zero() -> (r: Self)
        ensures
            r.value() == 0,
    ;
}

impl Pixel for u8 {
    open spec fn value(self) -> int {
        self as int
    }

    proof fn lemma_value_range(self) {
    }

    fn to_i32(self) -> (r: i32) {
        self as i32
    }

    fn zero() -> (r: Self) {
        0
    }
}

impl Pixel for u16 {
    open spec fn value(self) -> int {
        self as int
    }

    proof fn lemma_value_range(self) {
    }

    fn to_i32(self) -> (r: i32) {
        self as i32
    }

    fn zero() -> (r: Self) {
        0
    }
}

/// A rectangle of pixels, row after row. The pixel at the position (0, 0) need not
/// be the first one: those before it and beyond the picture are padding.
#[derive(Debug, Clone)]
pub struct Plane<T: Pixel> {
    pub data: Vec<T>,
    /// Pixels in a row, padding included.
    pub stride: usize,
    /// Rows, padding included.
    pub alloc_height: usize,
    /// Pixels of padding before the picture in each row.
    pub xorigin: usize,
    /// Rows of padding above the picture.
    pub yorigin: usize,
}

impl<T: Pixel> Plane<T> {
    /// The data have the announced size, and the origin lies within them.
    pub open spec fn wf(&self) -> bool {
        &&& self.data@.len() == self.stride * self.alloc_height
        &&& self.xorigin <= self.stride <= isize::MAX
        &&& self.yorigin <= self.alloc_height <= isize::MAX
    }

    /// The pixel at column `x` and row `y`, counted from the origin.
    pub open spec fn pixel(&self, x: int, y: int) -> int {
        self.data@[(y + self.yorigin) * self.stride + (x + self.xorigin)].value()
    }

    /// The pixels from (`x`, `y`) on, as a function of the distance from there.
    pub open spec fn pixels_from(&self, x: int, y: int) -> spec_fn(int, int) -> int {
        |i: int, j: int| self.pixel(x + i, y + j)
    }

    /// Whether the `w` by `h` pixels from (`x`, `y`) on lie in the plane or its
    /// padding.
    pub open spec fn holds_block(&self, x: int, y: int, w: int, h: int) -> bool {
        &&& self.wf()
        &&& -self.xorigin <= x && x + w <= self.stride - self.xorigin
        &&& -self.yorigin <= y && y + h <= self.alloc_height - self.yorigin
    }

    /// Whether `other` is a plane of the same layout.
    pub open spec fn same_layout(&self, other: &Self) -> bool {
        &&& self.stride == other.stride
        &&& self.alloc_height == other.alloc_height
        &&& self.xorigin == other.xorigin
        &&& self.yorigin == other.yorigin
    }

    /// A pixel has at most 16 bits.
    pub proof fn lemma_pixel_range(&self, x: int, y: int)
        ensures
            0 <= self.pixel(x, y) <= 65535,
    {
        self.data@[(y + self.yorigin) * self.stride + (x + self.xorigin)].lemma_value_range();
    }

    /// A plane of `width` by `height` dark pixels without padding.
    pub fn new(width: usize, height: usize) -> (r: Self)
        requires
            width <= isize::MAX && height <= isize::MAX,
            width * height * 2 <= isize::MAX,
        ensures
            r.wf(),
            r.stride == width && r.alloc_height == height,
            r.xorigin == 0 && r.yorigin == 0,
            forall|x: int, y: int|
                0 <= x < width && 0 <= y < height ==> #[trigger] r.pixel(x, y) == 0,
    {
        let mut data: Vec<T> = Vec::new();
        let len: usize = width * height;
        let mut k: usize = 0;
        while k < len
            invariant
                k <= len,
                data@.len() == k,
                forall|m: int| 0 <= m < k ==> (#[trigger] data@[m]).value() == 0,
            decreases len - k,
        {
            data.push(T::zero());
            k = k + 1;
        }
        let r = Plane { data, stride: width, alloc_height: height, xorigin: 0, yorigin: 0 };
        assert forall|x: int, y: int| 0 <= x < width && 0 <= y < height implies #[trigger] r.pixel(
            x,
            y,
        ) == 0 by {
            lemma_pixel_index(x, y, width as int, height as int);
        }
        r
    }

    /// The pixel at column `x` and row `y`.
    pub fn get(&self, x: isize, y: isize) -> (r: T)
        requires
            self.holds_block(x as int, y as int, 1, 1),
        ensures
            r.value() == self.pixel(x as int, y as int),
    {
        let column: usize = (x + self.xorigin as isize) as usize;
        let row: usize = (y + self.yorigin as isize) as usize;
        let len: usize = self.data.len();
        proof {
            lemma_pixel_index(
                column as int,
                row as int,
                self.stride as int,
                self.alloc_height as int,
            );
        }
        self.data[row * self.stride + column]
    }

    /// Replaces the pixel at column `x` and row `y`.
    pub fn set(&mut self, x: isize, y: isize, value: T)
        requires
            old(self).holds_block(x as int, y as int, 1, 1),
        ensures
            final(self).wf(),
            final(self).same_layout(old(self)),
            forall|p: int, q: int|
                old(self).holds_block(p, q, 1, 1) ==> #[trigger] final(self).pixel(p, q) == (
                if p == x && q == y {
                    value.value()
                } else {
                    old(self).pixel(p, q)
                }),
    {
        let column: usize = (x + self.xorigin as isize) as usize;
        let row: usize = (y + self.yorigin as isize) as usize;
        let len: usize = self.data.len();
        proof {
            lemma_pixel_index(
                column as int,
                row as int,
                self.stride as int,
                self.alloc_height as int,
            );
        }
        let index: usize = row * self.stride + column;
        self.data[index] = value;
        assert forall|p: int, q: int|
            old(self).holds_block(p, q, 1, 1) implies #[trigger] self.pixel(p, q) == if p == x && q
            == y {
            value.value()
        } else {
            old(self).pixel(p, q)
        } by {
            let c = p + self.xorigin;
            let r = q + self.yorigin;
            lemma_pixel_index(c, r, self.stride as int, self.alloc_height as int);
            if r * self.stride + c == index {
                lemma_pixel_index_unique(c, r, column as int, row as int, self.stride as int);
            }
        }
    }

    /// The part of the plane from (`x`, `y`) on.
    pub fn region(&self, x: isize, y: isize) -> (r: PlaneRegion<'_, T>)
        ensures
            r.plane == self,
            r.x == x && r.y == y,
    {
        PlaneRegion { plane: self, x, y }
    }
}

proof fn lemma_pixel_index(c: int, r: int, stride: int, height: int)
    requires
        0 <= c < stride,
        0 <= r < height,
    ensures
        0 <= r * stride,
        0 <= r * stride + c < stride * height,
{
    assert(r * stride >= 0) by (nonlinear_arith)
        requires
            r >= 0,
            stride >= 0,
    ;
    assert(r * stride + stride <= stride * height) by (nonlinear_arith)
        requires
            r + 1 <= height,
            stride >= 0,
    ;
}

proof fn lemma_pixel_index_unique(c: int, r: int, c2: int, r2: int, stride: int)
    requires
        0 <= c < stride,
        0 <= c2 < stride,
        r * stride + c == r2 * stride + c2,
    ensures
        c == c2 && r == r2,
{
    assert(r == r2) by (nonlinear_arith)
        requires
            0 <= c < stride,
            0 <= c2 < stride,
            r * stride + c == r2 * stride + c2,
    ;
}

/// The part of a plane from a position on.
pub struct PlaneRegion<'a, T: Pixel> {
    pub plane: &'a Plane<T>,
    pub x: isize,
    pub y: isize,
}

impl<'a, T: Pixel> PlaneRegion<'a, T> {
    /// The pixels, as a function of the distance from the first one.
    pub open spec fn pixels(&self) -> spec_fn(int, int) -> int {
        self.plane.pixels_from(self.x as int, self.y as int)
    }

    /// Whether the region starts with a block of `w` by `h` pixels.
    pub open spec fn holds(&self, w: int, h: int) -> bool {
        self.plane.holds_block(self.x as int, self.y as int, w, h)
    }
}

/// The sum of `f(0)` to `f(n - 1)`.
pub open spec fn sum_below(n: nat, f: spec_fn(int) -> int) -> int
    decreases n,
{
    if n == 0 {
        0
    } else {
        sum_below((n - 1) as nat, f) + f(n - 1)
    }
}

/// The sum of absolute differences of two rows of `w` pixels.
pub open spec fn row_sad(
    a: spec_fn(int, int) -> int,
    b: spec_fn(int, int) -> int,
    w: nat,
    j: int,
) -> int {
    sum_below(w, |i: int| abs_int(a(i, j) - b(i, j)))
}

/// The sum of absolute differences of two blocks of `w` by `h` pixels.
pub open spec fn block_sad(
    a: spec_fn(int, int) -> int,
    b: spec_fn(int, int) -> int,
    w: nat,
    h: nat,
) -> int {
    sum_below(h, |j: int| row_sad(a, b, w, j))
}

/// A sum whose terms lie between zero and `bound`.
pub proof fn lemma_sum_bounds(n: nat, f: spec_fn(int) -> int, bound: int)
    requires
        forall|i: int| 0 <= i < n ==> 0 <= #[trigger] f(i) <= bound,
    ensures
        0 <= sum_below(n, f) <= n * bound,
    decreases n,
{
    if n == 0 {
        assert(n * bound == 0) by (nonlinear_arith)
            requires
                n == 0,
        ;
    } else {
        lemma_sum_bounds((n - 1) as nat, f, bound);
        assert((n - 1) * bound + bound == n * bound) by (nonlinear_arith);
        assert(0 <= f(n - 1) <= bound);
    }
}

/// Sums whose terms are equal are equal.
pub proof fn lemma_sum_equal(n: nat, f: spec_fn(int) -> int, g: spec_fn(int) -> int)
    requires
        forall|i: int| 0 <= i < n ==> #[trigger] f(i) == g(i),
    ensures
        sum_below(n, f) == sum_below(n, g),
    decreases n,
{
    if n > 0 {
        lemma_sum_equal((n - 1) as nat, f, g);
        assert(f(n - 1) == g(n - 1));
    }
}

/// Blocks of equal pixels have the same distance from a third one.
pub proof fn lemma_block_sad_equal(
    a: spec_fn(int, int) -> int,
    b: spec_fn(int, int) -> int,
    c: spec_fn(int, int) -> int,
    w: nat,
    h: nat,
)
    requires
        forall|i: int, j: int| 0 <= i < w && 0 <= j < h ==> #[trigger] b(i, j) == c(i, j),
    ensures
        block_sad(a, b, w, h) == block_sad(a, c, w, h),
{
    let f = |j: int| row_sad(a, b, w, j);
    let g = |j: int| row_sad(a, c, w, j);
    assert forall|j: int| 0 <= j < h implies #[trigger] f(j) == g(j) by {
        let p = |i: int| abs_int(a(i, j) - b(i, j));
        let q = |i: int| abs_int(a(i, j) - c(i, j));
        assert forall|i: int| 0 <= i < w implies #[trigger] p(i) == q(i) by {
            assert(b(i, j) == c(i, j));
        }
        lemma_sum_equal(w, p, q);
    }
    lemma_sum_equal(h, f, g);
}

/// The sum of absolute differences of the first `blk_w` by `blk_h` pixels of two
/// regions.
pub fn get_sad<T: Pixel>(
    plane_org: &PlaneRegion<'_, T>,
    plane_ref: &PlaneRegion<'_, T>,
    blk_w: usize,
    blk_h: usize,
) -> (r: u32)
    requires
        plane_org.holds(blk_w as int, blk_h as int),
        plane_ref.holds(blk_w as int, blk_h as int),
        blk_w * blk_h <= MAX_BLOCK_AREA,
    ensures
        r == block_sad(plane_org.pixels(), plane_ref.pixels(), blk_w as nat, blk_h as nat),
{
    let ghost a = plane_org.pixels();
    let ghost b = plane_ref.pixels();
    let ghost rows = |j: int| row_sad(a, b, blk_w as nat, j);
    let mut sum: u32 = 0;
    let mut j: usize = 0;
    while j < blk_h
        invariant
            j <= blk_h,
            a == plane_org.pixels(),
            b == plane_ref.pixels(),
            rows == (|j: int| row_sad(a, b, blk_w as nat, j)),
            plane_org.holds(blk_w as int, blk_h as int),
            plane_ref.holds(blk_w as int, blk_h as int),
            blk_w * blk_h <= MAX_BLOCK_AREA,
            sum == sum_below(j as nat, rows),
            sum <= j * blk_w * 65535,
        decreases blk_h - j,
    {
        let ghost terms = |i: int| abs_int(a(i, j as int) - b(i, j as int));
        let ghost before = sum;
        let mut i: usize = 0;
        while i < blk_w
            invariant
                i <= blk_w,
                j < blk_h,
                a == plane_org.pixels(),
                b == plane_ref.pixels(),
                terms == (|i: int| abs_int(a(i, j as int) - b(i, j as int))),
                plane_org.holds(blk_w as int, blk_h as int),
                plane_ref.holds(blk_w as int, blk_h as int),
                blk_w * blk_h <= MAX_BLOCK_AREA,
                before <= j * blk_w * 65535,
                sum == before + sum_below(i as nat, terms),
                sum <= before + i * 65535,
            decreases blk_w - i,
        {
            let p = plane_org.plane.get(plane_org.x + i as isize, plane_org.y + j as isize);
            let q = plane_ref.plane.get(plane_ref.x + i as isize, plane_ref.y + j as isize);
            proof {
                p.lemma_value_range();
                q.lemma_value_range();
                assert(p.value() == a(i as int, j as int));
                assert(q.value() == b(i as int, j as int));
                assert(terms(i as int) == abs_int(p.value() - q.value()));
                lemma_sad_room(i as int, j as int, blk_w as int, blk_h as int);
            }
            let d: i32 = p.to_i32() - q.to_i32();
            let magnitude: u32 = if d < 0 {
                (-d) as u32
            } else {
                d as u32
            };
            sum = sum + magnitude;
            i = i + 1;
        }
        proof {
            assert(rows(j as int) == sum_below(blk_w as nat, terms));
            assert((j + 1) * blk_w * 65535 == j * blk_w * 65535 + blk_w * 65535)
                by (nonlinear_arith);
        }
        j = j + 1;
    }
    sum
}

proof fn lemma_sad_room(i: int, j: int, w: int, h: int)
    requires
        0 <= i < w,
        0 <= j < h,
        w * h <= MAX_BLOCK_AREA,
    ensures
        j * w * 65535 + i * 65535 + 65535 <= u32::MAX,
{
    assert(j * w + i + 1 <= w * h) by (nonlinear_arith)
        requires
            0 <= i < w,
            0 <= j < h,
    ;
    assert(j * w * 65535 + i * 65535 + 65535 == (j * w + i + 1) * 65535) by (nonlinear_arith);
}

} // verus!

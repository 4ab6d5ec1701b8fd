//! Rasters: rectangular grids of RGBA pixels, stored row by row.

use crate::pixel::Rgba;
use vstd::arithmetic::div_mod::{
    lemma_div_pos_is_pos, lemma_fundamental_div_mod, lemma_fundamental_div_mod_converse,
    lemma_mod_pos_bound,
};
use vstd::prelude::*;

verus! {

/// What a raster is, mathematically: its two dimensions and its pixels, the
/// rows one after another from the top, each row from the left.
pub struct RasterView {
    pub width: nat,
    pub height: nat,
    pub pixels: Seq<Rgba>,
}

impl RasterView {
    /// There is exactly one pixel for each coordinate.
    pub open spec fn wf(self) -> bool {
        self.pixels.len() == self.width * self.height
    }

    /// `(x, y)` is a coordinate of this raster.
    pub open spec fn in_bounds(self, x: int, y: int) -> bool {
        0 <= x < self.width && 0 <= y < self.height
    }

    /// The pixel at column `x` of row `y`.
    pub open spec fn at(self, x: int, y: int) -> Rgba {
        self.pixels[y * self.width + x]
    }

    /// Both rasters have the same width and the same height.
    pub open spec fn same_size(self, other: RasterView) -> bool {
        self.width == other.width && self.height == other.height
    }

    /// The raster of the given size whose pixel at `(x, y)` is `f(x, y)`.
    pub open spec fn tabulate(width: nat, height: nat, f: spec_fn(int, int) -> Rgba) -> RasterView {
        RasterView {
            width,
            height,
            pixels: Seq::new(width * height, |k: int| f(k % (width as int), k / (width as int))),
        }
    }

    /// The fully transparent raster of the given size.
    pub open spec fn blank(width: nat, height: nat) -> RasterView {
        Self::tabulate(width, height, |x: int, y: int| Rgba::transparent())
    }

    /// This raster with the pixel at `(x, y)` replaced by `p`.
    pub open spec fn put(self, x: int, y: int, p: Rgba) -> RasterView {
        RasterView { pixels: self.pixels.update(y * self.width + x, p), ..self }
    }

    /// The part of this raster that a window with its top left corner at
    /// `(x, y)` and the given size shows. The corner is first moved back onto
    /// the raster's edge if it lies beyond it, and the window is then cut
    /// down to what the raster holds to the right of and below the corner.
    pub open spec fn window(self, x: nat, y: nat, width: nat, height: nat) -> RasterView {
        let x0 = if x < self.width { x } else { self.width };
        let y0 = if y < self.height { y } else { self.height };
        let w = if width < self.width - x0 { width } else { (self.width - x0) as nat };
        let h = if height < self.height - y0 { height } else { (self.height - y0) as nat };
        Self::tabulate(w, h, |i: int, j: int| self.at(x0 + i, y0 + j))
    }

    /// The raster as bytes: four for each pixel, red, green, blue and alpha,
    /// in the order of the pixels.
    pub open spec fn bytes(self) -> Seq<u8> {
        Seq::new(
            4 * self.pixels.len(),
            |i: int|
                {
                    let p = self.pixels[i / 4];
                    if i % 4 == 0 {
                        p.r
                    } else if i % 4 == 1 {
                        p.g
                    } else if i % 4 == 2 {
                        p.b
                    } else {
                        p.a
                    }
                },
        )
    }

    /// The pixels that a run of bytes spells out, four bytes to a pixel.
    pub open spec fn pixels_of(bytes: Seq<u8>) -> Seq<Rgba> {
        Seq::new(
            bytes.len() / 4,
            |k: int|
                Rgba {
                    r: bytes[4 * k],
                    g: bytes[4 * k + 1],
                    b: bytes[4 * k + 2],
                    a: bytes[4 * k + 3],
                },
        )
    }
}

/// A coordinate of a `width` by `height` grid has a place among the
/// `width * height` pixels.
pub proof fn lemma_index_in_range(width: nat, height: nat, x: int, y: int)
    requires
        0 <= x < width,
        0 <= y < height,
    ensures
        0 <= y * width + x < width * height,
{
    assert(0 <= y * width && y * width + width <= height * width) by (nonlinear_arith)
        requires
            0 <= y < height,
            0 <= width,
    ;
    assert(height * width == width * height) by (nonlinear_arith);
}

/// Two coordinates with the same place among the pixels are the same
/// coordinate.
pub proof fn lemma_index_unique(width: nat, x1: int, y1: int, x2: int, y2: int)
    requires
        0 <= x1 < width,
        0 <= x2 < width,
        y1 * width + x1 == y2 * width + x2,
    ensures
        x1 == x2,
        y1 == y2,
{
    lemma_fundamental_div_mod_converse(y1 * width + x1, width as int, y1, x1);
    lemma_fundamental_div_mod_converse(y2 * width + x2, width as int, y2, x2);
}

/// Every place among the pixels belongs to exactly one coordinate: column
/// `k % width` of row `k / width`.
pub proof fn lemma_index_split(width: nat, height: nat, k: int)
    requires
        0 <= k < width * height,
    ensures
        0 <= k % (width as int) < width,
        0 <= k / (width as int) < height,
        (k / (width as int)) * width + k % (width as int) == k,
{
    let w = width as int;
    assert(w > 0) by (nonlinear_arith)
        requires
            0 <= k < w * height,
            w >= 0,
    ;
    lemma_fundamental_div_mod(k, w);
    lemma_mod_pos_bound(k, w);
    lemma_div_pos_is_pos(k, w);
    let q = k / w;
    assert(w * q == q * w) by (nonlinear_arith);
    assert(q < height) by (nonlinear_arith)
        requires
            q * w <= k,
            k < w * height,
            w > 0,
    ;
}

/// Reading back what `tabulate` wrote.
pub proof fn lemma_tabulate(width: nat, height: nat, f: spec_fn(int, int) -> Rgba)
    ensures
        RasterView::tabulate(width, height, f).wf(),
        RasterView::tabulate(width, height, f).width == width,
        RasterView::tabulate(width, height, f).height == height,
        forall|x: int, y: int|
            0 <= x < width && 0 <= y < height ==> #[trigger] RasterView::tabulate(
                width,
                height,
                f,
            ).at(x, y) == f(x, y),
{
    let t = RasterView::tabulate(width, height, f);
    assert forall|x: int, y: int| 0 <= x < width && 0 <= y < height implies #[trigger] t.at(x, y)
        == f(x, y) by {
        lemma_index_in_range(width, height, x, y);
        lemma_fundamental_div_mod_converse(y * width + x, width as int, y, x);
    }
}

/// Two rasters of the same size that agree at every coordinate are the same
/// raster.
pub proof fn lemma_same_pixels(a: RasterView, b: RasterView)
    requires
        a.wf(),
        b.wf(),
        a.same_size(b),
        forall|x: int, y: int| a.in_bounds(x, y) ==> #[trigger] a.at(x, y) == b.at(x, y),
    ensures
        a == b,
{
    assert forall|k: int| 0 <= k < a.pixels.len() implies a.pixels[k] == b.pixels[k] by {
        lemma_index_split(a.width, a.height, k);
        let x = k % (a.width as int);
        let y = k / (a.width as int);
        assert(a.at(x, y) == b.at(x, y));
    }
    assert(a.pixels =~= b.pixels);
}

/// Replacing one pixel changes that pixel and no other.
pub proof fn lemma_put(v: RasterView, x: int, y: int, p: Rgba)
    requires
        v.wf(),
        v.in_bounds(x, y),
    ensures
        v.put(x, y, p).wf(),
        v.put(x, y, p).same_size(v),
        forall|a: int, b: int|
            v.in_bounds(a, b) ==> #[trigger] v.put(x, y, p).at(a, b) == if a == x && b == y {
                p
            } else {
                v.at(a, b)
            },
{
    lemma_index_in_range(v.width, v.height, x, y);
    assert forall|a: int, b: int| v.in_bounds(a, b) implies #[trigger] v.put(x, y, p).at(a, b)
        == if a == x && b == y {
        p
    } else {
        v.at(a, b)
    } by {
        lemma_index_in_range(v.width, v.height, a, b);
        if b * v.width + a == y * v.width + x {
            lemma_index_unique(v.width, a, b, x, y);
        }
    }
}

/// What a window shows: as many columns and rows as the raster has to the
/// right of and below the window's corner, up to the window's size, and at
/// each coordinate the raster's pixel that far from the corner.
pub proof fn lemma_window(v: RasterView, x: nat, y: nat, width: nat, height: nat)
    ensures
        v.window(x, y, width, height).wf(),
        x + width <= v.width ==> v.window(x, y, width, height).width == width,
        y + height <= v.height ==> v.window(x, y, width, height).height == height,
        x >= v.width ==> v.window(x, y, width, height).width == 0,
        y >= v.height ==> v.window(x, y, width, height).height == 0,
        v.window(x, y, width, height).width <= width,
        v.window(x, y, width, height).height <= height,
        forall|i: int, j: int|
            x <= v.width && y <= v.height && #[trigger] v.window(x, y, width, height).in_bounds(
                i,
                j,
            ) ==> v.in_bounds(x + i, y + j) && v.window(x, y, width, height).at(i, j) == v.at(
                x + i,
                y + j,
            ),
{
    let x0 = if x < v.width { x } else { v.width };
    let y0 = if y < v.height { y } else { v.height };
    let w = if width < v.width - x0 { width } else { (v.width - x0) as nat };
    let h = if height < v.height - y0 { height } else { (v.height - y0) as nat };
    lemma_tabulate(w, h, |i: int, j: int| v.at(x0 + i, y0 + j));
}

/// The width and the height of a raster are numbers of 32 bits.
pub proof fn lemma_view_fits(raster: Raster)
    ensures
        raster@.width <= u32::MAX,
        raster@.height <= u32::MAX,
{
}

/// A grid of RGBA pixels. There is always exactly one pixel for each
/// coordinate, and the number of pixels fits in memory.
#[derive(Debug)]
pub struct Raster {
    width: u32,
    height: u32,
    pixels: Vec<Rgba>,
}

impl View for Raster {
    type V = RasterView;

    closed spec fn view(&self) -> RasterView {
        RasterView { width: self.width as nat, height: self.height as nat, pixels: self.pixels@ }
    }
}

impl Clone for Raster {
    /// A copy of the raster, pixel for pixel.
    fn clone(&self) -> (r: Self)
        ensures
            r@ == self@,
    {
        self.copy()
    }
}

impl PartialEq for Raster {
    /// Two rasters are equal when they have the same size and the same
    /// pixels.
    fn eq(&self, other: &Self) -> (r: bool) {
        if self.width != other.width || self.height != other.height {
            return false;
        }
        proof {
            use_type_invariant(self);
            use_type_invariant(other);
        }
        let n = self.pixels.len();
        let mut k: usize = 0;
        while k < n
            invariant
                n == self.pixels@.len(),
                n == other.pixels@.len(),
                k <= n,
                forall|i: int| 0 <= i < k ==> self.pixels@[i] == other.pixels@[i],
            decreases n - k,
        {
            if self.pixels[k] != other.pixels[k] {
                return false;
            }
            k = k + 1;
        }
        proof {
            assert(self.pixels@ =~= other.pixels@);
        }
        true
    }
}

impl vstd::std_specs::cmp::PartialEqSpecImpl for Raster {
    open spec fn obeys_eq_spec() -> bool {
        true
    }

    open spec fn eq_spec(&self, other: &Self) -> bool {
        self@ == other@
    }
}

impl Raster {
    #[verifier::type_invariant]
    spec fn well_formed(self) -> bool {
        self.pixels@.len() == self.width * self.height
    }

    /// A fully transparent raster of the given size.
    pub fn new(width: u32, height: u32) -> (r: Self)
        ensures
            r@ == RasterView::blank(width as nat, height as nat),
            r@.wf(),
    {
        assert((width as u64) * (height as u64) <= u64::MAX) by (nonlinear_arith)
            requires
                width <= u32::MAX,
                height <= u32::MAX,
        ;
        let total: u64 = (width as u64) * (height as u64);
        let mut pixels: Vec<Rgba> = Vec::new();
        while (pixels.len() as u64) < total
            invariant
                pixels@.len() <= total,
                forall|k: int| 0 <= k < pixels@.len() ==> pixels@[k] == Rgba::transparent(),
            decreases total - pixels@.len(),
        {
            pixels.push(Rgba::new(0, 0, 0, 0));
        }
        let r = Raster { width, height, pixels };
        proof {
            assert(r@.pixels =~= RasterView::blank(width as nat, height as nat).pixels);
        }
        r
    }

    /// The raster of the given size that holds `pixels`, the rows one after
    /// another from the top, or nothing where `pixels` has not exactly one
    /// pixel for each coordinate.
    pub fn from_pixels(width: u32, height: u32, pixels: Vec<Rgba>) -> (r: Option<Self>)
        ensures
            r is Some <==> pixels@.len() == width * height,
            r matches Some(raster) ==> raster@ == (RasterView {
                width: width as nat,
                height: height as nat,
                pixels: pixels@,
            }) && raster@.wf(),
    {
        assert((width as u64) * (height as u64) <= u64::MAX) by (nonlinear_arith)
            requires
                width <= u32::MAX,
                height <= u32::MAX,
        ;
        if (pixels.len() as u64) == (width as u64) * (height as u64) {
            Some(Raster { width, height, pixels })
        } else {
            None
        }
    }

    /// The raster of the given size that `bytes` spells out, four bytes to a
    /// pixel (red, green, blue, alpha), or nothing where `bytes` has not
    /// exactly four bytes for each coordinate.
    pub fn from_bytes(width: u32, height: u32, bytes: &Vec<u8>) -> (r: Option<Self>)
        ensures
            r is Some <==> bytes@.len() == 4 * (width * height),
            r matches Some(raster) ==> raster@ == (RasterView {
                width: width as nat,
                height: height as nat,
                pixels: RasterView::pixels_of(bytes@),
            }) && raster@.wf() && raster@.bytes() == bytes@,
    {
        assert((width as u64) * (height as u64) <= u64::MAX) by (nonlinear_arith)
            requires
                width <= u32::MAX,
                height <= u32::MAX,
        ;
        let total: u64 = (width as u64) * (height as u64);
        let n = bytes.len();
        if n % 4 != 0 || ((n / 4) as u64) != total {
            return None;
        }
        let count: usize = n / 4;
        let mut pixels: Vec<Rgba> = Vec::new();
        while pixels.len() < count
            invariant
                n == bytes@.len(),
                n == 4 * count,
                pixels@.len() <= count,
                forall|k: int|
                    0 <= k < pixels@.len() ==> pixels@[k] == RasterView::pixels_of(bytes@)[k],
            decreases count - pixels@.len(),
        {
            let k = pixels.len();
            let at = 4 * k;
            pixels.push(Rgba::new(bytes[at], bytes[at + 1], bytes[at + 2], bytes[at + 3]));
        }
        let r = Raster { width, height, pixels };
        proof {
            assert(r@.pixels =~= RasterView::pixels_of(bytes@));
            assert(r@.bytes() =~= bytes@);
        }
        Some(r)
    }

    /// The number of columns.
    pub fn width(&self) -> (w: u32)
        ensures
            w == self@.width,
            self@.wf(),
    {
        proof {
            use_type_invariant(self);
        }
        self.width
    }

    /// The number of rows.
    pub fn height(&self) -> (h: u32)
        ensures
            h == self@.height,
            self@.wf(),
    {
        proof {
            use_type_invariant(self);
        }
        self.height
    }

    /// The pixel at column `x` of row `y`.
    pub fn get_pixel(&self, x: u32, y: u32) -> (p: Rgba)
        requires
            self@.in_bounds(x as int, y as int),
        ensures
            p == self@.at(x as int, y as int),
    {
        proof {
            use_type_invariant(self);
            lemma_index_in_range(self@.width, self@.height, x as int, y as int);
            assert(0 <= (y as int) * (self.width as int)) by (nonlinear_arith);
            // the place is less than the number of pixels, which is a `usize`
            assert(self.pixels@.len() == self.pixels.len());
        }
        self.pixels[(y as usize) * (self.width as usize) + (x as usize)]
    }

    /// Replaces the pixel at column `x` of row `y` and leaves the others as
    /// they are.
    pub fn put_pixel(&mut self, x: u32, y: u32, p: Rgba)
        requires
            old(self)@.in_bounds(x as int, y as int),
        ensures
            final(self)@ == old(self)@.put(x as int, y as int, p),
            final(self)@.wf(),
            final(self)@.same_size(old(self)@),
            forall|a: int, b: int|
                old(self)@.in_bounds(a, b) ==> #[trigger] final(self)@.at(a, b) == if a == x && b
                    == y {
                    p
                } else {
                    old(self)@.at(a, b)
                },
    {
        proof {
            use_type_invariant(&*self);
            lemma_index_in_range(self@.width, self@.height, x as int, y as int);
            assert(0 <= (y as int) * (self.width as int)) by (nonlinear_arith);
            // the place is less than the number of pixels, which is a `usize`
            assert(self.pixels@.len() == self.pixels.len());
            lemma_put(self@, x as int, y as int, p);
        }
        let index = (y as usize) * (self.width as usize) + (x as usize);
        self.pixels[index] = p;
    }

    /// A copy of the raster, pixel for pixel.
    pub fn copy(&self) -> (r: Self)
        ensures
            r@ == self@,
            r@.wf(),
    {
        proof {
            use_type_invariant(self);
        }
        let mut pixels: Vec<Rgba> = Vec::new();
        let n = self.pixels.len();
        while pixels.len() < n
            invariant
                n == self.pixels@.len(),
                pixels@.len() <= n,
                forall|k: int| 0 <= k < pixels@.len() ==> pixels@[k] == self.pixels@[k],
            decreases n - pixels@.len(),
        {
            let k = pixels.len();
            pixels.push(self.pixels[k]);
        }
        proof {
            assert(pixels@ =~= self.pixels@);
        }
        Raster { width: self.width, height: self.height, pixels }
    }

    /// The raster as bytes: four for each pixel (red, green, blue, alpha),
    /// the rows one after another from the top.
    pub fn to_bytes(&self) -> (bytes: Vec<u8>)
        ensures
            bytes@ == self@.bytes(),
            bytes@.len() == 4 * (self@.width * self@.height),
    {
        proof {
            use_type_invariant(self);
        }
        let mut bytes: Vec<u8> = Vec::new();
        let n = self.pixels.len();
        let mut k: usize = 0;
        while k < n
            invariant
                n == self.pixels@.len(),
                k <= n,
                bytes@.len() == 4 * k,
                forall|i: int| 0 <= i < bytes@.len() ==> bytes@[i] == self@.bytes()[i],
            decreases n - k,
        {
            let p = self.pixels[k];
            bytes.push(p.r);
            bytes.push(p.g);
            bytes.push(p.b);
            bytes.push(p.a);
            k = k + 1;
        }
        proof {
            assert(bytes@ =~= self@.bytes());
        }
        bytes
    }

    /// Cuts a window out of the raster: the pixels from column `x` and row
    /// `y` on, `width` columns and `height` rows of them. A corner beyond the
    /// raster is moved back onto its edge, and a window that reaches beyond
    /// the raster is cut down to what the raster holds.
    pub fn crop(&self, x: u32, y: u32, width: u32, height: u32) -> (r: Self)
        ensures
            r@ == self@.window(x as nat, y as nat, width as nat, height as nat),
            r@.wf(),
    {
        proof {
            use_type_invariant(self);
        }
        let x0 = if x < self.width { x } else { self.width };
        let y0 = if y < self.height { y } else { self.height };
        let w = if width < self.width - x0 { width } else { self.width - x0 };
        let h = if height < self.height - y0 { height } else { self.height - y0 };
        let ghost f = |i: int, j: int| self@.at(x0 + i, y0 + j);
        let ghost goal = RasterView::tabulate(w as nat, h as nat, f);
        proof {
            lemma_tabulate(w as nat, h as nat, f);
        }
        let mut out = Raster::new(w, h);
        proof {
            lemma_tabulate(w as nat, h as nat, |x: int, y: int| Rgba::transparent());
        }
        let mut j: u32 = 0;
        while j < h
            invariant
                j <= h,
                x0 + w <= self@.width,
                y0 + h <= self@.height,
                self@.wf(),
                out@.wf(),
                out@.width == w,
                out@.height == h,
                forall|a: int, b: int|
                    0 <= a < w && 0 <= b < j ==> #[trigger] out@.at(a, b) == self@.at(
                        x0 + a,
                        y0 + b,
                    ),
            decreases h - j,
        {
            let mut i: u32 = 0;
            while i < w
                invariant
                    i <= w,
                    j < h,
                    x0 + w <= self@.width,
                    y0 + h <= self@.height,
                    self@.wf(),
                    out@.wf(),
                    out@.width == w,
                    out@.height == h,
                    forall|a: int, b: int|
                        0 <= a < w && 0 <= b < j ==> #[trigger] out@.at(a, b) == self@.at(
                            x0 + a,
                            y0 + b,
                        ),
                    forall|a: int|
                        0 <= a < i ==> #[trigger] out@.at(a, j as int) == self@.at(x0 + a, y0 + j),
                decreases w - i,
            {
                let p = self.get_pixel(x0 + i, y0 + j);
                out.put_pixel(i, j, p);
                i = i + 1;
            }
            j = j + 1;
        }
        proof {
            lemma_same_pixels(out@, goal);
        }
        out
    }
}

/// What a batch of rasters is, mathematically: the view of each, in order.
pub open spec fn views(images: Seq<Raster>) -> Seq<RasterView> {
    Seq::new(images.len(), |i: int| images[i]@)
}

/// Every image of the batch has the size of the first.
pub open spec fn same_sized(images: Seq<RasterView>) -> bool {
    forall|i: int| 0 <= i < images.len() ==> (#[trigger] images[i]).same_size(images[0])
}

/// Every image of the batch has one pixel for each of its coordinates.
pub open spec fn all_wf(images: Seq<RasterView>) -> bool {
    forall|i: int| 0 <= i < images.len() ==> (#[trigger] images[i]).wf()
}

/// Whether every raster of the batch has the size of the first. An empty
/// batch has.
pub fn same_dimensions(images: &Vec<Raster>) -> (same: bool)
    ensures
        same == same_sized(views(images@)),
{
    let ghost batch = views(images@);
    let mut i: usize = 0;
    while i < images.len()
        invariant
            i <= images@.len(),
            batch == views(images@),
            forall|k: int| 0 <= k < i ==> (#[trigger] batch[k]).same_size(batch[0]),
        decreases images@.len() - i,
    {
        if images[i].width() != images[0].width() || images[i].height() != images[0].height() {
            assert(!batch[i as int].same_size(batch[0]));
            return false;
        }
        i = i + 1;
    }
    true
}

} // verus!

//! Finding where the images of a batch depart from the background.
//!
//! The first image of a batch is the background; the others are compared
//! with it, pixel by pixel. A pixel differs where its distance from the
//! background's pixel exceeds the leniency.

use crate::pixel::{difference, squared_distance, Leniency};
use crate::range::{lemma_bounds_insert, lemma_bounds_single, Pos2, RectangleRange};
use crate::raster::{
    lemma_index_in_range, lemma_index_split, same_sized, views, Raster, RasterView,
};
use vstd::arithmetic::div_mod::lemma_fundamental_div_mod_converse;
use vstd::prelude::*;

verus! {

/// Image `i` of the batch differs from the background at `(x, y)`.
pub open spec fn pixel_differs(
    images: Seq<RasterView>,
    leniency: Leniency,
    i: int,
    x: int,
    y: int,
) -> bool {
    leniency.exceeded_by(squared_distance(images[0].at(x, y), images[i].at(x, y)))
}

/// `(x, y)` is a coordinate of the background at which some other image of
/// the batch differs from it.
pub open spec fn differs_at(images: Seq<RasterView>, leniency: Leniency, x: int, y: int) -> bool {
    &&& images[0].in_bounds(x, y)
    &&& exists|i: int| 1 <= i < images.len() && #[trigger] pixel_differs(images, leniency, i, x, y)
}

/// The coordinates at which some image of the batch differs from the
/// background.
pub open spec fn differing(images: Seq<RasterView>, leniency: Leniency) -> Set<(int, int)> {
    Set::new(|p: (int, int)| differs_at(images, leniency, p.0, p.1))
}

/// The coordinates of a `width` by `height` grid in reading order: the rows
/// from the top, each row from the left.
pub open spec fn coordinates(width: nat, height: nat) -> Seq<Pos2> {
    Seq::new(
        width * height,
        |k: int| Pos2 { x: (k % (width as int)) as u32, y: (k / (width as int)) as u32 },
    )
}

/// The test that picks, among coordinates, those inside `range` at which
/// image `i` differs from the background.
pub open spec fn differs_within(
    images: Seq<RasterView>,
    leniency: Leniency,
    range: RectangleRange,
    i: int,
) -> spec_fn(Pos2) -> bool {
    |p: Pos2|
        range.covers(p.x as int, p.y as int) && pixel_differs(
            images,
            leniency,
            i,
            p.x as int,
            p.y as int,
        )
}

/// The test that picks, among coordinates, those at which image `i` differs
/// from the background.
pub open spec fn differs_anywhere(images: Seq<RasterView>, leniency: Leniency, i: int) -> spec_fn(
    Pos2,
) -> bool {
    |p: Pos2| pixel_differs(images, leniency, i, p.x as int, p.y as int)
}

/// The coordinates inside `range` at which image `i` differs from the
/// background, in reading order.
pub open spec fn different_pixels_within(
    images: Seq<RasterView>,
    leniency: Leniency,
    range: RectangleRange,
    i: int,
) -> Seq<Pos2> {
    coordinates(images[0].width, images[0].height).filter(
        differs_within(images, leniency, range, i),
    )
}

/// The coordinates at which image `i` differs from the background, in
/// reading order.
pub open spec fn different_pixels(images: Seq<RasterView>, leniency: Leniency, i: int) -> Seq<
    Pos2,
> {
    coordinates(images[0].width, images[0].height).filter(differs_anywhere(images, leniency, i))
}

/// The coordinates of `s` that come before `(x, y)` in reading order.
spec fn before(s: Set<(int, int)>, x: int, y: int) -> Set<(int, int)> {
    Set::new(|p: (int, int)| s.contains(p) && (p.1 < y || (p.1 == y && p.0 < x)))
}

/// Each place in the reading order belongs to one coordinate of the grid.
pub proof fn lemma_coordinates(width: nat, height: nat)
    requires
        width <= u32::MAX,
        height <= u32::MAX,
    ensures
        coordinates(width, height).len() == width * height,
        forall|k: int|
            0 <= k < width * height ==> {
                let p = #[trigger] coordinates(width, height)[k];
                0 <= p.x < width && 0 <= p.y < height && p.y * width + p.x == k
            },
{
    assert forall|k: int| 0 <= k < width * height implies {
        let p = #[trigger] coordinates(width, height)[k];
        0 <= p.x < width && 0 <= p.y < height && p.y * width + p.x == k
    } by {
        lemma_index_split(width, height, k);
    }
}

/// Each coordinate of the grid has its place in the reading order: after
/// the rows above it and the coordinates to its left.
pub proof fn lemma_coordinate_at(width: nat, height: nat, x: int, y: int)
    requires
        width <= u32::MAX,
        height <= u32::MAX,
        0 <= x < width,
        0 <= y < height,
    ensures
        0 <= y * width + x < width * height,
        coordinates(width, height)[y * width + x] == (Pos2 { x: x as u32, y: y as u32 }),
{
    lemma_index_in_range(width, height, x, y);
    lemma_fundamental_div_mod_converse(y * width + x, width as int, y, x);
}

/// A coordinate is among those at which image `i` differs exactly if it is
/// a coordinate of the background at which image `i` differs.
pub proof fn lemma_different_pixels(images: Seq<RasterView>, leniency: Leniency, i: int, p: Pos2)
    requires
        images.len() >= 1,
        images[0].width <= u32::MAX,
        images[0].height <= u32::MAX,
    ensures
        different_pixels(images, leniency, i).contains(p) <==> images[0].in_bounds(
            p.x as int,
            p.y as int,
        ) && pixel_differs(images, leniency, i, p.x as int, p.y as int),
{
    let w = images[0].width;
    let h = images[0].height;
    let all = coordinates(w, h);
    let test = differs_anywhere(images, leniency, i);
    let found = all.filter(test);
    lemma_coordinates(w, h);
    if found.contains(p) {
        // what was picked is a coordinate of the grid, and passes the test
        all.lemma_filter_contains_rev(test, p);
        let k = choose|k: int| 0 <= k < all.len() && all[k] == p;
        assert(images[0].in_bounds(all[k].x as int, all[k].y as int));
        let m = choose|m: int| 0 <= m < found.len() && found[m] == p;
        all.lemma_filter_pred(test, m);
        assert(test(p));
    }
    if images[0].in_bounds(p.x as int, p.y as int) && pixel_differs(
        images,
        leniency,
        i,
        p.x as int,
        p.y as int,
    ) {
        // a coordinate of the grid that passes the test is picked
        let k = p.y * w + p.x;
        lemma_coordinate_at(w, h, p.x as int, p.y as int);
        assert(all[k] == p);
        all.lemma_filter_contains(test, k);
    }
}

/// Inside the smallest rectangle around all differences, the coordinates at
/// which one image differs are all the coordinates at which it differs.
pub proof fn lemma_range_loses_nothing(
    images: Seq<RasterView>,
    leniency: Leniency,
    range: RectangleRange,
    i: int,
)
    requires
        1 <= i < images.len(),
        images[0].width <= u32::MAX,
        images[0].height <= u32::MAX,
        range.bounds(differing(images, leniency)),
    ensures
        different_pixels_within(images, leniency, range, i) == different_pixels(
            images,
            leniency,
            i,
        ),
{
    let w = images[0].width;
    let h = images[0].height;
    let all = coordinates(w, h);
    lemma_coordinates(w, h);
    assert forall|k: int| 0 <= k < all.len() implies differs_within(images, leniency, range, i)(
        #[trigger] all[k],
    ) == differs_anywhere(images, leniency, i)(all[k]) by {
        // where image `i` differs, some image differs, and the range holds
        // every such coordinate
        let p = all[k];
        if pixel_differs(images, leniency, i, p.x as int, p.y as int) {
            assert(differs_at(images, leniency, p.x as int, p.y as int));
            assert(differing(images, leniency).contains((p.x as int, p.y as int)));
        }
    }
    lemma_filter_agrees(
        all,
        differs_within(images, leniency, range, i),
        differs_anywhere(images, leniency, i),
        all.len() as int,
    );
    assert(all.take(all.len() as int) =~= all);
}

/// Where no image differs from the background, the smallest rectangle
/// around all differences is the empty range.
pub proof fn lemma_no_difference(images: Seq<RasterView>, leniency: Leniency, range: RectangleRange)
    requires
        forall|i: int, x: int, y: int|
            1 <= i < images.len() && images[0].in_bounds(x, y) ==> !#[trigger] pixel_differs(
                images,
                leniency,
                i,
                x,
                y,
            ),
        range.bounds(differing(images, leniency)),
    ensures
        range == RectangleRange::empty(),
{
    let all = differing(images, leniency);
    assert forall|p: (int, int)| !all.contains(p) by {
        if differs_at(images, leniency, p.0, p.1) {
            let i = choose|i: int|
                1 <= i < images.len() && #[trigger] pixel_differs(images, leniency, i, p.0, p.1);
            assert(!pixel_differs(images, leniency, i, p.0, p.1));
        }
    }
}

/// Where the images differ from the background at a single coordinate, the
/// smallest rectangle around all differences has that coordinate for both
/// corners, and so width 0 and height 0.
pub proof fn lemma_single_difference(
    images: Seq<RasterView>,
    leniency: Leniency,
    range: RectangleRange,
    x: u32,
    y: u32,
)
    requires
        differs_at(images, leniency, x as int, y as int),
        forall|a: int, b: int| #[trigger] differs_at(images, leniency, a, b) ==> a == x && b == y,
        range.bounds(differing(images, leniency)),
    ensures
        range.min == (Pos2 { x, y }),
        range.max == (Pos2 { x, y }),
        range.spec_width() == 0,
        range.spec_height() == 0,
{
    assert(differing(images, leniency) =~= set![(x as int, y as int)]);
    lemma_bounds_single(range, x, y);
}

/// Two tests that agree on the first `n` items of a sequence pick the same
/// ones among them.
proof fn lemma_filter_agrees(
    s: Seq<Pos2>,
    f: spec_fn(Pos2) -> bool,
    g: spec_fn(Pos2) -> bool,
    n: int,
)
    requires
        0 <= n <= s.len(),
        forall|k: int| 0 <= k < s.len() ==> f(#[trigger] s[k]) == g(s[k]),
    ensures
        s.take(n).filter(f) == s.take(n).filter(g),
    decreases n,
{
    reveal(Seq::filter);
    if n > 0 {
        lemma_filter_agrees(s, f, g, n - 1);
        assert(s.take(n).drop_last() =~= s.take(n - 1));
    }
}

/// Adding an item to a sequence adds it to what a test picks exactly if the
/// test picks it.
proof fn lemma_filter_push(s: Seq<Pos2>, f: spec_fn(Pos2) -> bool, p: Pos2)
    ensures
        s.push(p).filter(f) == if f(p) {
            s.filter(f).push(p)
        } else {
            s.filter(f)
        },
{
    reveal(Seq::filter);
    assert(s.push(p).drop_last() =~= s);
}

/// Whether some image of the batch differs from the background at `(x, y)`.
/// The images are asked in order, and the first that differs settles it.
pub fn any_differs(images: &Vec<Raster>, leniency: Leniency, x: u32, y: u32) -> (r: bool)
    requires
        images@.len() >= 1,
        same_sized(views(images@)),
        images@[0]@.in_bounds(x as int, y as int),
    ensures
        r == differs_at(views(images@), leniency, x as int, y as int),
{
    let ghost batch = views(images@);
    let bg_px = images[0].get_pixel(x, y);
    let mut i: usize = 1;
    while i < images.len()
        invariant
            1 <= i <= images@.len(),
            batch == views(images@),
            same_sized(batch),
            batch[0].in_bounds(x as int, y as int),
            bg_px == batch[0].at(x as int, y as int),
            forall|k: int|
                1 <= k < i ==> !#[trigger] pixel_differs(batch, leniency, k, x as int, y as int),
        decreases images@.len() - i,
    {
        assert(batch[i as int].same_size(batch[0]));
        let px = images[i].get_pixel(x, y);
        if leniency.is_exceeded_by(difference(bg_px, px)) {
            assert(pixel_differs(batch, leniency, i as int, x as int, y as int));
            return true;
        }
        i = i + 1;
    }
    false
}

/// The smallest rectangle that holds every coordinate at which some image of
/// the batch differs from the background; the empty range where none does.
pub fn find_range(images: &Vec<Raster>, leniency: Leniency) -> (range: RectangleRange)
    requires
        images@.len() >= 1,
        same_sized(views(images@)),
    ensures
        range.bounds(differing(views(images@), leniency)),
{
    let ghost batch = views(images@);
    let ghost all = differing(batch, leniency);
    let width = images[0].width();
    let height = images[0].height();
    let mut range = RectangleRange::new();
    let mut y: u32 = 0;
    while y < height
        invariant
            y <= height,
            images@.len() >= 1,
            batch == views(images@),
            same_sized(batch),
            all == differing(batch, leniency),
            width == batch[0].width,
            height == batch[0].height,
            range.bounds(before(all, 0, y as int)),
        decreases height - y,
    {
        let mut x: u32 = 0;
        while x < width
            invariant
                x <= width,
                y < height,
                images@.len() >= 1,
                batch == views(images@),
                same_sized(batch),
                all == differing(batch, leniency),
                width == batch[0].width,
                height == batch[0].height,
                range.bounds(before(all, x as int, y as int)),
            decreases width - x,
        {
            let ghost seen = before(all, x as int, y as int);
            if any_differs(images, leniency, x, y) {
                proof {
                    lemma_bounds_insert(range, seen, x, y);
                    assert(before(all, x + 1, y as int) =~= seen.insert((x as int, y as int)));
                }
                range.correct(x, y);
            } else {
                proof {
                    assert(before(all, x + 1, y as int) =~= seen);
                }
            }
            x = x + 1;
        }
        proof {
            assert(before(all, 0, y + 1) =~= before(all, width as int, y as int));
        }
        y = y + 1;
    }
    proof {
        assert(before(all, 0, height as int) =~= all);
    }
    range
}

/// The coordinates inside `range` at which image `i` of the batch differs
/// from the background, in reading order.
pub fn find_different_pixels_of(
    images: &Vec<Raster>,
    leniency: Leniency,
    range: &RectangleRange,
    i: usize,
) -> (found: Vec<Pos2>)
    requires
        1 <= i < images@.len(),
        same_sized(views(images@)),
    ensures
        found@ == different_pixels_within(views(images@), leniency, *range, i as int),
{
    let ghost batch = views(images@);
    let ghost test = differs_within(batch, leniency, *range, i as int);
    let width = images[0].width();
    let height = images[0].height();
    let ghost all = coordinates(width as nat, height as nat);
    proof {
        lemma_coordinates(width as nat, height as nat);
        reveal(Seq::filter);
    }
    let mut found: Vec<Pos2> = Vec::new();
    let mut y: u32 = 0;
    while y < height
        invariant
            y <= height,
            1 <= i < images@.len(),
            batch == views(images@),
            batch[i as int].same_size(batch[0]),
            test == differs_within(batch, leniency, *range, i as int),
            width == batch[0].width,
            height == batch[0].height,
            all == coordinates(width as nat, height as nat),
            all.len() == width * height,
            0 <= y * width <= width * height,
            found@ == all.take(y * width).filter(test),
        decreases height - y,
    {
        let mut x: u32 = 0;
        while x < width
            invariant
                x <= width,
                y < height,
                1 <= i < images@.len(),
                batch == views(images@),
                batch[i as int].same_size(batch[0]),
                test == differs_within(batch, leniency, *range, i as int),
                width == batch[0].width,
                height == batch[0].height,
                all == coordinates(width as nat, height as nat),
                all.len() == width * height,
                0 <= y * width + x <= width * height,
                found@ == all.take(y * width + x).filter(test),
            decreases width - x,
        {
            let ghost k = y * width + x;
            proof {
                lemma_coordinate_at(width as nat, height as nat, x as int, y as int);
                assert(all.take(k + 1) =~= all.take(k).push(all[k]));
                lemma_filter_push(all.take(k), test, all[k]);
            }
            if range.contains(x, y) {
                let bg_px = images[0].get_pixel(x, y);
                let px = images[i].get_pixel(x, y);
                if leniency.is_exceeded_by(difference(bg_px, px)) {
                    found.push(Pos2::new(x, y));
                }
            }
            x = x + 1;
        }
        proof {
            assert(y * width + width == (y + 1) * width) by (nonlinear_arith);
        }
        y = y + 1;
    }
    proof {
        assert(all.take(height * width) =~= all) by {
            assert(height * width == width * height) by (nonlinear_arith);
        }
    }
    found
}

/// For each image of the batch but the background, the coordinates inside
/// `range` at which it differs from the background, in reading order. The
/// list for image `i` stands at `i - 1`.
pub fn find_different_pixels(
    images: &Vec<Raster>,
    leniency: Leniency,
    range: &RectangleRange,
) -> (found: Vec<Vec<Pos2>>)
    requires
        images@.len() >= 1,
        same_sized(views(images@)),
    ensures
        found@.len() == images@.len() - 1,
        forall|i: int|
            1 <= i < images@.len() ==> (#[trigger] found@[i - 1])@ == different_pixels_within(
                views(images@),
                leniency,
                *range,
                i,
            ),
{
    let mut found: Vec<Vec<Pos2>> = Vec::new();
    let mut i: usize = 1;
    while i < images.len()
        invariant
            1 <= i <= images@.len(),
            same_sized(views(images@)),
            found@.len() == i - 1,
            forall|k: int|
                1 <= k < i ==> (#[trigger] found@[k - 1])@ == different_pixels_within(
                    views(images@),
                    leniency,
                    *range,
                    k,
                ),
        decreases images@.len() - i,
    {
        let list = find_different_pixels_of(images, leniency, range, i);
        found.push(list);
        i = i + 1;
    }
    found
}

} // verus!

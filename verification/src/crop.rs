//! Cutting the images of a batch down to where they differ from the
//! background.

use crate::config::{Config, CropType};
use crate::naming::{output_file_name, png_extension, stem, CropError, SourceName};
use crate::pixel::{Leniency, Rgba};
use crate::range::{lemma_bounds_unique, lemma_bounds_wf, Pos2, RectangleRange};
use crate::raster::{
    all_wf, lemma_same_pixels, lemma_tabulate, lemma_view_fits, lemma_window, same_sized, views,
    Raster, RasterView,
};
use crate::scan::{
    different_pixels, differing, differs_at, find_different_pixels, find_range,
    lemma_different_pixels, lemma_no_difference, lemma_range_loses_nothing, pixel_differs,
};
use vstd::prelude::*;

verus! {

/// What a comparison of a batch found: the smallest rectangle around all
/// differences and, where it was asked for, the coordinates at which each
/// image differs.
#[derive(Debug)]
pub struct ScanResult {
    pub range: RectangleRange,
    /// For each image but the background, in the order of the batch, the
    /// coordinates at which it differs, in reading order. Left empty unless
    /// the crop is exact.
    pub different_pixels: Vec<Vec<Pos2>>,
}

/// What a `ScanResult` is, mathematically.
pub struct ScanView {
    pub range: RectangleRange,
    pub different_pixels: Seq<Seq<Pos2>>,
}

impl View for ScanResult {
    type V = ScanView;

    open spec fn view(&self) -> ScanView {
        ScanView {
            range: self.range,
            different_pixels: Seq::new(
                self.different_pixels@.len(),
                |i: int| self.different_pixels@[i]@,
            ),
        }
    }
}

impl ScanView {
    /// The coordinates listed for the image at `index` of the batch; none
    /// for the background or where the lists do not reach so far.
    pub open spec fn listed(self, index: int) -> Seq<Pos2> {
        if 1 <= index <= self.different_pixels.len() {
            self.different_pixels[index - 1]
        } else {
            Seq::empty()
        }
    }

    /// This is what comparing the batch finds: the range is the smallest
    /// rectangle around all differences, and for an exact crop there is,
    /// for each image but the background, the list of the coordinates at
    /// which it differs; for a rectangle crop there are no lists.
    pub open spec fn is_scan_of(
        self,
        images: Seq<RasterView>,
        leniency: Leniency,
        crop_type: CropType,
    ) -> bool {
        &&& self.range.bounds(differing(images, leniency))
        &&& match crop_type {
            CropType::Rectangle => self.different_pixels.len() == 0,
            CropType::Exact => {
                &&& self.different_pixels.len() == images.len() - 1
                &&& forall|i: int|
                    1 <= i < images.len() ==> #[trigger] self.different_pixels[i - 1]
                        == different_pixels(images, leniency, i)
            },
        }
    }
}

/// The image with everything outside `range` made transparent.
pub open spec fn masked(image: RasterView, range: RectangleRange) -> RasterView {
    RasterView::tabulate(
        image.width,
        image.height,
        |x: int, y: int|
            if range.covers(x, y) {
                image.at(x, y)
            } else {
                Rgba::transparent()
            },
    )
}

/// The image with everything but the pixels at the `chosen` coordinates made
/// transparent.
pub open spec fn picked(image: RasterView, chosen: Seq<Pos2>) -> RasterView {
    RasterView::tabulate(
        image.width,
        image.height,
        |x: int, y: int|
            if chosen.contains(Pos2 { x: x as u32, y: y as u32 }) {
                image.at(x, y)
            } else {
                Rgba::transparent()
            },
    )
}

/// The image cut down to a window that starts at the range's `min` corner
/// and is as wide and as high as the range.
pub open spec fn cut(image: RasterView, range: RectangleRange) -> RasterView {
    image.window(
        range.min.x as nat,
        range.min.y as nat,
        range.spec_width() as nat,
        range.spec_height() as nat,
    )
}

/// What becomes of the image at `index` of a batch. The background, at
/// index 0, stays as it is. Of any other image a rectangle crop keeps what
/// lies in `range`, an exact crop the pixels at the `chosen` coordinates;
/// the rest becomes transparent, or, where the output is resized, the image
/// is cut down to the range.
pub open spec fn applied(
    crop_type: CropType,
    resize_output: bool,
    image: RasterView,
    index: int,
    range: RectangleRange,
    chosen: Seq<Pos2>,
) -> RasterView {
    if index == 0 {
        image
    } else {
        match crop_type {
            CropType::Rectangle => if resize_output {
                cut(image, range)
            } else {
                masked(image, range)
            },
            CropType::Exact => if resize_output {
                cut(picked(image, chosen), range)
            } else {
                picked(image, chosen)
            },
        }
    }
}

/// What a crop makes of image `i` of a batch, given the smallest rectangle
/// around all differences.
pub open spec fn output(
    images: Seq<RasterView>,
    config: Config,
    range: RectangleRange,
    i: int,
) -> RasterView {
    applied(
        config.crop_type,
        config.resize_output,
        images[i],
        i,
        range,
        different_pixels(images, config.leniency, i),
    )
}

/// The name that the source at `index` offers, where there is a source at
/// `index`.
pub open spec fn source_at(sources: Seq<SourceName>, index: int) -> SourceName {
    if 0 <= index < sources.len() {
        sources[index]
    } else {
        SourceName { stem: None, file_name: None }
    }
}

/// The name of the output file for image `i`, or nothing where it is to be
/// named after its source and has no source that offers a name.
pub open spec fn output_name(config: Config, sources: Seq<SourceName>, i: int) -> Option<
    Seq<char>,
> {
    match stem(config, i as nat, source_at(sources, i)) {
        Some(name) => Some(name + png_extension()),
        None => None,
    }
}

/// Compares the images of the batch with the background: finds the smallest
/// rectangle around all differences and, for an exact crop, the coordinates
/// at which each image differs.
pub fn scan(images: &Vec<Raster>, config: &Config) -> (found: ScanResult)
    requires
        images@.len() >= 1,
        same_sized(views(images@)),
    ensures
        found@.is_scan_of(views(images@), config.leniency, config.crop_type),
{
    let range = find_range(images, config.leniency);
    let lists = match config.crop_type {
        CropType::Rectangle => Vec::new(),
        CropType::Exact => find_different_pixels(images, config.leniency, &range),
    };
    let found = ScanResult { range, different_pixels: lists };
    proof {
        let batch = views(images@);
        lemma_view_fits(images@[0]);
        if config.crop_type == CropType::Exact {
            assert forall|i: int| 1 <= i < batch.len() implies #[trigger] found@.different_pixels[i
                - 1] == different_pixels(batch, config.leniency, i) by {
                lemma_range_loses_nothing(batch, config.leniency, range, i);
            }
        }
    }
    found
}

fn mask(image: &Raster, range: &RectangleRange) -> (out: Raster)
    ensures
        out@ == masked(image@, *range),
        out@.wf(),
{
    let width = image.width();
    let height = image.height();
    let ghost goal = masked(image@, *range);
    let mut out = Raster::new(width, height);
    proof {
        lemma_tabulate(width as nat, height as nat, |x: int, y: int| Rgba::transparent());
    }
    let mut y: u32 = 0;
    while y < height
        invariant
            y <= height,
            width == image@.width,
            height == image@.height,
            out@.wf(),
            out@.same_size(image@),
            forall|a: int, b: int|
                out@.in_bounds(a, b) ==> #[trigger] out@.at(a, b) == if b < y && range.covers(
                    a,
                    b,
                ) {
                    image@.at(a, b)
                } else {
                    Rgba::transparent()
                },
        decreases height - y,
    {
        let mut x: u32 = 0;
        while x < width
            invariant
                x <= width,
                y < height,
                width == image@.width,
                height == image@.height,
                out@.wf(),
                out@.same_size(image@),
                forall|a: int, b: int|
                    out@.in_bounds(a, b) ==> #[trigger] out@.at(a, b) == if (b < y || (b == y && a
                        < x)) && range.covers(a, b) {
                        image@.at(a, b)
                    } else {
                        Rgba::transparent()
                    },
            decreases width - x,
        {
            if range.contains(x, y) {
                let p = image.get_pixel(x, y);
                out.put_pixel(x, y, p);
            }
            x = x + 1;
        }
        y = y + 1;
    }
    proof {
        lemma_tabulate(
            image@.width,
            image@.height,
            |x: int, y: int|
                if range.covers(x, y) {
                    image@.at(x, y)
                } else {
                    Rgba::transparent()
                },
        );
        lemma_same_pixels(out@, goal);
    }
    out
}

fn pick(image: &Raster, chosen: &Vec<Pos2>) -> (out: Raster)
    ensures
        out@ == picked(image@, chosen@),
        out@.wf(),
{
    let width = image.width();
    let height = image.height();
    let ghost goal = picked(image@, chosen@);
    let mut out = Raster::new(width, height);
    proof {
        lemma_tabulate(width as nat, height as nat, |x: int, y: int| Rgba::transparent());
    }
    let mut k: usize = 0;
    while k < chosen.len()
        invariant
            k <= chosen@.len(),
            width == image@.width,
            height == image@.height,
            out@.wf(),
            out@.same_size(image@),
            forall|a: int, b: int|
                out@.in_bounds(a, b) ==> #[trigger] out@.at(a, b) == if chosen@.take(
                    k as int,
                ).contains(Pos2 { x: a as u32, y: b as u32 }) {
                    image@.at(a, b)
                } else {
                    Rgba::transparent()
                },
        decreases chosen@.len() - k,
    {
        let p = chosen[k];
        let ghost earlier = chosen@.take(k as int);
        let ghost now = chosen@.take(k + 1);
        proof {
            // one more coordinate is listed now: `p`
            assert(now == earlier.push(p));
            assert forall|q: Pos2| now.contains(q) == (earlier.contains(q) || q == p) by {
                if earlier.contains(q) {
                    let m = choose|m: int| 0 <= m < earlier.len() && earlier[m] == q;
                    assert(now[m] == q);
                }
                if q == p {
                    assert(now[k as int] == q);
                }
            }
        }
        if p.x < width && p.y < height {
            let pixel = image.get_pixel(p.x, p.y);
            out.put_pixel(p.x, p.y, pixel);
        }
        k = k + 1;
    }
    proof {
        assert(chosen@.take(chosen@.len() as int) =~= chosen@);
        lemma_tabulate(
            image@.width,
            image@.height,
            |x: int, y: int|
                if chosen@.contains(Pos2 { x: x as u32, y: y as u32 }) {
                    image@.at(x, y)
                } else {
                    Rgba::transparent()
                },
        );
        lemma_same_pixels(out@, goal);
    }
    out
}

fn cut_out(image: &Raster, range: &RectangleRange) -> (out: Raster)
    ensures
        out@ == cut(image@, *range),
        out@.wf(),
{
    image.crop(range.min.x, range.min.y, range.width(), range.height())
}

/// Makes the output for the image at `index` of a batch from what the
/// comparison found. The background, at index 0, comes back as a copy. Of
/// any other image a rectangle crop keeps what lies in the range, an exact
/// crop the pixels at the coordinates listed for the image; the rest
/// becomes transparent, or, where the output is resized, the image is cut
/// down to the range.
pub fn apply(config: &Config, image: &Raster, index: usize, found: &ScanResult) -> (out: Raster)
    ensures
        out@ == applied(
            config.crop_type,
            config.resize_output,
            image@,
            index as int,
            found.range,
            found@.listed(index as int),
        ),
        out@.wf(),
{
    if index == 0 {
        return image.copy();
    }
    match config.crop_type {
        CropType::Rectangle => {
            if config.resize_output {
                cut_out(image, &found.range)
            } else {
                mask(image, &found.range)
            }
        },
        CropType::Exact => {
            let canvas = if index - 1 < found.different_pixels.len() {
                pick(image, &found.different_pixels[index - 1])
            } else {
                let none: Vec<Pos2> = Vec::new();
                pick(image, &none)
            };
            if config.resize_output {
                cut_out(&canvas, &found.range)
            } else {
                canvas
            }
        },
    }
}

/// One output of a crop: an image and the name of the file it belongs in.
#[derive(Debug)]
pub struct OutputFile {
    pub name: String,
    pub image: Raster,
}

/// What a crop comes to: the smallest rectangle around all differences, the
/// output files that could be made, in the order of the batch, and what
/// stopped the crop if it did not get through the whole batch.
#[derive(Debug)]
pub struct Cropped {
    pub range: RectangleRange,
    pub files: Vec<OutputFile>,
    pub failure: Option<CropError>,
}

fn name_for(config: &Config, sources: &Vec<SourceName>, index: usize) -> (r: Result<
    String,
    CropError,
>)
    ensures
        match output_name(*config, sources@, index as int) {
            Some(name) => r matches Ok(s) && s@ == name,
            None => r matches Err(e) && e == CropError::Naming,
        },
{
    if index < sources.len() {
        output_file_name(config, index, &sources[index])
    } else {
        let nameless = SourceName { stem: None, file_name: None };
        output_file_name(config, index, &nameless)
    }
}

/// Crops a batch of images: compares every image with the first, the
/// background, and makes for each image, in order, its output and the name
/// of the file it belongs in.
///
/// The images must all have the size of the background. `sources[i]` says
/// what the path that image `i` was read from offers as a name; an image
/// without a source has no name to offer.
///
/// A batch of fewer than two images is refused with `CropError::Input`.
/// Otherwise the crop goes through the batch in order and stops at the
/// first image whose file cannot be named, with `CropError::Naming`; the
/// outputs made up to there are handed back with the failure.
pub fn crop(images: &Vec<Raster>, sources: &Vec<SourceName>, config: &Config) -> (out: Cropped)
    requires
        same_sized(views(images@)),
    ensures
        images@.len() < 2 ==> out.files@.len() == 0 && out.failure == Some(CropError::Input)
            && out.range == RectangleRange::empty(),
        images@.len() >= 2 ==> {
            &&& out.range.bounds(differing(views(images@), config.leniency))
            &&& out.files@.len() <= images@.len()
            &&& forall|i: int|
                0 <= i < out.files@.len() ==> {
                    &&& output_name(*config, sources@, i) == Some((#[trigger] out.files@[i]).name@)
                    &&& out.files@[i].image@ == output(views(images@), *config, out.range, i)
                    &&& out.files@[i].image@.wf()
                }
            &&& out.files@.len() == images@.len() ==> out.failure.is_none()
            &&& out.files@.len() < images@.len() ==> out.failure == Some(CropError::Naming)
                && output_name(*config, sources@, out.files@.len() as int).is_none()
        },
{
    if images.len() < 2 {
        return Cropped {
            range: RectangleRange::new(),
            files: Vec::new(),
            failure: Some(CropError::Input),
        };
    }
    let found = scan(images, config);
    let ghost batch = views(images@);
    let mut files: Vec<OutputFile> = Vec::new();
    let mut i: usize = 0;
    while i < images.len()
        invariant
            i <= images@.len(),
            images@.len() >= 2,
            batch == views(images@),
            found@.is_scan_of(batch, config.leniency, config.crop_type),
            files@.len() == i,
            forall|k: int|
                0 <= k < i ==> {
                    &&& output_name(*config, sources@, k) == Some((#[trigger] files@[k]).name@)
                    &&& files@[k].image@ == output(batch, *config, found.range, k)
                    &&& files@[k].image@.wf()
                },
        decreases images@.len() - i,
    {
        let image = apply(config, &images[i], i, &found);
        proof {
            if i >= 1 && config.crop_type == CropType::Exact {
                assert(found@.different_pixels[i - 1] == different_pixels(
                    batch,
                    config.leniency,
                    i as int,
                ));
            }
        }
        match name_for(config, sources, i) {
            Ok(name) => {
                files.push(OutputFile { name, image });
            },
            Err(e) => {
                return Cropped { range: found.range, files, failure: Some(e) };
            },
        }
        i = i + 1;
    }
    Cropped { range: found.range, files, failure: None }
}

/// The background comes out of a crop as it went in, whatever the kind of
/// crop and whether or not the output is resized.
pub proof fn lemma_background_unchanged(
    images: Seq<RasterView>,
    config: Config,
    range: RectangleRange,
)
    ensures
        output(images, config, range, 0) == images[0],
{
}

/// Comparing the same batch twice finds the same thing both times: what a
/// comparison finds is settled by the images, the leniency and the kind of
/// crop.
pub proof fn lemma_scan_is_determined(
    images: Seq<RasterView>,
    leniency: Leniency,
    crop_type: CropType,
    first: ScanView,
    second: ScanView,
)
    requires
        first.is_scan_of(images, leniency, crop_type),
        second.is_scan_of(images, leniency, crop_type),
    ensures
        first == second,
{
    lemma_bounds_unique(first.range, second.range, differing(images, leniency));
    assert(first.different_pixels =~= second.different_pixels) by {
        if crop_type == CropType::Exact {
            assert forall|k: int|
                0 <= k < first.different_pixels.len() implies first.different_pixels[k]
                == second.different_pixels[k] by {
                // both list, at `k`, what image `k + 1` differs in
                let i = k + 1;
                assert(first.different_pixels[i - 1] == different_pixels(images, leniency, i));
                assert(second.different_pixels[i - 1] == different_pixels(images, leniency, i));
            }
        }
    }
}

/// Where no image differs from the background, the smallest rectangle
/// around all differences is the empty range, and, unless the output is
/// resized, every output but the background's is a fully transparent image
/// of the background's size, whatever the kind of crop.
pub proof fn lemma_nothing_differs(
    images: Seq<RasterView>,
    config: Config,
    range: RectangleRange,
    i: int,
)
    requires
        1 <= i < images.len(),
        all_wf(images),
        same_sized(images),
        images[0].width <= u32::MAX,
        images[0].height <= u32::MAX,
        forall|k: int, x: int, y: int|
            1 <= k < images.len() && images[0].in_bounds(x, y) ==> !#[trigger] pixel_differs(
                images,
                config.leniency,
                k,
                x,
                y,
            ),
        range.bounds(differing(images, config.leniency)),
        !config.resize_output,
    ensures
        range == RectangleRange::empty(),
        output(images, config, range, i) == RasterView::blank(images[0].width, images[0].height),
{
    lemma_no_difference(images, config.leniency, range);
    let w = images[0].width;
    let h = images[0].height;
    let out = output(images, config, range, i);
    let blank = RasterView::blank(w, h);
    lemma_tabulate(w, h, |x: int, y: int| Rgba::transparent());
    match config.crop_type {
        CropType::Rectangle => {
            lemma_tabulate(
                w,
                h,
                |x: int, y: int|
                    if range.covers(x, y) {
                        images[i].at(x, y)
                    } else {
                        Rgba::transparent()
                    },
            );
        },
        CropType::Exact => {
            let chosen = different_pixels(images, config.leniency, i);
            lemma_tabulate(
                w,
                h,
                |x: int, y: int|
                    if chosen.contains(Pos2 { x: x as u32, y: y as u32 }) {
                        images[i].at(x, y)
                    } else {
                        Rgba::transparent()
                    },
            );
            assert forall|x: int, y: int| out.in_bounds(x, y) implies #[trigger] out.at(x, y)
                == blank.at(x, y) by {
                let here = Pos2 { x: x as u32, y: y as u32 };
                lemma_different_pixels(images, config.leniency, i, here);
            }
        },
    }
    lemma_same_pixels(out, blank);
}

/// Where no image differs from the background and the output is resized,
/// every output but the background's has no pixels at all.
pub proof fn lemma_nothing_differs_resized(
    images: Seq<RasterView>,
    config: Config,
    range: RectangleRange,
    i: int,
)
    requires
        1 <= i < images.len(),
        range == RectangleRange::empty(),
        config.resize_output,
    ensures
        output(images, config, range, i).width == 0,
        output(images, config, range, i).height == 0,
        output(images, config, range, i).pixels.len() == 0,
{
    assert(0nat * 0nat == 0) by (nonlinear_arith);
}

/// An exact crop that is not resized keeps, of every image but the
/// background, each pixel at which the image differs from the background,
/// unchanged and in its place, and makes every other pixel transparent.
pub proof fn lemma_exact_keeps_differences(
    images: Seq<RasterView>,
    config: Config,
    range: RectangleRange,
    i: int,
    x: int,
    y: int,
)
    requires
        1 <= i < images.len(),
        same_sized(images),
        images[0].width <= u32::MAX,
        images[0].height <= u32::MAX,
        config.crop_type == CropType::Exact,
        !config.resize_output,
        images[i].in_bounds(x, y),
    ensures
        output(images, config, range, i).same_size(images[i]),
        output(images, config, range, i).at(x, y) == if pixel_differs(
            images,
            config.leniency,
            i,
            x,
            y,
        ) {
            images[i].at(x, y)
        } else {
            Rgba::transparent()
        },
{
    let chosen = different_pixels(images, config.leniency, i);
    lemma_tabulate(
        images[i].width,
        images[i].height,
        |x: int, y: int|
            if chosen.contains(Pos2 { x: x as u32, y: y as u32 }) {
                images[i].at(x, y)
            } else {
                Rgba::transparent()
            },
    );
    lemma_different_pixels(images, config.leniency, i, Pos2 { x: x as u32, y: y as u32 });
}

/// A rectangle crop that is not resized keeps, of every image but the
/// background, each pixel inside the range, unchanged and in its place, and
/// makes every other pixel transparent.
pub proof fn lemma_rectangle_keeps_range(
    images: Seq<RasterView>,
    config: Config,
    range: RectangleRange,
    i: int,
    x: int,
    y: int,
)
    requires
        1 <= i < images.len(),
        config.crop_type == CropType::Rectangle,
        !config.resize_output,
        images[i].in_bounds(x, y),
    ensures
        output(images, config, range, i).same_size(images[i]),
        output(images, config, range, i).at(x, y) == if range.covers(x, y) {
            images[i].at(x, y)
        } else {
            Rgba::transparent()
        },
{
    lemma_tabulate(
        images[i].width,
        images[i].height,
        |x: int, y: int|
            if range.covers(x, y) {
                images[i].at(x, y)
            } else {
                Rgba::transparent()
            },
    );
}

/// Resizing cuts the output down to the range: the resized output of an
/// image is as wide and as high as the smallest rectangle around all
/// differences, and shows, from the rectangle's `min` corner on, what the
/// output would show there if it were not resized. The rectangle's last
/// column and last row fall outside it.
pub proof fn lemma_resized_output(
    images: Seq<RasterView>,
    config: Config,
    range: RectangleRange,
    i: int,
    a: int,
    b: int,
)
    requires
        1 <= i < images.len(),
        same_sized(images),
        images[0].width <= u32::MAX,
        images[0].height <= u32::MAX,
        range.bounds(differing(images, config.leniency)),
        config.resize_output,
        0 <= a < range.spec_width(),
        0 <= b < range.spec_height(),
    ensures
        output(images, config, range, i).width == range.spec_width(),
        output(images, config, range, i).height == range.spec_height(),
        output(images, config, range, i).at(a, b) == output(
            images,
            Config { resize_output: false, ..config },
            range,
            i,
        ).at(range.min.x + a, range.min.y + b),
{
    let all = differing(images, config.leniency);
    let image = images[i];
    assert(image.same_size(images[0]));
    // the range has width and height, so it is not empty, and its right and
    // bottom edge pass through coordinates of the image
    lemma_bounds_wf(range, all);
    let right = choose|p: (int, int)| #[trigger] all.contains(p) && p.0 == range.max.x;
    let bottom = choose|p: (int, int)| #[trigger] all.contains(p) && p.1 == range.max.y;
    assert(differs_at(images, config.leniency, right.0, right.1));
    assert(differs_at(images, config.leniency, bottom.0, bottom.1));
    assert(range.max.x < image.width && range.max.y < image.height);
    let x0 = range.min.x as nat;
    let y0 = range.min.y as nat;
    let w = range.spec_width() as nat;
    let h = range.spec_height() as nat;
    let chosen = different_pixels(images, config.leniency, i);
    let kept = match config.crop_type {
        CropType::Rectangle => image,
        CropType::Exact => picked(image, chosen),
    };
    lemma_tabulate(
        image.width,
        image.height,
        |x: int, y: int|
            if chosen.contains(Pos2 { x: x as u32, y: y as u32 }) {
                image.at(x, y)
            } else {
                Rgba::transparent()
            },
    );
    lemma_tabulate(
        image.width,
        image.height,
        |x: int, y: int|
            if range.covers(x, y) {
                image.at(x, y)
            } else {
                Rgba::transparent()
            },
    );
    lemma_window(kept, x0, y0, w, h);
    assert(kept.window(x0, y0, w, h).in_bounds(a, b));
}

} // verus!

//! The per-pixel loop: every pixel of the raster is traced once and written
//! once.

use crate::raster::{fits, Raster};
use crate::tracer::{is_nearest, misses, trace, Hit};
use vstd::prelude::*;

verus! {

/// The two functions can be asked whatever `render` asks of them:
/// `intersect` about every pixel of the image, and `shade` about the nearest
/// hit of whatever `intersect` may return there.
pub open spec fn answers<P, I, S>(width: u32, height: u32, intersect: I, shade: S) -> bool where
    I: Fn(u32, u32) -> Vec<Option<Hit<P>>>,
    S: Fn(usize, &P) -> [u8; 3],
{
    &&& forall|x: u32, y: u32| x < width && y < height ==> call_requires(intersect, (x, y))
    &&& forall|x: u32, y: u32, hits: Vec<Option<Hit<P>>>, i: usize|
        x < width && y < height && #[trigger] call_ensures(intersect, (x, y), hits)
            && #[trigger] is_nearest(hits@, i as int) ==> call_requires(
            shade,
            (i, &hits@[i as int]->0.point),
        )
}

/// What `render` may show at pixel `(x, y)`: for some outcome `hits` of
/// `intersect` at that pixel, the background where the ray misses every
/// object, and otherwise some outcome of `shade` for the nearest hit.
pub open spec fn shows<P, I, S>(
    intersect: I,
    shade: S,
    background: [u8; 3],
    x: u32,
    y: u32,
    rgb: Seq<u8>,
) -> bool where I: Fn(u32, u32) -> Vec<Option<Hit<P>>>, S: Fn(usize, &P) -> [u8; 3] {
    exists|hits: Vec<Option<Hit<P>>>| #[trigger]
        call_ensures(intersect, (x, y), hits) && (if misses(hits@) {
            rgb == background@
        } else {
            exists|i: usize, shaded: [u8; 3]|
                is_nearest(hits@, i as int) && #[trigger] call_ensures(
                    shade,
                    (i, &hits@[i as int]->0.point),
                    shaded,
                ) && rgb == shaded@
        })
}

/// Each of the two functions has one outcome for each input.
pub open spec fn single_valued<P, I, S>(intersect: I, shade: S) -> bool where
    I: Fn(u32, u32) -> Vec<Option<Hit<P>>>,
    S: Fn(usize, &P) -> [u8; 3],
{
    &&& forall|x: u32, y: u32, a: Vec<Option<Hit<P>>>, b: Vec<Option<Hit<P>>>|
        #[trigger] call_ensures(intersect, (x, y), a) && #[trigger] call_ensures(
            intersect,
            (x, y),
            b,
        ) ==> a@ == b@
    &&& forall|i: usize, point: &P, a: [u8; 3], b: [u8; 3]|
        #[trigger] call_ensures(shade, (i, point), a) && #[trigger] call_ensures(
            shade,
            (i, point),
            b,
        ) ==> a@ == b@
}

/// Where `intersect` and `shade` are functions in the mathematical sense, a
/// pixel can show one colour only: the image is a function of the scene.
pub proof fn lemma_one_colour<P, I, S>(
    intersect: I,
    shade: S,
    background: [u8; 3],
    x: u32,
    y: u32,
    first: Seq<u8>,
    second: Seq<u8>,
) where I: Fn(u32, u32) -> Vec<Option<Hit<P>>>, S: Fn(usize, &P) -> [u8; 3]
    requires
        single_valued(intersect, shade),
        shows(intersect, shade, background, x, y, first),
        shows(intersect, shade, background, x, y, second),
    ensures
        first == second,
{
}

/// Renders a `width` by `height` image. For each pixel, row by row,
/// `intersect(x, y)` gives where the pixel's primary ray meets each object of
/// the scene, in scene order. Where the ray meets nothing the pixel takes
/// the background colour; otherwise `shade` is asked for the colour of the
/// nearest hit, given the object's index and the point of intersection.
///
/// Every pixel of the result shows what `shows` allows and nothing else. In
/// particular a scene without objects, for which `intersect` returns empty
/// lists only, renders as the background colour in every pixel.
pub fn render<P, I, S>(
    width: u32,
    height: u32,
    background: [u8; 3],
    intersect: I,
    shade: S,
) -> (raster: Raster) where I: Fn(u32, u32) -> Vec<Option<Hit<P>>>, S: Fn(usize, &P) -> [u8; 3]
    requires
        fits(width, height),
        answers(width, height, intersect, shade),
    ensures
        raster@.wf(),
        raster@.width == width,
        raster@.height == height,
        forall|x: u32, y: u32|
            x < width && y < height ==> shows(
                intersect,
                shade,
                background,
                x,
                y,
                #[trigger] raster@.pixel(x as int, y as int),
            ),
        (forall|x: u32, y: u32, hits: Vec<Option<Hit<P>>>| #[trigger]
            call_ensures(intersect, (x, y), hits) ==> hits@.len() == 0) ==> forall|
            x: u32,
            y: u32,
        |
            x < width && y < height ==> #[trigger] raster@.pixel(x as int, y as int)
                == background@,
{
    let mut raster = Raster::new(width, height);
    let mut y: u32 = 0;
    while y < height
        invariant
            y <= height,
            raster@.wf(),
            raster@.width == width,
            raster@.height == height,
            answers(width, height, intersect, shade),
            forall|u: u32, v: u32|
                u < width && v < y ==> shows(
                    intersect,
                    shade,
                    background,
                    u,
                    v,
                    #[trigger] raster@.pixel(u as int, v as int),
                ),
        decreases height - y,
    {
        let mut x: u32 = 0;
        while x < width
            invariant
                x <= width,
                y < height,
                raster@.wf(),
                raster@.width == width,
                raster@.height == height,
                answers(width, height, intersect, shade),
                forall|u: u32, v: u32|
                    u < width && (v < y || (v == y && u < x)) ==> shows(
                        intersect,
                        shade,
                        background,
                        u,
                        v,
                        #[trigger] raster@.pixel(u as int, v as int),
                    ),
            decreases width - x,
        {
            let hits = intersect(x, y);
            let rgb = match trace(hits.as_slice()) {
                Some(i) => shade(i, &hits[i].as_ref().unwrap().point),
                None => background,
            };
            let ghost before = raster@;
            raster.set_pixel(x, y, rgb);
            proof {
                assert(shows(intersect, shade, background, x, y, rgb@));
                assert forall|u: u32, v: u32|
                    u < width && (v < y || (v == y && u < x + 1)) implies shows(
                    intersect,
                    shade,
                    background,
                    u,
                    v,
                    #[trigger] raster@.pixel(u as int, v as int),
                ) by {
                    if (u, v) != (x, y) {
                        assert(raster@.pixel(u as int, v as int) == before.pixel(
                            u as int,
                            v as int,
                        ));
                    }
                }
            }
            x += 1;
        }
        y += 1;
    }
    raster
}

} // verus!

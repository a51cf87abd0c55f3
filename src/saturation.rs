use crate::colorspace::{convert, follows, inverse_exact, lemma_round_trip, route, total, ColorSpace, Edge};
use crate::raster::{map_pixels, plane, Raster, ShapeError};
use vstd::prelude::*;

verus! {

/// `r` is what the saturation transform makes of the RGB triple `v`: the
/// triple is taken to LCH, its chroma is scaled by `satmult` with `scale`, and
/// the result is taken back to RGB, all with the edge formulas `step`.
pub open spec fn saturates<T, F: Fn(Edge, (T, T, T)) -> (T, T, T), M: Fn(T, T) -> T>(
    step: &F,
    scale: &M,
    satmult: T,
    v: (T, T, T),
    r: (T, T, T),
) -> bool {
    exists|m: (T, T, T), c: T|
        #![trigger follows(step, route(ColorSpace::rgb, ColorSpace::lch), v, m), (*scale).ensures((m.1, satmult), c)]
        {
            &&& follows(step, route(ColorSpace::rgb, ColorSpace::lch), v, m)
            &&& (*scale).ensures((m.1, satmult), c)
            &&& follows(step, route(ColorSpace::lch, ColorSpace::rgb), (m.0, c, m.2), r)
        }
}

/// Scales the chroma of one RGB triple by `satmult`: RGB to LCH, chroma times
/// `satmult`, LCH back to RGB.
pub fn saturate_single_rgb<T: Copy, F: Fn(Edge, (T, T, T)) -> (T, T, T), M: Fn(T, T) -> T>(
    input: (T, T, T),
    satmult: T,
    step: &F,
    scale: &M,
) -> (r: (T, T, T))
    requires
        total(step),
        forall|a: T, b: T| #[trigger] scale.requires((a, b)),
    ensures
        saturates(step, scale, satmult, input, r),
{
    let lch = convert(input, ColorSpace::rgb, ColorSpace::lch, step);
    let c = scale(lch.1, satmult);
    let r = convert((lch.0, c, lch.2), ColorSpace::lch, ColorSpace::rgb, step);
    assert(follows(step, route(ColorSpace::rgb, ColorSpace::lch), input, lch));
    assert(scale.ensures((lch.1, satmult), c));
    r
}

/// Applies the saturation transform with multiplier `satmult` to every pixel
/// of a `3 x H x W` raster whose bands are R, G and B. Fails with
/// `InvalidShape`, before any work, when the band axis is not of length
/// three; otherwise returns a fresh raster of the same shape.
pub fn saturate_rgb<T: Copy, F: Fn(Edge, (T, T, T)) -> (T, T, T), M: Fn(T, T) -> T>(
    arr: &Raster<T>,
    satmult: T,
    step: &F,
    scale: &M,
) -> (r: Result<Raster<T>, ShapeError>)
    requires
        arr.wf(),
        total(step),
        forall|a: T, b: T| #[trigger] scale.requires((a, b)),
    ensures
        r is Err <==> arr.spec_bands() != 3,
        r matches Ok(out) ==> {
            &&& out.wf()
            &&& out.spec_bands() == 3
            &&& out.spec_height() == arr.spec_height()
            &&& out.spec_width() == arr.spec_width()
            &&& forall|p: int|
                0 <= p < plane(arr.spec_height(), arr.spec_width()) ==> saturates(
                    step,
                    scale,
                    satmult,
                    #[trigger] arr.pixel(p),
                    out.pixel(p),
                )
        },
{
    let one = |v: (T, T, T)| -> (o: (T, T, T))
        requires
            total(step),
            forall|a: T, b: T| #[trigger] scale.requires((a, b)),
        ensures
            saturates(step, scale, satmult, v, o),
        { saturate_single_rgb(v, satmult, step, scale) };
    map_pixels(arr, &one)
}

/// A multiplier that `scale` leaves every chroma unchanged with leaves every
/// triple unchanged, when each edge formula is undone exactly by the inverse
/// edge's formula.
pub proof fn lemma_saturation_identity<T, F: Fn(Edge, (T, T, T)) -> (T, T, T), M: Fn(T, T) -> T>(
    step: &F,
    scale: &M,
    one: T,
    v: (T, T, T),
    r: (T, T, T),
)
    requires
        inverse_exact(step),
        forall|c: T, d: T| #[trigger] (*scale).ensures((c, one), d) ==> d == c,
        saturates(step, scale, one, v, r),
    ensures
        r == v,
{
    let (m, c) = choose|m: (T, T, T), c: T|
        {
            &&& follows(step, route(ColorSpace::rgb, ColorSpace::lch), v, m)
            &&& #[trigger] (*scale).ensures((m.1, one), c)
            &&& follows(step, route(ColorSpace::lch, ColorSpace::rgb), (m.0, c, m.2), r)
        };
    assert((m.0, c, m.2) == m);
    lemma_round_trip(step, ColorSpace::lch, v, m, r);
}

} // verus!

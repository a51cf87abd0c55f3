use crate::colorspace::{convert, follows, route, total, ColorSpace, Edge};
use crate::raster::{map_pixels, plane, Raster, ShapeError};
use vstd::prelude::*;

verus! {

/// Converts every pixel of a `3 x H x W` raster from `src` to `dst` with the
/// edge formulas `step`. Fails with `InvalidShape`, before any work, when the
/// band axis is not of length three; otherwise returns a fresh raster of the
/// same shape whose every pixel is the conversion of the input pixel at the
/// same place.
pub fn convert_arr<T: Copy, F: Fn(Edge, (T, T, T)) -> (T, T, T)>(
    arr: &Raster<T>,
    src: ColorSpace,
    dst: ColorSpace,
    step: &F,
) -> (r: Result<Raster<T>, ShapeError>)
    requires
        arr.wf(),
        total(step),
    ensures
        r is Err <==> arr.spec_bands() != 3,
        r matches Ok(out) ==> {
            &&& out.wf()
            &&& out.spec_bands() == 3
            &&& out.spec_height() == arr.spec_height()
            &&& out.spec_width() == arr.spec_width()
            &&& forall|p: int|
                0 <= p < plane(arr.spec_height(), arr.spec_width()) ==> follows(
                    step,
                    route(src, dst),
                    #[trigger] arr.pixel(p),
                    out.pixel(p),
                )
            &&& src == dst ==> forall|p: int|
                0 <= p < plane(arr.spec_height(), arr.spec_width()) ==> #[trigger] out.pixel(p)
                    == arr.pixel(p)
        },
{
    let one = |v: (T, T, T)| -> (o: (T, T, T))
        requires
            total(step),
        ensures
            follows(step, route(src, dst), v, o),
            src == dst ==> o == v,
        { convert(v, src, dst, step) };
    map_pixels(arr, &one)
}

} // verus!

use vstd::prelude::*;

verus! {

/// The one way a bulk operation can fail: the band axis of its input does not
/// hold exactly three bands.
#[derive(Clone, Copy, Debug, PartialEq, Eq, Structural)]
pub enum ShapeError {
    InvalidShape,
}

/// A `bands x height x width` array of values, stored band by band, and
/// within a band row by row.
pub struct Raster<T> {
    bands: usize,
    height: usize,
    width: usize,
    data: Vec<T>,
}

/// The number of pixels in one band of a `height x width` raster.
pub open spec fn plane(height: usize, width: usize) -> int {
    height as int * width as int
}

impl<T> Raster<T> {
    pub closed spec fn spec_bands(&self) -> usize {
        self.bands
    }

    pub closed spec fn spec_height(&self) -> usize {
        self.height
    }

    pub closed spec fn spec_width(&self) -> usize {
        self.width
    }

    /// All values, band after band.
    pub closed spec fn values(&self) -> Seq<T> {
        self.data@
    }

    /// The storage holds exactly one value per band and pixel.
    pub open spec fn wf(&self) -> bool {
        self.values().len() == self.spec_bands() as int * plane(self.spec_height(), self.spec_width())
    }

    /// The value of band `k` at pixel `p`, pixels numbered row by row.
    pub open spec fn at(&self, k: int, p: int) -> T {
        self.values()[k * plane(self.spec_height(), self.spec_width()) + p]
    }

    /// The three values of pixel `p` of a three-band raster.
    pub open spec fn pixel(&self, p: int) -> (T, T, T) {
        (self.at(0, p), self.at(1, p), self.at(2, p))
    }

    /// Wraps `data`, laid out band by band and row by row, as a raster of the
    /// given shape; `None` when its length does not match the shape.
    pub fn new(bands: usize, height: usize, width: usize, data: Vec<T>) -> (r: Option<Self>)
        ensures
            (data@.len() == bands as int * height as int * width as int) == r.is_some(),
            r matches Some(a) ==> {
                &&& a.wf()
                &&& a.spec_bands() == bands
                &&& a.spec_height() == height
                &&& a.spec_width() == width
                &&& a.values() == data@
            },
    {
        proof {
            assert(bands as int * (height as int * width as int) == bands as int * height as int * width as int)
                by (nonlinear_arith);
        }
        let len = data.len();
        let n = bands.checked_mul(height);
        match n {
            None => {
                proof {
                    assert(bands as int * height as int > usize::MAX);
                    if width == 0 {
                        assert(bands as int * height as int * width as int == 0) by (nonlinear_arith)
                            requires width == 0;
                        assert(height as int * width as int == 0) by (nonlinear_arith)
                            requires width == 0;
                    } else {
                        assert(bands as int * height as int * width as int >= bands as int * height as int) by (nonlinear_arith)
                            requires width >= 1, bands as int * height as int >= 0;
                    }
                }
                if width == 0 && len == 0 {
                    Some(Raster { bands, height, width, data })
                } else {
                    None
                }
            },
            Some(bh) => match bh.checked_mul(width) {
                Some(count) if count == len => Some(Raster { bands, height, width, data }),
                _ => None,
            },
        }
    }

    /// The length of the band axis.
    pub fn bands(&self) -> (r: usize)
        ensures
            r == self.spec_bands(),
    {
        self.bands
    }

    /// The number of rows.
    pub fn height(&self) -> (r: usize)
        ensures
            r == self.spec_height(),
    {
        self.height
    }

    /// The number of columns.
    pub fn width(&self) -> (r: usize)
        ensures
            r == self.spec_width(),
    {
        self.width
    }

    /// The values, band after band.
    pub fn as_slice(&self) -> (r: &[T])
        ensures
            r@ == self.values(),
    {
        self.data.as_slice()
    }

    /// Hands the storage back, band after band.
    pub fn into_vec(self) -> (r: Vec<T>)
        ensures
            r@ == self.values(),
    {
        self.data
    }
}

/// Applies `f` to every pixel of a three-band raster on its own and returns
/// a fresh raster of the same shape that holds the results. Fails with
/// `InvalidShape`, and builds nothing, when the band axis is not of length
/// three.
pub fn map_pixels<T: Copy, G: Fn((T, T, T)) -> (T, T, T)>(arr: &Raster<T>, f: &G) -> (r: Result<
    Raster<T>,
    ShapeError,
>)
    requires
        arr.wf(),
        forall|v: (T, T, T)| #[trigger] f.requires((v,)),
    ensures
        r is Err <==> arr.spec_bands() != 3,
        r matches Ok(out) ==> {
            &&& out.wf()
            &&& out.spec_bands() == 3
            &&& out.spec_height() == arr.spec_height()
            &&& out.spec_width() == arr.spec_width()
            &&& forall|p: int|
                0 <= p < plane(arr.spec_height(), arr.spec_width()) ==> f.ensures(
                    (#[trigger] arr.pixel(p),),
                    out.pixel(p),
                )
        },
{
    if arr.bands != 3 {
        return Err(ShapeError::InvalidShape);
    }
    let h = arr.height;
    let w = arr.width;
    let len = arr.data.len();
    proof {
        assert(h as int * w as int >= 0) by (nonlinear_arith);
    }
    let n = len / 3;
    proof {
        let pl = plane(h, w);
        assert(len as int == 3 * pl);
        assert(n as int == pl) by (nonlinear_arith)
            requires len as int == 3 * pl, n as int == len as int / 3;
    }
    let mut b0: Vec<T> = Vec::new();
    let mut b1: Vec<T> = Vec::new();
    let mut b2: Vec<T> = Vec::new();
    let mut p: usize = 0;
    while p < n
        invariant
            arr.wf(),
            arr.spec_bands() == 3,
            forall|v: (T, T, T)| #[trigger] f.requires((v,)),
            len == arr.data@.len(),
            n as int == plane(h, w),
            h == arr.spec_height(),
            w == arr.spec_width(),
            len == 3 * n,
            0 <= p <= n,
            b0@.len() == p,
            b1@.len() == p,
            b2@.len() == p,
            forall|q: int| 0 <= q < p ==> f.ensures((#[trigger] arr.pixel(q),), (b0@[q], b1@[q], b2@[q])),
        decreases n - p,
    {
        let v = (arr.data[p], arr.data[n + p], arr.data[2 * n + p]);
        assert(v == arr.pixel(p as int));
        let o = f(v);
        b0.push(o.0);
        b1.push(o.1);
        b2.push(o.2);
        p = p + 1;
    }
    let ghost s0 = b0@;
    let ghost s1 = b1@;
    let ghost s2 = b2@;
    b0.append(&mut b1);
    b0.append(&mut b2);
    let out = Raster { bands: 3, height: h, width: w, data: b0 };
    assert forall|q: int| 0 <= q < n implies out.pixel(q) == (s0[q], s1[q], s2[q]) by {
        assert(out.data@[q] == s0[q]);
        assert(out.data@[n + q] == s1[q]);
        assert(out.data@[2 * n + q] == s2[q]);
    }
    Ok(out)
}

} // verus!

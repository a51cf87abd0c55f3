use vstd::prelude::*;

verus! {

/// The five color representations that values can be converted between.
#[allow(non_camel_case_types)]
#[derive(Clone, Copy, Debug, PartialEq, Eq, Structural)]
pub enum ColorSpace {
    rgb,
    xyz,
    lab,
    lch,
    luv,
}

/// The integer code of each space: 0 to 4 in the order RGB, XYZ, LAB, LCH,
/// LUV.
pub open spec fn space_code(s: ColorSpace) -> int {
    match s {
        ColorSpace::rgb => 0,
        ColorSpace::xyz => 1,
        ColorSpace::lab => 2,
        ColorSpace::lch => 3,
        ColorSpace::luv => 4,
    }
}

impl ColorSpace {
    /// The space with integer code `val`; `None` for a code outside 0 to 4.
    pub fn from_code(val: i64) -> (r: Option<ColorSpace>)
        ensures
            r is Some <==> 0 <= val <= 4,
            r matches Some(s) ==> space_code(s) == val,
    {
        match val {
            0 => Some(ColorSpace::rgb),
            1 => Some(ColorSpace::xyz),
            2 => Some(ColorSpace::lab),
            3 => Some(ColorSpace::lch),
            4 => Some(ColorSpace::luv),
            _ => None,
        }
    }
}

/// One directed edge of the conversion graph: a single formula that turns a
/// triple of one space into a triple of an adjacent space.
#[derive(Clone, Copy, Debug, PartialEq, Eq, Structural)]
pub enum Edge {
    RgbToXyz,
    XyzToRgb,
    XyzToLab,
    LabToXyz,
    LabToLch,
    LchToLab,
    XyzToLuv,
    LuvToXyz,
}

/// The space an edge reads.
pub open spec fn edge_source(e: Edge) -> ColorSpace {
    match e {
        Edge::RgbToXyz => ColorSpace::rgb,
        Edge::XyzToRgb => ColorSpace::xyz,
        Edge::XyzToLab => ColorSpace::xyz,
        Edge::LabToXyz => ColorSpace::lab,
        Edge::LabToLch => ColorSpace::lab,
        Edge::LchToLab => ColorSpace::lch,
        Edge::XyzToLuv => ColorSpace::xyz,
        Edge::LuvToXyz => ColorSpace::luv,
    }
}

/// The space an edge produces.
pub open spec fn edge_target(e: Edge) -> ColorSpace {
    match e {
        Edge::RgbToXyz => ColorSpace::xyz,
        Edge::XyzToRgb => ColorSpace::rgb,
        Edge::XyzToLab => ColorSpace::lab,
        Edge::LabToXyz => ColorSpace::xyz,
        Edge::LabToLch => ColorSpace::lch,
        Edge::LchToLab => ColorSpace::lab,
        Edge::XyzToLuv => ColorSpace::luv,
        Edge::LuvToXyz => ColorSpace::xyz,
    }
}

/// The edge that runs the other way.
pub open spec fn edge_inverse(e: Edge) -> Edge {
    match e {
        Edge::RgbToXyz => Edge::XyzToRgb,
        Edge::XyzToRgb => Edge::RgbToXyz,
        Edge::XyzToLab => Edge::LabToXyz,
        Edge::LabToXyz => Edge::XyzToLab,
        Edge::LabToLch => Edge::LchToLab,
        Edge::LchToLab => Edge::LabToLch,
        Edge::XyzToLuv => Edge::LuvToXyz,
        Edge::LuvToXyz => Edge::XyzToLuv,
    }
}

/// The fixed composition path for each ordered pair of spaces. The graph is
/// the tree RGB - XYZ - LAB - LCH with LUV hanging off XYZ, so every pair is
/// joined through XYZ unless one side lies on the other's way to it.
pub open spec fn route(src: ColorSpace, dst: ColorSpace) -> Seq<Edge> {
    match (src, dst) {
        (ColorSpace::rgb, ColorSpace::xyz) => seq![Edge::RgbToXyz],
        (ColorSpace::rgb, ColorSpace::lab) => seq![Edge::RgbToXyz, Edge::XyzToLab],
        (ColorSpace::rgb, ColorSpace::lch) => seq![Edge::RgbToXyz, Edge::XyzToLab, Edge::LabToLch],
        (ColorSpace::rgb, ColorSpace::luv) => seq![Edge::RgbToXyz, Edge::XyzToLuv],
        (ColorSpace::xyz, ColorSpace::rgb) => seq![Edge::XyzToRgb],
        (ColorSpace::xyz, ColorSpace::lab) => seq![Edge::XyzToLab],
        (ColorSpace::xyz, ColorSpace::lch) => seq![Edge::XyzToLab, Edge::LabToLch],
        (ColorSpace::xyz, ColorSpace::luv) => seq![Edge::XyzToLuv],
        (ColorSpace::lab, ColorSpace::rgb) => seq![Edge::LabToXyz, Edge::XyzToRgb],
        (ColorSpace::lab, ColorSpace::xyz) => seq![Edge::LabToXyz],
        (ColorSpace::lab, ColorSpace::lch) => seq![Edge::LabToLch],
        (ColorSpace::lab, ColorSpace::luv) => seq![Edge::LabToXyz, Edge::XyzToLuv],
        (ColorSpace::lch, ColorSpace::rgb) => seq![Edge::LchToLab, Edge::LabToXyz, Edge::XyzToRgb],
        (ColorSpace::lch, ColorSpace::xyz) => seq![Edge::LchToLab, Edge::LabToXyz],
        (ColorSpace::lch, ColorSpace::lab) => seq![Edge::LchToLab],
        (ColorSpace::lch, ColorSpace::luv) => seq![Edge::LchToLab, Edge::LabToXyz, Edge::XyzToLuv],
        (ColorSpace::luv, ColorSpace::rgb) => seq![Edge::LuvToXyz, Edge::XyzToRgb],
        (ColorSpace::luv, ColorSpace::xyz) => seq![Edge::LuvToXyz],
        (ColorSpace::luv, ColorSpace::lab) => seq![Edge::LuvToXyz, Edge::XyzToLab],
        (ColorSpace::luv, ColorSpace::lch) => seq![Edge::LuvToXyz, Edge::XyzToLab, Edge::LabToLch],
        _ => seq![],
    }
}

/// `p` is a walk along the graph that starts in `src` and ends in `dst`.
pub open spec fn is_walk(p: Seq<Edge>, src: ColorSpace, dst: ColorSpace) -> bool {
    if p.len() == 0 {
        src == dst
    } else {
        &&& edge_source(p[0]) == src
        &&& edge_target(p[p.len() - 1]) == dst
        &&& forall|i: int| 0 <= i < p.len() - 1 ==> edge_target(#[trigger] p[i]) == edge_source(p[i + 1])
    }
}

/// The spaces a walk passes through, in order, starting with its source.
pub open spec fn visited(p: Seq<Edge>, src: ColorSpace) -> Seq<ColorSpace> {
    seq![src] + p.map_values(|e: Edge| edge_target(e))
}

/// The walk `p` taken backwards, every edge replaced by its inverse.
pub open spec fn reversed(p: Seq<Edge>) -> Seq<Edge> {
    Seq::new(p.len(), |i: int| edge_inverse(p[p.len() - 1 - i]))
}

/// The edges of the path from `src` to `dst`, in the order they are applied.
pub fn conversion_path(src: ColorSpace, dst: ColorSpace) -> (r: Vec<Edge>)
    ensures
        r@ == route(src, dst),
{
    match (src, dst) {
        (ColorSpace::rgb, ColorSpace::xyz) => vec![Edge::RgbToXyz],
        (ColorSpace::rgb, ColorSpace::lab) => vec![Edge::RgbToXyz, Edge::XyzToLab],
        (ColorSpace::rgb, ColorSpace::lch) => vec![Edge::RgbToXyz, Edge::XyzToLab, Edge::LabToLch],
        (ColorSpace::rgb, ColorSpace::luv) => vec![Edge::RgbToXyz, Edge::XyzToLuv],
        (ColorSpace::xyz, ColorSpace::rgb) => vec![Edge::XyzToRgb],
        (ColorSpace::xyz, ColorSpace::lab) => vec![Edge::XyzToLab],
        (ColorSpace::xyz, ColorSpace::lch) => vec![Edge::XyzToLab, Edge::LabToLch],
        (ColorSpace::xyz, ColorSpace::luv) => vec![Edge::XyzToLuv],
        (ColorSpace::lab, ColorSpace::rgb) => vec![Edge::LabToXyz, Edge::XyzToRgb],
        (ColorSpace::lab, ColorSpace::xyz) => vec![Edge::LabToXyz],
        (ColorSpace::lab, ColorSpace::lch) => vec![Edge::LabToLch],
        (ColorSpace::lab, ColorSpace::luv) => vec![Edge::LabToXyz, Edge::XyzToLuv],
        (ColorSpace::lch, ColorSpace::rgb) => vec![Edge::LchToLab, Edge::LabToXyz, Edge::XyzToRgb],
        (ColorSpace::lch, ColorSpace::xyz) => vec![Edge::LchToLab, Edge::LabToXyz],
        (ColorSpace::lch, ColorSpace::lab) => vec![Edge::LchToLab],
        (ColorSpace::lch, ColorSpace::luv) => vec![Edge::LchToLab, Edge::LabToXyz, Edge::XyzToLuv],
        (ColorSpace::luv, ColorSpace::rgb) => vec![Edge::LuvToXyz, Edge::XyzToRgb],
        (ColorSpace::luv, ColorSpace::xyz) => vec![Edge::LuvToXyz],
        (ColorSpace::luv, ColorSpace::lab) => vec![Edge::LuvToXyz, Edge::XyzToLab],
        (ColorSpace::luv, ColorSpace::lch) => vec![Edge::LuvToXyz, Edge::XyzToLab, Edge::LabToLch],
        _ => vec![],
    }
}

/// Converting a space to itself takes no edge at all.
pub proof fn lemma_route_identity(s: ColorSpace)
    ensures
        route(s, s).len() == 0,
{
}

/// Every route is a walk along the graph from its source to its destination
/// that passes through no space twice.
#[verifier::rlimit(60)]
pub proof fn lemma_route_is_simple_walk(src: ColorSpace, dst: ColorSpace)
    ensures
        is_walk(route(src, dst), src, dst),
        visited(route(src, dst), src).no_duplicates(),
{
    let vs = visited(route(src, dst), src);
    match (src, dst) {
        (ColorSpace::rgb, ColorSpace::xyz) => {
            assert(vs =~= seq![ColorSpace::rgb, ColorSpace::xyz]);
        },
        (ColorSpace::rgb, ColorSpace::lab) => {
            assert(vs =~= seq![ColorSpace::rgb, ColorSpace::xyz, ColorSpace::lab]);
        },
        (ColorSpace::rgb, ColorSpace::lch) => {
            assert(vs =~= seq![ColorSpace::rgb, ColorSpace::xyz, ColorSpace::lab, ColorSpace::lch]);
        },
        (ColorSpace::rgb, ColorSpace::luv) => {
            assert(vs =~= seq![ColorSpace::rgb, ColorSpace::xyz, ColorSpace::luv]);
        },
        (ColorSpace::xyz, ColorSpace::rgb) => {
            assert(vs =~= seq![ColorSpace::xyz, ColorSpace::rgb]);
        },
        (ColorSpace::xyz, ColorSpace::lab) => {
            assert(vs =~= seq![ColorSpace::xyz, ColorSpace::lab]);
        },
        (ColorSpace::xyz, ColorSpace::lch) => {
            assert(vs =~= seq![ColorSpace::xyz, ColorSpace::lab, ColorSpace::lch]);
        },
        (ColorSpace::xyz, ColorSpace::luv) => {
            assert(vs =~= seq![ColorSpace::xyz, ColorSpace::luv]);
        },
        (ColorSpace::lab, ColorSpace::rgb) => {
            assert(vs =~= seq![ColorSpace::lab, ColorSpace::xyz, ColorSpace::rgb]);
        },
        (ColorSpace::lab, ColorSpace::xyz) => {
            assert(vs =~= seq![ColorSpace::lab, ColorSpace::xyz]);
        },
        (ColorSpace::lab, ColorSpace::lch) => {
            assert(vs =~= seq![ColorSpace::lab, ColorSpace::lch]);
        },
        (ColorSpace::lab, ColorSpace::luv) => {
            assert(vs =~= seq![ColorSpace::lab, ColorSpace::xyz, ColorSpace::luv]);
        },
        (ColorSpace::lch, ColorSpace::rgb) => {
            assert(vs =~= seq![ColorSpace::lch, ColorSpace::lab, ColorSpace::xyz, ColorSpace::rgb]);
        },
        (ColorSpace::lch, ColorSpace::xyz) => {
            assert(vs =~= seq![ColorSpace::lch, ColorSpace::lab, ColorSpace::xyz]);
        },
        (ColorSpace::lch, ColorSpace::lab) => {
            assert(vs =~= seq![ColorSpace::lch, ColorSpace::lab]);
        },
        (ColorSpace::lch, ColorSpace::luv) => {
            assert(vs =~= seq![ColorSpace::lch, ColorSpace::lab, ColorSpace::xyz, ColorSpace::luv]);
        },
        (ColorSpace::luv, ColorSpace::rgb) => {
            assert(vs =~= seq![ColorSpace::luv, ColorSpace::xyz, ColorSpace::rgb]);
        },
        (ColorSpace::luv, ColorSpace::xyz) => {
            assert(vs =~= seq![ColorSpace::luv, ColorSpace::xyz]);
        },
        (ColorSpace::luv, ColorSpace::lab) => {
            assert(vs =~= seq![ColorSpace::luv, ColorSpace::xyz, ColorSpace::lab]);
        },
        (ColorSpace::luv, ColorSpace::lch) => {
            assert(vs =~= seq![ColorSpace::luv, ColorSpace::xyz, ColorSpace::lab, ColorSpace::lch]);
        },
        _ => {
            assert(vs =~= seq![src]);
        },
    }
}

/// The route back from `dst` to `src` undoes the route from `src` to `dst`
/// edge by edge, in the opposite order.
pub proof fn lemma_route_reverse(src: ColorSpace, dst: ColorSpace)
    ensures
        route(dst, src) == reversed(route(src, dst)),
{
    assert(route(dst, src) =~= reversed(route(src, dst)));
}

/// `t` lists the triple before each edge of `p` and the one after the last:
/// every edge of `p` turns its entry of `t` into the next one.
pub open spec fn is_trace<T, F: Fn(Edge, (T, T, T)) -> (T, T, T)>(
    step: &F,
    p: Seq<Edge>,
    t: Seq<(T, T, T)>,
) -> bool {
    &&& t.len() == p.len() + 1
    &&& forall|i: int| 0 <= i < p.len() ==> (*step).ensures((p[i], #[trigger] t[i]), t[i + 1])
}

/// `r` is what applying the edge formulas `step` along `p`, in order, makes
/// of the triple `v`.
pub open spec fn follows<T, F: Fn(Edge, (T, T, T)) -> (T, T, T)>(
    step: &F,
    p: Seq<Edge>,
    v: (T, T, T),
    r: (T, T, T),
) -> bool {
    exists|t: Seq<(T, T, T)>| #[trigger] is_trace(step, p, t) && t[0] == v && t.last() == r
}

/// Every edge formula of `step` accepts every triple.
pub open spec fn total<T, F: Fn(Edge, (T, T, T)) -> (T, T, T)>(step: &F) -> bool {
    forall|e: Edge, v: (T, T, T)| #[trigger] (*step).requires((e, v))
}

/// Converts the triple `c` from `src` to `dst` by applying the edge formulas
/// `step` along the fixed route between them. A conversion from a space to
/// itself applies nothing and hands the triple back as it is.
pub fn convert<T: Copy, F: Fn(Edge, (T, T, T)) -> (T, T, T)>(
    c: (T, T, T),
    src: ColorSpace,
    dst: ColorSpace,
    step: &F,
) -> (r: (T, T, T))
    requires
        total(step),
    ensures
        follows(step, route(src, dst), c, r),
        src == dst ==> r == c,
{
    let path = conversion_path(src, dst);
    let ghost p = path@;
    let mut cur = c;
    let mut k: usize = 0;
    let ghost mut t: Seq<(T, T, T)> = seq![c];
    while k < path.len()
        invariant
            p == path@,
            p == route(src, dst),
            total(step),
            0 <= k <= p.len(),
            is_trace(step, p.take(k as int), t),
            t[0] == c,
            t.last() == cur,
            src == dst ==> cur == c,
        decreases p.len() - k,
    {
        let e = path[k];
        let next = step(e, cur);
        proof {
            let t0 = t;
            t = t.push(next);
            let q = p.take(k as int + 1);
            assert forall|i: int| 0 <= i < q.len() implies (*step).ensures((q[i], #[trigger] t[i]), t[i + 1]) by {
                if i < k {
                    assert(p.take(k as int)[i] == q[i]);
                    assert(t0[i] == t[i] && t0[i + 1] == t[i + 1]);
                }
            }
        }
        cur = next;
        k = k + 1;
    }
    assert(p.take(p.len() as int) =~= p);
    assert(is_trace(step, p, t));
    cur
}

/// Each edge formula of `step` is undone exactly by the formula of the
/// inverse edge.
pub open spec fn inverse_exact<T, F: Fn(Edge, (T, T, T)) -> (T, T, T)>(step: &F) -> bool {
    forall|e: Edge, a: (T, T, T), b: (T, T, T), c: (T, T, T)|
        #![trigger (*step).ensures((e, a), b), (*step).ensures((edge_inverse(e), b), c)]
        (*step).ensures((e, a), b) && (*step).ensures((edge_inverse(e), b), c) ==> c == a
}

/// Walking `p` and then walking it back brings a triple back to itself, when
/// each edge formula is undone exactly by the inverse edge's formula.
pub proof fn lemma_walk_back<T, F: Fn(Edge, (T, T, T)) -> (T, T, T)>(
    step: &F,
    p: Seq<Edge>,
    v: (T, T, T),
    m: (T, T, T),
    r: (T, T, T),
)
    requires
        inverse_exact(step),
        follows(step, p, v, m),
        follows(step, reversed(p), m, r),
    ensures
        r == v,
{
    let t = choose|t: Seq<(T, T, T)>| #[trigger] is_trace(step, p, t) && t[0] == v && t.last() == m;
    let q = reversed(p);
    let u = choose|u: Seq<(T, T, T)>| #[trigger] is_trace(step, q, u) && u[0] == m && u.last() == r;
    lemma_trace_mirror(step, p, t, u, p.len() as int);
}

proof fn lemma_trace_mirror<T, F: Fn(Edge, (T, T, T)) -> (T, T, T)>(
    step: &F,
    p: Seq<Edge>,
    t: Seq<(T, T, T)>,
    u: Seq<(T, T, T)>,
    i: int,
)
    requires
        inverse_exact(step),
        is_trace(step, p, t),
        is_trace(step, reversed(p), u),
        u[0] == t.last(),
        0 <= i <= p.len(),
    ensures
        u[i] == t[p.len() - i],
    decreases i,
{
    if i > 0 {
        lemma_trace_mirror(step, p, t, u, i - 1);
        let n = p.len() as int;
        let j = n - i;
        let q = reversed(p);
        assert(q[i - 1] == edge_inverse(p[j]));
        assert((*step).ensures((p[j], t[j]), t[j + 1]));
        assert((*step).ensures((q[i - 1], u[i - 1]), u[i]));
    }
}

/// Taking an RGB triple to any space and back gives the triple again, when
/// each edge formula is undone exactly by the inverse edge's formula.
pub proof fn lemma_round_trip<T, F: Fn(Edge, (T, T, T)) -> (T, T, T)>(
    step: &F,
    s: ColorSpace,
    v: (T, T, T),
    m: (T, T, T),
    r: (T, T, T),
)
    requires
        inverse_exact(step),
        follows(step, route(ColorSpace::rgb, s), v, m),
        follows(step, route(s, ColorSpace::rgb), m, r),
    ensures
        r == v,
{
    lemma_route_reverse(ColorSpace::rgb, s);
    lemma_walk_back(step, route(ColorSpace::rgb, s), v, m, r);
}

} // verus!

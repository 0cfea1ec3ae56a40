//! Points, segments and rectangles on an integer grid, and the crossing tests
//! built on one orientation primitive.
use vstd::prelude::*;

verus! {

/// Largest magnitude of a coordinate that the crossing tests accept, so that
/// every cross product they form fits in 128 bits.
pub const COORD_LIMIT: i64 = 0x4000_0000_0000_0000;

#[derive(Clone, Copy, Debug, PartialEq, Eq, Structural)]
pub struct GisPoint {
    pub x: i64,
    pub y: i64,
}

impl GisPoint {
    pub open spec fn in_range(self) -> bool {
        -COORD_LIMIT <= self.x <= COORD_LIMIT && -COORD_LIMIT <= self.y <= COORD_LIMIT
    }
}

/// The edges of an open chain, in order.
pub open spec fn chain_edges(pts: Seq<GisPoint>) -> Seq<(GisPoint, GisPoint)> {
    if pts.len() < 2 {
        Seq::empty()
    } else {
        Seq::new((pts.len() - 1) as nat, |i: int| (pts[i], pts[i + 1]))
    }
}

/// The edges of a closed ring: the closing edge from the last point to the
/// first, then the chain.
pub open spec fn ring_edges(pts: Seq<GisPoint>) -> Seq<(GisPoint, GisPoint)> {
    if pts.len() < 2 {
        Seq::empty()
    } else {
        seq![(pts[pts.len() - 1], pts[0])] + chain_edges(pts)
    }
}

/// Cross product of `b - a` and `c - a`: positive when `a, b, c` turn left,
/// negative when they turn right, zero when they are collinear.
pub open spec fn orient(a: GisPoint, b: GisPoint, c: GisPoint) -> int {
    (b.x - a.x) * (c.y - a.y) - (b.y - a.y) * (c.x - a.x)
}

/// `c` and `d` lie on opposite sides of the line through `a` and `b`, or on it.
pub open spec fn straddles(a: GisPoint, b: GisPoint, c: GisPoint, d: GisPoint) -> bool {
    orient(a, b, c) * orient(a, b, d) <= 0
}

/// The inclusive crossing test of segments `a-b` and `c-d`: touching and
/// collinear configurations count as crossing.
pub open spec fn segments_cross(a: GisPoint, b: GisPoint, c: GisPoint, d: GisPoint) -> bool {
    straddles(a, b, c, d) && straddles(c, d, a, b)
}

pub open spec fn sign(v: int) -> int {
    if v > 0 {
        1
    } else if v < 0 {
        -1
    } else {
        0
    }
}

proof fn lemma_sign_product(u: int, v: int)
    ensures
        (sign(u) * sign(v) <= 0) == (u * v <= 0),
{
    if u > 0 && v > 0 {
        assert(u * v > 0) by (nonlinear_arith)
            requires
                u > 0,
                v > 0,
        ;
    } else if u < 0 && v < 0 {
        assert(u * v > 0) by (nonlinear_arith)
            requires
                u < 0,
                v < 0,
        ;
    } else if u > 0 && v < 0 {
        assert(u * v < 0) by (nonlinear_arith)
            requires
                u > 0,
                v < 0,
        ;
    } else if u < 0 && v > 0 {
        assert(u * v < 0) by (nonlinear_arith)
            requires
                u < 0,
                v > 0,
        ;
    }
}

pub(crate) proof fn lemma_product_bound(u: int, v: int)
    requires
        -0x8000_0000_0000_0000 <= u <= 0x8000_0000_0000_0000,
        -0x8000_0000_0000_0000 <= v <= 0x8000_0000_0000_0000,
    ensures
        -0x4000_0000_0000_0000_0000_0000_0000_0000 <= u * v <= 0x4000_0000_0000_0000_0000_0000_0000_0000,
{
    assert(-0x4000_0000_0000_0000_0000_0000_0000_0000 <= u * v <= 0x4000_0000_0000_0000_0000_0000_0000_0000)
        by (nonlinear_arith)
        requires
            -0x8000_0000_0000_0000 <= u <= 0x8000_0000_0000_0000,
            -0x8000_0000_0000_0000 <= v <= 0x8000_0000_0000_0000,
    ;
}

/// The sign of `orient(a, b, c)`, computed without overflow.
fn orient_sign(a: GisPoint, b: GisPoint, c: GisPoint) -> (r: i8)
    requires
        a.in_range(),
        b.in_range(),
        c.in_range(),
    ensures
        r as int == sign(orient(a, b, c)),
{
    let bx = b.x as i128 - a.x as i128;
    let by = b.y as i128 - a.y as i128;
    let cx = c.x as i128 - a.x as i128;
    let cy = c.y as i128 - a.y as i128;
    proof {
        lemma_product_bound(bx as int, cy as int);
        lemma_product_bound(by as int, cx as int);
    }
    let left = bx * cy;
    let right = by * cx;
    if left > right {
        1
    } else if left < right {
        -1
    } else {
        0
    }
}

fn straddle_test(a: GisPoint, b: GisPoint, c: GisPoint, d: GisPoint) -> (r: bool)
    requires
        a.in_range(),
        b.in_range(),
        c.in_range(),
        d.in_range(),
    ensures
        r == straddles(a, b, c, d),
{
    let s = orient_sign(a, b, c);
    let t = orient_sign(a, b, d);
    proof {
        lemma_sign_product(orient(a, b, c), orient(a, b, d));
    }
    (s as i16) * (t as i16) <= 0
}

#[derive(Clone, Copy, Debug, PartialEq, Eq, Structural)]
pub struct GisLine {
    pub p1: GisPoint,
    pub p2: GisPoint,
}

impl GisLine {
    pub open spec fn in_range(self) -> bool {
        self.p1.in_range() && self.p2.in_range()
    }

    /// Whether this segment and `line` cross, touching and collinear
    /// configurations included.
    pub fn cross(&self, line: &GisLine) -> (r: bool)
        requires
            self.in_range(),
            line.in_range(),
        ensures
            r == segments_cross(self.p1, self.p2, line.p1, line.p2),
    {
        straddle_test(self.p1, self.p2, line.p1, line.p2) && straddle_test(
            line.p1,
            line.p2,
            self.p1,
            self.p2,
        )
    }
}

/// An axis-aligned rectangle; `min` is component-wise at most `max`.
#[derive(Clone, Copy, Debug, PartialEq, Eq, Structural)]
pub struct GisRect {
    pub min: GisPoint,
    pub max: GisPoint,
}

pub open spec fn rect_contains(r: GisRect, p: GisPoint) -> bool {
    r.min.x <= p.x <= r.max.x && r.min.y <= p.y <= r.max.y
}

/// Permissive overlap: rectangles that share only an edge or a corner overlap.
pub open spec fn rects_overlap(r: GisRect, s: GisRect) -> bool {
    r.max.x >= s.min.x && r.max.y >= s.min.y && r.min.x <= s.max.x && r.min.y <= s.max.y
}

/// The diagonal from `min` to `max`.
pub open spec fn main_diagonal(r: GisRect) -> GisLine {
    GisLine { p1: r.min, p2: r.max }
}

/// The diagonal from the corner `(min.x, max.y)` to the corner `(max.x, min.y)`.
pub open spec fn anti_diagonal(r: GisRect) -> GisLine {
    GisLine {
        p1: GisPoint { x: r.min.x, y: r.max.y },
        p2: GisPoint { x: r.max.x, y: r.min.y },
    }
}

/// The segment enters or touches the rectangle: the rectangle holds one of its
/// ends, or it crosses one of the rectangle's diagonals.
pub open spec fn rect_crosses_segment(r: GisRect, l: GisLine) -> bool {
    rect_contains(r, l.p1) || rect_contains(r, l.p2) || segments_cross(
        l.p1,
        l.p2,
        main_diagonal(r).p1,
        main_diagonal(r).p2,
    ) || segments_cross(l.p1, l.p2, anti_diagonal(r).p1, anti_diagonal(r).p2)
}

impl GisRect {
    pub open spec fn wf(self) -> bool {
        self.min.x <= self.max.x && self.min.y <= self.max.y
    }

    pub open spec fn in_range(self) -> bool {
        self.min.in_range() && self.max.in_range()
    }

    /// Whether `p` lies in the rectangle, its border included.
    pub fn contains(&self, p: &GisPoint) -> (r: bool)
        ensures
            r == rect_contains(*self, *p),
    {
        self.min.x <= p.x && self.max.x >= p.x && self.min.y <= p.y && self.max.y >= p.y
    }

    /// Whether the segment `line` enters or touches the rectangle.
    pub fn cross(&self, line: &GisLine) -> (r: bool)
        requires
            self.in_range(),
            line.in_range(),
        ensures
            r == rect_crosses_segment(*self, *line),
    {
        let diagonal1 = GisLine { p1: self.min, p2: self.max };
        let diagonal2 = GisLine {
            p1: GisPoint { x: self.min.x, y: self.max.y },
            p2: GisPoint { x: self.max.x, y: self.min.y },
        };
        self.contains(&line.p1) || self.contains(&line.p2) || line.cross(&diagonal1) || line.cross(
            &diagonal2,
        )
    }

    /// Whether the two rectangles overlap, shared edges and corners included.
    pub fn intersection(&self, rect: &GisRect) -> (r: bool)
        ensures
            r == rects_overlap(*self, *rect),
    {
        self.max.x >= rect.min.x && self.max.y >= rect.min.y && self.min.x <= rect.max.x
            && self.min.y <= rect.max.y
    }
}

/// `k * p + i * (q - p) == k * r + j * (s - r)` on both axes: the point at
/// fraction `i / k` of `p-q` is the point at fraction `j / k` of `r-s`.
pub open spec fn meet_at(
    p: GisPoint,
    q: GisPoint,
    r: GisPoint,
    s: GisPoint,
    k: int,
    i: int,
    j: int,
) -> bool {
    &&& k * p.x + i * (q.x - p.x) == k * r.x + j * (s.x - r.x)
    &&& k * p.y + i * (q.y - p.y) == k * r.y + j * (s.y - r.y)
}

proof fn lemma_weighted_zero(al: int, be: int, u: int, v: int)
    requires
        al >= 0,
        be >= 0,
        al + be > 0,
        al * u + be * v == 0,
    ensures
        u * v <= 0,
{
    if u > 0 && v > 0 {
        assert(al * u + be * v > 0) by (nonlinear_arith)
            requires
                al >= 0,
                be >= 0,
                al + be > 0,
                u > 0,
                v > 0,
        ;
    } else if u < 0 && v < 0 {
        assert(al * u + be * v < 0) by (nonlinear_arith)
            requires
                al >= 0,
                be >= 0,
                al + be > 0,
                u < 0,
                v < 0,
        ;
    } else {
        lemma_sign_product(u, v);
    }
}

proof fn lemma_meet_straddles(a: GisPoint, b: GisPoint, c: GisPoint, d: GisPoint, k: int, i: int, j: int)
    requires
        k > 0,
        0 <= j <= k,
        meet_at(a, b, c, d, k, i, j),
    ensures
        straddles(a, b, c, d),
{
    let ux = b.x - a.x;
    let uy = b.y - a.y;
    let cx = c.x - a.x;
    let cy = c.y - a.y;
    let dx = d.x - a.x;
    let dy = d.y - a.y;
    assert((k - j) * cx + j * dx == i * ux) by (nonlinear_arith)
        requires
            k * a.x + i * ux == k * c.x + j * (d.x - c.x),
            cx == c.x - a.x,
            dx == d.x - a.x,
    ;
    assert((k - j) * cy + j * dy == i * uy) by (nonlinear_arith)
        requires
            k * a.y + i * uy == k * c.y + j * (d.y - c.y),
            cy == c.y - a.y,
            dy == d.y - a.y,
    ;
    assert((k - j) * (ux * cy) + j * (ux * dy) == ux * ((k - j) * cy + j * dy)) by (nonlinear_arith);
    assert((k - j) * (uy * cx) + j * (uy * dx) == uy * ((k - j) * cx + j * dx)) by (nonlinear_arith);
    assert(ux * (i * uy) == uy * (i * ux)) by (nonlinear_arith);
    assert((k - j) * (ux * cy - uy * cx) == (k - j) * (ux * cy) - (k - j) * (uy * cx))
        by (nonlinear_arith);
    assert(j * (ux * dy - uy * dx) == j * (ux * dy) - j * (uy * dx)) by (nonlinear_arith);
    lemma_weighted_zero(k - j, j, orient(a, b, c), orient(a, b, d));
}

/// Two segments that have a point in common cross; in particular two segments
/// that meet at a single interior point do.
pub proof fn lemma_meeting_segments_cross(
    a: GisPoint,
    b: GisPoint,
    c: GisPoint,
    d: GisPoint,
    k: int,
    i: int,
    j: int,
)
    requires
        k > 0,
        0 <= i <= k,
        0 <= j <= k,
        meet_at(a, b, c, d, k, i, j),
    ensures
        segments_cross(a, b, c, d),
{
    lemma_meet_straddles(a, b, c, d, k, i, j);
    lemma_meet_straddles(c, d, a, b, k, j, i);
}

/// A segment tested against itself crosses.
pub proof fn lemma_segment_crosses_itself(a: GisPoint, b: GisPoint)
    ensures
        segments_cross(a, b, a, b),
{
    assert(orient(a, b, a) == 0) by (nonlinear_arith);
    assert(orient(a, b, b) == 0) by (nonlinear_arith);
}

/// The segments `a-b` and `c-d` lie on one line.
pub open spec fn all_collinear(a: GisPoint, b: GisPoint, c: GisPoint, d: GisPoint) -> bool {
    orient(a, b, c) == 0 && orient(a, b, d) == 0 && orient(c, d, a) == 0 && orient(c, d, b) == 0
}

pub open spec fn min_of(u: int, v: int) -> int {
    if u <= v {
        u
    } else {
        v
    }
}

pub open spec fn max_of(u: int, v: int) -> int {
    if u >= v {
        u
    } else {
        v
    }
}

/// The bounding boxes of the segments `a-b` and `c-d` share no point.
pub open spec fn bounding_boxes_disjoint(a: GisPoint, b: GisPoint, c: GisPoint, d: GisPoint) -> bool {
    ||| max_of(a.x as int, b.x as int) < min_of(c.x as int, d.x as int)
    ||| max_of(c.x as int, d.x as int) < min_of(a.x as int, b.x as int)
    ||| max_of(a.y as int, b.y as int) < min_of(c.y as int, d.y as int)
    ||| max_of(c.y as int, d.y as int) < min_of(a.y as int, b.y as int)
}

proof fn lemma_opposite(u: int, v: int)
    requires
        u * v <= 0,
        u - v > 0,
    ensures
        u >= 0,
        v <= 0,
{
    if u < 0 {
        assert(u * v > 0) by (nonlinear_arith)
            requires
                u < 0,
                v < u,
        ;
    }
    if v > 0 {
        assert(u * v > 0) by (nonlinear_arith)
            requires
                v > 0,
                u > v,
        ;
    }
}

proof fn lemma_convex_bounds(p: int, q: int, u: int, v: int)
    requires
        p >= 0,
        q >= 0,
    ensures
        (p + q) * min_of(u, v) <= p * u + q * v <= (p + q) * max_of(u, v),
{
    let lo = min_of(u, v);
    let hi = max_of(u, v);
    assert((p + q) * lo <= p * u + q * v <= (p + q) * hi) by (nonlinear_arith)
        requires
            p >= 0,
            q >= 0,
            lo <= u <= hi,
            lo <= v <= hi,
    ;
}

/// Two weighted sums with the same total weight that agree cannot come from
/// separated intervals.
proof fn lemma_interval_clash(
    w: int,
    p: int,
    q: int,
    u1: int,
    v1: int,
    p2: int,
    q2: int,
    u2: int,
    v2: int,
)
    requires
        w > 0,
        p >= 0,
        q >= 0,
        p + q == w,
        p2 >= 0,
        q2 >= 0,
        p2 + q2 == w,
        p * u1 + q * v1 == p2 * u2 + q2 * v2,
    ensures
        !(max_of(u1, v1) < min_of(u2, v2)),
        !(max_of(u2, v2) < min_of(u1, v1)),
{
    lemma_convex_bounds(p, q, u1, v1);
    lemma_convex_bounds(p2, q2, u2, v2);
    let h1 = max_of(u1, v1);
    let l2 = min_of(u2, v2);
    let h2 = max_of(u2, v2);
    let l1 = min_of(u1, v1);
    if h1 < l2 {
        assert(w * h1 < w * l2) by (nonlinear_arith)
            requires
                w > 0,
                h1 < l2,
        ;
    }
    if h2 < l1 {
        assert(w * h2 < w * l1) by (nonlinear_arith)
            requires
                w > 0,
                h2 < l1,
        ;
    }
}

proof fn lemma_cramer(bx: int, by: int, cx: int, cy: int, dx: int, dy: int)
    ensures
        (cx * dy - cy * dx) * bx == (bx * dy - by * dx) * cx - (bx * cy - by * cx) * dx,
{
    assert((cx * dy - cy * dx) * bx == bx * cx * dy - bx * cy * dx) by (nonlinear_arith);
    assert((bx * dy - by * dx) * cx == bx * cx * dy - by * cx * dx) by (nonlinear_arith);
    assert((bx * cy - by * cx) * dx == bx * cy * dx - by * cx * dx) by (nonlinear_arith);
}

/// The orientations of two segments in coordinates relative to `a`.
proof fn lemma_relative_orients(a: GisPoint, b: GisPoint, c: GisPoint, d: GisPoint)
    ensures
        ({
            let (bx, by) = (b.x - a.x, b.y - a.y);
            let (cx, cy) = (c.x - a.x, c.y - a.y);
            let (dx, dy) = (d.x - a.x, d.y - a.y);
            &&& orient(a, b, c) == bx * cy - by * cx
            &&& orient(a, b, d) == bx * dy - by * dx
            &&& orient(c, d, a) == cx * dy - cy * dx
            &&& orient(c, d, b) == (cx * dy - cy * dx) - (bx * dy - by * dx) + (bx * cy - by * cx)
        }),
{
    let (bx, by) = (b.x - a.x, b.y - a.y);
    let (cx, cy) = (c.x - a.x, c.y - a.y);
    let (dx, dy) = (d.x - a.x, d.y - a.y);
    assert(orient(c, d, a) == (dx - cx) * (0 - cy) - (dy - cy) * (0 - cx));
    assert((dx - cx) * (0 - cy) - (dy - cy) * (0 - cx) == cx * dy - cy * dx) by (nonlinear_arith);
    assert(orient(c, d, b) == (dx - cx) * (by - cy) - (dy - cy) * (bx - cx));
    assert((dx - cx) * (by - cy) - (dy - cy) * (bx - cx) == (cx * dy - cy * dx) - (bx * dy - by * dx)
        + (bx * cy - by * cx)) by (nonlinear_arith);
}

/// The crossing point of the two lines, weighted two ways: along `a-b` by the
/// orientations of its ends against `c-d`, and along `c-d` by those of its
/// ends against `a-b`.
proof fn lemma_crossing_identity(a: GisPoint, b: GisPoint, c: GisPoint, d: GisPoint)
    ensures
        orient(c, d, a) - orient(c, d, b) == orient(a, b, d) - orient(a, b, c),
        orient(c, d, a) * b.x - orient(c, d, b) * a.x == orient(a, b, d) * c.x - orient(a, b, c) * d.x,
        orient(c, d, a) * b.y - orient(c, d, b) * a.y == orient(a, b, d) * c.y - orient(a, b, c) * d.y,
{
    lemma_relative_orients(a, b, c, d);
    let (bx, by) = (b.x - a.x, b.y - a.y);
    let (cx, cy) = (c.x - a.x, c.y - a.y);
    let (dx, dy) = (d.x - a.x, d.y - a.y);
    let o1 = orient(a, b, c);
    let o2 = orient(a, b, d);
    let o3 = orient(c, d, a);
    let o4 = orient(c, d, b);
    lemma_cramer(bx, by, cx, cy, dx, dy);
    lemma_cramer(by, bx, cy, cx, dy, dx);
    let (ax, ay) = (a.x as int, a.y as int);
    assert(o3 * b.x == o3 * ax + o3 * bx) by (nonlinear_arith)
        requires
            b.x == ax + bx,
    ;
    assert(o2 * c.x == o2 * ax + o2 * cx) by (nonlinear_arith)
        requires
            c.x == ax + cx,
    ;
    assert(o1 * d.x == o1 * ax + o1 * dx) by (nonlinear_arith)
        requires
            d.x == ax + dx,
    ;
    assert(o3 * b.y == o3 * ay + o3 * by) by (nonlinear_arith)
        requires
            b.y == ay + by,
    ;
    assert(o2 * c.y == o2 * ay + o2 * cy) by (nonlinear_arith)
        requires
            c.y == ay + cy,
    ;
    assert(o1 * d.y == o1 * ay + o1 * dy) by (nonlinear_arith)
        requires
            d.y == ay + dy,
    ;
    assert((o3 - o4) * ax == o3 * ax - o4 * ax) by (nonlinear_arith);
    assert((o2 - o1) * ax == o2 * ax - o1 * ax) by (nonlinear_arith);
    assert((o3 - o4) * ay == o3 * ay - o4 * ay) by (nonlinear_arith);
    assert((o2 - o1) * ay == o2 * ay - o1 * ay) by (nonlinear_arith);
    assert((cy * dx - cx * dy) * by == -((cx * dy - cy * dx) * by)) by (nonlinear_arith);
    assert((by * dx - bx * dy) * cy == -((bx * dy - by * dx) * cy)) by (nonlinear_arith);
    assert((by * cx - bx * cy) * dy == -((bx * cy - by * cx) * dy)) by (nonlinear_arith);
}

/// Segments whose bounding boxes are disjoint do not cross, unless all four
/// end points lie on one line (the inclusive test then reports a crossing).
pub proof fn lemma_separated_segments_do_not_cross(a: GisPoint, b: GisPoint, c: GisPoint, d: GisPoint)
    requires
        bounding_boxes_disjoint(a, b, c, d),
        !all_collinear(a, b, c, d),
    ensures
        !segments_cross(a, b, c, d),
{
    let o1 = orient(a, b, c);
    let o2 = orient(a, b, d);
    let o3 = orient(c, d, a);
    let o4 = orient(c, d, b);
    if segments_cross(a, b, c, d) {
        lemma_crossing_identity(a, b, c, d);
        if o1 == o2 {
            assert(o1 == 0) by (nonlinear_arith)
                requires
                    o1 * o2 <= 0,
                    o1 == o2,
            ;
            assert(o3 == 0) by (nonlinear_arith)
                requires
                    o3 * o4 <= 0,
                    o3 == o4,
            ;
        } else if o1 < o2 {
            let w = o2 - o1;
            lemma_opposite(o3, o4);
            lemma_opposite(o2, o1);
            assert((-o4) * a.x == -(o4 * a.x) && (-o1) * d.x == -(o1 * d.x)) by (nonlinear_arith);
            assert((-o4) * a.y == -(o4 * a.y) && (-o1) * d.y == -(o1 * d.y)) by (nonlinear_arith);
            lemma_interval_clash(w, o3, -o4, b.x as int, a.x as int, o2, -o1, c.x as int, d.x as int);
            lemma_interval_clash(w, o3, -o4, b.y as int, a.y as int, o2, -o1, c.y as int, d.y as int);
        } else {
            let w = o1 - o2;
            lemma_opposite(o4, o3);
            lemma_opposite(o1, o2);
            assert((-o3) * b.x == -(o3 * b.x) && (-o2) * c.x == -(o2 * c.x)) by (nonlinear_arith);
            assert((-o3) * b.y == -(o3 * b.y) && (-o2) * c.y == -(o2 * c.y)) by (nonlinear_arith);
            lemma_interval_clash(w, -o3, o4, b.x as int, a.x as int, -o2, o1, c.x as int, d.x as int);
            lemma_interval_clash(w, -o3, o4, b.y as int, a.y as int, -o2, o1, c.y as int, d.y as int);
        }
    }
}

/// A rectangle that holds both ends of a segment is crossed by it.
pub proof fn lemma_rect_holding_segment_crosses(r: GisRect, l: GisLine)
    requires
        rect_contains(r, l.p1),
        rect_contains(r, l.p2),
    ensures
        rect_crosses_segment(r, l),
{
}

/// A segment with both ends outside the rectangle that crosses neither
/// diagonal does not cross the rectangle.
pub proof fn lemma_rect_missed_by_segment(r: GisRect, l: GisLine)
    requires
        !rect_contains(r, l.p1),
        !rect_contains(r, l.p2),
        !segments_cross(l.p1, l.p2, r.min, r.max),
        !segments_cross(l.p1, l.p2, anti_diagonal(r).p1, anti_diagonal(r).p2),
    ensures
        !rect_crosses_segment(r, l),
{
}

} // verus!

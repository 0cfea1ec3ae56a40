//! Web Mercator projection in fixed point.
//!
//! World coordinates are integers in units of 2^-22 pixel, so that one tile
//! (256 pixels) spans `TILE_UNITS` units and the whole world at zoom `z` spans
//! `TILE_UNITS * 2^z`. Longitude is given in microdegrees. The isometric
//! latitude transform `ln(tan(pi/4 + lat/2))` is floating point and is applied
//! where shapes are read: here latitude arrives as its Mercator ordinate at
//! zoom 0, in world units, growing southwards.
use vstd::prelude::*;

verus! {

/// Deepest zoom level whose world coordinates this library handles.
pub const MAX_ZOOM: u32 = 30;

/// World units across one tile (256 pixels).
pub const TILE_UNITS: i64 = 0x4000_0000;

/// World units across one pixel.
pub const PIXEL_UNITS: i64 = 0x40_0000;

/// Largest magnitude of a zoom-0 world coordinate (two world widths).
pub const WORLD_LIMIT: i64 = 0x8000_0000;

/// Longitude range, in microdegrees, on each side of the prime meridian.
pub const HALF_TURN: i64 = 180_000_000;

pub open spec fn pow2(n: nat) -> int
    decreases n,
{
    if n == 0 {
        1
    } else {
        2 * pow2((n - 1) as nat)
    }
}

pub proof fn lemma_pow2_positive(n: nat)
    ensures
        pow2(n) >= 1,
    decreases n,
{
    if n > 0 {
        lemma_pow2_positive((n - 1) as nat);
    }
}

pub proof fn lemma_pow2_monotonic(n: nat, m: nat)
    requires
        n <= m,
    ensures
        pow2(n) <= pow2(m),
    decreases m,
{
    if n < m {
        lemma_pow2_monotonic(n, (m - 1) as nat);
        lemma_pow2_positive((m - 1) as nat);
    }
}

pub proof fn lemma_pow2_max_zoom()
    ensures
        pow2(MAX_ZOOM as nat) == TILE_UNITS,
{
    reveal_with_fuel(pow2, 31);
}

/// Zoom-0 world abscissa of a longitude in microdegrees.
pub open spec fn longitude_units(v: int) -> int {
    (v + HALF_TURN) * TILE_UNITS / (2 * HALF_TURN)
}

/// World abscissa at `zoom` of a longitude in microdegrees.
pub open spec fn longitude_x(v: int, zoom: nat) -> int {
    longitude_units(v) * pow2(zoom)
}

/// World ordinate at `zoom` of a zoom-0 Mercator ordinate.
pub open spec fn latitude_y(v: int, zoom: nat) -> int {
    v * pow2(zoom)
}

/// `2^zoom`.
pub fn zoom_factor(zoom: u32) -> (r: i64)
    requires
        zoom <= MAX_ZOOM,
    ensures
        r == pow2(zoom as nat),
        1 <= r <= TILE_UNITS,
{
    let mut p: i64 = 1;
    let mut i: u32 = 0;
    while i < zoom
        invariant
            i <= zoom <= MAX_ZOOM,
            p == pow2(i as nat),
        decreases zoom - i,
    {
        proof {
            lemma_pow2_monotonic((i + 1) as nat, MAX_ZOOM as nat);
            lemma_pow2_max_zoom();
            assert(pow2((i + 1) as nat) == 2 * pow2(i as nat));
            assert(pow2((i + 1) as nat) <= pow2(MAX_ZOOM as nat));
            lemma_pow2_positive(i as nat);
        }
        p = p * 2;
        i = i + 1;
    }
    proof {
        lemma_pow2_positive(zoom as nat);
        lemma_pow2_monotonic(zoom as nat, MAX_ZOOM as nat);
        lemma_pow2_max_zoom();
    }
    p
}

/// A zoom-0 world coordinate scaled to `zoom`.
pub fn zoom_scale(v: i64, zoom: u32) -> (r: i64)
    requires
        -WORLD_LIMIT <= v <= WORLD_LIMIT,
        zoom <= MAX_ZOOM,
    ensures
        r == v * pow2(zoom as nat),
        -WORLD_LIMIT * TILE_UNITS <= r <= WORLD_LIMIT * TILE_UNITS,
{
    let f = zoom_factor(zoom);
    assert(-WORLD_LIMIT * TILE_UNITS <= v * f <= WORLD_LIMIT * TILE_UNITS) by (nonlinear_arith)
        requires
            -WORLD_LIMIT <= v <= WORLD_LIMIT,
            1 <= f <= TILE_UNITS,
    ;
    v * f
}

/// World abscissa at `zoom` of the longitude `v`, in microdegrees.
pub fn longitude_to_x(v: i64, zoom: u32) -> (r: i64)
    requires
        -HALF_TURN <= v <= HALF_TURN,
        zoom <= MAX_ZOOM,
    ensures
        r == longitude_x(v as int, zoom as nat),
{
    assert(0 <= (v + HALF_TURN) * TILE_UNITS <= 2 * HALF_TURN * TILE_UNITS) by (nonlinear_arith)
        requires
            -HALF_TURN <= v <= HALF_TURN,
    ;
    let u = (v + HALF_TURN) * TILE_UNITS / (2 * HALF_TURN);
    assert(0 <= u <= TILE_UNITS) by (nonlinear_arith)
        requires
            u == (v + HALF_TURN) * TILE_UNITS / (2 * HALF_TURN),
            0 <= (v + HALF_TURN) * TILE_UNITS <= 2 * HALF_TURN * TILE_UNITS,
    ;
    zoom_scale(u, zoom)
}

/// World ordinate at `zoom` of the zoom-0 Mercator ordinate `v`.
pub fn latitude_to_y(v: i64, zoom: u32) -> (r: i64)
    requires
        -WORLD_LIMIT <= v <= WORLD_LIMIT,
        zoom <= MAX_ZOOM,
    ensures
        r == latitude_y(v as int, zoom as nat),
{
    zoom_scale(v, zoom)
}

/// Longitude maps to a strictly increasing abscissa at every zoom.
pub proof fn lemma_longitude_increasing(a: int, b: int, zoom: nat)
    requires
        -HALF_TURN <= a < b <= HALF_TURN,
    ensures
        longitude_x(a, zoom) < longitude_x(b, zoom),
{
    let m = 2 * HALF_TURN;
    let na = (a + HALF_TURN) * TILE_UNITS;
    let nb = (b + HALF_TURN) * TILE_UNITS;
    assert(nb >= na + TILE_UNITS) by (nonlinear_arith)
        requires
            a < b,
            na == (a + HALF_TURN) * TILE_UNITS,
            nb == (b + HALF_TURN) * TILE_UNITS,
    ;
    let qa = na / m;
    let qb = nb / m;
    assert(qa < qb) by (nonlinear_arith)
        requires
            m == 2 * HALF_TURN,
            nb >= na + TILE_UNITS,
            qa == na / m,
            qb == nb / m,
    ;
    lemma_pow2_positive(zoom);
    let f = pow2(zoom);
    assert(qa * f < qb * f) by (nonlinear_arith)
        requires
            qa < qb,
            f >= 1,
    ;
}

/// A larger Mercator ordinate (a lower latitude) maps to a strictly larger
/// world ordinate at every zoom.
pub proof fn lemma_latitude_ordinate_increasing(a: int, b: int, zoom: nat)
    requires
        a < b,
    ensures
        latitude_y(a, zoom) < latitude_y(b, zoom),
{
    lemma_pow2_positive(zoom);
    let f = pow2(zoom);
    assert(a * f < b * f) by (nonlinear_arith)
        requires
            a < b,
            f >= 1,
    ;
}

/// One zoom level deeper doubles both world coordinates.
pub proof fn lemma_next_zoom_doubles(lon: int, v: int, zoom: nat)
    ensures
        longitude_x(lon, zoom + 1) == 2 * longitude_x(lon, zoom),
        latitude_y(v, zoom + 1) == 2 * latitude_y(v, zoom),
{
    assert(pow2(zoom + 1) == 2 * pow2(zoom));
    let u = longitude_units(lon);
    let f = pow2(zoom);
    assert(u * (2 * f) == 2 * (u * f)) by (nonlinear_arith);
    assert(v * (2 * f) == 2 * (v * f)) by (nonlinear_arith);
}

} // verus!

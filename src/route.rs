//! Request routing, the cache's miss rule and schema steps, and the order in
//! which the tile pyramid is warmed.
use vstd::prelude::*;
use vstd::string::StringSliceAdditionalSpecFns;
use crate::proj::{pow2, zoom_factor, lemma_pow2_monotonic, lemma_pow2_max_zoom, MAX_ZOOM};
use crate::tile::GisXYZ;

verus! {

/// Numbers in a path are read up to this value; anything larger is no tile
/// coordinate.
pub const NUMBER_CAP: u64 = 0x1_0000_0000;

pub open spec fn is_digit(b: u8) -> bool {
    48 <= b <= 57
}

pub open spec fn all_digits(s: Seq<u8>) -> bool {
    s.len() > 0 && forall|i: int| 0 <= i < s.len() ==> is_digit(#[trigger] s[i])
}

/// The decimal value of a string of digits.
pub open spec fn digits_value(s: Seq<u8>) -> int
    decreases s.len(),
{
    if s.len() == 0 {
        0
    } else {
        digits_value(s.drop_last()) * 10 + (s.last() - 48)
    }
}

pub open spec fn capped(v: int) -> int {
    if v < NUMBER_CAP {
        v
    } else {
        NUMBER_CAP as int
    }
}

/// `/maps/`
pub open spec fn maps_prefix() -> Seq<u8> {
    seq![47u8, 109u8, 97u8, 112u8, 115u8, 47u8]
}

/// `.png`
pub open spec fn png_suffix() -> Seq<u8> {
    seq![46u8, 112u8, 110u8, 103u8]
}

/// The path `/maps/{z}/{x}/{y}.png` for the digit strings `zs`, `xs`, `ys`.
pub open spec fn tile_path(zs: Seq<u8>, xs: Seq<u8>, ys: Seq<u8>) -> Seq<u8> {
    maps_prefix() + zs + seq![47u8] + xs + seq![47u8] + ys + png_suffix()
}

/// `path` is `/maps/{z}/{x}/{y}.png` with the decimal numbers of tile `t`.
pub open spec fn is_tile_path(path: Seq<u8>, t: GisXYZ) -> bool {
    exists|zs: Seq<u8>, xs: Seq<u8>, ys: Seq<u8>|
        #![trigger tile_path(zs, xs, ys)]
        all_digits(zs) && all_digits(xs) && all_digits(ys) && path == tile_path(zs, xs, ys)
            && t.z == digits_value(zs) && t.x == digits_value(xs) && t.y == digits_value(ys)
}

/// The tile that `path` addresses, if it addresses one.
pub open spec fn addresses_tile(path: Seq<u8>) -> bool {
    exists|t: GisXYZ| is_tile_path(path, t) && t.wf()
}

proof fn lemma_digits_value_nonneg(s: Seq<u8>)
    requires
        forall|i: int| 0 <= i < s.len() ==> is_digit(#[trigger] s[i]),
    ensures
        digits_value(s) >= 0,
    decreases s.len(),
{
    if s.len() > 0 {
        assert forall|i: int| 0 <= i < s.drop_last().len() implies is_digit(#[trigger] s.drop_last()[i]) by {
            assert(s.drop_last()[i] == s[i]);
        }
        lemma_digits_value_nonneg(s.drop_last());
    }
}

proof fn lemma_tile_path_layout(zs: Seq<u8>, xs: Seq<u8>, ys: Seq<u8>)
    ensures
        ({
            let p = tile_path(zs, xs, ys);
            let a: int = 6 + zs.len() as int;
            let b: int = a + 1 + xs.len();
            let c: int = b + 1 + ys.len();
            &&& p.len() == c + 4
            &&& p.subrange(0, 6) == maps_prefix()
            &&& p.subrange(6, a as int) == zs
            &&& p[a as int] == 47u8
            &&& p.subrange(a + 1, b as int) == xs
            &&& p[b as int] == 47u8
            &&& p.subrange(b + 1, c as int) == ys
            &&& p.subrange(c as int, c + 4) == png_suffix()
        }),
{
    let p = tile_path(zs, xs, ys);
    let a: int = 6 + zs.len() as int;
    let b: int = a + 1 + xs.len();
    let c: int = b + 1 + ys.len();
    assert(p.subrange(0, 6) =~= maps_prefix());
    assert(p.subrange(6, a as int) =~= zs);
    assert(p.subrange(a + 1, b as int) =~= xs);
    assert(p.subrange(b + 1, c as int) =~= ys);
    assert(p.subrange(c as int, c + 4) =~= png_suffix());
}

/// A scan of digits from `start` that stops at the first non-digit ends where
/// a digit string known to stand at `start`, followed by a non-digit, ends.
proof fn lemma_scan_matches(p: Seq<u8>, start: int, end: int, ds: Seq<u8>)
    requires
        0 <= start <= end <= p.len(),
        start + ds.len() < p.len(),
        p.subrange(start, start + ds.len()) == ds,
        all_digits(ds),
        !is_digit(p[start + ds.len()]),
        forall|k: int| start <= k < end ==> is_digit(#[trigger] p[k]),
        end == p.len() || !is_digit(p[end]),
    ensures
        end == start + ds.len(),
{
    if end < start + ds.len() {
        assert(p.subrange(start, start + ds.len())[end - start] == p[end]);
    }
    if end > start + ds.len() {
        assert(is_digit(p[start + ds.len()]));
    }
}

/// Reads the digits of `b` from `start` on: where they end, and their value
/// capped at `NUMBER_CAP`.
fn scan_number(b: &[u8], start: usize) -> (r: (usize, u64))
    requires
        start <= b@.len(),
    ensures
        start <= r.0 <= b@.len(),
        forall|k: int| start <= k < r.0 ==> is_digit(#[trigger] b@[k]),
        r.0 == b@.len() || !is_digit(b@[r.0 as int]),
        r.1 == capped(digits_value(b@.subrange(start as int, r.0 as int))),
{
    let mut i: usize = start;
    let mut v: u64 = 0;
    assert(b@.subrange(start as int, start as int).len() == 0);
    while i < b.len() && 48 <= b[i] && b[i] <= 57
        invariant
            start <= i <= b@.len(),
            forall|k: int| start <= k < i ==> is_digit(#[trigger] b@[k]),
            v == capped(digits_value(b@.subrange(start as int, i as int))),
        decreases b@.len() - i,
    {
        let ghost s = b@.subrange(start as int, i as int);
        let ghost s2 = b@.subrange(start as int, i + 1);
        proof {
            assert(s2.drop_last() =~= s);
            assert forall|k: int| 0 <= k < s.len() implies is_digit(#[trigger] s[k]) by {
                assert(s[k] == b@[start + k]);
            }
            lemma_digits_value_nonneg(s);
        }
        let d = (b[i] - 48) as u64;
        if v < NUMBER_CAP {
            let w = v * 10 + d;
            v = if w < NUMBER_CAP {
                w
            } else {
                NUMBER_CAP
            };
        }
        i = i + 1;
    }
    (i, v)
}

fn has_maps_prefix(b: &[u8]) -> (r: bool)
    ensures
        r == (b@.len() >= 6 && b@.subrange(0, 6) == maps_prefix()),
{
    if b.len() < 6 {
        return false;
    }
    let ok = b[0] == 47 && b[1] == 109 && b[2] == 97 && b[3] == 112 && b[4] == 115 && b[5] == 47;
    if ok {
        assert(b@.subrange(0, 6) =~= maps_prefix());
    } else {
        assert(b@.subrange(0, 6)[0] == b@[0]);
        assert(b@.subrange(0, 6)[1] == b@[1]);
        assert(b@.subrange(0, 6)[2] == b@[2]);
        assert(b@.subrange(0, 6)[3] == b@[3]);
        assert(b@.subrange(0, 6)[4] == b@[4]);
        assert(b@.subrange(0, 6)[5] == b@[5]);
    }
    ok
}

fn has_png_suffix(b: &[u8], at: usize) -> (r: bool)
    requires
        at <= b@.len(),
    ensures
        r == (b@.len() == at + 4 && b@.subrange(at as int, at + 4) == png_suffix()),
{
    if b.len() - at != 4 {
        return false;
    }
    let ok = b[at] == 46 && b[at + 1] == 112 && b[at + 2] == 110 && b[at + 3] == 103;
    if ok {
        assert(b@.subrange(at as int, at + 4) =~= png_suffix());
    } else {
        let ghost s = b@.subrange(at as int, at + 4);
        assert(s[0] == b@[at as int] && s[1] == b@[at + 1] && s[2] == b@[at + 2] && s[3] == b@[at + 3]);
    }
    ok
}

/// `p[start..end]` is a maximal run of digits.
pub open spec fn scanned(p: Seq<u8>, start: int, end: int) -> bool {
    &&& 0 <= start <= end <= p.len()
    &&& forall|k: int| start <= k < end ==> is_digit(#[trigger] p[k])
    &&& end == p.len() || !is_digit(p[end])
}

/// The layout of `p` up to the third number: prefix, first number ending at
/// `e1`, a slash, second number ending at `e2`, a slash.
pub open spec fn two_numbers(p: Seq<u8>, e1: int, e2: int) -> bool {
    &&& p.len() >= 6 && p.subrange(0, 6) == maps_prefix()
    &&& scanned(p, 6, e1) && e1 > 6 && e1 < p.len() && p[e1] == 47
    &&& scanned(p, e1 + 1, e2) && e2 > e1 + 1 && e2 < p.len() && p[e2] == 47
}

proof fn lemma_pick(p: Seq<u8>) -> (r: (GisXYZ, Seq<u8>, Seq<u8>, Seq<u8>))
    requires
        addresses_tile(p),
    ensures
        r.0.wf(),
        all_digits(r.1),
        all_digits(r.2),
        all_digits(r.3),
        p == tile_path(r.1, r.2, r.3),
        r.0.z == digits_value(r.1),
        r.0.x == digits_value(r.2),
        r.0.y == digits_value(r.3),
{
    let t = choose|t: GisXYZ| is_tile_path(p, t) && t.wf();
    let (zs, xs, ys) = choose|zs: Seq<u8>, xs: Seq<u8>, ys: Seq<u8>|
        all_digits(zs) && all_digits(xs) && all_digits(ys) && p == #[trigger] tile_path(zs, xs, ys)
            && t.z == digits_value(zs) && t.x == digits_value(xs) && t.y == digits_value(ys);
    lemma_tile_path_layout(zs, xs, ys);
    (t, zs, xs, ys)
}

proof fn lemma_no_prefix(p: Seq<u8>)
    requires
        !(p.len() >= 6 && p.subrange(0, 6) == maps_prefix()),
    ensures
        !addresses_tile(p),
{
    if addresses_tile(p) {
        let (t, zs, xs, ys) = lemma_pick(p);
        lemma_tile_path_layout(zs, xs, ys);
    }
}

proof fn lemma_no_first_number(p: Seq<u8>, e1: int)
    requires
        p.len() >= 6 && p.subrange(0, 6) == maps_prefix(),
        scanned(p, 6, e1),
        !(e1 > 6 && e1 < p.len() && p[e1] == 47),
    ensures
        !addresses_tile(p),
{
    if addresses_tile(p) {
        let (t, zs, xs, ys) = lemma_pick(p);
        lemma_tile_path_layout(zs, xs, ys);
        lemma_scan_matches(p, 6, e1, zs);
    }
}

proof fn lemma_no_second_number(p: Seq<u8>, e1: int, e2: int)
    requires
        p.len() >= 6 && p.subrange(0, 6) == maps_prefix(),
        scanned(p, 6, e1) && e1 > 6 && e1 < p.len() && p[e1] == 47,
        scanned(p, e1 + 1, e2),
        !(e2 > e1 + 1 && e2 < p.len() && p[e2] == 47),
    ensures
        !addresses_tile(p),
{
    if addresses_tile(p) {
        let (t, zs, xs, ys) = lemma_pick(p);
        lemma_tile_path_layout(zs, xs, ys);
        lemma_scan_matches(p, 6, e1, zs);
        lemma_scan_matches(p, e1 + 1, e2, xs);
    }
}

proof fn lemma_third_number(p: Seq<u8>, e1: int, e2: int, e3: int) -> (r: (GisXYZ, Seq<u8>, Seq<u8>, Seq<u8>))
    requires
        two_numbers(p, e1, e2),
        scanned(p, e2 + 1, e3),
        addresses_tile(p),
    ensures
        r.0.wf(),
        r.1 == p.subrange(6, e1),
        r.2 == p.subrange(e1 + 1, e2),
        r.3 == p.subrange(e2 + 1, e3),
        r.0.z == digits_value(r.1),
        r.0.x == digits_value(r.2),
        r.0.y == digits_value(r.3),
        e3 > e2 + 1,
        p.len() == e3 + 4,
        p.subrange(e3, e3 + 4) == png_suffix(),
{
    let (t, zs, xs, ys) = lemma_pick(p);
    lemma_tile_path_layout(zs, xs, ys);
    lemma_scan_matches(p, 6, e1, zs);
    lemma_scan_matches(p, e1 + 1, e2, xs);
    lemma_scan_matches(p, e2 + 1, e3, ys);
    (t, zs, xs, ys)
}

proof fn lemma_digit_run(p: Seq<u8>, start: int, end: int)
    requires
        scanned(p, start, end),
        end > start,
    ensures
        all_digits(p.subrange(start, end)),
        digits_value(p.subrange(start, end)) >= 0,
{
    let s = p.subrange(start, end);
    assert forall|k: int| 0 <= k < s.len() implies is_digit(#[trigger] s[k]) by {
        assert(s[k] == p[start + k]);
    }
    lemma_digits_value_nonneg(s);
}

/// The tile that a path of the form `/maps/{z}/{x}/{y}.png` addresses; `None`
/// for any other path and for numbers outside the tile grid.
#[verifier::rlimit(60)]
#[verifier::spinoff_prover]
pub fn parse_tile_path(path: &str) -> (r: Option<GisXYZ>)
    ensures
        r matches Some(t) ==> t.wf() && is_tile_path(path.spec_bytes(), t),
        r is None ==> !addresses_tile(path.spec_bytes()),
{
    let b = path.as_bytes();
    let ghost p = b@;
    let n = b.len();
    if !has_maps_prefix(b) {
        proof {
            lemma_no_prefix(p);
        }
        return None;
    }
    let (e1, z) = scan_number(b, 6);
    if e1 == 6 || e1 >= n || b[e1] != 47 {
        proof {
            lemma_no_first_number(p, e1 as int);
        }
        return None;
    }
    let (e2, x) = scan_number(b, e1 + 1);
    if e2 == e1 + 1 || e2 >= n || b[e2] != 47 {
        proof {
            lemma_no_second_number(p, e1 as int, e2 as int);
        }
        return None;
    }
    let (e3, y) = scan_number(b, e2 + 1);
    let ghost zs = p.subrange(6, e1 as int);
    let ghost xs = p.subrange(e1 + 1, e2 as int);
    let ghost ys = p.subrange(e2 + 1, e3 as int);
    proof {
        lemma_digit_run(p, 6, e1 as int);
        lemma_digit_run(p, e1 + 1, e2 as int);
    }
    if e3 == e2 + 1 || !has_png_suffix(b, e3) {
        proof {
            if addresses_tile(p) {
                lemma_third_number(p, e1 as int, e2 as int, e3 as int);
            }
        }
        return None;
    }
    proof {
        lemma_digit_run(p, e2 + 1, e3 as int);
    }
    if z > MAX_ZOOM as u64 {
        proof {
            if addresses_tile(p) {
                lemma_third_number(p, e1 as int, e2 as int, e3 as int);
            }
        }
        return None;
    }
    let f = zoom_factor(z as u32);
    if x >= f as u64 || y >= f as u64 {
        proof {
            if addresses_tile(p) {
                lemma_third_number(p, e1 as int, e2 as int, e3 as int);
            }
        }
        return None;
    }
    proof {
        lemma_pow2_monotonic(z as nat, MAX_ZOOM as nat);
        lemma_pow2_max_zoom();
    }
    let t = GisXYZ { x, y, z };
    proof {
        lemma_tile_path_layout(zs, xs, ys);
        assert(p =~= tile_path(zs, xs, ys));
        assert(all_digits(zs) && all_digits(xs) && all_digits(ys) && p == tile_path(zs, xs, ys)
            && t.z == digits_value(zs) && t.x == digits_value(xs) && t.y == digits_value(ys));
    }
    Some(t)
}

/// What a request path asks for.
#[derive(Clone, Copy, Debug, PartialEq, Eq, Structural)]
pub enum Route {
    /// The landing page, at `/`.
    Home,
    /// A map tile, at `/maps/{z}/{x}/{y}.png`.
    Tile(GisXYZ),
    /// Anything else.
    NotFound,
}

/// The kind of body a response carries.
#[derive(Clone, Copy, Debug, PartialEq, Eq, Structural)]
pub enum ContentType {
    Html,
    Png,
}

impl Route {
    /// The HTTP status of the response.
    pub fn status(&self) -> (r: u16)
        ensures
            r == (if *self is NotFound {
                404u16
            } else {
                200u16
            }),
    {
        match self {
            Route::NotFound => 404,
            _ => 200,
        }
    }

    /// The content type of the response.
    pub fn content_type(&self) -> (r: ContentType)
        ensures
            r == (if *self is Tile {
                ContentType::Png
            } else {
                ContentType::Html
            }),
    {
        match self {
            Route::Tile(_) => ContentType::Png,
            _ => ContentType::Html,
        }
    }
}

/// Maps a request path to what it asks for; the path is the only input.
pub fn route(path: &str) -> (r: Route)
    ensures
        path.spec_bytes() == seq![47u8] ==> r == Route::Home,
        path.spec_bytes() != seq![47u8] ==> match r {
            Route::Home => false,
            Route::Tile(t) => t.wf() && is_tile_path(path.spec_bytes(), t),
            Route::NotFound => !addresses_tile(path.spec_bytes()),
        },
{
    let b = path.as_bytes();
    if b.len() == 1 && b[0] == 47 {
        assert(b@ =~= seq![47u8]);
        return Route::Home;
    }
    match parse_tile_path(path) {
        Some(t) => Route::Tile(t),
        None => Route::NotFound,
    }
}

/// The tile after `t` when the pyramid up to zoom `last_zoom` is walked zoom
/// by zoom, column by column, row by row.
pub open spec fn pyramid_successor(t: GisXYZ, last_zoom: u64) -> Option<GisXYZ> {
    if t.y + 1 < pow2(t.z as nat) {
        Some(GisXYZ { x: t.x, y: (t.y + 1) as u64, z: t.z })
    } else if t.x + 1 < pow2(t.z as nat) {
        Some(GisXYZ { x: (t.x + 1) as u64, y: 0, z: t.z })
    } else if t.z < last_zoom {
        Some(GisXYZ { x: 0, y: 0, z: (t.z + 1) as u64 })
    } else {
        None
    }
}

/// The next tile to warm after `t`, or `None` when `t` is the last tile of
/// the pyramid up to zoom `last_zoom`.
pub fn next_tile(t: &GisXYZ, last_zoom: u64) -> (r: Option<GisXYZ>)
    requires
        t.wf(),
        t.z <= last_zoom <= MAX_ZOOM,
    ensures
        r == pyramid_successor(*t, last_zoom),
        r matches Some(u) ==> u.wf(),
{
    let f = zoom_factor(t.z as u32) as u64;
    if t.y + 1 < f {
        Some(GisXYZ { x: t.x, y: t.y + 1, z: t.z })
    } else if t.x + 1 < f {
        Some(GisXYZ { x: t.x + 1, y: 0, z: t.z })
    } else if t.z < last_zoom {
        proof {
            crate::proj::lemma_pow2_positive((t.z + 1) as nat);
        }
        Some(GisXYZ { x: 0, y: 0, z: t.z + 1 })
    } else {
        None
    }
}

} // verus!

//! Tiles of the XYZ scheme and the rendering of vector features onto them.
use vstd::prelude::*;
use vstd::arithmetic::div_mod::lemma_fundamental_div_mod_converse;
use crate::geom::{GisPoint, GisLine, GisRect, rect_crosses_segment, rects_overlap, chain_edges, ring_edges};
use crate::proj::{
    pow2, zoom_scale, lemma_pow2_monotonic, lemma_pow2_max_zoom, MAX_ZOOM,
    TILE_UNITS, PIXEL_UNITS, WORLD_LIMIT,
};
use crate::canvas::{GisImage, GisColor, blank_pixels, line_pixels, png_encoding};

verus! {

/// Width and height of a tile, in pixels.
pub const TILE_SIZE: u32 = 256;

/// A tile address: column `x` and row `y` of the `2^z` by `2^z` grid at zoom `z`.
#[derive(Clone, Copy, Debug, PartialEq, Eq, Structural)]
pub struct GisXYZ {
    pub x: u64,
    pub y: u64,
    pub z: u64,
}

impl GisXYZ {
    pub open spec fn wf(self) -> bool {
        self.z <= MAX_ZOOM && self.x < pow2(self.z as nat) && self.y < pow2(self.z as nat)
    }
}

/// The map layers, each drawn in a fixed colour from a minimum zoom on.
#[derive(Clone, Copy, Debug, PartialEq, Eq, Structural)]
pub enum Layer {
    Country,
    Province,
    City,
    Rail,
    Road,
    River,
}

/// How a layer is drawn.
#[derive(Clone, Copy, Debug, PartialEq, Eq, Structural)]
pub struct LayerStyle {
    pub min_zoom: u64,
    pub color: GisColor,
}

impl Layer {
    pub open spec fn style_spec(self) -> LayerStyle {
        match self {
            Layer::Country => LayerStyle { min_zoom: 0, color: GisColor { r: 255, g: 255, b: 225 } },
            Layer::Province => LayerStyle { min_zoom: 2, color: GisColor { r: 200, g: 200, b: 160 } },
            Layer::City => LayerStyle { min_zoom: 4, color: GisColor { r: 160, g: 160, b: 160 } },
            Layer::Rail => LayerStyle { min_zoom: 6, color: GisColor { r: 200, g: 60, b: 60 } },
            Layer::Road => LayerStyle { min_zoom: 6, color: GisColor { r: 240, g: 170, b: 60 } },
            Layer::River => LayerStyle { min_zoom: 6, color: GisColor { r: 70, g: 130, b: 230 } },
        }
    }

    pub fn style(&self) -> (r: LayerStyle)
        ensures
            r == self.style_spec(),
    {
        match self {
            Layer::Country => LayerStyle { min_zoom: 0, color: GisColor { r: 255, g: 255, b: 225 } },
            Layer::Province => LayerStyle { min_zoom: 2, color: GisColor { r: 200, g: 200, b: 160 } },
            Layer::City => LayerStyle { min_zoom: 4, color: GisColor { r: 160, g: 160, b: 160 } },
            Layer::Rail => LayerStyle { min_zoom: 6, color: GisColor { r: 200, g: 60, b: 60 } },
            Layer::Road => LayerStyle { min_zoom: 6, color: GisColor { r: 240, g: 170, b: 60 } },
            Layer::River => LayerStyle { min_zoom: 6, color: GisColor { r: 70, g: 130, b: 230 } },
        }
    }
}

/// A vector shape in zoom-0 world coordinates with its bounding box: a polygon
/// of closed rings or a polyline of open parts.
pub enum GisShape {
    Polygon { bbox: GisRect, rings: Vec<Vec<GisPoint>> },
    Polyline { bbox: GisRect, parts: Vec<Vec<GisPoint>> },
}

/// A shape and the layer it belongs to.
pub struct GisFeature {
    pub layer: Layer,
    pub shape: GisShape,
}

pub open spec fn in_world(p: GisPoint) -> bool {
    -WORLD_LIMIT <= p.x <= WORLD_LIMIT && -WORLD_LIMIT <= p.y <= WORLD_LIMIT
}

pub open spec fn chains_view(v: Seq<Vec<GisPoint>>) -> Seq<Seq<GisPoint>> {
    v.map_values(|c: Vec<GisPoint>| c@)
}

impl GisShape {
    pub fn bbox(&self) -> (r: GisRect)
        ensures
            r == self.bbox_spec(),
    {
        match self {
            GisShape::Polygon { bbox, .. } => *bbox,
            GisShape::Polyline { bbox, .. } => *bbox,
        }
    }

    pub open spec fn bbox_spec(self) -> GisRect {
        match self {
            GisShape::Polygon { bbox, .. } => bbox,
            GisShape::Polyline { bbox, .. } => bbox,
        }
    }

    pub open spec fn chains(self) -> Seq<Seq<GisPoint>> {
        match self {
            GisShape::Polygon { rings, .. } => chains_view(rings@),
            GisShape::Polyline { parts, .. } => chains_view(parts@),
        }
    }

    pub open spec fn is_closed(self) -> bool {
        self is Polygon
    }

    pub open spec fn wf(self) -> bool {
        &&& in_world(self.bbox_spec().min)
        &&& in_world(self.bbox_spec().max)
        &&& forall|i: int, j: int|
            0 <= i < self.chains().len() && 0 <= j < self.chains()[i].len() ==> in_world(
                #[trigger] self.chains()[i][j],
            )
    }
}

/// The world rectangle of tile `t` at its zoom.
pub open spec fn tile_rect(t: GisXYZ) -> GisRect {
    GisRect {
        min: GisPoint { x: (t.x * TILE_UNITS) as i64, y: (t.y * TILE_UNITS) as i64 },
        max: GisPoint { x: ((t.x + 1) * TILE_UNITS) as i64, y: ((t.y + 1) * TILE_UNITS) as i64 },
    }
}

/// A zoom-0 rectangle scaled to zoom `z`.
pub open spec fn scaled_rect(z: nat, r: GisRect) -> GisRect {
    GisRect {
        min: GisPoint { x: (r.min.x * pow2(z)) as i64, y: (r.min.y * pow2(z)) as i64 },
        max: GisPoint { x: (r.max.x * pow2(z)) as i64, y: (r.max.y * pow2(z)) as i64 },
    }
}

/// A zoom-0 world point in the coordinates of tile `t`, in world units.
pub open spec fn local_point(t: GisXYZ, p: GisPoint) -> GisPoint {
    GisPoint {
        x: (p.x * pow2(t.z as nat) - t.x * TILE_UNITS) as i64,
        y: (p.y * pow2(t.z as nat) - t.y * TILE_UNITS) as i64,
    }
}

/// The tile itself in its own coordinates.
pub open spec fn local_box() -> GisRect {
    GisRect { min: GisPoint { x: 0, y: 0 }, max: GisPoint { x: TILE_UNITS, y: TILE_UNITS } }
}

/// The pixel that holds a tile coordinate given in world units.
pub open spec fn pixel_of(v: int) -> i64 {
    (v / PIXEL_UNITS as int) as i64
}

/// The pixels after the edge `a-b` is offered to tile `t`: the whole edge is
/// drawn when it enters or touches the tile, and nothing otherwise.
pub open spec fn paint_edge(px: Seq<u8>, t: GisXYZ, a: GisPoint, b: GisPoint, c: GisColor) -> Seq<u8> {
    let la = local_point(t, a);
    let lb = local_point(t, b);
    if rect_crosses_segment(local_box(), GisLine { p1: la, p2: lb }) {
        line_pixels(px, TILE_SIZE, TILE_SIZE, pixel_of(la.x as int), pixel_of(la.y as int), pixel_of(lb.x as int), pixel_of(lb.y as int), c)
    } else {
        px
    }
}

pub open spec fn paint_edges(px: Seq<u8>, t: GisXYZ, edges: Seq<(GisPoint, GisPoint)>, c: GisColor) -> Seq<u8>
    decreases edges.len(),
{
    if edges.len() == 0 {
        px
    } else {
        paint_edge(paint_edges(px, t, edges.drop_last(), c), t, edges.last().0, edges.last().1, c)
    }
}

pub open spec fn chain_edges_of(pts: Seq<GisPoint>, closed: bool) -> Seq<(GisPoint, GisPoint)> {
    if closed {
        ring_edges(pts)
    } else {
        chain_edges(pts)
    }
}

pub open spec fn paint_chains(
    px: Seq<u8>,
    t: GisXYZ,
    chains: Seq<Seq<GisPoint>>,
    closed: bool,
    c: GisColor,
) -> Seq<u8>
    decreases chains.len(),
{
    if chains.len() == 0 {
        px
    } else {
        paint_edges(paint_chains(px, t, chains.drop_last(), closed, c), t, chain_edges_of(chains.last(), closed), c)
    }
}

/// Whether tile `t` draws feature `f` at all: its layer is shown at the tile's
/// zoom and its bounding box overlaps the tile.
pub open spec fn feature_drawn(t: GisXYZ, f: GisFeature) -> bool {
    t.z >= f.layer.style_spec().min_zoom && rects_overlap(
        tile_rect(t),
        scaled_rect(t.z as nat, f.shape.bbox_spec()),
    )
}

pub open spec fn paint_feature(px: Seq<u8>, t: GisXYZ, f: GisFeature) -> Seq<u8> {
    if feature_drawn(t, f) {
        paint_chains(px, t, f.shape.chains(), f.shape.is_closed(), f.layer.style_spec().color)
    } else {
        px
    }
}

pub open spec fn paint_features(px: Seq<u8>, t: GisXYZ, fs: Seq<GisFeature>) -> Seq<u8>
    decreases fs.len(),
{
    if fs.len() == 0 {
        px
    } else {
        paint_feature(paint_features(px, t, fs.drop_last()), t, fs.last())
    }
}

/// The pixels of tile `t` with the features `fs` drawn in order.
pub open spec fn tile_pixels(t: GisXYZ, fs: Seq<GisFeature>) -> Seq<u8> {
    paint_features(blank_pixels(TILE_SIZE, TILE_SIZE), t, fs)
}

/// The pixels after a frame is drawn along the tile's border.
pub open spec fn border_pixels(px: Seq<u8>, c: GisColor) -> Seq<u8> {
    let top = line_pixels(px, TILE_SIZE, TILE_SIZE, 0, 0, 255, 0, c);
    let right = line_pixels(top, TILE_SIZE, TILE_SIZE, 255, 0, 255, 255, c);
    let bottom = line_pixels(right, TILE_SIZE, TILE_SIZE, 255, 255, 0, 255, c);
    line_pixels(bottom, TILE_SIZE, TILE_SIZE, 0, 255, 0, 0, c)
}

/// The PNG file of tile `t` with the features `fs` drawn.
pub open spec fn tile_png(t: GisXYZ, fs: Seq<GisFeature>) -> Seq<u8> {
    png_encoding(tile_pixels(t, fs), TILE_SIZE, TILE_SIZE)
}

/// The tile coordinate `v`, in world units, as a pixel coordinate (rounded
/// down).
fn to_pixel(v: i64) -> (r: i64)
    requires
        -0x4000_0000_0000_0000 <= v <= 0x4000_0000_0000_0000,
    ensures
        r == pixel_of(v as int),
        -0x4000_0000_0000_0000 <= r <= 0x4000_0000_0000_0000,
{
    if v >= 0 {
        v / PIXEL_UNITS
    } else {
        let w: i64 = -v;
        let c: i64 = (w + (PIXEL_UNITS - 1)) / PIXEL_UNITS;
        proof {
            let rem = (w + (PIXEL_UNITS - 1)) % (PIXEL_UNITS as int);
            assert(w + (PIXEL_UNITS - 1) == c * PIXEL_UNITS + rem);
            assert(v == (-c) * PIXEL_UNITS + (PIXEL_UNITS - 1 - rem));
            lemma_fundamental_div_mod_converse(v as int, PIXEL_UNITS as int, -c, PIXEL_UNITS - 1 - rem);
        }
        -c
    }
}

/// A tile being rendered: its address, its world rectangle and its raster.
pub struct GisTile {
    image: GisImage,
    index: GisXYZ,
    rect: GisRect,
}

impl GisTile {
    pub closed spec fn wf(&self) -> bool {
        &&& self.index.wf()
        &&& self.rect == tile_rect(self.index)
        &&& self.image.wf()
        &&& self.image.width_spec() == TILE_SIZE
        &&& self.image.height_spec() == TILE_SIZE
    }

    pub closed spec fn index_spec(&self) -> GisXYZ {
        self.index
    }

    pub closed spec fn pixels(&self) -> Seq<u8> {
        self.image.pixels()
    }

    /// A blank tile for `index`.
    pub fn new(index: &GisXYZ) -> (r: GisTile)
        requires
            index.wf(),
        ensures
            r.wf(),
            r.index_spec() == *index,
            r.pixels() == blank_pixels(TILE_SIZE, TILE_SIZE),
    {
        proof {
            lemma_pow2_monotonic(index.z as nat, MAX_ZOOM as nat);
            lemma_pow2_max_zoom();
        }
        let min = GisPoint { x: (index.x as i64) * TILE_UNITS, y: (index.y as i64) * TILE_UNITS };
        let max = GisPoint {
            x: (index.x as i64 + 1) * TILE_UNITS,
            y: (index.y as i64 + 1) * TILE_UNITS,
        };
        GisTile {
            image: GisImage::new(TILE_SIZE, TILE_SIZE),
            index: GisXYZ { x: index.x, y: index.y, z: index.z },
            rect: GisRect { min, max },
        }
    }

    /// The tile as a PNG file.
    pub fn dump(&self) -> (r: Option<Vec<u8>>)
        requires
            self.wf(),
        ensures
            r is Some,
            r matches Some(bytes) ==> bytes@ == png_encoding(self.pixels(), TILE_SIZE, TILE_SIZE),
    {
        self.image.dump()
    }

    /// Frames the tile along its border.
    pub fn draw_border(&mut self, color: GisColor)
        requires
            old(self).wf(),
        ensures
            final(self).wf(),
            final(self).index_spec() == old(self).index_spec(),
            final(self).pixels() == border_pixels(old(self).pixels(), color),
    {
        self.image.draw_line(0, 0, 255, 0, color);
        self.image.draw_line(255, 0, 255, 255, color);
        self.image.draw_line(255, 255, 0, 255, color);
        self.image.draw_line(0, 255, 0, 0, color);
    }

    /// A zoom-0 world point in this tile's coordinates.
    fn to_local(&self, p: &GisPoint) -> (r: GisPoint)
        requires
            self.wf(),
            in_world(*p),
        ensures
            r == local_point(self.index, *p),
            r.in_range(),
    {
        let z = self.index.z as u32;
        let px = zoom_scale(p.x, z);
        let py = zoom_scale(p.y, z);
        proof {
            lemma_pow2_monotonic(z as nat, MAX_ZOOM as nat);
            lemma_pow2_max_zoom();
        }
        GisPoint { x: px - self.rect.min.x, y: py - self.rect.min.y }
    }

    /// Draws the edge between two zoom-0 world points when it enters or
    /// touches the tile; the edge is drawn whole, never clipped.
    pub fn draw_line(&mut self, p1: &GisPoint, p2: &GisPoint, color: GisColor)
        requires
            old(self).wf(),
            in_world(*p1),
            in_world(*p2),
        ensures
            final(self).wf(),
            final(self).index_spec() == old(self).index_spec(),
            final(self).pixels() == paint_edge(old(self).pixels(), old(self).index_spec(), *p1, *p2, color),
    {
        let a = self.to_local(p1);
        let b = self.to_local(p2);
        let line = GisLine { p1: a, p2: b };
        let rect = GisRect { min: GisPoint { x: 0, y: 0 }, max: GisPoint { x: TILE_UNITS, y: TILE_UNITS } };
        if rect.cross(&line) {
            let x1 = to_pixel(a.x);
            let y1 = to_pixel(a.y);
            let x2 = to_pixel(b.x);
            let y2 = to_pixel(b.y);
            self.image.draw_line(x1, y1, x2, y2, color);
        }
    }

    /// Draws a closed ring: the closing edge from the last point to the first,
    /// then each edge between consecutive points.
    pub fn draw_polygon(&mut self, polygon: &[GisPoint], color: GisColor)
        requires
            old(self).wf(),
            forall|j: int| 0 <= j < polygon@.len() ==> in_world(#[trigger] polygon@[j]),
        ensures
            final(self).wf(),
            final(self).index_spec() == old(self).index_spec(),
            final(self).pixels() == paint_edges(old(self).pixels(), old(self).index_spec(), ring_edges(polygon@), color),
    {
        if polygon.len() < 2 {
            return;
        }
        let ghost px0 = self.pixels();
        let ghost edges = ring_edges(polygon@);
        let n = polygon.len();
        self.draw_line(&polygon[n - 1], &polygon[0], color);
        assert(edges.take(1).drop_last() =~= edges.take(0));
        assert(edges.take(1).last() == edges[0]);
        assert(edges[0] == (polygon@[n - 1], polygon@[0]));
        assert(paint_edges(px0, self.index_spec(), edges.take(0), color) == px0);
        let mut i: usize = 1;
        while i < n
            invariant
                1 <= i <= n,
                n == polygon@.len(),
                n >= 2,
                edges == ring_edges(polygon@),
                forall|j: int| 0 <= j < polygon@.len() ==> in_world(#[trigger] polygon@[j]),
                self.wf(),
                self.index_spec() == old(self).index_spec(),
                px0 == old(self).pixels(),
                self.pixels() == paint_edges(px0, self.index_spec(), edges.take(i as int), color),
            decreases n - i,
        {
            self.draw_line(&polygon[i - 1], &polygon[i], color);
            assert(edges.take(i as int + 1).drop_last() =~= edges.take(i as int));
            i = i + 1;
        }
        assert(edges.take(n as int) =~= edges);
    }

    /// Draws an open chain: each edge between consecutive points.
    pub fn draw_polyline(&mut self, polyline: &[GisPoint], color: GisColor)
        requires
            old(self).wf(),
            forall|j: int| 0 <= j < polyline@.len() ==> in_world(#[trigger] polyline@[j]),
        ensures
            final(self).wf(),
            final(self).index_spec() == old(self).index_spec(),
            final(self).pixels() == paint_edges(old(self).pixels(), old(self).index_spec(), chain_edges(polyline@), color),
    {
        if polyline.len() < 2 {
            return;
        }
        let ghost px0 = self.pixels();
        let ghost edges = chain_edges(polyline@);
        let n = polyline.len();
        assert(edges.take(0) =~= Seq::<(GisPoint, GisPoint)>::empty());
        let mut i: usize = 1;
        while i < n
            invariant
                1 <= i <= n,
                n == polyline@.len(),
                n >= 2,
                edges == chain_edges(polyline@),
                forall|j: int| 0 <= j < polyline@.len() ==> in_world(#[trigger] polyline@[j]),
                self.wf(),
                self.index_spec() == old(self).index_spec(),
                px0 == old(self).pixels(),
                self.pixels() == paint_edges(px0, self.index_spec(), edges.take(i - 1), color),
            decreases n - i,
        {
            self.draw_line(&polyline[i - 1], &polyline[i], color);
            assert(edges.take(i as int).drop_last() =~= edges.take(i - 1));
            i = i + 1;
        }
        assert(edges.take(n - 1) =~= edges);
    }

    /// Whether a zoom-0 bounding box overlaps the tile.
    pub fn intersection(&self, rect: &GisRect) -> (r: bool)
        requires
            self.wf(),
            in_world(rect.min),
            in_world(rect.max),
        ensures
            r == rects_overlap(tile_rect(self.index_spec()), scaled_rect(self.index_spec().z as nat, *rect)),
    {
        let z = self.index.z as u32;
        let min = GisPoint { x: zoom_scale(rect.min.x, z), y: zoom_scale(rect.min.y, z) };
        let max = GisPoint { x: zoom_scale(rect.max.x, z), y: zoom_scale(rect.max.y, z) };
        let scaled = GisRect { min, max };
        self.rect.intersection(&scaled)
    }
}

fn draw_chains(tile: &mut GisTile, chains: &Vec<Vec<GisPoint>>, closed: bool, color: GisColor)
    requires
        old(tile).wf(),
        forall|i: int, j: int|
            0 <= i < chains_view(chains@).len() && 0 <= j < chains_view(chains@)[i].len() ==> in_world(
                #[trigger] chains_view(chains@)[i][j],
            ),
    ensures
        final(tile).wf(),
        final(tile).index_spec() == old(tile).index_spec(),
        final(tile).pixels() == paint_chains(old(tile).pixels(), old(tile).index_spec(), chains_view(chains@), closed, color),
{
    let ghost px0 = tile.pixels();
    let ghost cs = chains_view(chains@);
    assert(cs.take(0) =~= Seq::<Seq<GisPoint>>::empty());
    let mut m: usize = 0;
    while m < chains.len()
        invariant
            m <= chains@.len(),
            cs == chains_view(chains@),
            forall|i: int, j: int|
                0 <= i < cs.len() && 0 <= j < cs[i].len() ==> in_world(#[trigger] cs[i][j]),
            tile.wf(),
            tile.index_spec() == old(tile).index_spec(),
            px0 == old(tile).pixels(),
            tile.pixels() == paint_chains(px0, tile.index_spec(), cs.take(m as int), closed, color),
        decreases chains@.len() - m,
    {
        let chain = chains[m].as_slice();
        assert(chain@ == cs[m as int]);
        assert forall|j: int| 0 <= j < chain@.len() implies in_world(#[trigger] chain@[j]) by {
            assert(cs[m as int][j] == chain@[j]);
        }
        if closed {
            tile.draw_polygon(chain, color);
        } else {
            tile.draw_polyline(chain, color);
        }
        assert(cs.take(m as int + 1).drop_last() =~= cs.take(m as int));
        m = m + 1;
    }
    assert(cs.take(chains@.len() as int) =~= cs);
}

/// Renders the features, in order, onto tile `index` and encodes the tile as
/// PNG.
pub fn draw_tile(index: &GisXYZ, features: &Vec<GisFeature>) -> (r: Option<Vec<u8>>)
    requires
        index.wf(),
        forall|i: int| 0 <= i < features@.len() ==> (#[trigger] features@[i]).shape.wf(),
    ensures
        r is Some,
        r matches Some(bytes) ==> bytes@ == tile_png(*index, features@),
{
    let mut tile = GisTile::new(index);
    let ghost fs = features@;
    assert(fs.take(0) =~= Seq::<GisFeature>::empty());
    let mut k: usize = 0;
    while k < features.len()
        invariant
            k <= fs.len(),
            fs == features@,
            index.wf(),
            forall|i: int| 0 <= i < fs.len() ==> (#[trigger] fs[i]).shape.wf(),
            tile.wf(),
            tile.index_spec() == *index,
            tile.pixels() == paint_features(blank_pixels(TILE_SIZE, TILE_SIZE), *index, fs.take(k as int)),
        decreases fs.len() - k,
    {
        let f = &features[k];
        let style = f.layer.style();
        let bbox = f.shape.bbox();
        assert(f.shape.wf());
        if index.z >= style.min_zoom && tile.intersection(&bbox) {
            match &f.shape {
                GisShape::Polygon { rings, .. } => {
                    assert(f.shape.chains() == chains_view(rings@));
                    draw_chains(&mut tile, rings, true, style.color);
                },
                GisShape::Polyline { parts, .. } => {
                    assert(f.shape.chains() == chains_view(parts@));
                    draw_chains(&mut tile, parts, false, style.color);
                },
            }
        }
        assert(fs.take(k as int + 1).drop_last() =~= fs.take(k as int));
        k = k + 1;
    }
    assert(fs.take(fs.len() as int) =~= fs);
    tile.dump()
}

/// A feature whose bounding box does not overlap the tile, or whose layer is
/// not shown at the tile's zoom, changes no pixel of it.
pub proof fn lemma_culled_feature_draws_nothing(px: Seq<u8>, t: GisXYZ, f: GisFeature)
    requires
        !rects_overlap(tile_rect(t), scaled_rect(t.z as nat, f.shape.bbox_spec()))
            || t.z < f.layer.style_spec().min_zoom,
    ensures
        paint_feature(px, t, f) == px,
{
}

/// Adding a feature whose bounding box does not overlap the tile leaves the
/// rendered tile as it was.
pub proof fn lemma_culled_feature_leaves_tile(t: GisXYZ, fs: Seq<GisFeature>, f: GisFeature)
    requires
        !rects_overlap(tile_rect(t), scaled_rect(t.z as nat, f.shape.bbox_spec())),
    ensures
        tile_pixels(t, fs.push(f)) == tile_pixels(t, fs),
        tile_png(t, fs.push(f)) == tile_png(t, fs),
{
    assert(fs.push(f).drop_last() =~= fs);
}

} // verus!

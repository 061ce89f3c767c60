//! The pyramid planner: level geometry, output file-count prediction, and
//! the search for a tile size and zoom depth that keep the predicted count
//! under a budget.
//!
//! A plan lists `zoom_levels + 1` levels.  Level `i` (most reduced first)
//! has scale factor `2^(zoom_levels - i)` and pixel size
//! `ceil(dim / scale)` in both axes; the last level is the native
//! resolution with scale factor 1.

use crate::iiif_image::IIIFImage;
use crate::iiif_image::MAX_DIM;
use vstd::prelude::*;

verus! {

/// Largest accepted zoom depth: `2^MAX_ZOOM` still fits comfortably in
/// `i32` beside the dimensions it divides.
pub const MAX_ZOOM: i32 = 28;

/// `2^e`.
pub open spec fn pow2(e: nat) -> nat
    decreases e,
{
    if e == 0 {
        1
    } else {
        2 * pow2((e - 1) as nat)
    }
}

/// Ceiling division for `a >= 0`, `b >= 1`.
pub open spec fn ceil_div(a: int, b: int) -> int {
    (a + b - 1) / b
}

pub proof fn lemma_pow2_pos(e: nat)
    ensures
        pow2(e) >= 1,
    decreases e,
{
    if e > 0 {
        lemma_pow2_pos((e - 1) as nat);
    }
}

pub proof fn lemma_pow2_monotone(a: nat, b: nat)
    requires
        a <= b,
    ensures
        pow2(a) <= pow2(b),
    decreases b,
{
    if a < b {
        lemma_pow2_monotone(a, (b - 1) as nat);
        lemma_pow2_pos((b - 1) as nat);
    }
}

pub proof fn lemma_pow2_max_zoom()
    ensures
        pow2(MAX_ZOOM as nat) == MAX_DIM as int,
{
    reveal_with_fuel(pow2, 32);
}

/// `2^e` as an `i32`.
pub fn pow2_i32(e: i32) -> (r: i32)
    requires
        0 <= e <= MAX_ZOOM,
    ensures
        r as int == pow2(e as nat),
{
    let mut r: i32 = 1;
    let mut i: i32 = 0;
    while i < e
        invariant
            0 <= i <= e <= MAX_ZOOM,
            r as int == pow2(i as nat),
        decreases e - i,
    {
        proof {
            lemma_pow2_max_zoom();
            lemma_pow2_monotone((i + 1) as nat, MAX_ZOOM as nat);
        }
        r = r * 2;
        i = i + 1;
    }
    r
}

/// Ceiling division on machine integers.
pub fn ceil_div_i32(a: i32, b: i32) -> (r: i32)
    requires
        0 <= a,
        1 <= b,
        a + b <= i32::MAX,
    ensures
        r as int == ceil_div(a as int, b as int),
        0 <= r <= a,
{
    proof {
        let ai = a as int;
        let bi = b as int;
        assert(0 <= (ai + bi - 1) / bi <= ai) by (nonlinear_arith)
            requires
                0 <= ai && 1 <= bi,
        ;
    }
    (a + b - 1) / b
}

/// The scale factor of level `i` of a pyramid with `zoom` reductions.
pub open spec fn spec_scale_factor(zoom: int, i: int) -> int {
    pow2((zoom - i) as nat) as int
}

/// The scale factors, most reduced first, ending in 1.
pub open spec fn spec_factors(zoom: int) -> Seq<int> {
    Seq::new((zoom + 1) as nat, |i: int| spec_scale_factor(zoom, i))
}

/// The pixel size of a level whose scale factor is `s`: ceiling division
/// in both axes, so a level is never smaller than the exact downscale.
pub open spec fn spec_level_size(w: int, h: int, s: int) -> (int, int) {
    (ceil_div(w, s), ceil_div(h, s))
}

/// The level sizes, parallel to `spec_factors(zoom)`.
pub open spec fn spec_sizes(w: int, h: int, zoom: int) -> Seq<(int, int)> {
    Seq::new((zoom + 1) as nat, |i: int| spec_level_size(w, h, spec_scale_factor(zoom, i)))
}

/// Whether the predictor sees level `t` (counted from the native end,
/// scale `2^t`) as fitting inside a single tile: its floored size is
/// strictly below the tile size in both axes.
pub open spec fn spec_single_tile_level(w: int, h: int, tw: int, th: int, t: int) -> bool {
    let s = pow2(t as nat) as int;
    w / s < tw && h / s < th
}

/// The tile-grid size of the level with scale factor `2^t`: columns and
/// rows both partition the floored level dimension.
pub open spec fn spec_level_grid(w: int, h: int, tw: int, th: int, t: int) -> int {
    let s = pow2(t as nat) as int;
    ceil_div(w / s, tw) * ceil_div(h / s, th)
}

/// The grid sizes of the levels with scale `2^0 .. 2^(k-1)`, summed: the
/// level range the predictor walks.
pub open spec fn spec_grid_total(w: int, h: int, tw: int, th: int, k: int) -> int
    decreases k,
{
    if k <= 0 {
        0
    } else {
        spec_grid_total(w, h, tw, th, k - 1) + spec_level_grid(w, h, tw, th, k - 1)
    }
}

/// Filesystem entries the predictor charges to level `t`: the tile grid
/// uses floored level dimensions, and each tile costs 4 entries (three
/// path-segment directories and the image file), or 3 when the level fits
/// in one tile, whose region directory is shared between such levels.
pub open spec fn spec_level_files(w: int, h: int, tw: int, th: int, t: int) -> int {
    let n = spec_level_grid(w, h, tw, th, t);
    if spec_single_tile_level(w, h, tw, th, t) {
        n * 3
    } else {
        n * 4
    }
}

/// Entries charged to the levels with scale `2^0 .. 2^(k-1)`.
pub open spec fn spec_tile_files(w: int, h: int, tw: int, th: int, k: int) -> int
    decreases k,
{
    if k <= 0 {
        0
    } else {
        spec_tile_files(w, h, tw, th, k - 1) + spec_level_files(w, h, tw, th, k - 1)
    }
}

/// Whether any of the levels with scale `2^0 .. 2^(k-1)` fits in one tile.
pub open spec fn spec_any_single_tile(w: int, h: int, tw: int, th: int, k: int) -> bool
    decreases k,
{
    if k <= 0 {
        false
    } else {
        spec_any_single_tile(w, h, tw, th, k - 1) || spec_single_tile_level(w, h, tw, th, k - 1)
    }
}

/// The predicted total output count for an image of `w x h` pixels, zoom
/// depth `zoom` and tile size `tw x th`: the per-level tile entries, one
/// shared region directory if any level fits in one tile, the full-size
/// renders with their directories and the canonical alias
/// (`(zoom + 2) * 3 + 4`), the manifest, and the containing directory.
pub open spec fn spec_file_count(w: int, h: int, zoom: int, tw: int, th: int) -> int {
    spec_tile_files(w, h, tw, th, zoom) + (if spec_any_single_tile(w, h, tw, th, zoom) {
        1int
    } else {
        0int
    }) + ((zoom + 2) * 3) + 4 + 1 + 1
}

pub proof fn lemma_level_files_nonneg(w: int, h: int, tw: int, th: int, t: int)
    requires
        w >= 0,
        h >= 0,
        tw >= 1,
        th >= 1,
        t >= 0,
    ensures
        spec_level_files(w, h, tw, th, t) >= 0,
{
    let s = pow2(t as nat) as int;
    lemma_pow2_pos(t as nat);
    assert(w / s >= 0 && h / s >= 0) by (nonlinear_arith)
        requires
            w >= 0 && h >= 0 && s >= 1,
    ;
    let a = w / s;
    let b = h / s;
    assert(ceil_div(a, tw) >= 0 && ceil_div(b, th) >= 0) by (nonlinear_arith)
        requires
            a >= 0 && b >= 0 && tw >= 1 && th >= 1,
    ;
    assert(ceil_div(a, tw) * ceil_div(b, th) >= 0) by (nonlinear_arith)
        requires
            ceil_div(a, tw) >= 0 && ceil_div(b, th) >= 0,
    ;
}

/// Prefixes of the per-level sum never exceed the whole sum.
pub proof fn lemma_tile_files_monotone(w: int, h: int, tw: int, th: int, k1: int, k2: int)
    requires
        w >= 0,
        h >= 0,
        tw >= 1,
        th >= 1,
        0 <= k1 <= k2,
    ensures
        spec_tile_files(w, h, tw, th, k1) <= spec_tile_files(w, h, tw, th, k2),
    decreases k2,
{
    if k1 < k2 {
        lemma_tile_files_monotone(w, h, tw, th, k1, k2 - 1);
        lemma_level_files_nonneg(w, h, tw, th, k2 - 1);
    }
}

pub proof fn lemma_tile_files_nonneg(w: int, h: int, tw: int, th: int, k: int)
    requires
        w >= 0,
        h >= 0,
        tw >= 1,
        th >= 1,
        0 <= k,
    ensures
        spec_tile_files(w, h, tw, th, k) >= 0,
{
    lemma_tile_files_monotone(w, h, tw, th, 0, k);
}

/// A pyramid plan over a borrowed source image: the configured tile size
/// and zoom depth, and the derived scale factors and level sizes.
///
/// The derived lists are recomputed by the constructors, by
/// `fit_to_zoom_level` and by `fit_to_max_file_no`; a setter leaves them
/// untouched, so geometry must be refreshed before it is consumed
/// (`geometry_fresh`).
pub struct ImageInfo<'a> {
    tile_width: i32,
    tile_height: i32,
    zoom_levels: i32,
    image: &'a IIIFImage,
    scale_factors: Vec<i32>,
    sizes: Vec<(i32, i32)>,
}

impl<'a> ImageInfo<'a> {
    pub closed spec fn spec_tile_width(&self) -> int {
        self.tile_width as int
    }

    pub closed spec fn spec_tile_height(&self) -> int {
        self.tile_height as int
    }

    pub closed spec fn spec_zoom_levels(&self) -> int {
        self.zoom_levels as int
    }

    pub closed spec fn spec_width(&self) -> int {
        self.image.spec_width()
    }

    pub closed spec fn spec_height(&self) -> int {
        self.image.spec_height()
    }

    pub closed spec fn spec_id(&self) -> Seq<char> {
        self.image.spec_id()
    }

    pub closed spec fn spec_scale_factors(&self) -> Seq<int> {
        self.scale_factors@.map_values(|v: i32| v as int)
    }

    pub closed spec fn spec_sizes(&self) -> Seq<(int, int)> {
        self.sizes@.map_values(|p: (i32, i32)| (p.0 as int, p.1 as int))
    }

    /// Configuration and image dimensions are in range for the planner's
    /// `i32` arithmetic.
    pub open spec fn wf(&self) -> bool {
        &&& 1 <= self.spec_tile_width() <= MAX_DIM as int
        &&& 1 <= self.spec_tile_height() <= MAX_DIM as int
        &&& 0 <= self.spec_zoom_levels() <= MAX_ZOOM as int
        &&& 1 <= self.spec_width() <= MAX_DIM as int
        &&& 1 <= self.spec_height() <= MAX_DIM as int
    }

    /// The derived lists match the configuration: no stale geometry.
    pub open spec fn geometry_fresh(&self) -> bool {
        &&& self.spec_scale_factors() == spec_factors(self.spec_zoom_levels())
        &&& self.spec_sizes() == spec_sizes(
            self.spec_width(),
            self.spec_height(),
            self.spec_zoom_levels(),
        )
    }

    /// The configuration (not the derived lists) of the two plans agrees.
    pub open spec fn same_config(&self, other: &ImageInfo<'a>) -> bool {
        &&& self.spec_tile_width() == other.spec_tile_width()
        &&& self.spec_tile_height() == other.spec_tile_height()
        &&& self.spec_zoom_levels() == other.spec_zoom_levels()
        &&& self.spec_width() == other.spec_width()
        &&& self.spec_height() == other.spec_height()
        &&& self.spec_id() == other.spec_id()
    }

    /// The two plans read the same source image.
    pub open spec fn same_image(&self, other: &ImageInfo<'a>) -> bool {
        &&& self.spec_width() == other.spec_width()
        &&& self.spec_height() == other.spec_height()
        &&& self.spec_id() == other.spec_id()
    }

    /// A plan with the given tile size and zoom depth, geometry derived.
    pub fn new(image: &'a IIIFImage, tile_width: i32, tile_height: i32, zoom_level: i32) -> (r:
        ImageInfo<'a>)
        requires
            image.wf(),
            1 <= tile_width <= MAX_DIM,
            1 <= tile_height <= MAX_DIM,
            0 <= zoom_level <= MAX_ZOOM,
        ensures
            r.wf(),
            r.geometry_fresh(),
            r.spec_tile_width() == tile_width as int,
            r.spec_tile_height() == tile_height as int,
            r.spec_zoom_levels() == zoom_level as int,
            r.spec_width() == image.spec_width(),
            r.spec_height() == image.spec_height(),
            r.spec_id() == image.spec_id(),
    {
        let mut info = ImageInfo {
            image,
            tile_width,
            tile_height,
            zoom_levels: zoom_level,
            scale_factors: Vec::new(),
            sizes: Vec::new(),
        };
        info.initialize_image_info();
        info
    }

    /// A plan with the conventional defaults: square 1024-pixel tiles and
    /// five reductions.
    pub fn from_image(image: &'a IIIFImage) -> (r: ImageInfo<'a>)
        requires
            image.wf(),
        ensures
            r.wf(),
            r.geometry_fresh(),
            r.spec_tile_width() == 1024,
            r.spec_tile_height() == 1024,
            r.spec_zoom_levels() == 5,
            r.spec_width() == image.spec_width(),
            r.spec_height() == image.spec_height(),
            r.spec_id() == image.spec_id(),
    {
        ImageInfo::new(image, 1024, 1024, 5)
    }

    /// Rederives the scale factors and level sizes from the current
    /// configuration.
    fn initialize_image_info(&mut self)
        requires
            old(self).wf(),
        ensures
            final(self).wf(),
            final(self).geometry_fresh(),
            final(self).same_config(old(self)),
    {
        let zoom = self.zoom_levels;
        let w = self.image.get_width();
        let h = self.image.get_height();
        let mut factors: Vec<i32> = Vec::new();
        let mut level_sizes: Vec<(i32, i32)> = Vec::new();
        let mut i: i32 = zoom;
        while i >= 0
            invariant
                -1 <= i <= zoom <= MAX_ZOOM,
                1 <= w <= MAX_DIM,
                1 <= h <= MAX_DIM,
                factors@.len() == zoom - i,
                level_sizes@.len() == zoom - i,
                forall|idx: int|
                    0 <= idx < factors@.len() ==> factors@[idx] as int == spec_scale_factor(
                        zoom as int,
                        idx,
                    ),
                forall|idx: int|
                    0 <= idx < level_sizes@.len() ==> (
                    level_sizes@[idx].0 as int,
                    level_sizes@[idx].1 as int,
                ) == spec_level_size(w as int, h as int, spec_scale_factor(zoom as int, idx)),
            decreases i + 1,
        {
            proof {
                lemma_pow2_pos(i as nat);
                lemma_pow2_monotone(i as nat, MAX_ZOOM as nat);
                lemma_pow2_max_zoom();
            }
            let scale = pow2_i32(i);
            let lw = ceil_div_i32(w, scale);
            let lh = ceil_div_i32(h, scale);
            level_sizes.push((lw, lh));
            factors.push(scale);
            i = i - 1;
        }
        self.scale_factors = factors;
        self.sizes = level_sizes;
        proof {
            assert(self.spec_scale_factors() =~= spec_factors(zoom as int));
            assert(self.spec_sizes() =~= spec_sizes(w as int, h as int, zoom as int));
        }
    }

    /// Rederives the geometry after a batch of setter calls.
    pub fn fit_to_zoom_level(&mut self)
        requires
            old(self).wf(),
        ensures
            final(self).wf(),
            final(self).geometry_fresh(),
            final(self).same_config(old(self)),
    {
        self.initialize_image_info();
    }

    pub fn id(&self) -> (r: String)
        ensures
            r@ == self.spec_id(),
    {
        self.image.id()
    }

    /// The scale factors, most reduced first, ending in 1 when fresh.
    pub fn get_scale_factors(&self) -> (r: Vec<i32>)
        ensures
            r@.map_values(|v: i32| v as int) == self.spec_scale_factors(),
    {
        let mut out: Vec<i32> = Vec::new();
        let mut idx: usize = 0;
        while idx < self.scale_factors.len()
            invariant
                0 <= idx <= self.scale_factors.len(),
                out@ == self.scale_factors@.take(idx as int),
            decreases self.scale_factors.len() - idx,
        {
            out.push(self.scale_factors[idx]);
            idx = idx + 1;
            proof {
                assert(out@ =~= self.scale_factors@.take(idx as int));
            }
        }
        proof {
            assert(out@ =~= self.scale_factors@);
        }
        out
    }

    /// The level sizes, parallel to the scale factors.
    pub fn get_sizes(&self) -> (r: Vec<(i32, i32)>)
        ensures
            r@.map_values(|p: (i32, i32)| (p.0 as int, p.1 as int)) == self.spec_sizes(),
    {
        let mut out: Vec<(i32, i32)> = Vec::new();
        let mut idx: usize = 0;
        while idx < self.sizes.len()
            invariant
                0 <= idx <= self.sizes.len(),
                out@ == self.sizes@.take(idx as int),
            decreases self.sizes.len() - idx,
        {
            out.push(self.sizes[idx]);
            idx = idx + 1;
            proof {
                assert(out@ =~= self.sizes@.take(idx as int));
            }
        }
        proof {
            assert(out@ =~= self.sizes@);
        }
        out
    }

    pub fn get_width(&self) -> (r: i32)
        ensures
            r as int == self.spec_width(),
    {
        self.image.get_width()
    }

    pub fn get_height(&self) -> (r: i32)
        ensures
            r as int == self.spec_height(),
    {
        self.image.get_height()
    }

    pub fn get_tile_width(&self) -> (r: i32)
        ensures
            r as int == self.spec_tile_width(),
    {
        self.tile_width
    }

    /// Sets the tile width; the derived geometry goes stale until
    /// `fit_to_zoom_level` rederives it.
    pub fn set_tile_width(&mut self, p_tile_width: i32)
        requires
            1 <= p_tile_width <= MAX_DIM,
        ensures
            final(self).spec_tile_width() == p_tile_width as int,
            final(self).spec_tile_height() == old(self).spec_tile_height(),
            final(self).spec_zoom_levels() == old(self).spec_zoom_levels(),
            final(self).same_image(old(self)),
            final(self).spec_scale_factors() == old(self).spec_scale_factors(),
            final(self).spec_sizes() == old(self).spec_sizes(),
    {
        self.tile_width = p_tile_width;
    }

    pub fn get_tile_height(&self) -> (r: i32)
        ensures
            r as int == self.spec_tile_height(),
    {
        self.tile_height
    }

    /// Sets the tile height; the derived geometry goes stale until
    /// `fit_to_zoom_level` rederives it.
    pub fn set_tile_height(&mut self, p_tile_height: i32)
        requires
            1 <= p_tile_height <= MAX_DIM,
        ensures
            final(self).spec_tile_height() == p_tile_height as int,
            final(self).spec_tile_width() == old(self).spec_tile_width(),
            final(self).spec_zoom_levels() == old(self).spec_zoom_levels(),
            final(self).same_image(old(self)),
            final(self).spec_scale_factors() == old(self).spec_scale_factors(),
            final(self).spec_sizes() == old(self).spec_sizes(),
    {
        self.tile_height = p_tile_height;
    }

    pub fn get_zoom_level(&self) -> (r: i32)
        ensures
            r as int == self.spec_zoom_levels(),
    {
        self.zoom_levels
    }

    /// Sets the zoom depth; the derived geometry goes stale until
    /// `fit_to_zoom_level` rederives it.
    pub fn set_zoom_level(&mut self, p_zoom_level: i32)
        requires
            0 <= p_zoom_level <= MAX_ZOOM,
        ensures
            final(self).spec_zoom_levels() == p_zoom_level as int,
            final(self).spec_tile_width() == old(self).spec_tile_width(),
            final(self).spec_tile_height() == old(self).spec_tile_height(),
            final(self).same_image(old(self)),
            final(self).spec_scale_factors() == old(self).spec_scale_factors(),
            final(self).spec_sizes() == old(self).spec_sizes(),
    {
        self.zoom_levels = p_zoom_level;
    }

    /// The source image the plan was made for.
    pub fn get_image(&self) -> (r: &'a IIIFImage)
        ensures
            r.spec_width() == self.spec_width(),
            r.spec_height() == self.spec_height(),
            r.spec_id() == self.spec_id(),
    {
        self.image
    }

    /// The predicted output count for the configured tile size and zoom.
    pub fn calculate_file_count(&self) -> (r: i32)
        requires
            self.wf(),
            spec_file_count(
                self.spec_width(),
                self.spec_height(),
                self.spec_zoom_levels(),
                self.spec_tile_width(),
                self.spec_tile_height(),
            ) <= i32::MAX,
        ensures
            r as int == spec_file_count(
                self.spec_width(),
                self.spec_height(),
                self.spec_zoom_levels(),
                self.spec_tile_width(),
                self.spec_tile_height(),
            ),
    {
        self._calculate_file_count(self.zoom_levels, self.tile_width, self.tile_height)
    }

    /// The predicted output count for an arbitrary zoom depth and tile
    /// size, without touching the plan.
    pub fn _calculate_file_count(&self, p_zoom: i32, p_tile_width: i32, p_tile_height: i32) -> (r:
        i32)
        requires
            self.wf(),
            0 <= p_zoom <= MAX_ZOOM,
            1 <= p_tile_width <= MAX_DIM,
            1 <= p_tile_height <= MAX_DIM,
            spec_file_count(
                self.spec_width(),
                self.spec_height(),
                p_zoom as int,
                p_tile_width as int,
                p_tile_height as int,
            ) <= i32::MAX,
        ensures
            r as int == spec_file_count(
                self.spec_width(),
                self.spec_height(),
                p_zoom as int,
                p_tile_width as int,
                p_tile_height as int,
            ),
    {
        let w = self.image.get_width();
        let h = self.image.get_height();
        let ghost wi = w as int;
        let ghost hi = h as int;
        let ghost twi = p_tile_width as int;
        let ghost thi = p_tile_height as int;
        let mut t_file_count: i32 = 0;
        let mut reached_multiple_fullsized_tile = false;
        let mut t_zoom: i32 = 0;
        while t_zoom < p_zoom
            invariant
                0 <= t_zoom <= p_zoom <= MAX_ZOOM,
                1 <= w <= MAX_DIM,
                1 <= h <= MAX_DIM,
                1 <= p_tile_width <= MAX_DIM,
                1 <= p_tile_height <= MAX_DIM,
                wi == w as int && hi == h as int && twi == p_tile_width as int && thi
                    == p_tile_height as int,
                spec_file_count(wi, hi, p_zoom as int, twi, thi) <= i32::MAX,
                t_file_count as int == spec_tile_files(wi, hi, twi, thi, t_zoom as int),
                reached_multiple_fullsized_tile == spec_any_single_tile(
                    wi,
                    hi,
                    twi,
                    thi,
                    t_zoom as int,
                ),
            decreases p_zoom - t_zoom,
        {
            let ghost ti = t_zoom as int;
            let t_zoom_factor = pow2_i32(t_zoom);
            proof {
                lemma_pow2_pos(t_zoom as nat);
                assert(0 <= wi / (t_zoom_factor as int) <= wi && 0 <= hi / (t_zoom_factor as int)
                    <= hi) by (nonlinear_arith)
                    requires
                        wi >= 0 && hi >= 0 && t_zoom_factor as int >= 1,
                ;
            }
            let t_width = w / t_zoom_factor;
            let t_height = h / t_zoom_factor;
            let t_tile_x_count = ceil_div_i32(t_width, p_tile_width);
            let t_tile_y_count = ceil_div_i32(t_height, p_tile_height);
            proof {
                let xi = t_tile_x_count as int;
                let yi = t_tile_y_count as int;
                assert(xi * yi >= 0) by (nonlinear_arith)
                    requires
                        xi >= 0 && yi >= 0,
                ;
                lemma_tile_files_monotone(wi, hi, twi, thi, ti + 1, p_zoom as int);
                lemma_tile_files_nonneg(wi, hi, twi, thi, ti);
                lemma_level_files_nonneg(wi, hi, twi, thi, ti);
            }
            if t_width < p_tile_width && t_height < p_tile_height {
                t_file_count = t_file_count + t_tile_x_count * t_tile_y_count * 3;
                reached_multiple_fullsized_tile = true;
            } else {
                t_file_count = t_file_count + t_tile_x_count * t_tile_y_count * 4;
            }
            t_zoom = t_zoom + 1;
        }
        if reached_multiple_fullsized_tile {
            t_file_count = t_file_count + 1;
        }
        t_file_count = t_file_count + ((p_zoom + 2) * 3) + 4;
        t_file_count = t_file_count + 1;
        t_file_count = t_file_count + 1;
        t_file_count
    }
}

/// Every scale factor of a pyramid with `0 <= zoom <= MAX_ZOOM`
/// reductions lies between 1 and `MAX_DIM`.
pub proof fn lemma_factor_bounds(zoom: int)
    requires
        0 <= zoom <= MAX_ZOOM as int,
    ensures
        forall|i: int|
            0 <= i < spec_factors(zoom).len() ==> 1 <= #[trigger] spec_factors(zoom)[i]
                <= MAX_DIM as int,
{
    assert forall|i: int| 0 <= i < spec_factors(zoom).len() implies 1 <= #[trigger] spec_factors(
        zoom,
    )[i] <= MAX_DIM as int by {
        lemma_pow2_pos((zoom - i) as nat);
        lemma_pow2_monotone((zoom - i) as nat, MAX_ZOOM as nat);
        lemma_pow2_max_zoom();
    }
}

/// Every level size of a pyramid over a well-formed image lies between 0
/// and the image dimension.
pub proof fn lemma_size_bounds(w: int, h: int, zoom: int)
    requires
        w >= 1,
        h >= 1,
        0 <= zoom,
    ensures
        forall|i: int|
            0 <= i < spec_sizes(w, h, zoom).len() ==> 0 <= #[trigger] spec_sizes(w, h, zoom)[i].0
                <= w && 0 <= spec_sizes(w, h, zoom)[i].1 <= h,
{
    assert forall|i: int| 0 <= i < spec_sizes(w, h, zoom).len() implies 0 <= #[trigger] spec_sizes(
        w,
        h,
        zoom,
    )[i].0 <= w && 0 <= spec_sizes(w, h, zoom)[i].1 <= h by {
        let s = spec_scale_factor(zoom, i);
        lemma_pow2_pos((zoom - i) as nat);
        assert(0 <= (w + s - 1) / s <= w && 0 <= (h + s - 1) / s <= h) by (nonlinear_arith)
            requires
                w >= 1 && h >= 1 && s >= 1,
        ;
    }
}

/// Law: for positive `w` and `s`, the ceiling-rounded level dimension is
/// never below the floored one, so a level never loses pixels to
/// truncation.
pub proof fn lemma_ceil_at_least_floor(w: int, s: int)
    requires
        w >= 0,
        s >= 1,
    ensures
        ceil_div(w, s) >= w / s,
{
    assert((w + s - 1) / s >= w / s) by (nonlinear_arith)
        requires
            w >= 0 && s >= 1,
    ;
}

/// Law: a level dimension never grows when the scale factor grows.
pub proof fn lemma_ceil_nonincreasing(w: int, s1: int, s2: int)
    requires
        w >= 0,
        1 <= s1 <= s2,
    ensures
        ceil_div(w, s2) <= ceil_div(w, s1),
{
    assert((w + s2 - 1) / s2 <= (w + s1 - 1) / s1) by (nonlinear_arith)
        requires
            w >= 0 && 1 <= s1 <= s2,
    ;
}

/// Law: doubling the scale factor strictly shrinks a level dimension as
/// long as the dimension has not yet collapsed to a single pixel, that
/// is, while `w > s`.
pub proof fn lemma_ceil_strictly_decreasing(w: int, s: int)
    requires
        s >= 1,
        w > s,
    ensures
        ceil_div(w, 2 * s) < ceil_div(w, s),
{
    let q = ceil_div(w, s);
    assert(w <= q * s && q >= 2) by (nonlinear_arith)
        requires
            s >= 1 && w > s && q == (w + s - 1) / s,
    ;
    assert((w + 2 * s - 1) / (2 * s) < q) by (nonlinear_arith)
        requires
            s >= 1 && w >= 1 && w <= q * s && q >= 2,
    ;
}

/// Law: between adjacent levels of a pyramid — the scale factor doubles
/// from one level to the next-more-reduced one — the level dimension
/// never grows, and it strictly shrinks as long as the finer level is
/// still wider than one nominal tile of pixels per scale unit, that is,
/// while `w > s`.
pub proof fn lemma_adjacent_levels_shrink(w: int, h: int, zoom: int, i: int)
    requires
        w >= 1,
        h >= 1,
        0 <= i < zoom,
    ensures
        ({
            let coarser = spec_sizes(w, h, zoom)[i];
            let finer = spec_sizes(w, h, zoom)[i + 1];
            &&& coarser.0 <= finer.0
            &&& coarser.1 <= finer.1
            &&& w > spec_scale_factor(zoom, i + 1) ==> coarser.0 < finer.0
            &&& h > spec_scale_factor(zoom, i + 1) ==> coarser.1 < finer.1
        }),
{
    let s = spec_scale_factor(zoom, i + 1);
    lemma_pow2_pos((zoom - i - 1) as nat);
    assert(spec_scale_factor(zoom, i) == 2 * s);
    lemma_ceil_nonincreasing(w, s, 2 * s);
    lemma_ceil_nonincreasing(h, s, 2 * s);
    if w > s {
        lemma_ceil_strictly_decreasing(w, s);
    }
    if h > s {
        lemma_ceil_strictly_decreasing(h, s);
    }
}

/// The fatal configuration error of the auto-fit search: no candidate
/// combination keeps the predicted count under the budget.
#[derive(Clone, Copy, Debug, PartialEq, Eq, Structural)]
pub enum FitError {
    NoFeasibleCombination,
}

/// The zoom depth of auto-fit candidate `k` (`0 <= k < 20`): for each
/// tile-size multiple the zoom depths are tried descending, `4, 3, 2, 1`.
pub open spec fn spec_candidate_zoom(k: int) -> int {
    4 - (k % 4)
}

/// The square tile size of auto-fit candidate `k`: multiples of 256
/// ascending, `256, 512, ..., 1280`, each held for four zoom depths.
pub open spec fn spec_candidate_tile(k: int) -> int {
    (k / 4 + 1) * 256
}

/// Whether candidate `k` keeps the predicted count under the budget.
pub open spec fn spec_candidate_fits(w: int, h: int, budget: int, k: int) -> bool {
    spec_file_count(w, h, spec_candidate_zoom(k), spec_candidate_tile(k), spec_candidate_tile(k))
        < budget
}

pub open spec fn spec_fit_index_from(w: int, h: int, budget: int, k: int) -> int
    decreases 20 - k,
{
    if k < 0 || k >= 20 {
        20
    } else if spec_candidate_fits(w, h, budget, k) {
        k
    } else {
        spec_fit_index_from(w, h, budget, k + 1)
    }
}

/// The index of the first auto-fit candidate under the budget, or 20 when
/// none of the 20 candidates is.
pub open spec fn spec_fit_index(w: int, h: int, budget: int) -> int {
    spec_fit_index_from(w, h, budget, 0)
}

proof fn lemma_fit_index_from_first(w: int, h: int, budget: int, k: int)
    requires
        0 <= k <= 20,
    ensures
        ({
            let r = spec_fit_index_from(w, h, budget, k);
            &&& k <= r <= 20
            &&& (r < 20 ==> spec_candidate_fits(w, h, budget, r))
            &&& forall|j: int| k <= j < r ==> !spec_candidate_fits(w, h, budget, j)
        }),
    decreases 20 - k,
{
    if k < 20 && !spec_candidate_fits(w, h, budget, k) {
        lemma_fit_index_from_first(w, h, budget, k + 1);
    }
}

/// Law: the auto-fit search selects exactly the first candidate, in the
/// documented order (tile-size multiple ascending, zoom depth descending
/// within it), whose predicted count is strictly under the budget; when
/// `spec_fit_index` is 20, no candidate at all is under the budget.
pub proof fn lemma_fit_index_first(w: int, h: int, budget: int)
    ensures
        ({
            let r = spec_fit_index(w, h, budget);
            &&& 0 <= r <= 20
            &&& (r < 20 ==> spec_candidate_fits(w, h, budget, r))
            &&& forall|j: int| 0 <= j < r ==> !spec_candidate_fits(w, h, budget, j)
            &&& (r == 20 ==> forall|j: int|
                0 <= j < 20 ==> !spec_candidate_fits(w, h, budget, j))
        }),
{
    lemma_fit_index_from_first(w, h, budget, 0);
}

impl<'a> ImageInfo<'a> {
    /// Searches tile sizes `256..1280` (multiples of 256, ascending) and
    /// zoom depths `4..1` (descending) for the first combination whose
    /// predicted output count is strictly under `p_max_file_no`, applies
    /// it to the plan and rederives the geometry.  When no combination is
    /// under the budget the plan is left untouched and the fatal
    /// configuration error is returned.
    pub fn fit_to_max_file_no(&mut self, p_max_file_no: i32) -> (r: Result<(), FitError>)
        requires
            old(self).wf(),
            forall|k: int|
                0 <= k < 20 ==> spec_file_count(
                    old(self).spec_width(),
                    old(self).spec_height(),
                    spec_candidate_zoom(k),
                    spec_candidate_tile(k),
                    spec_candidate_tile(k),
                ) <= i32::MAX,
        ensures
            final(self).same_image(old(self)),
            match r {
                Ok(()) => ({
                    let k = spec_fit_index(
                        old(self).spec_width(),
                        old(self).spec_height(),
                        p_max_file_no as int,
                    );
                    &&& k < 20
                    &&& final(self).wf()
                    &&& final(self).geometry_fresh()
                    &&& final(self).spec_tile_width() == spec_candidate_tile(k)
                    &&& final(self).spec_tile_height() == spec_candidate_tile(k)
                    &&& final(self).spec_zoom_levels() == spec_candidate_zoom(k)
                    &&& spec_candidate_fits(
                        old(self).spec_width(),
                        old(self).spec_height(),
                        p_max_file_no as int,
                        k,
                    )
                    &&& forall|j: int|
                        0 <= j < k ==> !spec_candidate_fits(
                            old(self).spec_width(),
                            old(self).spec_height(),
                            p_max_file_no as int,
                            j,
                        )
                }),
                Err(e) => ({
                    &&& spec_fit_index(
                        old(self).spec_width(),
                        old(self).spec_height(),
                        p_max_file_no as int,
                    ) == 20
                    &&& e == FitError::NoFeasibleCombination
                    &&& *final(self) == *old(self)
                    &&& forall|j: int|
                        0 <= j < 20 ==> !spec_candidate_fits(
                            old(self).spec_width(),
                            old(self).spec_height(),
                            p_max_file_no as int,
                            j,
                        )
                }),
            },
    {
        let ghost wi = self.spec_width();
        let ghost hi = self.spec_height();
        let ghost budget = p_max_file_no as int;
        let mut k: i32 = 0;
        while k < 20
            invariant
                0 <= k <= 20,
                *self == *old(self),
                old(self).wf(),
                wi == old(self).spec_width() && hi == old(self).spec_height(),
                budget == p_max_file_no as int,
                forall|j: int|
                    0 <= j < 20 ==> spec_file_count(
                        wi,
                        hi,
                        spec_candidate_zoom(j),
                        spec_candidate_tile(j),
                        spec_candidate_tile(j),
                    ) <= i32::MAX,
                forall|j: int| 0 <= j < k ==> !spec_candidate_fits(wi, hi, budget, j),
            decreases 20 - k,
        {
            let t_zoom = 4 - (k % 4);
            let tile_size = (k / 4 + 1) * 256;
            proof {
                assert(t_zoom as int == spec_candidate_zoom(k as int));
                assert(tile_size as int == spec_candidate_tile(k as int));
            }
            let file_count = self._calculate_file_count(t_zoom, tile_size, tile_size);
            if file_count < p_max_file_no {
                self.set_tile_width(tile_size);
                self.set_tile_height(tile_size);
                self.set_zoom_level(t_zoom);
                self.initialize_image_info();
                proof {
                    assert(spec_candidate_fits(wi, hi, budget, k as int));
                    lemma_fit_index_from_first(wi, hi, budget, 0);
                    let r = spec_fit_index(wi, hi, budget);
                    if r < k as int {
                        assert(!spec_candidate_fits(wi, hi, budget, r));
                    }
                    if r > k as int {
                        assert(!spec_candidate_fits(wi, hi, budget, k as int));
                    }
                    assert(r == k as int);
                }
                return Ok(());
            }
            k = k + 1;
        }
        proof {
            lemma_fit_index_from_first(wi, hi, budget, 0);
        }
        Err(FitError::NoFeasibleCombination)
    }
}

} // verus!

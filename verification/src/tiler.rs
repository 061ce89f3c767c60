//! The tile renderer's planning half: for a frozen plan it computes every
//! artifact of a run — the full-size renders with the canonical alias,
//! and every level's tile grid with clamped crop rectangles, boundary-
//! corrected emitted sizes, filter choices and output paths — and renders
//! single steps by cropping and resizing the source buffer.
//!
//! Writing the planned files (directory creation and encoding to disk) is
//! the caller's part; a step carries everything needed for it.

use crate::iiif_image::IIIFImage;
use crate::iiif_image::MAX_DIM;
use crate::image_info::ImageInfo;
use crate::image_info::ceil_div;
use crate::image_info::pow2;
use crate::image_info::spec_scale_factor;
use crate::image_info::spec_sizes;
use crate::image_info::ceil_div_i32;
use crate::image_info::lemma_pow2_pos;
use crate::image_info::lemma_pow2_monotone;
use crate::image_info::lemma_factor_bounds;
use crate::image_info::lemma_size_bounds;
use crate::info_json::IIIFVersion;
use crate::info_json::InfoJSON;
use crate::info_json::spec_info_json;
use crate::text::spec_dec;
use crate::text::to_decimal;
use vstd::prelude::*;

verus! {

broadcast use {vstd::seq::Seq::lemma_push_map_commute, vstd::seq::Seq::lemma_map_take_succ};

/// The resample filters a render step can ask for.
#[derive(Clone, Copy, Debug, PartialEq, Eq, Structural)]
pub enum ResampleFilter {
    Nearest,
    CatmullRom,
    Lanczos3,
}

/// One full-size render: resize the whole source to `width x height` and
/// write it at `path`; when the step is the native resolution, write the
/// same render again at the version's canonical alias path.
pub struct SizeStep {
    pub width: i32,
    pub height: i32,
    pub path: String,
    pub alias_path: Option<String>,
}

/// The mathematical content of a `SizeStep`.
pub ghost struct SizeStepModel {
    pub width: int,
    pub height: int,
    pub path: Seq<char>,
    pub alias_path: Option<Seq<char>>,
}

impl View for SizeStep {
    type V = SizeStepModel;

    open spec fn view(&self) -> SizeStepModel {
        SizeStepModel {
            width: self.width as int,
            height: self.height as int,
            path: self.path@,
            alias_path: match self.alias_path {
                Option::Some(p) => Option::Some(p@),
                Option::None => Option::None,
            },
        }
    }
}

/// One tile render: crop the source at the (already clamped) rectangle
/// `crop_x, crop_y, crop_w, crop_h` in source pixel space, bring it to
/// the emitted level-space size `out_w x out_h` with `filter` (`None`
/// when the crop is already at the emitted size), and write it at `path`.
pub struct TileStep {
    pub scale: i32,
    pub crop_x: i32,
    pub crop_y: i32,
    pub crop_w: i32,
    pub crop_h: i32,
    pub out_w: i32,
    pub out_h: i32,
    pub filter: Option<ResampleFilter>,
    pub path: String,
}

/// The mathematical content of a `TileStep`.
pub ghost struct TileStepModel {
    pub scale: int,
    pub crop_x: int,
    pub crop_y: int,
    pub crop_w: int,
    pub crop_h: int,
    pub out_w: int,
    pub out_h: int,
    pub filter: Option<ResampleFilter>,
    pub path: Seq<char>,
}

impl View for TileStep {
    type V = TileStepModel;

    open spec fn view(&self) -> TileStepModel {
        TileStepModel {
            scale: self.scale as int,
            crop_x: self.crop_x as int,
            crop_y: self.crop_y as int,
            crop_w: self.crop_w as int,
            crop_h: self.crop_h as int,
            out_w: self.out_w as int,
            out_h: self.out_h as int,
            filter: self.filter,
            path: self.path@,
        }
    }
}

/// The plan of a whole run: full-size renders first, then every level's
/// tiles, most reduced level first, column by column.
pub struct RenderPlan {
    pub sizes: Vec<SizeStep>,
    pub tiles: Vec<TileStep>,
}

/// Path of a full-size render relative to the image directory.  Both
/// versions key it by the width with a trailing comma.
pub open spec fn spec_size_rel_path(w: int) -> Seq<char> {
    "full/"@ + spec_dec(w) + ",/0/default.jpg"@
}

/// The version-specific name of the canonical whole-image alias.
pub open spec fn spec_alias_segment(v: IIIFVersion) -> Seq<char> {
    if v is VERSION3 {
        "max"@
    } else {
        "full"@
    }
}

/// Path of the canonical alias relative to the image directory.
pub open spec fn spec_alias_rel_path(v: IIIFVersion) -> Seq<char> {
    "full/"@ + spec_alias_segment(v) + "/0/default.jpg"@
}

/// The tile path grammar, relative to the image directory: the clamped
/// source-space crop rectangle, then the emitted width; the newer version
/// also writes the emitted height, the legacy one elides it after the
/// comma.
pub open spec fn spec_tile_rel_path(
    v: IIIFVersion,
    x: int,
    y: int,
    cw: int,
    ch: int,
    ow: int,
    oh: int,
) -> Seq<char> {
    spec_dec(x) + ","@ + spec_dec(y) + ","@ + spec_dec(cw) + ","@ + spec_dec(ch) + "/"@ + spec_dec(
        ow,
    ) + ","@ + (if v is VERSION3 {
        spec_dec(oh)
    } else {
        Seq::<char>::empty()
    }) + "/0/default.jpg"@
}

/// Law: under identical tile geometry the two path grammars agree on
/// everything up to and including the comma after the emitted width; the
/// legacy version stops there, eliding the emitted height, while the
/// newer version writes it out.
pub proof fn lemma_tile_path_height_elision(x: int, y: int, cw: int, ch: int, ow: int, oh: int)
    ensures
        ({
            let stem = spec_dec(x) + ","@ + spec_dec(y) + ","@ + spec_dec(cw) + ","@ + spec_dec(ch)
                + "/"@ + spec_dec(ow) + ","@;
            &&& spec_tile_rel_path(IIIFVersion::VERSION211, x, y, cw, ch, ow, oh) == stem
                + "/0/default.jpg"@
            &&& spec_tile_rel_path(IIIFVersion::VERSION3, x, y, cw, ch, ow, oh) == stem + spec_dec(
                oh,
            ) + "/0/default.jpg"@
        }),
{
    let stem = spec_dec(x) + ","@ + spec_dec(y) + ","@ + spec_dec(cw) + ","@ + spec_dec(ch) + "/"@
        + spec_dec(ow) + ","@;
    assert(spec_tile_rel_path(IIIFVersion::VERSION211, x, y, cw, ch, ow, oh) =~= stem
        + "/0/default.jpg"@);
    assert(spec_tile_rel_path(IIIFVersion::VERSION3, x, y, cw, ch, ow, oh) =~= stem + spec_dec(oh)
        + "/0/default.jpg"@);
}

fn size_rel_path(w: i32) -> (r: String)
    requires
        w >= 0,
    ensures
        r@ == spec_size_rel_path(w as int),
{
    let mut s = String::from_str("full/");
    let d = to_decimal(w);
    s.append(d.as_str());
    s.append(",/0/default.jpg");
    s
}

fn alias_rel_path(v: &IIIFVersion) -> (r: String)
    ensures
        r@ == spec_alias_rel_path(*v),
{
    let mut s = String::from_str("full/");
    match v {
        IIIFVersion::VERSION3 => s.append("max"),
        IIIFVersion::VERSION211 => s.append("full"),
    }
    s.append("/0/default.jpg");
    s
}

fn tile_rel_path(v: &IIIFVersion, x: i32, y: i32, cw: i32, ch: i32, ow: i32, oh: i32) -> (r:
    String)
    requires
        x >= 0,
        y >= 0,
        cw >= 0,
        ch >= 0,
        ow >= 0,
        oh >= 0,
    ensures
        r@ == spec_tile_rel_path(*v, x as int, y as int, cw as int, ch as int, ow as int, oh as int),
{
    let mut s = to_decimal(x);
    s.append(",");
    let d = to_decimal(y);
    s.append(d.as_str());
    s.append(",");
    let d = to_decimal(cw);
    s.append(d.as_str());
    s.append(",");
    let d = to_decimal(ch);
    s.append(d.as_str());
    s.append("/");
    let d = to_decimal(ow);
    s.append(d.as_str());
    s.append(",");
    match v {
        IIIFVersion::VERSION3 => {
            let d = to_decimal(oh);
            s.append(d.as_str());
        },
        IIIFVersion::VERSION211 => (),
    }
    s.append("/0/default.jpg");
    proof {
        assert(s@ =~= spec_tile_rel_path(
            *v,
            x as int,
            y as int,
            cw as int,
            ch as int,
            ow as int,
            oh as int,
        ));
    }
    s
}

/// Columns of a level's tile grid: the level dimension for partitioning
/// is floored, and a remainder adds one more column.
pub open spec fn spec_grid_cols(w: int, s: int, tw: int) -> int {
    ceil_div(w / s, tw)
}

/// Rows of a level's tile grid.
pub open spec fn spec_grid_rows(h: int, s: int, th: int) -> int {
    ceil_div(h / s, th)
}

/// The filter of one tile: none when the crop is already at the emitted
/// size (the identity case, scale factor 1); a smooth multi-sample filter
/// for ordinary tiles; a sharper one when the emitted tile is degenerate
/// (3 pixels or fewer on a side).
pub open spec fn spec_filter(cw: int, ch: int, ow: int, oh: int) -> Option<ResampleFilter> {
    if cw == ow && ch == oh {
        Option::None
    } else if ow > 3 && oh > 3 {
        Option::Some(ResampleFilter::CatmullRom)
    } else {
        Option::Some(ResampleFilter::Lanczos3)
    }
}

/// The tile at grid cell `(x, y)` of the level with scale factor `s`: the
/// nominal source-space rectangle is clamped to the image boundary, and a
/// clamped axis gets its emitted size recomputed by ceiling division —
/// boundary tiles are smaller than interior ones, never rounded to
/// nothing.
pub open spec fn spec_tile_at(
    v: IIIFVersion,
    prefix: Seq<char>,
    w: int,
    h: int,
    tw: int,
    th: int,
    s: int,
    x: int,
    y: int,
) -> TileStepModel {
    let tx = x * (tw * s);
    let ty = y * (th * s);
    let cw = if tx + tw * s > w {
        w - tx
    } else {
        tw * s
    };
    let ch = if ty + th * s > h {
        h - ty
    } else {
        th * s
    };
    let ow = if tx + tw * s > w {
        ceil_div(w - tx, s)
    } else {
        tw
    };
    let oh = if ty + th * s > h {
        ceil_div(h - ty, s)
    } else {
        th
    };
    TileStepModel {
        scale: s,
        crop_x: tx,
        crop_y: ty,
        crop_w: cw,
        crop_h: ch,
        out_w: ow,
        out_h: oh,
        filter: spec_filter(cw, ch, ow, oh),
        path: prefix + spec_tile_rel_path(v, tx, ty, cw, ch, ow, oh),
    }
}

/// All tiles of one level, column by column: `x` outer, `y` inner.
pub open spec fn spec_level_tiles(
    v: IIIFVersion,
    prefix: Seq<char>,
    w: int,
    h: int,
    tw: int,
    th: int,
    s: int,
) -> Seq<TileStepModel> {
    let rows = spec_grid_rows(h, s, th);
    Seq::new(
        (spec_grid_cols(w, s, tw) * rows) as nat,
        |k: int| spec_tile_at(v, prefix, w, h, tw, th, s, k / rows, k % rows),
    )
}

/// The tiles of levels `0 .. i` (most reduced first), concatenated in
/// level order.
pub open spec fn spec_tiles_prefix(
    v: IIIFVersion,
    prefix: Seq<char>,
    w: int,
    h: int,
    tw: int,
    th: int,
    zoom: int,
    i: int,
) -> Seq<TileStepModel>
    decreases i,
{
    if i <= 0 {
        Seq::empty()
    } else {
        spec_tiles_prefix(v, prefix, w, h, tw, th, zoom, i - 1) + spec_level_tiles(
            v,
            prefix,
            w,
            h,
            tw,
            th,
            spec_scale_factor(zoom, i - 1),
        )
    }
}

/// Every tile of the run: all `zoom + 1` levels.
pub open spec fn spec_all_tiles(
    v: IIIFVersion,
    prefix: Seq<char>,
    w: int,
    h: int,
    tw: int,
    th: int,
    zoom: int,
) -> Seq<TileStepModel> {
    spec_tiles_prefix(v, prefix, w, h, tw, th, zoom, zoom + 1)
}

/// The full-size step of one level: resize target, dimension-keyed path,
/// and — exactly when the level is at native resolution — the canonical
/// alias path of the version.
pub open spec fn spec_size_step(
    v: IIIFVersion,
    prefix: Seq<char>,
    w: int,
    h: int,
    lw: int,
    lh: int,
) -> SizeStepModel {
    SizeStepModel {
        width: lw,
        height: lh,
        path: prefix + spec_size_rel_path(lw),
        alias_path: if lw == w && lh == h {
            Option::Some(prefix + spec_alias_rel_path(v))
        } else {
            Option::None
        },
    }
}

/// The full-size steps of the run, parallel to the level list.
pub open spec fn spec_size_steps(
    v: IIIFVersion,
    prefix: Seq<char>,
    w: int,
    h: int,
    zoom: int,
) -> Seq<SizeStepModel> {
    Seq::new(
        (zoom + 1) as nat,
        |i: int|
            spec_size_step(
                v,
                prefix,
                w,
                h,
                spec_sizes(w, h, zoom)[i].0,
                spec_sizes(w, h, zoom)[i].1,
            ),
    )
}

/// Relies on DynamicImage::resize: scales the buffer, preserving aspect
/// ratio, to the largest size that fits within the given bounds, with the
/// given filter.  The result is an opaque buffer.
#[verifier::external_body]
fn resize_image(
    img: &image::DynamicImage,
    w: u32,
    h: u32,
    filter: &ResampleFilter,
) -> image::DynamicImage {
    let f = match filter {
        ResampleFilter::Nearest => image::imageops::FilterType::Nearest,
        ResampleFilter::CatmullRom => image::imageops::FilterType::CatmullRom,
        ResampleFilter::Lanczos3 => image::imageops::FilterType::Lanczos3,
    };
    img.resize(w, h, f)
}

/// Relies on DynamicImage::crop_imm, which clamps the rectangle to the
/// buffer's bounds, and on DynamicImage::into_rgb8: the cut-out as an RGB
/// buffer.  The result is an opaque buffer.
#[verifier::external_body]
fn crop_image(img: &image::DynamicImage, x: u32, y: u32, w: u32, h: u32) -> image::DynamicImage {
    image::DynamicImage::ImageRgb8(img.crop_imm(x, y, w, h).into_rgb8())
}

proof fn lemma_ceil_div_via_mod(a: int, b: int)
    requires
        a >= 0,
        b >= 1,
    ensures
        ceil_div(a, b) == a / b + if a % b != 0 {
            1int
        } else {
            0int
        },
{
    assert((a + b - 1) / b == a / b + if a % b != 0 {
        1int
    } else {
        0int
    }) by (nonlinear_arith)
        requires
            a >= 0 && b >= 1,
    ;
}

/// A grid cell's source-space offset stays strictly inside the image.
proof fn lemma_grid_offset(w: int, s: int, tw: int, x: int)
    requires
        w >= 1,
        s >= 1,
        tw >= 1,
        0 <= x,
        x < spec_grid_cols(w, s, tw),
    ensures
        0 <= x * (tw * s) < w,
{
    let lw = w / s;
    assert(lw * s <= w && lw >= 0) by (nonlinear_arith)
        requires
            s >= 1 && w >= 0 && lw == w / s,
    ;
    assert(x * tw < lw) by (nonlinear_arith)
        requires
            tw >= 1 && 0 <= x && lw >= 0 && x < (lw + tw - 1) / tw,
    ;
    assert(0 <= x * (tw * s) && x * (tw * s) < w) by (nonlinear_arith)
        requires
            x * tw < lw && x >= 0 && s >= 1 && lw * s <= w && tw >= 1,
    ;
}

/// Renders one full-size step: a fast nearest-neighbour resize of the
/// whole source to the step's level size.
pub fn render_size(img: &IIIFImage, step: &SizeStep) -> image::DynamicImage
    requires
        step@.width >= 0,
        step@.height >= 0,
{
    resize_image(img.get_image(), step.width as u32, step.height as u32, &ResampleFilter::Nearest)
}

/// Renders one tile step: crops the source at the step's clamped
/// rectangle and, unless the crop is already at the emitted size, resizes
/// it with the step's filter.
pub fn render_tile(img: &IIIFImage, step: &TileStep) -> image::DynamicImage
    requires
        step@.crop_x >= 0,
        step@.crop_y >= 0,
        step@.crop_w >= 0,
        step@.crop_h >= 0,
        step@.out_w >= 0,
        step@.out_h >= 0,
{
    let cropped = crop_image(
        img.get_image(),
        step.crop_x as u32,
        step.crop_y as u32,
        step.crop_w as u32,
        step.crop_h as u32,
    );
    match &step.filter {
        Option::None => cropped,
        Option::Some(f) => resize_image(&cropped, step.out_w as u32, step.out_h as u32, f),
    }
}

/// The path prefix of every artifact of a run rooted at `image_dir` for
/// the image with the given identifier.
pub open spec fn spec_run_prefix(image_dir: Seq<char>, id: Seq<char>) -> Seq<char> {
    image_dir + "/"@ + id + "/"@
}

/// Arithmetic headroom of a plan: even at the most reduced level the
/// nominal source-space tile stays within `MAX_DIM`.
pub open spec fn spec_plan_in_range(info: &ImageInfo) -> bool {
    &&& info.spec_tile_width() * pow2(info.spec_zoom_levels() as nat) as int <= MAX_DIM as int
    &&& info.spec_tile_height() * pow2(info.spec_zoom_levels() as nat) as int <= MAX_DIM as int
}

/// The renderer for one frozen plan and one API version.
pub struct Tiler<'a> {
    image: &'a ImageInfo<'a>,
    version: IIIFVersion,
}

impl<'a> Tiler<'a> {
    pub closed spec fn spec_info(&self) -> &'a ImageInfo<'a> {
        self.image
    }

    pub closed spec fn spec_version(&self) -> IIIFVersion {
        self.version
    }

    /// Arithmetic headroom of the plan: even at the most reduced level the
    /// nominal source-space tile stays within `MAX_DIM`.
    pub open spec fn tiles_in_range(&self) -> bool {
        spec_plan_in_range(self.spec_info())
    }

    pub fn new(image: &'a ImageInfo<'a>, version: &IIIFVersion) -> (r: Tiler<'a>)
        ensures
            r.spec_info() == image,
            r.spec_version() == *version,
    {
        Tiler { image, version: *version }
    }

    /// The run's output directory under `p_image_dir`, keyed by the
    /// image's identifier.
    pub fn get_output_dir(&self, p_image_dir: &str) -> (r: String)
        ensures
            r@ == p_image_dir@ + "/"@ + self.spec_info().spec_id(),
    {
        let mut s = String::from_str(p_image_dir);
        s.append("/");
        let id = self.image.id();
        s.append(id.as_str());
        s
    }

    /// The path prefix of every artifact of a run rooted at `image_dir`.
    pub open spec fn spec_prefix(&self, image_dir: Seq<char>) -> Seq<char> {
        spec_run_prefix(image_dir, self.spec_info().spec_id())
    }

    /// Computes the full render plan of the run rooted at `image_dir`:
    /// the full-size steps of every level (with the canonical alias at
    /// native resolution), then every level's tile grid, most reduced
    /// level first, column by column.
    pub fn generate_tiles(&self, image_dir: &str) -> (r: RenderPlan)
        requires
            self.spec_info().wf(),
            self.spec_info().geometry_fresh(),
            self.tiles_in_range(),
        ensures
            r.sizes@.map_values(|s: SizeStep| s@) == spec_size_steps(
                self.spec_version(),
                self.spec_prefix(image_dir@),
                self.spec_info().spec_width(),
                self.spec_info().spec_height(),
                self.spec_info().spec_zoom_levels(),
            ),
            r.tiles@.map_values(|t: TileStep| t@) == spec_all_tiles(
                self.spec_version(),
                self.spec_prefix(image_dir@),
                self.spec_info().spec_width(),
                self.spec_info().spec_height(),
                self.spec_info().spec_tile_width(),
                self.spec_info().spec_tile_height(),
                self.spec_info().spec_zoom_levels(),
            ),
    {
        let w = self.image.get_width();
        let h = self.image.get_height();
        let tw = self.image.get_tile_width();
        let th = self.image.get_tile_height();
        let zoom = self.image.get_zoom_level();
        let ghost wi = w as int;
        let ghost hi = h as int;
        let ghost twi = tw as int;
        let ghost thi = th as int;
        let ghost zi = zoom as int;
        let ghost ver = self.spec_version();

        let mut prefix = String::from_str(image_dir);
        prefix.append("/");
        let id = self.image.id();
        prefix.append(id.as_str());
        prefix.append("/");
        let ghost pfx = prefix@;
        proof {
            assert(pfx == self.spec_prefix(image_dir@));
        }

        // full-size steps
        let sizes_vec = self.image.get_sizes();
        let ghost size_target = spec_size_steps(ver, pfx, wi, hi, zi);
        proof {
            lemma_size_bounds(wi, hi, zi);
        }
        let mut size_steps: Vec<SizeStep> = Vec::new();
        let mut i: usize = 0;
        while i < sizes_vec.len()
            invariant
                i <= sizes_vec@.len(),
                sizes_vec@.map_values(|p: (i32, i32)| (p.0 as int, p.1 as int)) == spec_sizes(
                    wi,
                    hi,
                    zi,
                ),
                forall|j: int|
                    0 <= j < spec_sizes(wi, hi, zi).len() ==> 0 <= #[trigger] spec_sizes(
                        wi,
                        hi,
                        zi,
                    )[j].0 && 0 <= spec_sizes(wi, hi, zi)[j].1,
                size_target == spec_size_steps(ver, pfx, wi, hi, zi),
                1 <= wi && 1 <= hi,
                0 <= zi <= crate::image_info::MAX_ZOOM as int,
                wi == w as int && hi == h as int && zi == zoom as int,
                ver == self.spec_version(),
                pfx == prefix@,
                size_steps@.map_values(|s: SizeStep| s@) == size_target.take(i as int),
            decreases sizes_vec@.len() - i,
        {
            let p = sizes_vec[i];
            proof {
                assert(sizes_vec@.map_values(|p: (i32, i32)| (p.0 as int, p.1 as int)).len()
                    == sizes_vec@.len());
                assert(sizes_vec@.len() == zi + 1);
                assert(spec_sizes(wi, hi, zi)[i as int] == (p.0 as int, p.1 as int));
            }
            let mut path = prefix.clone();
            let rel = size_rel_path(p.0);
            path.append(rel.as_str());
            let alias_path = if p.0 == w && p.1 == h {
                let mut a = prefix.clone();
                let arel = alias_rel_path(&self.version);
                a.append(arel.as_str());
                Option::Some(a)
            } else {
                Option::None
            };
            let step = SizeStep { width: p.0, height: p.1, path, alias_path };
            proof {
                assert(step@ == size_target[i as int]);
            }
            size_steps.push(step);
            proof {
                assert(size_steps@.map_values(|s: SizeStep| s@) =~= size_target.take(i as int + 1));
            }
            i = i + 1;
        }
        proof {
            assert(sizes_vec@.map_values(|p: (i32, i32)| (p.0 as int, p.1 as int)).len()
                == sizes_vec@.len());
            assert(sizes_vec@.len() == zi + 1);
            assert(size_target.take(size_target.len() as int) =~= size_target);
        }

        // tile steps
        let factors_vec = self.image.get_scale_factors();
        let ghost tile_target = spec_all_tiles(ver, pfx, wi, hi, twi, thi, zi);
        proof {
            lemma_factor_bounds(zi);
        }
        let mut tile_steps: Vec<TileStep> = Vec::new();
        let mut li: usize = 0;
        while li < factors_vec.len()
            invariant
                li <= factors_vec@.len(),
                factors_vec@.map_values(|v: i32| v as int) == crate::image_info::spec_factors(zi),
                forall|j: int|
                    0 <= j < crate::image_info::spec_factors(zi).len() ==> 1
                        <= #[trigger] crate::image_info::spec_factors(zi)[j] <= MAX_DIM as int,
                tile_target == spec_all_tiles(ver, pfx, wi, hi, twi, thi, zi),
                1 <= wi <= MAX_DIM as int && 1 <= hi <= MAX_DIM as int,
                1 <= twi <= MAX_DIM as int && 1 <= thi <= MAX_DIM as int,
                0 <= zi <= crate::image_info::MAX_ZOOM as int,
                twi * pow2(zi as nat) as int <= MAX_DIM as int,
                thi * pow2(zi as nat) as int <= MAX_DIM as int,
                wi == w as int && hi == h as int && twi == tw as int && thi == th as int && zi
                    == zoom as int,
                ver == self.spec_version(),
                pfx == prefix@,
                tile_steps@.map_values(|t: TileStep| t@) == spec_tiles_prefix(
                    ver,
                    pfx,
                    wi,
                    hi,
                    twi,
                    thi,
                    zi,
                    li as int,
                ),
            decreases factors_vec@.len() - li,
        {
            let s = factors_vec[li];
            let ghost si = s as int;
            proof {
                assert(factors_vec@.map_values(|v: i32| v as int).len() == factors_vec@.len());
                assert(factors_vec@.len() == zi + 1);
                assert(crate::image_info::spec_factors(zi)[li as int] == si);
                assert(si == spec_scale_factor(zi, li as int));
                assert(1 <= si <= MAX_DIM as int);
                lemma_pow2_monotone((zi - li as int) as nat, zi as nat);
                assert(twi * si <= twi * pow2(zi as nat) as int && thi * si <= thi * pow2(
                    zi as nat,
                ) as int) by (nonlinear_arith)
                    requires
                        twi >= 1 && thi >= 1 && 1 <= si <= pow2(zi as nat) as int,
                ;
            }
            let tw_s = tw * s;
            let th_s = th * s;
            let lw = w / s;
            let lh = h / s;
            proof {
                assert(0 <= lw as int <= wi && 0 <= lh as int <= hi) by (nonlinear_arith)
                    requires
                        wi >= 1 && hi >= 1 && si >= 1 && lw as int == wi / si && lh as int == hi
                            / si,
                ;
                lemma_ceil_div_via_mod(lw as int, twi);
                lemma_ceil_div_via_mod(lh as int, thi);
            }
            let mut cols = lw / tw;
            if lw % tw != 0 {
                cols = cols + 1;
            }
            let mut rows = lh / th;
            if lh % th != 0 {
                rows = rows + 1;
            }
            proof {
                assert(cols as int == spec_grid_cols(wi, si, twi));
                assert(rows as int == spec_grid_rows(hi, si, thi));
            }
            let ghost level = spec_level_tiles(ver, pfx, wi, hi, twi, thi, si);
            let ghost done = spec_tiles_prefix(ver, pfx, wi, hi, twi, thi, zi, li as int);
            proof {
                assert(level.len() == cols as int * rows as int);
            }
            let mut x: i32 = 0;
            while x < cols
                invariant
                    0 <= x <= cols,
                    cols as int == spec_grid_cols(wi, si, twi),
                    rows as int == spec_grid_rows(hi, si, thi),
                    level == spec_level_tiles(ver, pfx, wi, hi, twi, thi, si),
                    level.len() == cols as int * rows as int,
                    1 <= wi <= MAX_DIM as int && 1 <= hi <= MAX_DIM as int,
                    twi >= 1 && thi >= 1 && 1 <= si <= MAX_DIM as int,
                    twi * si <= MAX_DIM as int && thi * si <= MAX_DIM as int,
                    tw_s as int == twi * si && th_s as int == thi * si,
                    wi == w as int && hi == h as int && twi == tw as int && thi == th as int,
                    si == s as int,
                    ver == self.spec_version(),
                    pfx == prefix@,
                    tile_steps@.map_values(|t: TileStep| t@) == done + level.take(
                        x as int * rows as int,
                    ),
                decreases cols - x,
            {
                let mut y: i32 = 0;
                while y < rows
                    invariant
                        0 <= y <= rows,
                        0 <= x < cols,
                        cols as int == spec_grid_cols(wi, si, twi),
                        rows as int == spec_grid_rows(hi, si, thi),
                        level == spec_level_tiles(ver, pfx, wi, hi, twi, thi, si),
                        level.len() == cols as int * rows as int,
                        1 <= wi <= MAX_DIM as int && 1 <= hi <= MAX_DIM as int,
                        twi >= 1 && thi >= 1 && 1 <= si <= MAX_DIM as int,
                        twi * si <= MAX_DIM as int && thi * si <= MAX_DIM as int,
                        tw_s as int == twi * si && th_s as int == thi * si,
                        wi == w as int && hi == h as int && twi == tw as int && thi == th as int,
                        si == s as int,
                        ver == self.spec_version(),
                        pfx == prefix@,
                        tile_steps@.map_values(|t: TileStep| t@) == done + level.take(
                            x as int * rows as int + y as int,
                        ),
                    decreases rows - y,
                {
                    proof {
                        lemma_grid_offset(wi, si, twi, x as int);
                        lemma_grid_offset(hi, si, thi, y as int);
                    }
                    let tile_x = x * tw_s;
                    let tile_y = y * th_s;
                    let over_w = tile_x + tw_s > w;
                    let over_h = tile_y + th_s > h;
                    let crop_w = if over_w {
                        w - tile_x
                    } else {
                        tw_s
                    };
                    let crop_h = if over_h {
                        h - tile_y
                    } else {
                        th_s
                    };
                    let out_w = if over_w {
                        ceil_div_i32(w - tile_x, s)
                    } else {
                        tw
                    };
                    let out_h = if over_h {
                        ceil_div_i32(h - tile_y, s)
                    } else {
                        th
                    };
                    let filter = if crop_w == out_w && crop_h == out_h {
                        Option::None
                    } else if out_w > 3 && out_h > 3 {
                        Option::Some(ResampleFilter::CatmullRom)
                    } else {
                        Option::Some(ResampleFilter::Lanczos3)
                    };
                    let mut path = prefix.clone();
                    let rel = tile_rel_path(
                        &self.version,
                        tile_x,
                        tile_y,
                        crop_w,
                        crop_h,
                        out_w,
                        out_h,
                    );
                    path.append(rel.as_str());
                    let step = TileStep {
                        scale: s,
                        crop_x: tile_x,
                        crop_y: tile_y,
                        crop_w,
                        crop_h,
                        out_w,
                        out_h,
                        filter,
                        path,
                    };
                    proof {
                        let k = x as int * rows as int + y as int;
                        let xi = x as int;
                        let yi = y as int;
                        let ci = cols as int;
                        let ri = rows as int;
                        assert(k / ri == xi && k % ri == yi) by (nonlinear_arith)
                            requires
                                0 <= yi && yi < ri && 0 <= xi && k == xi * ri + yi,
                        ;
                        assert(0 <= k && k < ci * ri) by (nonlinear_arith)
                            requires
                                0 <= xi && xi < ci && 0 <= yi && yi < ri && k == xi * ri + yi,
                        ;
                        assert(step@ == spec_tile_at(
                            ver,
                            pfx,
                            wi,
                            hi,
                            twi,
                            thi,
                            si,
                            x as int,
                            y as int,
                        ));
                        assert(level[k] == step@);
                    }
                    tile_steps.push(step);
                    proof {
                        assert(tile_steps@.map_values(|t: TileStep| t@) =~= done + level.take(
                            x as int * rows as int + y as int + 1,
                        ));
                    }
                    y = y + 1;
                }
                proof {
                    assert(x as int * rows as int + rows as int == (x as int + 1) * (rows as int))
                        by (nonlinear_arith);
                }
                x = x + 1;
            }
            proof {
                assert(level.take(level.len() as int) =~= level);
                assert(done + level =~= spec_tiles_prefix(
                    ver,
                    pfx,
                    wi,
                    hi,
                    twi,
                    thi,
                    zi,
                    li as int + 1,
                ));
            }
            li = li + 1;
        }
        proof {
            assert(factors_vec@.map_values(|v: i32| v as int).len() == factors_vec@.len());
            assert(factors_vec@.len() == zi + 1);
        }

        RenderPlan { sizes: size_steps, tiles: tile_steps }
    }

    /// Plans one whole image run: the render steps rooted at the image's
    /// directory under `output_dir`, and the manifest text describing the
    /// plan's geometry.
    pub fn create_image<'b>(
        image: &'b ImageInfo<'b>,
        output_dir: &str,
        uri: &str,
        version: &IIIFVersion,
    ) -> (r: (RenderPlan, String))
        requires
            image.wf(),
            image.geometry_fresh(),
            spec_plan_in_range(image),
        ensures
            r.0.sizes@.map_values(|s: SizeStep| s@) == spec_size_steps(
                *version,
                spec_run_prefix(output_dir@, image.spec_id()),
                image.spec_width(),
                image.spec_height(),
                image.spec_zoom_levels(),
            ),
            r.0.tiles@.map_values(|t: TileStep| t@) == spec_all_tiles(
                *version,
                spec_run_prefix(output_dir@, image.spec_id()),
                image.spec_width(),
                image.spec_height(),
                image.spec_tile_width(),
                image.spec_tile_height(),
                image.spec_zoom_levels(),
            ),
            r.1@ == spec_info_json(
                *version,
                uri@,
                image.spec_id(),
                image.spec_width(),
                image.spec_height(),
                image.spec_tile_width(),
                image.spec_tile_height(),
                image.spec_sizes(),
                image.spec_scale_factors(),
            ),
    {
        let tiler = Tiler::new(image, version);
        let plan = tiler.generate_tiles(output_dir);
        let info = InfoJSON::new(image, uri, version);
        let manifest = info.to_json();
        (plan, manifest)
    }
}

/// Plans one image end to end: derives the pyramid for the given square
/// tile size and zoom depth, and returns the run's render steps together
/// with the manifest text.
pub fn process_image(
    img: &IIIFImage,
    tile_size: i32,
    zoom_levels: i32,
    output_dir: &str,
    uri: &str,
    version: &IIIFVersion,
) -> (r: (RenderPlan, String))
    requires
        img.wf(),
        1 <= tile_size <= MAX_DIM,
        0 <= zoom_levels <= crate::image_info::MAX_ZOOM,
        tile_size as int * pow2(zoom_levels as nat) as int <= MAX_DIM as int,
    ensures
        r.0.sizes@.map_values(|s: SizeStep| s@) == spec_size_steps(
            *version,
            spec_run_prefix(output_dir@, img.spec_id()),
            img.spec_width(),
            img.spec_height(),
            zoom_levels as int,
        ),
        r.0.tiles@.map_values(|t: TileStep| t@) == spec_all_tiles(
            *version,
            spec_run_prefix(output_dir@, img.spec_id()),
            img.spec_width(),
            img.spec_height(),
            tile_size as int,
            tile_size as int,
            zoom_levels as int,
        ),
        r.1@ == spec_info_json(
            *version,
            uri@,
            img.spec_id(),
            img.spec_width(),
            img.spec_height(),
            tile_size as int,
            tile_size as int,
            spec_sizes(img.spec_width(), img.spec_height(), zoom_levels as int),
            crate::image_info::spec_factors(zoom_levels as int),
        ),
{
    let info = ImageInfo::new(img, tile_size, tile_size, zoom_levels);
    Tiler::create_image(&info, output_dir, uri, version)
}

/// Law: the native-resolution level — always the last of the list, with
/// scale factor 1 — additionally gets the canonical alias: its step
/// carries the version's alias path beside its dimension-keyed path.
pub proof fn lemma_native_alias(v: IIIFVersion, prefix: Seq<char>, w: int, h: int, zoom: int)
    requires
        w >= 1,
        h >= 1,
        zoom >= 0,
    ensures
        ({
            let steps = spec_size_steps(v, prefix, w, h, zoom);
            &&& steps.len() == zoom + 1
            &&& steps[zoom].width == w
            &&& steps[zoom].height == h
            &&& steps[zoom].path == prefix + spec_size_rel_path(w)
            &&& steps[zoom].alias_path == Option::Some(prefix + spec_alias_rel_path(v))
        }),
{
    assert(spec_scale_factor(zoom, zoom) == 1);
    assert(ceil_div(w, 1) == w && ceil_div(h, 1) == h);
    assert(spec_sizes(w, h, zoom)[zoom] == (w, h));
}

/// Law (round-trip core): the renderer and the predictor partition a
/// level identically.  At the level with scale factor `2^t` the renderer
/// plans exactly `ceil(floor(w / 2^t) / tw) * ceil(floor(h / 2^t) / th)`
/// tiles, and the predictor charges that level exactly that grid size
/// times its per-tile entry count (3 when the level fits one tile, else
/// 4).
pub proof fn lemma_level_file_count_matches_grid(
    v: IIIFVersion,
    prefix: Seq<char>,
    w: int,
    h: int,
    tw: int,
    th: int,
    t: int,
)
    requires
        w >= 0,
        h >= 0,
        tw >= 1,
        th >= 1,
        t >= 0,
    ensures
        ({
            let s = pow2(t as nat) as int;
            let grid = spec_level_tiles(v, prefix, w, h, tw, th, s).len() as int;
            &&& grid == spec_grid_cols(w, s, tw) * spec_grid_rows(h, s, th)
            &&& crate::image_info::spec_level_files(w, h, tw, th, t) == grid * (
            if crate::image_info::spec_single_tile_level(w, h, tw, th, t) {
                3int
            } else {
                4int
            })
        }),
{
    let s = pow2(t as nat) as int;
    crate::image_info::lemma_pow2_pos(t as nat);
    let cols = spec_grid_cols(w, s, tw);
    let rows = spec_grid_rows(h, s, th);
    assert(cols >= 0 && rows >= 0 && cols * rows >= 0) by (nonlinear_arith)
        requires
            w >= 0 && h >= 0 && s >= 1 && tw >= 1 && th >= 1 && cols == (w / s + tw - 1) / tw
                && rows == (h / s + th - 1) / th,
    ;
    assert(spec_level_tiles(v, prefix, w, h, tw, th, s).len() == cols * rows);
}

proof fn lemma_plan_tile_count(
    v: IIIFVersion,
    prefix: Seq<char>,
    w: int,
    h: int,
    tw: int,
    th: int,
    zoom: int,
    i: int,
)
    requires
        w >= 0,
        h >= 0,
        tw >= 1,
        th >= 1,
        zoom >= 0,
        0 <= i <= zoom + 1,
    ensures
        spec_tiles_prefix(v, prefix, w, h, tw, th, zoom, i).len() == crate::image_info::spec_grid_total(
            w,
            h,
            tw,
            th,
            zoom + 1,
        ) - crate::image_info::spec_grid_total(w, h, tw, th, zoom + 1 - i),
    decreases i,
{
    if i > 0 {
        lemma_plan_tile_count(v, prefix, w, h, tw, th, zoom, i - 1);
        let t = zoom + 1 - i;
        let s = spec_scale_factor(zoom, i - 1);
        assert(s == pow2(t as nat) as int);
        lemma_pow2_pos(t as nat);
        let cols = spec_grid_cols(w, s, tw);
        let rows = spec_grid_rows(h, s, th);
        assert(cols >= 0 && rows >= 0 && cols * rows >= 0) by (nonlinear_arith)
            requires
                w >= 0 && h >= 0 && s >= 1 && tw >= 1 && th >= 1 && cols == (w / s + tw - 1) / tw
                    && rows == (h / s + th - 1) / th,
        ;
        assert(spec_level_tiles(v, prefix, w, h, tw, th, s).len() == cols * rows);
        assert(crate::image_info::spec_level_grid(w, h, tw, th, t) == cols * rows);
    }
}

/// Law (round-trip accounting): the plan's total tile count is the sum
/// of the grid sizes the predictor walks — the levels with scale factors
/// `2^0 .. 2^(zoom-1)` — plus exactly the grid of the one level the
/// predictor leaves out, the most reduced one at scale `2^zoom`.
pub proof fn lemma_plan_covers_predictor_levels(
    v: IIIFVersion,
    prefix: Seq<char>,
    w: int,
    h: int,
    tw: int,
    th: int,
    zoom: int,
)
    requires
        w >= 0,
        h >= 0,
        tw >= 1,
        th >= 1,
        zoom >= 0,
    ensures
        spec_all_tiles(v, prefix, w, h, tw, th, zoom).len() == crate::image_info::spec_grid_total(
            w,
            h,
            tw,
            th,
            zoom,
        ) + crate::image_info::spec_level_grid(w, h, tw, th, zoom),
{
    lemma_plan_tile_count(v, prefix, w, h, tw, th, zoom, zoom + 1);
}

/// Law: every planned tile's crop rectangle and emitted size are at
/// least one pixel in each axis: a remainder axis is rounded up, never
/// down to nothing.
pub proof fn lemma_emitted_size_positive(
    v: IIIFVersion,
    prefix: Seq<char>,
    w: int,
    h: int,
    tw: int,
    th: int,
    s: int,
    k: int,
)
    requires
        w >= 1,
        h >= 1,
        tw >= 1,
        th >= 1,
        s >= 1,
        0 <= k < spec_level_tiles(v, prefix, w, h, tw, th, s).len(),
    ensures
        ({
            let tile = spec_level_tiles(v, prefix, w, h, tw, th, s)[k];
            &&& tile.crop_w >= 1
            &&& tile.crop_h >= 1
            &&& tile.out_w >= 1
            &&& tile.out_h >= 1
        }),
{
    let cols = spec_grid_cols(w, s, tw);
    let rows = spec_grid_rows(h, s, th);
    let x = k / rows;
    let y = k % rows;
    assert(rows >= 1 && 0 <= x < cols && 0 <= y < rows) by (nonlinear_arith)
        requires
            0 <= k < cols * rows && x == k / rows && y == k % rows && cols >= 0 && rows >= 0,
    ;
    lemma_grid_offset(w, s, tw, x);
    lemma_grid_offset(h, s, th, y);
    let tx = x * (tw * s);
    let ty = y * (th * s);
    assert(tw * s >= 1 && th * s >= 1) by (nonlinear_arith)
        requires
            tw >= 1 && th >= 1 && s >= 1,
    ;
    if tx + tw * s > w {
        assert(ceil_div(w - tx, s) >= 1) by (nonlinear_arith)
            requires
                w - tx >= 1 && s >= 1,
        ;
    }
    if ty + th * s > h {
        assert(ceil_div(h - ty, s) >= 1) by (nonlinear_arith)
            requires
                h - ty >= 1 && s >= 1,
        ;
    }
}

/// Law: when a dimension is exactly one pixel past a multiple of the
/// tile size, the native-scale grid gets one final column whose crop and
/// emitted width are exactly 1 — rounded up from the single remaining
/// pixel, never down to zero.
pub proof fn lemma_one_pixel_boundary_tile(
    v: IIIFVersion,
    prefix: Seq<char>,
    w: int,
    h: int,
    tw: int,
    th: int,
    n: int,
    y: int,
)
    requires
        w == n * tw + 1,
        n >= 1,
        tw >= 1,
        th >= 1,
        h >= 1,
        0 <= y < spec_grid_rows(h, 1, th),
    ensures
        spec_grid_cols(w, 1, tw) == n + 1,
        ({
            let rows = spec_grid_rows(h, 1, th);
            let tile = spec_level_tiles(v, prefix, w, h, tw, th, 1)[n * rows + y];
            &&& tile.crop_w == 1
            &&& tile.out_w == 1
        }),
{
    let rows = spec_grid_rows(h, 1, th);
    let cols = spec_grid_cols(w, 1, tw);
    assert(w / 1 == w && (w + tw - 1) / tw == n + 1) by (nonlinear_arith)
        requires
            w == n * tw + 1 && n >= 0 && tw >= 1,
    ;
    let k = n * rows + y;
    assert(rows >= 1 && k / rows == n && k % rows == y && 0 <= k < cols * rows)
        by (nonlinear_arith)
        requires
            0 <= y < rows && n >= 0 && k == n * rows + y && cols == n + 1,
    ;
    let tile = spec_level_tiles(v, prefix, w, h, tw, th, 1)[k];
    assert(n * (tw * 1) == n * tw && n * tw + tw * 1 >= w) by (nonlinear_arith)
        requires
            w == n * tw + 1 && tw >= 1,
    ;
    if tw == 1 {
        assert(tile.crop_w == 1 && tile.out_w == 1);
    } else {
        assert(n * tw + tw * 1 > w) by (nonlinear_arith)
            requires
                w == n * tw + 1 && tw >= 2,
        ;
        assert(tile.crop_w == 1);
        assert(ceil_div(1, 1) == 1);
    }
}

} // verus!

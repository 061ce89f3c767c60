// The render plan: tile grids, boundary correction, filter selection,
// path grammar and the canonical alias, on concrete images.

use iiif_tiler::iiif_image::IIIFImage;
use iiif_tiler::image_info::ImageInfo;
use iiif_tiler::info_json::IIIFVersion;
use iiif_tiler::tiler::{render_size, render_tile, RenderPlan, ResampleFilter, Tiler};
use image::GenericImageView;

fn image(w: u32, h: u32, id: &str) -> IIIFImage {
    IIIFImage::new(image::DynamicImage::new_rgb8(w, h), id.to_string()).unwrap()
}

fn plan(w: u32, h: u32, id: &str, tile: i32, zoom: i32, v: IIIFVersion) -> RenderPlan {
    let img = image(w, h, id);
    let info = ImageInfo::new(&img, tile, tile, zoom);
    let tiler = Tiler::new(&info, &v);
    tiler.generate_tiles("iiif")
}

fn tile_paths(p: &RenderPlan) -> Vec<String> {
    p.tiles.iter().map(|t| t.path.clone()).collect()
}

#[test]
fn output_dir_is_keyed_by_image_id() {
    let img = image(64, 64, "pic");
    let info = ImageInfo::new(&img, 256, 256, 1);
    let tiler = Tiler::new(&info, &IIIFVersion::VERSION211);
    assert_eq!(tiler.get_output_dir("iiif"), "iiif/pic");
}

#[test]
fn exact_tile_match_regions() {
    let p = plan(2048, 2048, "exact_tiles", 1024, 1, IIIFVersion::VERSION211);
    let mut regions: Vec<String> = p
        .tiles
        .iter()
        .map(|t| {
            let rel = t.path.strip_prefix("iiif/exact_tiles/").unwrap();
            rel.split('/').next().unwrap().to_string()
        })
        .collect();
    regions.sort();
    regions.dedup();
    let expected = vec![
        "0,0,1024,1024",
        "0,0,2048,2048",
        "0,1024,1024,1024",
        "1024,0,1024,1024",
        "1024,1024,1024,1024",
    ];
    assert_eq!(regions, expected, "Unexpected files from exact tile match image");
    assert_eq!(p.tiles.len(), 5);
}

#[test]
fn boundary_tile_of_one_pixel() {
    // one pixel taller than a multiple of the tile size
    let p = plan(3072, 3073, "odd-sized", 512, 1, IIIFVersion::VERSION211);
    let paths = tile_paths(&p);
    let wanted = "iiif/odd-sized/0,3072,512,1/512,/0/default.jpg";
    assert!(
        paths.iter().any(|q| q == wanted),
        "Missed bottom 1 pixel tile. Did not find {}",
        wanted
    );
    // rounded up to one pixel, never down to zero
    assert!(p.tiles.iter().all(|t| t.out_w >= 1 && t.out_h >= 1));
    assert!(p.tiles.iter().all(|t| t.crop_w >= 1 && t.crop_h >= 1));
}

#[test]
fn thin_boundary_tiles_get_the_sharp_filter() {
    // 9480 x 6147 with 1024 tiles and zoom 5: at scale 2 the bottom row
    // is 3 source pixels tall and 2 emitted pixels tall
    let p = plan(9480, 6147, "brazil", 1024, 5, IIIFVersion::VERSION211);
    let paths = tile_paths(&p);
    let wanted = [
        "0,6144,2048,3/1024,/0/default.jpg",
        "2048,6144,2048,3/1024,/0/default.jpg",
        "4096,6144,2048,3/1024,/0/default.jpg",
        "6144,6144,2048,3/1024,/0/default.jpg",
        "8192,6144,1288,3/644,/0/default.jpg",
    ];
    for rel in wanted {
        let full = format!("iiif/brazil/{}", rel);
        assert!(paths.iter().any(|q| *q == full), "Expected tile: {} to exist", full);
    }
    let thin = p
        .tiles
        .iter()
        .find(|t| t.crop_x == 0 && t.crop_y == 6144 && t.scale == 2)
        .unwrap();
    assert_eq!(thin.out_h, 2);
    assert_eq!(thin.filter, Some(ResampleFilter::Lanczos3));
    let interior = p
        .tiles
        .iter()
        .find(|t| t.crop_x == 0 && t.crop_y == 0 && t.scale == 2)
        .unwrap();
    assert_eq!(interior.filter, Some(ResampleFilter::CatmullRom));
}

#[test]
fn native_scale_tiles_skip_resampling() {
    let p = plan(2048, 2048, "exact_tiles", 1024, 1, IIIFVersion::VERSION211);
    for t in p.tiles.iter().filter(|t| t.scale == 1) {
        assert_eq!(t.filter, None);
        assert_eq!((t.crop_w, t.crop_h), (t.out_w, t.out_h));
    }
}

#[test]
fn size_paths_round_up() {
    // 16100 / 32 = 503.125, which must round up to 504
    let p = plan(16100, 12000, "tractor", 1024, 5, IIIFVersion::VERSION3);
    let size_paths: Vec<&String> = p.sizes.iter().map(|s| &s.path).collect();
    assert!(
        !size_paths.iter().any(|q| **q == "iiif/tractor/full/503,/0/default.jpg"),
        "Rounded down instead of UP"
    );
    assert!(
        size_paths.iter().any(|q| **q == "iiif/tractor/full/504,/0/default.jpg"),
        "Correct rounding should exist"
    );
}

#[test]
fn native_level_gets_version_alias() {
    let p3 = plan(2048, 2048, "exact_tiles", 1024, 1, IIIFVersion::VERSION3);
    let last = p3.sizes.last().unwrap();
    assert_eq!((last.width, last.height), (2048, 2048));
    assert_eq!(last.path, "iiif/exact_tiles/full/2048,/0/default.jpg");
    assert_eq!(
        last.alias_path.as_deref(),
        Some("iiif/exact_tiles/full/max/0/default.jpg")
    );

    let p2 = plan(2048, 2048, "exact_tiles", 1024, 1, IIIFVersion::VERSION211);
    let last = p2.sizes.last().unwrap();
    assert_eq!(
        last.alias_path.as_deref(),
        Some("iiif/exact_tiles/full/full/0/default.jpg")
    );
    // reduced levels carry no alias
    assert_eq!(p2.sizes[0].alias_path, None);
}

#[test]
fn legacy_paths_elide_emitted_height() {
    let p2 = plan(3000, 2000, "pic", 1024, 1, IIIFVersion::VERSION211);
    let p3 = plan(3000, 2000, "pic", 1024, 1, IIIFVersion::VERSION3);
    assert_eq!(p2.tiles.len(), p3.tiles.len());
    for (a, b) in p2.tiles.iter().zip(p3.tiles.iter()) {
        let a_rel = a.path.strip_prefix("iiif/pic/").unwrap();
        let b_rel = b.path.strip_prefix("iiif/pic/").unwrap();
        let stem = format!(
            "{},{},{},{}/{},",
            a.crop_x, a.crop_y, a.crop_w, a.crop_h, a.out_w
        );
        assert_eq!(a_rel, format!("{}/0/default.jpg", stem));
        assert_eq!(b_rel, format!("{}{}/0/default.jpg", stem, b.out_h));
    }
}

#[test]
fn plan_counts_levels_and_grids() {
    // 2048 x 2048, 1024 tiles, one reduction: 1 tile at scale 2, 4 at scale 1
    let p = plan(2048, 2048, "exact_tiles", 1024, 1, IIIFVersion::VERSION211);
    assert_eq!(p.sizes.len(), 2);
    assert_eq!(p.tiles.len(), 5);
    assert_eq!(p.tiles.iter().filter(|t| t.scale == 2).count(), 1);
    assert_eq!(p.tiles.iter().filter(|t| t.scale == 1).count(), 4);
    // column-by-column order within a level
    assert_eq!(
        (p.tiles[1].crop_x, p.tiles[1].crop_y),
        (0, 0)
    );
    assert_eq!(
        (p.tiles[2].crop_x, p.tiles[2].crop_y),
        (0, 1024)
    );
    assert_eq!(
        (p.tiles[3].crop_x, p.tiles[3].crop_y),
        (1024, 0)
    );
}

#[test]
fn rendering_steps_produces_expected_pixel_sizes() {
    let img = image(64, 48, "tiny");
    let info = ImageInfo::new(&img, 32, 32, 1);
    let tiler = Tiler::new(&info, &IIIFVersion::VERSION211);
    let p = tiler.generate_tiles("iiif");

    // full-size render of the reduced level: 32 x 24
    let reduced = &p.sizes[0];
    assert_eq!((reduced.width, reduced.height), (32, 24));
    let out = render_size(&img, reduced);
    assert_eq!(out.dimensions(), (32, 24));

    // an identity tile at native scale keeps its crop size
    let native = p.tiles.iter().find(|t| t.scale == 1).unwrap();
    assert_eq!(native.filter, None);
    let out = render_tile(&img, native);
    assert_eq!(out.dimensions(), (native.crop_w as u32, native.crop_h as u32));

    // a reduced tile is cropped from source space and resized down
    let coarse = p.tiles.iter().find(|t| t.scale == 2).unwrap();
    assert_eq!((coarse.crop_w, coarse.crop_h), (64, 48));
    assert_eq!((coarse.out_w, coarse.out_h), (32, 24));
    let out = render_tile(&img, coarse);
    assert_eq!(out.dimensions(), (32, 24));
}

#[test]
fn create_image_returns_plan_and_manifest() {
    let img = image(2048, 2048, "exact_tiles");
    let info = ImageInfo::new(&img, 1024, 1024, 1);
    let (p, manifest) =
        Tiler::create_image(&info, "iiif", "http://localhost:8887/iiif/", &IIIFVersion::VERSION211);
    assert_eq!(p.tiles.len(), 5);
    let parsed: serde_json::Value = serde_json::from_str(&manifest).unwrap();
    assert_eq!(parsed["id"], "http://localhost:8887/iiif/exact_tiles");
    assert_eq!(parsed["width"], 2048);
}

#[test]
fn process_image_plans_everything() {
    let img = image(3496, 1350, "test");
    let (p, manifest) = iiif_tiler::tiler::process_image(
        &img,
        1024,
        5,
        "iiif",
        "http://localhost:8887/iiif/",
        &IIIFVersion::VERSION211,
    );
    assert_eq!(p.sizes.len(), 6);
    assert!(p.sizes.iter().any(|s| s.path == "iiif/test/full/3496,/0/default.jpg"));
    let parsed: serde_json::Value = serde_json::from_str(&manifest).unwrap();
    assert_eq!(parsed["height"], 1350);
}

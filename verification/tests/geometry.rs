// Pyramid geometry: level sizes, scale factors, the file-count predictor
// and the auto-fit search, on concrete images.

use iiif_tiler::iiif_image::IIIFImage;
use iiif_tiler::image_info::{FitError, ImageInfo};

fn image(w: u32, h: u32, id: &str) -> IIIFImage {
    IIIFImage::new(image::DynamicImage::new_rgb8(w, h), id.to_string()).unwrap()
}

#[test]
fn end_to_end_geometry_9480_by_6147() {
    let img = image(9480, 6147, "big");
    let info = ImageInfo::new(&img, 1024, 1024, 5);
    assert_eq!(info.get_scale_factors(), vec![32, 16, 8, 4, 2, 1]);
    let expected = vec![
        (297, 193),
        (593, 385),
        (1185, 769),
        (2370, 1537),
        (4740, 3074),
        (9480, 6147),
    ];
    assert_eq!(info.get_sizes(), expected);
    assert_eq!(info.get_sizes()[5], (9480, 6147));
}

#[test]
fn level_sizes_use_ceiling_division() {
    let img = image(4032, 3024, "van");
    let info = ImageInfo::new(&img, 256, 256, 5);
    let mut expected = Vec::new();
    for i in (0..=5u32).rev() {
        let ratio = 2i32.pow(i);
        expected.push((
            (4032 + ratio - 1) / ratio,
            (3024 + ratio - 1) / ratio,
        ));
    }
    let published = info.get_sizes();
    assert_eq!(published.len(), expected.len(), "Number of sizes doesn't match");
    for i in 0..published.len() {
        assert_eq!(published[i], expected[i], "Size {} wasn't expected", i);
    }
}

#[test]
fn predicted_file_counts_on_known_images() {
    let exact = image(2048, 2048, "exact_tiles");
    assert_eq!(ImageInfo::new(&exact, 256, 256, 4).calculate_file_count(), 364);
    assert_eq!(ImageInfo::new(&exact, 256, 256, 3).calculate_file_count(), 357);
    assert_eq!(ImageInfo::new(&exact, 1024, 1024, 1).calculate_file_count(), 31);

    let van = image(4032, 3024, "van");
    assert_eq!(ImageInfo::new(&van, 512, 512, 4).calculate_file_count(), 284);

    let test = image(3496, 1350, "test");
    assert_eq!(ImageInfo::new(&test, 1024, 1024, 5).calculate_file_count(), 77);

    let big = image(9480, 6147, "big");
    assert_eq!(ImageInfo::new(&big, 1024, 1024, 5).calculate_file_count(), 423);
}

#[test]
fn fit_selects_first_combination_under_budget() {
    let exact = image(2048, 2048, "exact_tiles");
    let mut info = ImageInfo::new(&exact, 256, 256, 4);
    info.fit_to_max_file_no(100).unwrap();
    // tile multiples ascending, zoom descending: 512 x zoom 2 is the
    // first combination predicted under 100 files
    assert_eq!(info.get_tile_width(), 512);
    assert_eq!(info.get_tile_height(), 512);
    assert_eq!(info.get_zoom_level(), 2);
    assert_eq!(info.calculate_file_count(), 98);
    assert!(info.calculate_file_count() < 100);

    let van = image(4032, 3024, "van");
    let mut info = ImageInfo::new(&van, 256, 256, 4);
    info.fit_to_max_file_no(100).unwrap();
    assert_eq!(info.get_tile_width(), 1024);
    assert_eq!(info.get_zoom_level(), 4);
    assert_eq!(info.calculate_file_count(), 95);
    assert!(info.calculate_file_count() < 100);
}

#[test]
fn fit_fails_when_no_combination_is_under_budget() {
    let exact = image(2048, 2048, "exact_tiles");
    let mut info = ImageInfo::new(&exact, 256, 256, 4);
    let r = info.fit_to_max_file_no(1);
    assert_eq!(r, Err(FitError::NoFeasibleCombination));
    // the plan is left untouched
    assert_eq!(info.get_tile_width(), 256);
    assert_eq!(info.get_zoom_level(), 4);
}

#[test]
fn setters_take_effect_after_recompute() {
    let img = image(2048, 2048, "exact_tiles");
    let mut info = ImageInfo::new(&img, 256, 256, 4);
    info.set_tile_width(512);
    info.set_tile_height(512);
    info.set_zoom_level(2);
    info.fit_to_zoom_level();
    assert_eq!(info.get_scale_factors(), vec![4, 2, 1]);
    assert_eq!(info.get_sizes(), vec![(512, 512), (1024, 1024), (2048, 2048)]);
    assert_eq!(info.get_tile_width(), 512);
    assert_eq!(info.get_tile_height(), 512);
}

#[test]
fn accessors_reflect_the_source_image() {
    let img = image(3496, 1350, "test");
    let info = ImageInfo::new(&img, 1024, 1024, 5);
    assert_eq!(info.get_width(), 3496);
    assert_eq!(info.get_height(), 1350);
    assert_eq!(info.id(), "test");
    assert_eq!(info.get_image().get_width(), 3496);
    let defaults = ImageInfo::from_image(&img);
    assert_eq!(defaults.get_tile_width(), 1024);
    assert_eq!(defaults.get_tile_height(), 1024);
    assert_eq!(defaults.get_zoom_level(), 5);
}

#[test]
fn oversized_and_empty_buffers_are_rejected() {
    assert!(IIIFImage::new(image::DynamicImage::new_rgb8(0, 10), "x".to_string()).is_none());
    let ok = IIIFImage::new(image::DynamicImage::new_rgb8(10, 10), "x".to_string());
    assert!(ok.is_some());
    assert_eq!(ok.unwrap().id(), "x");
}

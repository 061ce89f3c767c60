// The manifest text for both API versions, parsed back and checked field
// by field.

use iiif_tiler::iiif_image::IIIFImage;
use iiif_tiler::image_info::ImageInfo;
use iiif_tiler::info_json::{escape_json_string, IIIFVersion, InfoJSON};

use serde_json::Value;

const EXPECTED_SIZES: [(i32, i32); 6] = [
    (43, 110),
    (85, 219),
    (169, 437),
    (338, 874),
    (675, 1748),
    (1350, 3496),
];

fn test_image() -> IIIFImage {
    let buffer = image::DynamicImage::new_rgb8(3496, 1350);
    IIIFImage::new(buffer, "test".to_string()).unwrap()
}

#[test]
fn test_version_2_json() {
    let img = test_image();
    let info = ImageInfo::new(&img, 1024, 1024, 5);
    let info_json = InfoJSON::new(
        &info,
        "http://localhost:8887/iiif/",
        &IIIFVersion::VERSION211,
    );
    let json = info_json.to_json();
    let parsed: Value = serde_json::from_str(&json).unwrap();
    assert_eq!(
        parsed["@context"],
        "http://iiif.io/api/image/2/context.json"
    );
    assert_eq!(parsed["id"], "http://localhost:8887/iiif/test");
    assert_eq!(parsed["profile"], "http://iiif.io/api/image/2/level0.json");
    assert_eq!(parsed["protocol"], "http://iiif.io/api/image");

    // check image dimensions
    assert_eq!(parsed["width"], 3496);
    assert_eq!(parsed["height"], 1350);

    // check sizes
    let iter = parsed["sizes"]
        .as_array()
        .unwrap()
        .iter()
        .zip(EXPECTED_SIZES.iter());
    for (size, expected) in iter {
        assert_eq!(size["height"], expected.0);
        assert_eq!(size["width"], expected.1);
    }

    // check tiles
    assert_eq!(parsed["tiles"][0]["width"], 1024);
    assert_eq!(parsed["tiles"][0]["height"], 1024);
    let scale_factors = parsed["tiles"][0]["scaleFactors"]
        .as_array()
        .unwrap()
        .iter()
        .map(|v| v.as_i64().unwrap())
        .collect::<Vec<i64>>();
    assert_eq!(scale_factors, vec![32, 16, 8, 4, 2, 1]);
}

#[test]
fn test_version_3_json() {
    let img = test_image();
    let info = ImageInfo::new(&img, 1024, 1024, 5);
    let info_json = InfoJSON::new(&info, "http://localhost:8887/iiif/", &IIIFVersion::VERSION3);
    let json = info_json.to_json();
    let parsed: Value = serde_json::from_str(&json).unwrap();
    assert_eq!(
        parsed["@context"],
        "http://iiif.io/api/image/3/context.json"
    );
    assert_eq!(parsed["id"], "http://localhost:8887/iiif/test");
    assert_eq!(parsed["type"], "ImageService3");
    assert_eq!(parsed["profile"], "level0");
    assert_eq!(parsed["protocol"], "http://iiif.io/api/image");

    // check image dimensions
    assert_eq!(parsed["width"], 3496);
    assert_eq!(parsed["height"], 1350);

    // check sizes
    let iter = parsed["sizes"]
        .as_array()
        .unwrap()
        .iter()
        .zip(EXPECTED_SIZES.iter());
    for (size, expected) in iter {
        assert_eq!(size["height"], expected.0);
        assert_eq!(size["width"], expected.1);
    }

    // check tiles
    assert_eq!(parsed["tiles"][0]["width"], 1024);
    assert_eq!(parsed["tiles"][0]["height"], 1024);
    let scale_factors = parsed["tiles"][0]["scaleFactors"]
        .as_array()
        .unwrap()
        .iter()
        .map(|v| v.as_i64().unwrap())
        .collect::<Vec<i64>>();
    assert_eq!(scale_factors, vec![32, 16, 8, 4, 2, 1]);
}

#[test]
fn json_escapes_quotes_in_identifier() {
    let buffer = image::DynamicImage::new_rgb8(8, 8);
    let img = IIIFImage::new(buffer, "a\"b\\c".to_string()).unwrap();
    let info = ImageInfo::new(&img, 256, 256, 1);
    let info_json = InfoJSON::new(&info, "http://x/\"q\"/", &IIIFVersion::VERSION211);
    let json = info_json.to_json();
    let parsed: Value = serde_json::from_str(&json).unwrap();
    assert_eq!(parsed["id"], "http://x/\"q\"/a\"b\\c");
}

#[test]
fn escaping_covers_control_characters() {
    assert_eq!(escape_json_string("plain"), "plain");
    assert_eq!(escape_json_string("a\"b"), "a\\\"b");
    assert_eq!(escape_json_string("a\\b"), "a\\\\b");
    assert_eq!(escape_json_string("a\nb\tc\rd"), "a\\nb\\tc\\rd");
    assert_eq!(escape_json_string("\u{8}\u{c}"), "\\b\\f");
    assert_eq!(escape_json_string("\u{1}\u{1f}"), "\\u0001\\u001f");
}

#[test]
fn default_version_is_legacy() {
    assert_eq!(IIIFVersion::default(), IIIFVersion::VERSION211);
}

// Identifier derivation from file paths, and the image-extension check.

use iiif_tiler::iiif_image::{derive_id, is_image_file};

#[test]
fn derive_id_strips_directory_and_extension() {
    assert_eq!(derive_id("tests/fixtures/test.jpg"), Some("test".to_string()));
    assert_eq!(derive_id("exact_tiles.jpg"), Some("exact_tiles".to_string()));
    assert_eq!(derive_id("a/b/odd-sized.tiff"), Some("odd-sized".to_string()));
}

#[test]
fn derive_id_keeps_dotless_and_hidden_names() {
    assert_eq!(derive_id("noext"), Some("noext".to_string()));
    assert_eq!(derive_id("dir/.hidden"), Some(".hidden".to_string()));
    assert_eq!(derive_id("archive.tar.gz"), Some("archive.tar".to_string()));
}

#[test]
fn derive_id_rejects_empty_base_names() {
    assert_eq!(derive_id("dir/"), None);
    assert_eq!(derive_id(""), None);
}

#[test]
fn image_extensions_match_case_insensitively() {
    assert!(is_image_file("photo.jpg"));
    assert!(is_image_file("photo.JPG"));
    assert!(is_image_file("a/b/photo.JpEg"));
    assert!(is_image_file("scan.png"));
    assert!(is_image_file("scan.BMP"));
    assert!(is_image_file("scan.tiff"));
}

#[test]
fn non_image_paths_are_rejected() {
    assert!(!is_image_file("notes.txt"));
    assert!(!is_image_file("noext"));
    assert!(!is_image_file(".jpg"));
    assert!(!is_image_file("dir.jpg/file"));
    assert!(!is_image_file("photo.jpg.bak"));
}

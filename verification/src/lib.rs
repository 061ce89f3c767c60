//! Static IIIF image pyramid planner and tile renderer.
//!
//! The library turns a source image into a plan for a IIIF level-0 static
//! pyramid: the zoom levels and their pixel sizes, the tile grid of every
//! level with boundary-corrected tile sizes, the output path of every
//! artifact, and the `info.json` manifest text.  A thin front end executes
//! the plan by resizing, cropping and writing the planned files.

pub mod iiif_image;
pub mod image_info;
pub mod info_json;
pub mod text;
pub mod tiler;

//! The source image: a decoded pixel buffer together with its identifier
//! and its pixel dimensions, immutable after construction.
//!
//! The pixel buffer itself is an `image::DynamicImage` and stays opaque;
//! the planner and the renderer only read the dimensions recorded here.

use vstd::prelude::*;

verus! {

/// Largest accepted pixel dimension (2^28).  Keeps every later dimension,
/// offset and ceiling-division computation inside `i32`.
pub const MAX_DIM: i32 = 0x1000_0000;

#[verifier::external_type_specification]
#[verifier::external_body]
pub struct ExDynamicImage(image::DynamicImage);

/// Relies on image::DynamicImage::clone: duplicates the pixel buffer.
/// Nothing is claimed of the copy; the buffer is opaque.
#[verifier::external_body]
pub(crate) fn clone_image(img: &image::DynamicImage) -> image::DynamicImage {
    img.clone()
}

/// The pixel width of a decoded buffer: the value
/// `image::DynamicImage::width` reads, a function of the buffer alone.
pub uninterp spec fn spec_buffer_width(img: image::DynamicImage) -> u32;

/// The pixel height of a decoded buffer: the value
/// `image::DynamicImage::height` reads, a function of the buffer alone.
pub uninterp spec fn spec_buffer_height(img: image::DynamicImage) -> u32;

/// Relies on image::DynamicImage::width: the pixel width of the buffer.
#[verifier::external_body]
fn image_width(img: &image::DynamicImage) -> (r: u32)
    ensures
        r == spec_buffer_width(*img),
{
    img.width()
}

/// Relies on image::DynamicImage::height: the pixel height of the buffer.
#[verifier::external_body]
fn image_height(img: &image::DynamicImage) -> (r: u32)
    ensures
        r == spec_buffer_height(*img),
{
    img.height()
}

/// A source image: decoded pixels, identifier, and positive dimensions.
pub struct IIIFImage {
    image: image::DynamicImage,
    id: String,
    width: i32,
    height: i32,
}

impl IIIFImage {
    /// The recorded pixel width.
    pub closed spec fn spec_width(&self) -> int {
        self.width as int
    }

    /// The recorded pixel height.
    pub closed spec fn spec_height(&self) -> int {
        self.height as int
    }

    /// The identifier under which every artifact of this image is filed.
    pub closed spec fn spec_id(&self) -> Seq<char> {
        self.id@
    }

    /// Both dimensions are positive and small enough for the planner's
    /// arithmetic.
    pub open spec fn wf(&self) -> bool {
        &&& 1 <= self.spec_width() <= MAX_DIM as int
        &&& 1 <= self.spec_height() <= MAX_DIM as int
    }

    /// Wraps a decoded buffer under the given identifier, recording the
    /// buffer's own pixel dimensions.  Returns `None` exactly when a
    /// dimension is zero or above `MAX_DIM`.
    pub fn new(img: image::DynamicImage, id: String) -> (r: Option<IIIFImage>)
        ensures
            match r {
                Some(im) => {
                    &&& im.wf()
                    &&& im.spec_id() == id@
                    &&& im.spec_width() == spec_buffer_width(img) as int
                    &&& im.spec_height() == spec_buffer_height(img) as int
                },
                None => !(1 <= spec_buffer_width(img) as int <= MAX_DIM as int && 1
                    <= spec_buffer_height(img) as int <= MAX_DIM as int),
            },
    {
        let w = image_width(&img);
        let h = image_height(&img);
        if 1 <= w && w <= MAX_DIM as u32 && 1 <= h && h <= MAX_DIM as u32 {
            Some(IIIFImage { image: img, id, width: w as i32, height: h as i32 })
        } else {
            None
        }
    }

    pub fn id(&self) -> (r: String)
        ensures
            r@ == self.spec_id(),
    {
        self.id.clone()
    }

    pub fn get_width(&self) -> (r: i32)
        ensures
            r as int == self.spec_width(),
    {
        self.width
    }

    pub fn get_height(&self) -> (r: i32)
        ensures
            r as int == self.spec_height(),
    {
        self.height
    }

    /// The decoded pixel buffer.
    pub fn get_image(&self) -> &image::DynamicImage {
        &self.image
    }
}

/// Position of the last occurrence of `c` in `s`, or -1 when absent.
pub open spec fn spec_last_index_of(s: Seq<char>, c: char) -> int
    decreases s.len(),
{
    if s.len() == 0 {
        -1
    } else if s.last() == c {
        s.len() - 1
    } else {
        spec_last_index_of(s.drop_last(), c)
    }
}

pub proof fn lemma_last_index_bounds(s: Seq<char>, c: char)
    ensures
        -1 <= spec_last_index_of(s, c) < s.len(),
    decreases s.len(),
{
    if s.len() != 0 && s.last() != c {
        lemma_last_index_bounds(s.drop_last(), c);
    }
}

/// The final path component: everything after the last separator.
pub open spec fn spec_base_name(p: Seq<char>) -> Seq<char> {
    p.subrange(spec_last_index_of(p, '/') + 1, p.len() as int)
}

/// The base name without its extension; a leading dot does not start an
/// extension.
pub open spec fn spec_stem(name: Seq<char>) -> Seq<char> {
    let d = spec_last_index_of(name, '.');
    if d <= 0 {
        name
    } else {
        name.subrange(0, d)
    }
}

/// The identifier derived from a file path: the base name without its
/// extension; `None` when that would be empty.
pub open spec fn spec_derive_id(p: Seq<char>) -> Option<Seq<char>> {
    let stem = spec_stem(spec_base_name(p));
    if stem.len() == 0 {
        Option::None
    } else {
        Option::Some(stem)
    }
}

/// ASCII lower-casing of one character.
pub open spec fn spec_lower_char(c: char) -> char {
    if 'A' <= c && c <= 'Z' {
        ((c as u32) + 32) as char
    } else {
        c
    }
}

/// Whether `s` equals the (already lower-case) `lower`, ignoring ASCII
/// case.
pub open spec fn spec_matches_ci(s: Seq<char>, lower: Seq<char>) -> bool {
    s.len() == lower.len() && forall|i: int|
        0 <= i < s.len() ==> spec_lower_char(#[trigger] s[i]) == lower[i]
}

/// Whether the path's extension names one of the raster formats the run
/// accepts, ignoring ASCII case.
pub open spec fn spec_is_image_file(p: Seq<char>) -> bool {
    let name = spec_base_name(p);
    let d = spec_last_index_of(name, '.');
    &&& d > 0
    &&& ({
        let ext = name.subrange(d + 1, name.len() as int);
        ||| spec_matches_ci(ext, "jpg"@)
        ||| spec_matches_ci(ext, "jpeg"@)
        ||| spec_matches_ci(ext, "png"@)
        ||| spec_matches_ci(ext, "bmp"@)
        ||| spec_matches_ci(ext, "tiff"@)
    })
}

/// Position of the last occurrence of `c` in `s`, if any.
fn last_index_of(s: &str, c: char) -> (r: Option<usize>)
    ensures
        match r {
            Some(i) => spec_last_index_of(s@, c) == i as int,
            None => spec_last_index_of(s@, c) == -1,
        },
{
    let n = s.unicode_len();
    proof {
        assert(s@.take(n as int) =~= s@);
    }
    let mut i = n;
    while i > 0
        invariant
            i <= n,
            n == s@.len(),
            spec_last_index_of(s@, c) == spec_last_index_of(s@.take(i as int), c),
        decreases i,
    {
        let ch = s.get_char(i - 1);
        proof {
            assert(s@.take(i as int).last() == s@[i as int - 1]);
            assert(s@.take(i as int).drop_last() =~= s@.take(i as int - 1));
        }
        if ch == c {
            return Some(i - 1);
        }
        i = i - 1;
    }
    proof {
        assert(s@.take(0).len() == 0);
    }
    None
}

fn char_matches_lower(c: char, l: char) -> (r: bool)
    ensures
        r == (spec_lower_char(c) == l),
{
    let u = c as u32;
    if 65 <= u && u <= 90 {
        u + 32 == l as u32
    } else {
        c == l
    }
}

fn matches_ci(s: &str, lower: &str) -> (r: bool)
    ensures
        r == spec_matches_ci(s@, lower@),
{
    let n = s.unicode_len();
    if n != lower.unicode_len() {
        return false;
    }
    let mut i: usize = 0;
    while i < n
        invariant
            i <= n,
            n == s@.len() == lower@.len(),
            forall|j: int| 0 <= j < i ==> spec_lower_char(#[trigger] s@[j]) == lower@[j],
        decreases n - i,
    {
        if !char_matches_lower(s.get_char(i), lower.get_char(i)) {
            return false;
        }
        i = i + 1;
    }
    true
}

/// Whether the path names a file the run will try to decode, judged by
/// its extension, ignoring ASCII case.
pub fn is_image_file(path: &str) -> (r: bool)
    ensures
        r == spec_is_image_file(path@),
{
    let n = path.unicode_len();
    proof {
        lemma_last_index_bounds(path@, '/');
    }
    let name_start = match last_index_of(path, '/') {
        Some(i) => i + 1,
        None => 0,
    };
    let name = path.substring_char(name_start, n);
    let name_len = name.unicode_len();
    proof {
        lemma_last_index_bounds(name@, '.');
    }
    match last_index_of(name, '.') {
        Some(d) if d > 0 => {
            let ext = name.substring_char(d + 1, name_len);
            matches_ci(ext, "jpg") || matches_ci(ext, "jpeg") || matches_ci(ext, "png")
                || matches_ci(ext, "bmp") || matches_ci(ext, "tiff")
        },
        _ => false,
    }
}

/// The identifier a path yields: its base name without the extension.
/// `None` when that would be empty.
pub fn derive_id(path: &str) -> (r: Option<String>)
    ensures
        match r {
            Some(id) => spec_derive_id(path@) == Option::Some(id@),
            None => spec_derive_id(path@) == Option::<Seq<char>>::None,
        },
{
    let n = path.unicode_len();
    proof {
        lemma_last_index_bounds(path@, '/');
    }
    let name_start = match last_index_of(path, '/') {
        Some(i) => i + 1,
        None => 0,
    };
    let name = path.substring_char(name_start, n);
    let name_len = name.unicode_len();
    proof {
        lemma_last_index_bounds(name@, '.');
    }
    let stem = match last_index_of(name, '.') {
        Some(d) if d > 0 => name.substring_char(0, d),
        _ => name,
    };
    if stem.unicode_len() == 0 {
        None
    } else {
        Some(stem.to_owned())
    }
}

impl Clone for IIIFImage {
    /// The copy keeps the identifier and the dimensions; the pixel buffer
    /// is duplicated by the codec.
    fn clone(&self) -> (r: Self)
        ensures
            r.spec_width() == self.spec_width(),
            r.spec_height() == self.spec_height(),
            r.spec_id() == self.spec_id(),
    {
        IIIFImage {
            image: clone_image(&self.image),
            id: self.id.clone(),
            width: self.width,
            height: self.height,
        }
    }
}

} // verus!

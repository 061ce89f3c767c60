//! The `info.json` manifest: the exact JSON text describing a plan's
//! geometry under the two supported IIIF Image API versions.
//!
//! The document shape is fixed, so the text is assembled directly: keys in
//! lexicographic order, compact separators, and JSON string escaping for
//! the identifier.

use crate::image_info::ImageInfo;
use crate::image_info::spec_factors;
use crate::image_info::spec_sizes;
use crate::image_info::lemma_factor_bounds;
use crate::image_info::lemma_size_bounds;
use crate::text::hex_digit;
use crate::text::hex_digit_char;
use crate::text::push_char;
use crate::text::spec_dec;
use crate::text::to_decimal;
use vstd::prelude::*;

verus! {

/// The two supported IIIF Image API versions.
#[derive(Clone, Copy, Debug, PartialEq, Eq, Structural)]
pub enum IIIFVersion {
    VERSION3,
    VERSION211,
}

impl Default for IIIFVersion {
    /// The legacy version is the default.
    fn default() -> (r: Self)
        ensures
            r == IIIFVersion::VERSION211,
    {
        IIIFVersion::VERSION211
    }
}

/// JSON escaping of one character: quote and backslash get a backslash,
/// the five short control escapes are used where JSON names them, any
/// other control character becomes a `\u00..` escape, and everything else
/// stands as itself.
pub open spec fn spec_escaped_char(c: char) -> Seq<char> {
    if c == '"' {
        seq!['\\', '"']
    } else if c == '\\' {
        seq!['\\', '\\']
    } else if c as u32 == 8 {
        seq!['\\', 'b']
    } else if c as u32 == 9 {
        seq!['\\', 't']
    } else if c as u32 == 10 {
        seq!['\\', 'n']
    } else if c as u32 == 12 {
        seq!['\\', 'f']
    } else if c as u32 == 13 {
        seq!['\\', 'r']
    } else if (c as u32) < 32 {
        seq!['\\', 'u', '0', '0', hex_digit((c as u32 / 16) as int), hex_digit((c as u32 % 16) as int)]
    } else {
        seq![c]
    }
}

/// JSON escaping of a whole string.
pub open spec fn spec_escaped(s: Seq<char>) -> Seq<char>
    decreases s.len(),
{
    if s.len() == 0 {
        Seq::empty()
    } else {
        spec_escaped_char(s[0]) + spec_escaped(s.drop_first())
    }
}

proof fn lemma_escaped_snoc(t: Seq<char>, c: char)
    ensures
        spec_escaped(t.push(c)) == spec_escaped(t) + spec_escaped_char(c),
    decreases t.len(),
{
    if t.len() == 0 {
        assert(t.push(c).drop_first() =~= t);
        assert(spec_escaped(t.push(c)) =~= spec_escaped(t) + spec_escaped_char(c));
    } else {
        assert(t.push(c).drop_first() =~= t.drop_first().push(c));
        lemma_escaped_snoc(t.drop_first(), c);
        assert(spec_escaped(t.push(c)) =~= spec_escaped(t) + spec_escaped_char(c));
    }
}

/// JSON-escapes a string.
pub fn escape_json_string(s: &str) -> (r: String)
    ensures
        r@ == spec_escaped(s@),
{
    let n = s.unicode_len();
    let mut out = String::new();
    let mut i: usize = 0;
    while i < n
        invariant
            i <= n,
            n == s@.len(),
            out@ == spec_escaped(s@.take(i as int)),
        decreases n - i,
    {
        let c = s.get_char(i);
        if c == '"' {
            push_char(&mut out, '\\');
            push_char(&mut out, '"');
        } else if c == '\\' {
            push_char(&mut out, '\\');
            push_char(&mut out, '\\');
        } else {
            let u = c as u32;
            if u == 8 {
                push_char(&mut out, '\\');
                push_char(&mut out, 'b');
            } else if u == 9 {
                push_char(&mut out, '\\');
                push_char(&mut out, 't');
            } else if u == 10 {
                push_char(&mut out, '\\');
                push_char(&mut out, 'n');
            } else if u == 12 {
                push_char(&mut out, '\\');
                push_char(&mut out, 'f');
            } else if u == 13 {
                push_char(&mut out, '\\');
                push_char(&mut out, 'r');
            } else if u < 32 {
                push_char(&mut out, '\\');
                push_char(&mut out, 'u');
                push_char(&mut out, '0');
                push_char(&mut out, '0');
                push_char(&mut out, hex_digit_char(u / 16));
                push_char(&mut out, hex_digit_char(u % 16));
            } else {
                push_char(&mut out, c);
            }
        }
        proof {
            lemma_escaped_snoc(s@.take(i as int), c);
            assert(s@.take(i as int).push(c) =~= s@.take(i as int + 1));
            assert(out@ =~= spec_escaped(s@.take(i as int + 1)));
        }
        i = i + 1;
    }
    proof {
        assert(s@.take(n as int) =~= s@);
    }
    out
}

/// One element of the manifest's `sizes` array.
pub open spec fn spec_size_entry(p: (int, int)) -> Seq<char> {
    "{\"height\":"@ + spec_dec(p.1) + ",\"width\":"@ + spec_dec(p.0) + "}"@
}

/// The comma-joined `sizes` array body.
pub open spec fn spec_sizes_json(s: Seq<(int, int)>) -> Seq<char>
    decreases s.len(),
{
    if s.len() == 0 {
        Seq::empty()
    } else if s.len() == 1 {
        spec_size_entry(s[0])
    } else {
        spec_size_entry(s[0]) + ","@ + spec_sizes_json(s.drop_first())
    }
}

proof fn lemma_sizes_json_snoc(s: Seq<(int, int)>, p: (int, int))
    ensures
        spec_sizes_json(s.push(p)) == if s.len() == 0 {
            spec_size_entry(p)
        } else {
            spec_sizes_json(s) + ","@ + spec_size_entry(p)
        },
    decreases s.len(),
{
    if s.len() == 0 {
        assert(spec_sizes_json(s.push(p)) =~= spec_size_entry(p));
    } else {
        assert(s.push(p).drop_first() =~= s.drop_first().push(p));
        lemma_sizes_json_snoc(s.drop_first(), p);
        assert(spec_sizes_json(s.push(p)) =~= spec_sizes_json(s) + ","@ + spec_size_entry(p));
    }
}

/// The comma-joined body of an array of integers.
pub open spec fn spec_int_list(s: Seq<int>) -> Seq<char>
    decreases s.len(),
{
    if s.len() == 0 {
        Seq::empty()
    } else if s.len() == 1 {
        spec_dec(s[0])
    } else {
        spec_dec(s[0]) + ","@ + spec_int_list(s.drop_first())
    }
}

proof fn lemma_int_list_snoc(s: Seq<int>, v: int)
    ensures
        spec_int_list(s.push(v)) == if s.len() == 0 {
            spec_dec(v)
        } else {
            spec_int_list(s) + ","@ + spec_dec(v)
        },
    decreases s.len(),
{
    if s.len() == 0 {
        assert(spec_int_list(s.push(v)) =~= spec_dec(v));
    } else {
        assert(s.push(v).drop_first() =~= s.drop_first().push(v));
        lemma_int_list_snoc(s.drop_first(), v);
        assert(spec_int_list(s.push(v)) =~= spec_int_list(s) + ","@ + spec_dec(v));
    }
}

/// The `@context` value of each version.
pub open spec fn spec_version_context(v: IIIFVersion) -> Seq<char> {
    if v is VERSION3 {
        "http://iiif.io/api/image/3/context.json"@
    } else {
        "http://iiif.io/api/image/2/context.json"@
    }
}

/// The `profile` value of each version.
pub open spec fn spec_version_profile(v: IIIFVersion) -> Seq<char> {
    if v is VERSION3 {
        "level0"@
    } else {
        "http://iiif.io/api/image/2/level0.json"@
    }
}

/// The `type` member, present only in the newer version.
pub open spec fn spec_type_member(v: IIIFVersion) -> Seq<char> {
    if v is VERSION3 {
        ",\"type\":\"ImageService3\""@
    } else {
        Seq::empty()
    }
}

/// The whole manifest text: members in lexicographic key order with
/// compact separators.
pub open spec fn spec_info_json(
    v: IIIFVersion,
    uri: Seq<char>,
    id: Seq<char>,
    w: int,
    h: int,
    tw: int,
    th: int,
    sizes: Seq<(int, int)>,
    factors: Seq<int>,
) -> Seq<char> {
    "{\"@context\":\""@ + spec_version_context(v) + "\",\"height\":"@ + spec_dec(h) + ",\"id\":\""@
        + spec_escaped(uri + id) + "\",\"profile\":\""@ + spec_version_profile(v)
        + "\",\"protocol\":\"http://iiif.io/api/image\",\"sizes\":["@ + spec_sizes_json(sizes)
        + "],\"tiles\":[{\"height\":"@ + spec_dec(th) + ",\"scaleFactors\":["@ + spec_int_list(
        factors,
    ) + "],\"width\":"@ + spec_dec(tw) + "}]"@ + spec_type_member(v) + ",\"width\":"@ + spec_dec(w)
        + "}"@
}

/// The manifest generator for one plan: the plan's geometry, the URI
/// prefix of the service, and the API version.
pub struct InfoJSON<'a> {
    image_info: &'a ImageInfo<'a>,
    uri: String,
    version: IIIFVersion,
}

impl<'a> InfoJSON<'a> {
    pub closed spec fn spec_uri(&self) -> Seq<char> {
        self.uri@
    }

    pub closed spec fn spec_version(&self) -> IIIFVersion {
        self.version
    }

    pub closed spec fn spec_info(&self) -> &'a ImageInfo<'a> {
        self.image_info
    }

    pub fn new(image_info: &'a ImageInfo<'a>, uri: &str, version: &IIIFVersion) -> (r: InfoJSON<
        'a,
    >)
        ensures
            r.spec_uri() == uri@,
            r.spec_version() == *version,
            r.spec_info() == image_info,
    {
        InfoJSON { image_info, uri: uri.to_owned(), version: *version }
    }

    /// The service identifier: the URI prefix followed by the image id.
    pub fn id(&self) -> (r: String)
        ensures
            r@ == self.spec_uri() + self.spec_info().spec_id(),
    {
        let mut r = self.uri.clone();
        let image_id = self.image_info.id();
        r.append(image_id.as_str());
        r
    }

    pub fn width(&self) -> (r: i32)
        ensures
            r as int == self.spec_info().spec_width(),
    {
        self.image_info.get_width()
    }

    pub fn height(&self) -> (r: i32)
        ensures
            r as int == self.spec_info().spec_height(),
    {
        self.image_info.get_height()
    }

    /// Renders the manifest for the plan's current (fresh) geometry.
    pub fn to_json(&self) -> (r: String)
        requires
            self.spec_info().wf(),
            self.spec_info().geometry_fresh(),
        ensures
            r@ == spec_info_json(
                self.spec_version(),
                self.spec_uri(),
                self.spec_info().spec_id(),
                self.spec_info().spec_width(),
                self.spec_info().spec_height(),
                self.spec_info().spec_tile_width(),
                self.spec_info().spec_tile_height(),
                self.spec_info().spec_sizes(),
                self.spec_info().spec_scale_factors(),
            ),
    {
        let ghost wi = self.spec_info().spec_width();
        let ghost hi = self.spec_info().spec_height();
        let ghost zi = self.spec_info().spec_zoom_levels();

        // sizes array body
        let sizes_vec = self.image_info.get_sizes();
        let ghost mapped_sizes = sizes_vec@.map_values(|p: (i32, i32)| (p.0 as int, p.1 as int));
        proof {
            lemma_size_bounds(wi, hi, zi);
        }
        let mut sizes_json = String::new();
        let mut i: usize = 0;
        while i < sizes_vec.len()
            invariant
                i <= sizes_vec@.len(),
                mapped_sizes == sizes_vec@.map_values(|p: (i32, i32)| (p.0 as int, p.1 as int)),
                mapped_sizes == spec_sizes(wi, hi, zi),
                forall|j: int|
                    0 <= j < mapped_sizes.len() ==> 0 <= #[trigger] mapped_sizes[j].0 && 0
                        <= mapped_sizes[j].1,
                sizes_json@ == spec_sizes_json(mapped_sizes.take(i as int)),
            decreases sizes_vec@.len() - i,
        {
            let p = sizes_vec[i];
            proof {
                assert(mapped_sizes[i as int] == (p.0 as int, p.1 as int));
            }
            if i > 0 {
                sizes_json.append(",");
            }
            sizes_json.append("{\"height\":");
            let t = to_decimal(p.1);
            sizes_json.append(t.as_str());
            sizes_json.append(",\"width\":");
            let t2 = to_decimal(p.0);
            sizes_json.append(t2.as_str());
            sizes_json.append("}");
            proof {
                lemma_sizes_json_snoc(mapped_sizes.take(i as int), mapped_sizes[i as int]);
                assert(mapped_sizes.take(i as int).push(mapped_sizes[i as int]) =~= mapped_sizes
                    .take(i as int + 1));
                assert(sizes_json@ =~= spec_sizes_json(mapped_sizes.take(i as int + 1)));
            }
            i = i + 1;
        }
        proof {
            assert(mapped_sizes.take(mapped_sizes.len() as int) =~= mapped_sizes);
        }

        // scaleFactors array body
        let factors_vec = self.image_info.get_scale_factors();
        let ghost mapped_factors = factors_vec@.map_values(|v: i32| v as int);
        proof {
            lemma_factor_bounds(zi);
        }
        let mut factors_json = String::new();
        let mut k: usize = 0;
        while k < factors_vec.len()
            invariant
                k <= factors_vec@.len(),
                mapped_factors == factors_vec@.map_values(|v: i32| v as int),
                mapped_factors == spec_factors(zi),
                forall|j: int| 0 <= j < mapped_factors.len() ==> 0 <= #[trigger] mapped_factors[j],
                factors_json@ == spec_int_list(mapped_factors.take(k as int)),
            decreases factors_vec@.len() - k,
        {
            let f = factors_vec[k];
            proof {
                assert(mapped_factors[k as int] == f as int);
            }
            if k > 0 {
                factors_json.append(",");
            }
            let t = to_decimal(f);
            factors_json.append(t.as_str());
            proof {
                lemma_int_list_snoc(mapped_factors.take(k as int), mapped_factors[k as int]);
                assert(mapped_factors.take(k as int).push(mapped_factors[k as int])
                    =~= mapped_factors.take(k as int + 1));
                assert(factors_json@ =~= spec_int_list(mapped_factors.take(k as int + 1)));
            }
            k = k + 1;
        }
        proof {
            assert(mapped_factors.take(mapped_factors.len() as int) =~= mapped_factors);
        }

        // assemble the document
        let service_id = self.id();
        let escaped_id = escape_json_string(service_id.as_str());
        let w_dec = to_decimal(self.image_info.get_width());
        let h_dec = to_decimal(self.image_info.get_height());
        let tw_dec = to_decimal(self.image_info.get_tile_width());
        let th_dec = to_decimal(self.image_info.get_tile_height());

        let mut out = String::from_str("{\"@context\":\"");
        match self.version {
            IIIFVersion::VERSION3 => out.append("http://iiif.io/api/image/3/context.json"),
            IIIFVersion::VERSION211 => out.append("http://iiif.io/api/image/2/context.json"),
        }
        out.append("\",\"height\":");
        out.append(h_dec.as_str());
        out.append(",\"id\":\"");
        out.append(escaped_id.as_str());
        out.append("\",\"profile\":\"");
        match self.version {
            IIIFVersion::VERSION3 => out.append("level0"),
            IIIFVersion::VERSION211 => out.append("http://iiif.io/api/image/2/level0.json"),
        }
        out.append("\",\"protocol\":\"http://iiif.io/api/image\",\"sizes\":[");
        out.append(sizes_json.as_str());
        out.append("],\"tiles\":[{\"height\":");
        out.append(th_dec.as_str());
        out.append(",\"scaleFactors\":[");
        out.append(factors_json.as_str());
        out.append("],\"width\":");
        out.append(tw_dec.as_str());
        out.append("}]");
        match self.version {
            IIIFVersion::VERSION3 => out.append(",\"type\":\"ImageService3\""),
            IIIFVersion::VERSION211 => (),
        }
        out.append(",\"width\":");
        out.append(w_dec.as_str());
        out.append("}");
        proof {
            assert(out@ =~= spec_info_json(
                self.spec_version(),
                self.spec_uri(),
                self.spec_info().spec_id(),
                wi,
                hi,
                self.spec_info().spec_tile_width(),
                self.spec_info().spec_tile_height(),
                self.spec_info().spec_sizes(),
                self.spec_info().spec_scale_factors(),
            ));
        }
        out
    }
}

} // verus!

//! The request descriptor and the steps that turn it into a response.
use crate::error::ImageError;
use crate::luminance::{iterate, normalize, passes_needed};
use crate::outside::{encode_png, minified_pattern_svg, pattern_svg_of, png_of};
use geopattern::patterns::Patterns;
use vstd::prelude::*;
use vstd::string::StringSliceAdditionalSpecFns;
use vstd::utf8::encode_utf8;

verus! {

/// Output size, in pixels of the shorter side, when none is given.
pub const DEFAULT_SIZE: u32 = 128;

/// Rendering density used when a document is rasterized.
pub const RASTER_DPI: u32 = 300;

/// Seconds for which a successful response may be cached.
pub const CACHE_MAX_AGE: u32 = 2592000;

/// What a request asks for.
#[derive(Debug, Clone, Copy, PartialEq, Eq, Structural)]
pub enum Mode {
    Unknown,
    Png,
    Svg,
}

/// A parsed request: the identifier the pattern is drawn from, the size of
/// the shorter side of a raster image, and the output mode.
#[derive(Debug)]
pub struct Pattern {
    pub hash: String,
    pub size: u32,
    pub mode: Mode,
}

/// The media type of a successful response.
#[derive(Debug, Clone, Copy, PartialEq, Eq, Structural)]
pub enum ContentType {
    Svg,
    Png,
}

/// The body of a response.
#[derive(Debug)]
pub enum Payload {
    Text(String),
    Binary(Vec<u8>),
}

/// A response, ready to be sent by an HTTP server.
#[derive(Debug)]
pub struct Response {
    pub status: u16,
    pub content_type: Option<ContentType>,
    pub max_age: Option<u32>,
    pub body: Payload,
}

pub open spec fn is_digit(b: u8) -> bool {
    48 <= b <= 57
}

/// The number written by a string of decimal digits.
pub open spec fn digits_value(d: Seq<u8>) -> nat
    decreases d.len(),
{
    if d.len() == 0 {
        0
    } else {
        digits_value(d.drop_last()) * 10 + (d.last() - 48) as nat
    }
}

/// The text with one leading `+` removed, if it has one.
pub open spec fn unsigned_digits(b: Seq<u8>) -> Seq<u8> {
    if b.len() > 0 && b[0] == 43 {
        b.subrange(1, b.len() as int)
    } else {
        b
    }
}

/// The value of a size text: an optional `+` and at least one decimal digit,
/// nothing else, with a value that fits in a `u32`.
pub open spec fn size_value(b: Seq<u8>) -> Option<u32> {
    let d = unsigned_digits(b);
    if d.len() > 0 && (forall|i: int| 0 <= i < d.len() ==> is_digit(#[trigger] d[i]))
        && digits_value(d) <= u32::MAX {
        Some(digits_value(d) as u32)
    } else {
        None
    }
}

/// The mode named by a mode text: exactly `png` or `svg`, else unknown.
pub open spec fn mode_of(b: Seq<u8>) -> Mode {
    if b == seq![112u8, 110u8, 103u8] {
        Mode::Png
    } else if b == seq![115u8, 118u8, 103u8] {
        Mode::Svg
    } else {
        Mode::Unknown
    }
}

pub open spec fn default_identifier() -> Seq<char> {
    seq!['d', 'e', 'f', 'a', 'u', 'l', 't']
}

pub open spec fn identifier_of(hash: Option<&str>) -> Seq<char> {
    match hash {
        Some(h) => if h@.len() > 0 {
            h@
        } else {
            default_identifier()
        },
        None => default_identifier(),
    }
}

pub open spec fn size_of(size: Option<&str>) -> u32 {
    match size {
        Some(t) => match size_value(t.spec_bytes()) {
            Some(v) => v,
            None => DEFAULT_SIZE,
        },
        None => DEFAULT_SIZE,
    }
}

pub open spec fn requested_mode(mode: Option<&str>) -> Mode {
    match mode {
        Some(m) => mode_of(m.spec_bytes()),
        None => Mode::Unknown,
    }
}

/// The motifs a pattern is drawn with, in the order offered to the drawer.
pub open spec fn motif_list() -> Seq<Patterns> {
    seq![
        Patterns::Plaid,
        Patterns::ConcentricCircles,
        Patterns::MosaicSquares,
        Patterns::Xes,
        Patterns::Octagons,
        Patterns::OverlappingCircles,
        Patterns::PlusSigns,
        Patterns::Squares,
    ]
}

/// The vector text drawn for a pattern, if the drawer succeeds.
pub open spec fn svg_text(p: Pattern) -> Option<Seq<char>> {
    pattern_svg_of(p.hash@, motif_list())
}

/// The drawer's minified text stands a NUL byte where a line break was; an
/// XML reader refuses NUL, so for parsing each one becomes a line feed again.
pub open spec fn restore_line_breaks(b: Seq<u8>) -> Seq<u8> {
    Seq::new(b.len(), |i: int| if b[i] == 0 { 10u8 } else { b[i] })
}

/// Clamps a value to at most one past `u32::MAX`.
pub open spec fn capped(v: nat) -> nat {
    if v > u32::MAX {
        u32::MAX as nat + 1
    } else {
        v
    }
}

/// Parses a size text as an unsigned 32-bit decimal number.
pub fn parse_size(text: &str) -> (r: Option<u32>)
    ensures
        r == size_value(text.spec_bytes()),
{
    let b = text.as_bytes();
    let n: usize = b.len();
    let start: usize = if n > 0 && b[0] == 43 {
        1
    } else {
        0
    };
    assert(b@.subrange(start as int, n as int) =~= unsigned_digits(b@));
    if start >= n {
        return None;
    }
    let limit: u64 = 0x1_0000_0000;
    let mut acc: u64 = 0;
    let mut i: usize = start;
    while i < n
        invariant
            n == b@.len(),
            b@ == text.spec_bytes(),
            limit == 0x1_0000_0000,
            start <= i <= n,
            start < n,
            b@.subrange(start as int, n as int) == unsigned_digits(b@),
            forall|j: int| start <= j < i ==> is_digit(#[trigger] b@[j]),
            acc == capped(digits_value(b@.subrange(start as int, i as int))),
        decreases n - i,
    {
        let c: u8 = b[i];
        if c < 48 || c > 57 {
            assert(unsigned_digits(b@)[i - start] == b@[i as int]);
            assert(!is_digit(unsigned_digits(b@)[i - start]));
            return None;
        }
        let ghost prev = b@.subrange(start as int, i as int);
        let ghost next = b@.subrange(start as int, i + 1);
        assert(next.drop_last() =~= prev);
        assert(digits_value(next) == digits_value(prev) * 10 + (c - 48) as nat);
        if acc >= limit {
            assert(digits_value(prev) > u32::MAX);
            assert(digits_value(prev) * 10 + (c - 48) as nat > u32::MAX) by (nonlinear_arith)
                requires
                    digits_value(prev) > u32::MAX,
            ;
        } else {
            acc = acc * 10 + (c - 48) as u64;
            if acc > limit {
                acc = limit;
            }
        }
        i = i + 1;
    }
    assert(b@.subrange(start as int, n as int) == unsigned_digits(b@));
    if acc >= limit {
        None
    } else {
        Some(acc as u32)
    }
}

/// Reads a mode text.
pub fn parse_mode(text: &str) -> (r: Mode)
    ensures
        r == mode_of(text.spec_bytes()),
{
    let b = text.as_bytes();
    if b.len() == 3 && b[0] == 112 && b[1] == 110 && b[2] == 103 {
        assert(b@ =~= seq![112u8, 110u8, 103u8]);
        Mode::Png
    } else if b.len() == 3 && b[0] == 115 && b[1] == 118 && b[2] == 103 {
        assert(b@ =~= seq![115u8, 118u8, 103u8]);
        Mode::Svg
    } else {
        assert(b@ != seq![112u8, 110u8, 103u8]);
        assert(b@ != seq![115u8, 118u8, 103u8]);
        Mode::Unknown
    }
}

/// The motifs a pattern is drawn with.
fn motifs() -> (r: Vec<Patterns>)
    ensures
        r@ == motif_list(),
{
    let mut v: Vec<Patterns> = Vec::new();
    v.push(Patterns::Plaid);
    v.push(Patterns::ConcentricCircles);
    v.push(Patterns::MosaicSquares);
    v.push(Patterns::Xes);
    v.push(Patterns::Octagons);
    v.push(Patterns::OverlappingCircles);
    v.push(Patterns::PlusSigns);
    v.push(Patterns::Squares);
    assert(v@ =~= motif_list());
    v
}

pub open spec fn not_found_text() -> Seq<char> {
    seq!['N', 'o', 't', ' ', 'f', 'o', 'u', 'n', 'd']
}

pub open spec fn server_error_text() -> Seq<char> {
    seq!['I', 'n', 't', 'e', 'r', 'n', 'a', 'l', ' ', 'e', 'r', 'r', 'o', 'r']
}

/// The body is the given text.
pub open spec fn has_text_body(r: Response, t: Seq<char>) -> bool {
    match r.body {
        Payload::Text(s) => s@ == t,
        Payload::Binary(_) => false,
    }
}

/// The body is the given bytes.
pub open spec fn has_binary_body(r: Response, b: Seq<u8>) -> bool {
    match r.body {
        Payload::Text(_) => false,
        Payload::Binary(v) => v@ == b,
    }
}

/// The response that reports a failure to produce the image.
pub open spec fn is_server_error(r: Response) -> bool {
    r.status == 500 && r.content_type is None && r.max_age is None && has_text_body(
        r,
        server_error_text(),
    )
}

/// A successful, cacheable response of the given media type.
pub open spec fn is_success(r: Response, kind: ContentType) -> bool {
    r.status == 200 && r.content_type == Some(kind) && r.max_age == Some(CACHE_MAX_AGE)
}

/// Two identifiers that are equal give the same vector text: drawing is a
/// function of the identifier alone, so repeated requests agree.
pub proof fn lemma_svg_deterministic(a: Pattern, b: Pattern)
    requires
        a.hash@ == b.hash@,
    ensures
        svg_text(a) == svg_text(b),
{
}

fn server_error() -> (r: Response)
    ensures
        is_server_error(r),
{
    let text = "Internal error".to_owned();
    proof {
        reveal_strlit("Internal error");
        assert(text@ =~= server_error_text());
    }
    Response { status: 500, content_type: None, max_age: None, body: Payload::Text(text) }
}

impl Pattern {
    /// Builds a descriptor from the three request parts. A missing or empty
    /// identifier becomes `default`; a missing or unreadable size becomes
    /// `DEFAULT_SIZE`; a missing or unrecognised mode is `Unknown`.
    pub fn from_request(hash: Option<&str>, size: Option<&str>, mode: Option<&str>) -> (r: Pattern)
        ensures
            r.hash@ == identifier_of(hash),
            r.size == size_of(size),
            r.mode == requested_mode(mode),
    {
        let ident = match hash {
            Some(h) => if h.is_empty() {
                None
            } else {
                Some(h.to_owned())
            },
            None => None,
        };
        let ident = match ident {
            Some(s) => s,
            None => {
                let s = "default".to_owned();
                proof {
                    reveal_strlit("default");
                    assert(s@ =~= default_identifier());
                }
                s
            },
        };
        let size_px: u32 = match size {
            Some(t) => match parse_size(t) {
                Some(v) => v,
                None => DEFAULT_SIZE,
            },
            None => DEFAULT_SIZE,
        };
        let kind = match mode {
            Some(m) => parse_mode(m),
            None => Mode::Unknown,
        };
        Pattern { hash: ident, size: size_px, mode: kind }
    }

    /// The vector text of the pattern, drawn from its identifier.
    pub fn to_svg(&self) -> (r: Result<String, ImageError>)
        ensures
            match svg_text(*self) {
                Some(t) => r matches Ok(s) && s@ == t,
                None => r == Err::<String, ImageError>(ImageError::Render),
            },
    {
        let kinds = motifs();
        match minified_pattern_svg(self.hash.as_str(), kinds.as_slice()) {
            Ok(s) => Ok(s),
            Err(_) => Err(ImageError::Render),
        }
    }

    /// The vector document as the bytes that a rasterizer parses: the UTF-8
    /// text of `to_svg`, with its NUL bytes turned back into line feeds.
    pub fn raster_source(&self) -> (r: Result<Vec<u8>, ImageError>)
        ensures
            match svg_text(*self) {
                Some(t) => r matches Ok(v) && v@ == restore_line_breaks(encode_utf8(t)),
                None => r == Err::<Vec<u8>, ImageError>(ImageError::Render),
            },
    {
        let svg = match self.to_svg() {
            Ok(s) => s,
            Err(e) => {
                return Err(e);
            },
        };
        let b = svg.as_str().as_bytes();
        let n: usize = b.len();
        let mut out: Vec<u8> = Vec::new();
        let mut i: usize = 0;
        while i < n
            invariant
                n == b@.len(),
                i <= n,
                out@ == restore_line_breaks(b@).subrange(0, i as int),
            decreases n - i,
        {
            let c: u8 = b[i];
            if c == 0 {
                out.push(10);
            } else {
                out.push(c);
            }
            i = i + 1;
            assert(out@ =~= restore_line_breaks(b@).subrange(0, i as int));
        }
        assert(out@ =~= restore_line_breaks(b@));
        Ok(out)
    }

    /// Turns freshly rendered pixels (premultiplied RGBA, `width` by `height`)
    /// into the PNG file that is served: the pixels are brightened by
    /// `normalize` and then encoded.
    pub fn rasterize(pixels: Vec<u8>, width: u32, height: u32) -> (r: Result<Vec<u8>, ImageError>)
        ensures
            pixels@.len() != 4 * (width * height) ==> r == Err::<Vec<u8>, ImageError>(
                ImageError::Render,
            ),
            pixels@.len() == 4 * (width * height) && pixels@.len() == 0 ==> r == Err::<
                Vec<u8>,
                ImageError,
            >(ImageError::DegenerateImage),
            pixels@.len() == 4 * (width * height) && pixels@.len() > 0 ==> match passes_needed(
                pixels@,
            ) {
                None => r == Err::<Vec<u8>, ImageError>(ImageError::IterationLimitExceeded),
                Some(k) => match png_of(iterate(pixels@, k), width, height) {
                    Some(b) => r matches Ok(v) && v@ == b,
                    None => r == Err::<Vec<u8>, ImageError>(ImageError::Render),
                },
            },
    {
        assert((width as int) * (height as int) <= 0xffff_ffff * 0xffff_ffff) by (nonlinear_arith)
            requires
                width <= 0xffff_ffff,
                height <= 0xffff_ffff,
        ;
        let expected: u128 = 4 * ((width as u128) * (height as u128));
        if pixels.len() as u128 != expected {
            return Err(ImageError::Render);
        }
        assert(pixels@.len() % 4 == 0);
        let mut data = pixels;
        match normalize(&mut data) {
            Ok(_) => {},
            Err(e) => {
                return Err(e);
            },
        }
        match encode_png(data, width, height) {
            Some(b) => Ok(b),
            None => Err(ImageError::Render),
        }
    }

    /// Assembles the response for this request. An unknown mode is answered
    /// with "not found". The vector mode serves the drawn text. The raster
    /// mode serves `png`, the result of `rasterize` for this pattern, which is
    /// `None` where it was not produced. A failure is answered with an
    /// internal error.
    pub fn build_response(&self, png: Option<Result<Vec<u8>, ImageError>>) -> (r: Response)
        ensures
            self.mode == Mode::Unknown ==> r.status == 404 && r.content_type is None
                && r.max_age is None && has_text_body(r, not_found_text()),
            self.mode == Mode::Svg ==> match svg_text(*self) {
                Some(t) => is_success(r, ContentType::Svg) && has_text_body(r, t),
                None => is_server_error(r),
            },
            self.mode == Mode::Png ==> match png {
                Some(Ok(b)) => is_success(r, ContentType::Png) && has_binary_body(r, b@),
                _ => is_server_error(r),
            },
    {
        match self.mode {
            Mode::Unknown => {
                let text = "Not found".to_owned();
                proof {
                    reveal_strlit("Not found");
                    assert(text@ =~= not_found_text());
                }
                Response { status: 404, content_type: None, max_age: None, body: Payload::Text(text) }
            },
            Mode::Svg => match self.to_svg() {
                Ok(s) => Response {
                    status: 200,
                    content_type: Some(ContentType::Svg),
                    max_age: Some(CACHE_MAX_AGE),
                    body: Payload::Text(s),
                },
                Err(_) => server_error(),
            },
            Mode::Png => match png {
                Some(Ok(b)) => Response {
                    status: 200,
                    content_type: Some(ContentType::Png),
                    max_age: Some(CACHE_MAX_AGE),
                    body: Payload::Binary(b),
                },
                _ => server_error(),
            },
        }
    }
}

} // verus!

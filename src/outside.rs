//! The calls this library makes into other crates, with what it relies on.
use geopattern::geo_pattern::GeoPatternError;
use geopattern::patterns::Patterns;
use vstd::prelude::*;

verus! {

/// geopattern's motif kinds; a plain enum without fields, so its variants are
/// visible here.
#[verifier::external_type_specification]
pub struct ExPatterns(geopattern::patterns::Patterns);

/// The error of geopattern's builder.
#[verifier::external_type_specification]
#[verifier::external_body]
pub struct ExGeoPatternError(geopattern::geo_pattern::GeoPatternError);

/// The minified SVG text that geopattern draws for an identifier and a list
/// of motifs, or `None` where it reports an error.
pub uninterp spec fn pattern_svg_of(hash: Seq<char>, kinds: Seq<Patterns>) -> Option<Seq<char>>;

/// The PNG file that tiny-skia encodes for premultiplied RGBA pixels of the
/// given size, or `None` where it refuses them.
pub uninterp spec fn png_of(data: Seq<u8>, width: u32, height: u32) -> Option<Seq<u8>>;

/// Relies on geopattern's `GeoPattern` builder (`new`, `patterns`, `build`,
/// `to_minified_svg`): the text depends on the identifier (through its SHA-1
/// digest) and the motif list alone, attributes being written in sorted
/// order. The builder indexes into the list, so it must not be empty.
#[verifier::external_body]
pub(crate) fn minified_pattern_svg(hash: &str, kinds: &[Patterns]) -> (r: Result<
    String,
    GeoPatternError,
>)
    requires
        kinds@.len() > 0,
    ensures
        r is Ok <==> pattern_svg_of(hash@, kinds@) is Some,
        r matches Ok(s) ==> pattern_svg_of(hash@, kinds@) == Some(s@),
{
    geopattern::GeoPattern::new(hash).patterns(kinds).build()?.to_minified_svg()
}

/// Relies on tiny-skia's `IntSize::from_wh`, `Pixmap::from_vec` and
/// `Pixmap::encode_png`: the file depends on the pixels and the size alone,
/// and nothing is encoded unless `data` holds exactly `width * height` pixels.
#[verifier::external_body]
pub(crate) fn encode_png(data: Vec<u8>, width: u32, height: u32) -> (r: Option<Vec<u8>>)
    ensures
        r is Some <==> png_of(data@, width, height) is Some,
        r matches Some(b) ==> png_of(data@, width, height) == Some(b@),
        r is Some ==> data@.len() == 4 * width * height,
{
    let size = resvg::tiny_skia::IntSize::from_wh(width, height)?;
    resvg::tiny_skia::Pixmap::from_vec(data, size)?.encode_png().ok()
}

} // verus!

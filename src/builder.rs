use vstd::prelude::*;

use crate::codec::{
    dds_format, dds_format_of, dds_image_of, decode_dds, decode_luma, decode_rgba, encode_png,
    luma_decoding_of, png_encoding_of, rgba_decoding_of,
};
use crate::dds::{dds_dimensions_bounded, dimensions_bounded};
use crate::error::BuildError;
use crate::raster::{
    decompose, make_opaque, opaque, plane, replace_alpha, with_alpha, GrayImage,
    RgbaImage,
};
use crate::text::{contains, contains_text, joined};
use crate::staleness::{stale, FileTime};
use crate::text::tagged;
use crate::unit::{
    alpha_tag, flat_tag, lemma_last_tagged, lemma_pairing_order_independent,
    lemma_selected_in_range, plan_unit, planned, selected, TexEncoding, TexUnit, UnitPlan,
};

verus! {

/// One interchange file produced when a unit is derived from a source texture.
#[derive(Clone, Debug, PartialEq, Eq)]
pub struct SplitFile {
    pub file_name: String,
    pub png: Vec<u8>,
}

/// The interchange files derived from one source texture, and the encoding of its unit.
#[derive(Clone, Debug, PartialEq, Eq)]
pub struct TexSplit {
    pub encoding: TexEncoding,
    /// The standalone alpha channel, for categories that keep it.
    pub alpha: Option<SplitFile>,
    /// The composite with its alpha forced to opaque.
    pub flat: SplitFile,
}

/// The image a unit's artifact is encoded from, as width, height and RGBA samples: the
/// decoded opaque composite, with its alpha replaced by the decoded alpha channel when the
/// unit has one.
pub open spec fn decoded_unit(flat_png: Seq<u8>, alpha_png: Option<Seq<u8>>) -> Result<
    (u32, u32, Seq<u8>),
    BuildError,
> {
    match rgba_decoding_of(flat_png) {
        None => Err(BuildError::DecodeFailure),
        Some((w, h, d)) => match alpha_png {
            None => Ok((w, h, d)),
            Some(a) => match luma_decoding_of(a) {
                None => Err(BuildError::DecodeFailure),
                Some((aw, ah, ad)) => if aw == w && ah == h {
                    Ok((w, h, with_alpha(d, ad)))
                } else {
                    Err(BuildError::DimensionMismatch)
                },
            },
        },
    }
}

/// The bytes of an optional file.
pub open spec fn bytes_view(v: Option<&Vec<u8>>) -> Option<Seq<u8>> {
    match v {
        Some(b) => Some(b@),
        None => None,
    }
}

/// Source textures whose file stem names one of these categories keep their alpha
/// channel as a file of its own.
pub open spec fn needs_alpha(stem: Seq<char>) -> bool {
    contains(stem, "Diffuse"@) || contains(stem, "LightMap"@)
}

/// The PNG payloads derived from a `w` × `h` source image with samples `d`: the alpha
/// plane when the category keeps it, and the opaque composite; `None` when one of them
/// cannot be encoded.
pub open spec fn split_of(stem: Seq<char>, w: u32, h: u32, d: Seq<u8>) -> Option<
    (Option<Seq<u8>>, Seq<u8>),
> {
    let flat = png_encoding_of(w, h, opaque(d), false);
    let alpha = png_encoding_of(w, h, plane(d, 3), true);
    if needs_alpha(stem) {
        match (alpha, flat) {
            (Some(a), Some(f)) => Some((Some(a), f)),
            _ => None,
        }
    } else {
        match flat {
            Some(f) => Some((None, f)),
            None => None,
        }
    }
}

/// The PNG bytes of an optional interchange file.
pub open spec fn png_view(f: Option<SplitFile>) -> Option<Seq<u8>> {
    match f {
        Some(s) => Some(s.png@),
        None => None,
    }
}

/// The files of a split are named after the source's stem.
pub open spec fn named_after(stem: Seq<char>, alpha: Option<SplitFile>, flat: SplitFile) -> bool {
    &&& flat.file_name@ == stem + "Flat.png"@
    &&& alpha matches Some(a) ==> a.file_name@ == stem + "Alpha.png"@
}

/// The image a unit is encoded from: `flat`, with its alpha channel replaced by `alpha`
/// when there is one; fails with `DimensionMismatch` when the two sizes differ.
pub fn compose_unit(flat: RgbaImage, alpha: Option<GrayImage>) -> (r: Result<RgbaImage, BuildError>)
    requires
        flat.wf(),
        alpha matches Some(a) ==> a.wf(),
    ensures
        r matches Ok(img) ==> img.wf(),
        match alpha {
            None => r == Ok::<RgbaImage, BuildError>(flat),
            Some(a) => if a.width == flat.width && a.height == flat.height {
                r matches Ok(img) && img.width == flat.width && img.height == flat.height
                    && img.data@ == with_alpha(flat.data@, a.data@)
            } else {
                r == Err::<RgbaImage, BuildError>(BuildError::DimensionMismatch)
            },
        },
{
    match alpha {
        None => Ok(flat),
        Some(a) => replace_alpha(flat, a),
    }
}

/// The image a unit's artifact is encoded from, given the bytes of its opaque composite
/// file and, if the unit has one, of its alpha-channel file: the decoded composite with
/// the decoded alpha channel in place.
pub fn build_from_tex_unit(flat_png: &Vec<u8>, alpha_png: Option<&Vec<u8>>) -> (r: Result<
    RgbaImage,
    BuildError,
>)
    ensures
        r matches Ok(img) ==> img.wf() && decoded_unit(flat_png@, bytes_view(alpha_png)) == Ok::<
            (u32, u32, Seq<u8>),
            BuildError,
        >((img.width, img.height, img.data@)),
        r matches Err(e) ==> decoded_unit(flat_png@, bytes_view(alpha_png)) == Err::<
            (u32, u32, Seq<u8>),
            BuildError,
        >(e),
{
    let flat = match decode_rgba(flat_png.as_slice()) {
        None => return Err(BuildError::DecodeFailure),
        Some(img) => img,
    };
    let alpha = match alpha_png {
        None => None,
        Some(bytes) => match decode_luma(bytes.as_slice()) {
            None => return Err(BuildError::DecodeFailure),
            Some(img) => Some(img),
        },
    };
    compose_unit(flat, alpha)
}

/// The bytes of every file, in order.
pub open spec fn contents_view(files: Seq<Vec<u8>>) -> Seq<Seq<u8>> {
    files.map_values(|f: Vec<u8>| f@)
}

/// What building a unit whose source paths `ps` hold the bytes `contents` yields: nothing
/// to encode when the cached artifact is only staged, else the image to encode.
pub open spec fn unit_outcome(
    ps: Seq<String>,
    contents: Seq<Seq<u8>>,
    force: bool,
    cache: Option<FileTime>,
    sources: Seq<FileTime>,
) -> Result<Option<(u32, u32, Seq<u8>)>, BuildError> {
    match planned(ps, force, cache, sources) {
        Err(e) => Err(e),
        Ok(UnitPlan::Stage) => Ok(None),
        Ok(UnitPlan::Rebuild(c)) => match decoded_unit(
            contents[c.flat as int],
            match c.alpha {
                Some(a) => Some(contents[a as int]),
                None => None,
            },
        ) {
            Ok(img) => Ok(Some(img)),
            Err(e) => Err(e),
        },
    }
}

/// The build of one unit, given its source files' bytes (`contents`, in the order of its
/// source paths) and modification times (`sources`) and the cached artifact's modification
/// time (`cache`, `None` if absent): `None` when the cached artifact is only staged, else
/// the image to encode into it. The files are paired by tag, never by position.
pub fn unit_image(
    unit: &TexUnit,
    force: bool,
    cache: Option<FileTime>,
    sources: &Vec<FileTime>,
    contents: &Vec<Vec<u8>>,
) -> (r: Result<Option<RgbaImage>, BuildError>)
    requires
        contents@.len() == unit.source_paths@.len(),
    ensures
        match unit_outcome(unit.source_paths@, contents_view(contents@), force, cache, sources@) {
            Ok(None) => r == Ok::<Option<RgbaImage>, BuildError>(None),
            Ok(Some((w, h, d))) => r matches Ok(Some(img)) && img.wf() && img.width == w
                && img.height == h && img.data@ == d,
            Err(e) => r == Err::<Option<RgbaImage>, BuildError>(e),
        },
{
    match plan_unit(unit, force, cache, sources) {
        Err(e) => Err(e),
        Ok(UnitPlan::Stage) => Ok(None),
        Ok(UnitPlan::Rebuild(c)) => {
            let alpha = match c.alpha {
                Some(a) => Some(&contents[a]),
                None => None,
            };
            match build_from_tex_unit(&contents[c.flat], alpha) {
                Ok(img) => Ok(Some(img)),
                Err(e) => Err(e),
            }
        },
    }
}

/// A forced build yields an image to encode whenever the unit's sources pair and decode,
/// even when the cached artifact is newer than every source.
pub proof fn lemma_forced_build_encodes(
    ps: Seq<String>,
    contents: Seq<Seq<u8>>,
    cache: Option<FileTime>,
    sources: Seq<FileTime>,
)
    ensures
        unit_outcome(ps, contents, true, cache, sources) != Ok::<
            Option<(u32, u32, Seq<u8>)>,
            BuildError,
        >(None),
{
}

/// Without force, a cached artifact strictly newer than every source yields nothing to
/// encode: the build only stages it.
pub proof fn lemma_fresh_cache_not_encoded(
    ps: Seq<String>,
    contents: Seq<Seq<u8>>,
    t: FileTime,
    sources: Seq<FileTime>,
)
    requires
        forall|i: int| 0 <= i < sources.len() ==> (#[trigger] sources[i]).earlier(t),
    ensures
        unit_outcome(ps, contents, false, Some(t), sources) == Ok::<
            Option<(u32, u32, Seq<u8>)>,
            BuildError,
        >(None),
{
}

/// A unit that must be rebuilt and has no `Flat`-tagged path fails with
/// `MissingFlatChannel`, before any file is decoded.
pub proof fn lemma_missing_flat_fails(
    ps: Seq<String>,
    contents: Seq<Seq<u8>>,
    force: bool,
    cache: Option<FileTime>,
    sources: Seq<FileTime>,
)
    requires
        force || stale(sources, cache),
        forall|i: int| 0 <= i < ps.len() ==> !tagged(#[trigger] ps[i]@, flat_tag()),
    ensures
        unit_outcome(ps, contents, force, cache, sources) == Err::<
            Option<(u32, u32, Seq<u8>)>,
            BuildError,
        >(BuildError::MissingFlatChannel),
{
    lemma_last_tagged(ps, flat_tag());
}

/// Reordering a unit's source paths, each file keeping its bytes, does not change what its
/// build yields: two lists of one length holding the same paths (with at most one distinct
/// `Flat`-tagged and one distinct `Alpha`-tagged path), where equal paths hold equal bytes.
#[verifier::rlimit(30)]
pub proof fn lemma_build_order_independent(
    a: Seq<String>,
    ca: Seq<Seq<u8>>,
    b: Seq<String>,
    cb: Seq<Seq<u8>>,
    force: bool,
    cache: Option<FileTime>,
    sources: Seq<FileTime>,
)
    requires
        a.len() == b.len(),
        a.len() <= usize::MAX,
        ca.len() == a.len(),
        cb.len() == b.len(),
        forall|i: int| 0 <= i < a.len() ==> exists|j: int| 0 <= j < b.len() && #[trigger] b[j]@ == (#[trigger] a[i])@,
        forall|j: int| 0 <= j < b.len() ==> exists|i: int| 0 <= i < a.len() && #[trigger] a[i]@ == (#[trigger] b[j])@,
        forall|i: int, j: int|
            0 <= i < a.len() && 0 <= j < b.len() && (#[trigger] a[i])@ == (#[trigger] b[j])@
                ==> ca[i] == cb[j],
        forall|i: int, k: int|
            0 <= i < a.len() && 0 <= k < a.len() && tagged(#[trigger] a[i]@, flat_tag())
                && tagged(#[trigger] a[k]@, flat_tag()) ==> a[i]@ == a[k]@,
        forall|i: int, k: int|
            0 <= i < a.len() && 0 <= k < a.len() && tagged(#[trigger] a[i]@, alpha_tag())
                && tagged(#[trigger] a[k]@, alpha_tag()) ==> a[i]@ == a[k]@,
    ensures
        unit_outcome(a, ca, force, cache, sources) == unit_outcome(b, cb, force, cache, sources),
{
    lemma_pairing_order_independent(a, b);
    lemma_selected_in_range(a);
    lemma_selected_in_range(b);
    if let (Ok(x), Ok(y)) = (selected(a), selected(b)) {
        assert(a[x.flat as int]@ == b[y.flat as int]@);
        assert(ca[x.flat as int] == cb[y.flat as int]);
        if let (Some(p), Some(q)) = (x.alpha, y.alpha) {
            assert(a[p as int]@ == b[q as int]@);
            assert(ca[p as int] == cb[q as int]);
        }
    }
}

/// Derives the interchange files of a source image named `stem`: its alpha plane as
/// `<stem>Alpha.png` when the category keeps alpha, and the image with its alpha forced
/// to opaque as `<stem>Flat.png`. Fails with `EncodeFailure` when a PNG cannot be written.
pub fn split_image(stem: &str, img: RgbaImage) -> (r: Result<(Option<SplitFile>, SplitFile), BuildError>)
    requires
        img.wf(),
    ensures
        r is Ok <==> split_of(stem@, img.width, img.height, img.data@) is Some,
        r is Err ==> r == Err::<(Option<SplitFile>, SplitFile), BuildError>(
            BuildError::EncodeFailure,
        ),
        r matches Ok((alpha, flat)) ==> {
            &&& split_of(stem@, img.width, img.height, img.data@) == Some(
                (png_view(alpha), flat.png@),
            )
            &&& named_after(stem@, alpha, flat)
        },
{
    let ghost d = img.data@;
    let (w, h) = (img.width, img.height);
    let keep_alpha = contains_text(stem, "Diffuse") || contains_text(stem, "LightMap");
    let ch = decompose(&img);
    let alpha = if keep_alpha {
        match encode_png(w, h, ch.alpha.data.as_slice(), true) {
            None => return Err(BuildError::EncodeFailure),
            Some(png) => Some(SplitFile { file_name: joined(stem, "Alpha.png"), png }),
        }
    } else {
        None
    };
    let flat = make_opaque(img);
    match encode_png(w, h, flat.data.as_slice(), false) {
        None => Err(BuildError::EncodeFailure),
        Some(png) => Ok((alpha, SplitFile { file_name: joined(stem, "Flat.png"), png })),
    }
}

/// Derives a unit from the bytes of a DDS source texture whose file stem is `stem`: the
/// interchange files of `split_image` for the decoded base image, and the BC7 variant the
/// source is stored in. Fails with `DecodeFailure` when the file cannot be decoded, declares
/// dimensions too large to decode, or holds another pixel format; with `EncodeFailure` when
/// a PNG cannot be written.
pub fn generate_tex_split(stem: &str, dds_file: &Vec<u8>) -> (r: Result<TexSplit, BuildError>)
    ensures
        !dds_dimensions_bounded(dds_file@) ==> r == Err::<TexSplit, BuildError>(
            BuildError::DecodeFailure,
        ),
        dds_dimensions_bounded(dds_file@) ==> match (
            dds_image_of(dds_file@),
            dds_format_of(dds_file@),
        ) {
            (Some((w, h, d)), Some(e)) => match split_of(stem@, w, h, d) {
                Some((a, f)) => r matches Ok(s) && s.encoding == e && png_view(s.alpha) == a
                    && s.flat.png@ == f && named_after(stem@, s.alpha, s.flat),
                None => r == Err::<TexSplit, BuildError>(BuildError::EncodeFailure),
            },
            _ => r == Err::<TexSplit, BuildError>(BuildError::DecodeFailure),
        },
{
    if !dimensions_bounded(dds_file.as_slice()) {
        return Err(BuildError::DecodeFailure);
    }
    let img = match decode_dds(dds_file.as_slice()) {
        None => return Err(BuildError::DecodeFailure),
        Some(img) => img,
    };
    let encoding = match dds_format(dds_file.as_slice()) {
        None => return Err(BuildError::DecodeFailure),
        Some(e) => e,
    };
    match split_image(stem, img) {
        Err(e) => Err(e),
        Ok((alpha, flat)) => Ok(TexSplit { encoding, alpha, flat }),
    }
}

/// The file name of a unit's artifact, in the cache and in the output directory.
pub fn artifact_file_name(unit_name: &str) -> (r: String)
    ensures
        r@ == unit_name@ + ".dds"@,
{
    joined(unit_name, ".dds")
}

} // verus!

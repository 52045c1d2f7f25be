//! Path resolution and image decoding for the clipboard bridge.
//!
//! The bridge takes a string naming an image, normalises `file://` URL
//! forms, resolves a possibly relative path against an ordered list of
//! candidate directories, and decodes the chosen file's bytes into a raw
//! RGBA frame for the native clipboard call. Paths are handled as bytes;
//! the surrounding application supplies the candidate directories, checks
//! which candidates exist on disk, reads the chosen file, and performs
//! the clipboard write on the platform's required thread.

use vstd::prelude::*;
use crate::parser::trimmed;

verus! {

/// Why the bridge's own logic refused an input: the path was empty after
/// trimming, or the file's bytes were not a decodable image. A decode
/// failure carries the codec's own description of what was wrong.
#[derive(Debug, PartialEq, Eq)]
pub enum BridgeError {
    EmptyPath,
    DecodeFailed(String),
}

/// The sixteen bytes `file://localhost` stand at the front of `s`.
pub open spec fn has_file_localhost_prefix(s: Seq<u8>) -> bool {
    &&& s.len() >= 16
    &&& s[0] == 102
    &&& s[1] == 105
    &&& s[2] == 108
    &&& s[3] == 101
    &&& s[4] == 58
    &&& s[5] == 47
    &&& s[6] == 47
    &&& s[7] == 108
    &&& s[8] == 111
    &&& s[9] == 99
    &&& s[10] == 97
    &&& s[11] == 108
    &&& s[12] == 104
    &&& s[13] == 111
    &&& s[14] == 115
    &&& s[15] == 116
}

/// The seven bytes `file://` stand at the front of `s`.
pub open spec fn has_file_prefix(s: Seq<u8>) -> bool {
    &&& s.len() >= 7
    &&& s[0] == 102
    &&& s[1] == 105
    &&& s[2] == 108
    &&& s[3] == 101
    &&& s[4] == 58
    &&& s[5] == 47
    &&& s[6] == 47
}

/// The trimmed input with a `file://localhost` prefix stripped, else a
/// bare `file://` prefix stripped, else unchanged.
pub open spec fn stripped_url(t: Seq<u8>) -> Seq<u8> {
    if has_file_localhost_prefix(t) {
        t.subrange(16, t.len() as int)
    } else if has_file_prefix(t) {
        t.subrange(7, t.len() as int)
    } else {
        t
    }
}

/// Copies `s` from position `from` to the end.
fn copy_suffix(s: &[u8], from: usize) -> (r: Vec<u8>)
    requires
        from <= s@.len(),
    ensures
        r@ == s@.subrange(from as int, s@.len() as int),
{
    let mut r: Vec<u8> = Vec::new();
    let mut i: usize = from;
    while i < s.len()
        invariant
            from <= i <= s@.len(),
            r@ =~= s@.subrange(from as int, i as int),
        decreases s@.len() - i,
    {
        r.push(s[i]);
        assert(r@ =~= s@.subrange(from as int, i as int + 1));
        i = i + 1;
    }
    assert(r@ =~= s@.subrange(from as int, s@.len() as int));
    r
}

/// Trims the input and strips a `file://localhost` or `file://` prefix.
/// Rejects input that is empty once trimmed, without touching anything
/// beyond the bytes given.
pub fn normalize_path(input: &[u8]) -> (r: Result<Vec<u8>, BridgeError>)
    ensures
        r is Ok <==> trimmed(input@).len() > 0,
        r matches Ok(v) ==> v@ == stripped_url(trimmed(input@)),
        r matches Err(e) ==> e == BridgeError::EmptyPath,
{
    let t = crate::parser::trim_bytes(input);
    if t.len() == 0 {
        return Err(BridgeError::EmptyPath);
    }
    let s = t.as_slice();
    if s.len() >= 16 && s[0] == 102 && s[1] == 105 && s[2] == 108 && s[3] == 101
        && s[4] == 58 && s[5] == 47 && s[6] == 47 && s[7] == 108 && s[8] == 111
        && s[9] == 99 && s[10] == 97 && s[11] == 108 && s[12] == 104 && s[13] == 111
        && s[14] == 115 && s[15] == 116 {
        Ok(copy_suffix(s, 16))
    } else if s.len() >= 7 && s[0] == 102 && s[1] == 105 && s[2] == 108 && s[3] == 101
        && s[4] == 58 && s[5] == 47 && s[6] == 47 {
        Ok(copy_suffix(s, 7))
    } else {
        Ok(t)
    }
}

/// An absolute path: it starts with a `/`, the form of the Unix-family
/// platforms this host targets.
pub open spec fn is_absolute(p: Seq<u8>) -> bool {
    p.len() > 0 && p[0] == 47
}

/// A directory joined with a relative path, the way path joining adds a
/// separator only where one is missing.
pub open spec fn joined(dir: Seq<u8>, rel: Seq<u8>) -> Seq<u8> {
    if dir.len() == 0 {
        rel
    } else if dir.last() == 47 {
        dir + rel
    } else {
        dir + seq![47u8] + rel
    }
}

/// The candidate under one optional directory: nothing when the
/// directory could not be determined.
pub open spec fn opt_candidate(dir: Option<Seq<u8>>, rel: Seq<u8>) -> Seq<Seq<u8>> {
    match dir {
        Some(d) => seq![joined(d, rel)],
        None => Seq::empty(),
    }
}

/// The view of an optional owned path.
pub open spec fn opt_view(o: Option<Vec<u8>>) -> Option<Seq<u8>> {
    match o {
        Some(v) => Some(v@),
        None => None,
    }
}

/// The ordered candidate locations for a normalised path: an absolute
/// path is its own sole candidate; a relative one is tried under the app
/// data directory, the current working directory, the bundled resource
/// directory, and finally as given.
pub open spec fn candidates_spec(
    norm: Seq<u8>,
    app_data: Option<Seq<u8>>,
    cwd: Option<Seq<u8>>,
    resource: Option<Seq<u8>>,
) -> Seq<Seq<u8>> {
    if is_absolute(norm) {
        seq![norm]
    } else {
        opt_candidate(app_data, norm) + opt_candidate(cwd, norm) + opt_candidate(resource, norm)
            + seq![norm]
    }
}

/// Joins a directory and a relative path with a `/` where one is needed.
fn join_path(dir: &Vec<u8>, rel: &Vec<u8>) -> (r: Vec<u8>)
    ensures
        r@ == joined(dir@, rel@),
{
    let mut r = dir.clone();
    if r.len() > 0 && r[r.len() - 1] != 47 {
        r.push(47);
    }
    r.extend_from_slice(rel.as_slice());
    assert(r@ =~= joined(dir@, rel@));
    r
}

/// Builds the ordered candidate list for a normalised path. The list is
/// never empty: the path itself always stands at the end (or alone, when
/// it is absolute).
pub fn build_candidates(
    norm: &Vec<u8>,
    app_data: &Option<Vec<u8>>,
    cwd: &Option<Vec<u8>>,
    resource: &Option<Vec<u8>>,
) -> (r: Vec<Vec<u8>>)
    ensures
        r@.len() == candidates_spec(norm@, opt_view(*app_data), opt_view(*cwd), opt_view(*resource)).len(),
        forall|i: int|
            0 <= i < r@.len() ==> r@[i]@ == candidates_spec(
                norm@,
                opt_view(*app_data),
                opt_view(*cwd),
                opt_view(*resource),
            )[i],
        r@.len() >= 1,
{
    let mut r: Vec<Vec<u8>> = Vec::new();
    if norm.len() > 0 && norm[0] == 47 {
        r.push(norm.clone());
    } else {
        match app_data {
            Some(d) => { r.push(join_path(d, norm)); },
            None => {},
        }
        match cwd {
            Some(d) => { r.push(join_path(d, norm)); },
            None => {},
        }
        match resource {
            Some(d) => { r.push(join_path(d, norm)); },
            None => {},
        }
        r.push(norm.clone());
    }
    r
}

/// The whole path-resolution step of the bridge: trims and normalises
/// the input, then lists the candidate locations in order. Rejects an
/// input that is empty once trimmed, before anything is resolved.
pub fn resolve_candidates(
    input: &[u8],
    app_data: &Option<Vec<u8>>,
    cwd: &Option<Vec<u8>>,
    resource: &Option<Vec<u8>>,
) -> (r: Result<Vec<Vec<u8>>, BridgeError>)
    ensures
        r is Ok <==> trimmed(input@).len() > 0,
        r matches Err(e) ==> e == BridgeError::EmptyPath,
        r matches Ok(cands) ==> ({
            let spec_cands = candidates_spec(
                stripped_url(trimmed(input@)),
                opt_view(*app_data),
                opt_view(*cwd),
                opt_view(*resource),
            );
            &&& cands@.len() == spec_cands.len()
            &&& cands@.len() >= 1
            &&& forall|i: int| 0 <= i < cands@.len() ==> cands@[i]@ == spec_cands[i]
        }),
{
    match normalize_path(input) {
        Ok(norm) => Ok(build_candidates(&norm, app_data, cwd, resource)),
        Err(e) => Err(e),
    }
}

/// Picks which candidate to read: the first that exists on disk, or the
/// first candidate of all when none exists, so that the read fails with
/// a concrete path in its message.
pub fn select_candidate(exists_flags: &Vec<bool>) -> (i: usize)
    requires
        exists_flags@.len() > 0,
    ensures
        i < exists_flags@.len(),
        (exists|k: int| 0 <= k < exists_flags@.len() && exists_flags@[k]) ==> (exists_flags@[i as int]
            && forall|k: int| 0 <= k < i ==> !exists_flags@[k]),
        !(exists|k: int| 0 <= k < exists_flags@.len() && exists_flags@[k]) ==> i == 0,
{
    let mut j: usize = 0;
    while j < exists_flags.len()
        invariant
            0 <= j <= exists_flags@.len(),
            forall|k: int| 0 <= k < j ==> !exists_flags@[k],
        decreases exists_flags@.len() - j,
    {
        if exists_flags[j] {
            return j;
        }
        j = j + 1;
    }
    0
}

/// A decoded image ready for the clipboard: its pixel dimensions and the
/// raw 8-bit RGBA bytes, row-major, four bytes per pixel.
#[derive(Debug, PartialEq, Eq)]
pub struct DecodedImage {
    pub width: u32,
    pub height: u32,
    pub pixels: Vec<u8>,
}

/// The RGBA frame that the image codec derives from these bytes, when
/// they are a decodable image in a supported format. The frame depends
/// on the bytes alone.
pub uninterp spec fn rgba_decoding(bytes: Seq<u8>) -> Option<(u32, u32, Seq<u8>)>;

/// Relies on `image::load_from_memory` and `DynamicImage::to_rgba8`:
/// decoding auto-detects the format and fails exactly on undecodable
/// bytes, with the codec's error carried over as its display text; the
/// RGBA8 buffer of `ImageBuffer` holds exactly `width * height * 4`
/// bytes, handed out unchanged by `into_raw`.
#[verifier::external_body]
fn decode_rgba(bytes: &[u8]) -> (r: Result<DecodedImage, String>)
    ensures
        match r {
            Ok(img) => rgba_decoding(bytes@) == Some((img.width, img.height, img.pixels@))
                && img.pixels@.len() == 4 * (img.width as int) * (img.height as int),
            Err(_) => rgba_decoding(bytes@) is None,
        },
{
    match image::load_from_memory(bytes) {
        Ok(img) => {
            let rgba = img.to_rgba8();
            let (width, height) = rgba.dimensions();
            let pixels = rgba.into_raw();
            Ok(DecodedImage { width, height, pixels })
        },
        Err(e) => Err(format!("{}", e)),
    }
}

/// Decodes the chosen file's bytes into the RGBA frame the clipboard
/// call takes, or reports that the bytes are not a decodable image,
/// keeping the codec's description of the failure.
pub fn prepare_image(bytes: &[u8]) -> (r: Result<DecodedImage, BridgeError>)
    ensures
        r is Ok <==> rgba_decoding(bytes@) is Some,
        r matches Ok(img) ==> rgba_decoding(bytes@) == Some((img.width, img.height, img.pixels@))
            && img.pixels@.len() == 4 * (img.width as int) * (img.height as int),
        r matches Err(e) ==> e matches BridgeError::DecodeFailed(_),
{
    match decode_rgba(bytes) {
        Ok(img) => Ok(img),
        Err(msg) => Err(BridgeError::DecodeFailed(msg)),
    }
}

} // verus!

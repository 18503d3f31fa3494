//! Image payload handling: base64 transport encoding, image-format detection
//! from magic bytes, and the name a synced image is cached under on a slave.

use vstd::prelude::*;
use crate::wire::enc_i64;
use crate::wire::push_i64;

verus! {

/// The base64 text that `base64`'s standard engine produces for these bytes.
pub uninterp spec fn b64_of(bytes: Seq<u8>) -> Seq<char>;

/// What `base64`'s standard engine decodes this text to, when it accepts it.
pub uninterp spec fn b64_bytes_of(text: Seq<char>) -> Option<Seq<u8>>;

/// Relies on `base64::Engine::encode` with the standard alphabet: the text
/// is a function of the bytes alone, and an empty input gives empty text.
#[verifier::external_body]
pub(crate) fn b64_encode(bytes: &Vec<u8>) -> (r: String)
    ensures
        r@ == b64_of(bytes@),
        bytes@.len() == 0 ==> r@.len() == 0,
{
    base64::Engine::encode(&base64::engine::general_purpose::STANDARD, bytes)
}

/// Relies on `base64::Engine::decode` with the standard alphabet: decoding
/// is a function of the text alone, succeeding exactly on well-formed base64
/// text.
#[verifier::external_body]
pub(crate) fn b64_decode(text: &str) -> (r: Result<Vec<u8>, ()>)
    ensures
        (r is Ok) == (b64_bytes_of(text@) is Some),
        r matches Ok(v) ==> b64_bytes_of(text@) == Some(v@),
{
    match base64::Engine::decode(&base64::engine::general_purpose::STANDARD, text) {
        Ok(v) => Ok(v),
        Err(_) => Err(()),
    }
}

/// The image format told by a payload's magic bytes: PNG, JPEG, GIF, BMP and
/// WEBP are recognised; anything else falls back to PNG.
pub open spec fn spec_image_format(data: Seq<u8>) -> Seq<char> {
    if data.len() < 4 {
        ("png")@
    } else if data[0] == 0x89 && data[1] == 0x50 && data[2] == 0x4e && data[3] == 0x47 {
        ("png")@
    } else if data[0] == 0xff && data[1] == 0xd8 && data[2] == 0xff {
        ("jpg")@
    } else if data[0] == 0x47 && data[1] == 0x49 && data[2] == 0x46 && data[3] == 0x38 {
        ("gif")@
    } else if data[0] == 0x42 && data[1] == 0x4d {
        ("bmp")@
    } else if data[0] == 0x52 && data[1] == 0x49 && data[2] == 0x46 && data[3] == 0x46 {
        if data.len() >= 8 && data[4] == 0x57 && data[5] == 0x45 && data[6] == 0x42 && data[7]
            == 0x50 {
            ("webp")@
        } else {
            ("png")@
        }
    } else {
        ("png")@
    }
}

/// Reads the magic bytes of an image payload and names its format.
pub fn detect_image_format(data: &Vec<u8>) -> (r: &'static str)
    ensures
        r@ == spec_image_format(data@),
{
    if data.len() < 4 {
        return "png";
    }
    let b0 = data[0];
    let b1 = data[1];
    let b2 = data[2];
    let b3 = data[3];
    if b0 == 0x89 && b1 == 0x50 && b2 == 0x4e && b3 == 0x47 {
        "png"
    } else if b0 == 0xff && b1 == 0xd8 && b2 == 0xff {
        "jpg"
    } else if b0 == 0x47 && b1 == 0x49 && b2 == 0x46 && b3 == 0x38 {
        "gif"
    } else if b0 == 0x42 && b1 == 0x4d {
        "bmp"
    } else if b0 == 0x52 && b1 == 0x49 && b2 == 0x46 && b3 == 0x46 {
        if data.len() >= 8 && data[4] == 0x57 && data[5] == 0x45 && data[6] == 0x42 && data[7]
            == 0x50 {
            "webp"
        } else {
            "png"
        }
    } else {
        "png"
    }
}

pub open spec fn is_path_sep(c: char) -> bool {
    c == '/' || c == '\\'
}

/// Where the last path component starts: right after the final slash or
/// backslash, or at the start when there is none.
pub open spec fn spec_component_start(path: Seq<char>) -> int
    decreases path.len(),
{
    if path.len() == 0 {
        0
    } else if is_path_sep(path.last()) {
        path.len() as int
    } else {
        spec_component_start(path.drop_last())
    }
}

/// Where the extension of a file name starts: after the last dot, when there
/// is one beyond the first character.
pub open spec fn spec_dot_split(name: Seq<char>) -> Option<int>
    decreases name.len(),
{
    if name.len() == 0 {
        None
    } else if name.last() == '.' {
        if name.len() == 1 {
            None
        } else {
            Some(name.len() - 1)
        }
    } else {
        spec_dot_split(name.drop_last())
    }
}

/// The stem of a file path: its last component up to the final dot.
pub open spec fn spec_file_stem(path: Seq<char>) -> Seq<char> {
    let name = path.skip(spec_component_start(path));
    match spec_dot_split(name) {
        Some(d) => name.take(d),
        None => name,
    }
}

/// The extension of a file path: its last component after the final dot, or
/// nothing when the component has no usable dot.
pub open spec fn spec_file_extension(path: Seq<char>) -> Option<Seq<char>> {
    let name = path.skip(spec_component_start(path));
    match spec_dot_split(name) {
        Some(d) => {
            if d + 1 < name.len() {
                Some(name.skip(d + 1))
            } else {
                None
            }
        },
        None => None,
    }
}

fn component_start(path: &str) -> (r: usize)
    ensures
        r == spec_component_start(path@),
        0 <= r <= path@.len(),
{
    let len = path.unicode_len();
    let mut i = len;
    proof {
        assert(path@.take(len as int) =~= path@);
    }
    while i > 0
        invariant
            0 <= i <= len == path@.len(),
            spec_component_start(path@) == spec_component_start(path@.take(i as int)),
        decreases i,
    {
        let c = path.get_char(i - 1);
        proof {
            assert(path@.take(i as int).last() == path@[i - 1]);
            assert(path@.take(i as int).drop_last() =~= path@.take(i - 1));
        }
        if c == '/' || c == '\\' {
            proof {
                assert(spec_component_start(path@.take(i as int)) == i);
            }
            return i;
        }
        i -= 1;
    }
    proof {
        assert(path@.take(0) =~= Seq::<char>::empty());
    }
    0
}

fn dot_split(name: &str) -> (r: Option<usize>)
    ensures
        match r {
            Some(d) => spec_dot_split(name@) == Some(d as int) && 0 < d < name@.len(),
            None => spec_dot_split(name@) is None,
        },
{
    let len = name.unicode_len();
    let mut i = len;
    proof {
        assert(name@.take(len as int) =~= name@);
    }
    while i > 0
        invariant
            0 <= i <= len == name@.len(),
            spec_dot_split(name@) == spec_dot_split(name@.take(i as int)),
        decreases i,
    {
        let c = name.get_char(i - 1);
        proof {
            assert(name@.take(i as int).last() == name@[i - 1]);
            assert(name@.take(i as int).drop_last() =~= name@.take(i - 1));
        }
        if c == '.' {
            if i == 1 {
                proof {
                    assert(spec_dot_split(name@.take(1)) is None);
                }
                return None;
            }
            proof {
                assert(spec_dot_split(name@.take(i as int)) == Some(i - 1));
            }
            return Some(i - 1);
        }
        i -= 1;
    }
    proof {
        assert(name@.take(0) =~= Seq::<char>::empty());
    }
    None
}

/// The stem of a file path, as an owned string.
pub fn file_stem(path: &str) -> (r: String)
    ensures
        r@ == spec_file_stem(path@),
{
    let len = path.unicode_len();
    let start = component_start(path);
    let name = path.substring_char(start, len);
    proof {
        assert(name@ =~= path@.skip(spec_component_start(path@)));
    }
    let name_len = name.unicode_len();
    match dot_split(name) {
        Some(d) => {
            let r = name.substring_char(0, d).to_owned();
            proof {
                assert(r@ =~= spec_file_stem(path@));
            }
            r
        },
        None => {
            let r = name.to_owned();
            proof {
                assert(r@ =~= spec_file_stem(path@));
            }
            r
        },
    }
}

/// The extension of a file path, as an owned string.
pub fn file_extension(path: &str) -> (r: Option<String>)
    ensures
        match r {
            Some(e) => spec_file_extension(path@) == Some(e@),
            None => spec_file_extension(path@) is None,
        },
{
    let len = path.unicode_len();
    let start = component_start(path);
    let name = path.substring_char(start, len);
    proof {
        assert(name@ =~= path@.skip(spec_component_start(path@)));
    }
    let name_len = name.unicode_len();
    match dot_split(name) {
        Some(d) => {
            if d + 1 < name_len {
                let e = name.substring_char(d + 1, name_len).to_owned();
                proof {
                    assert(e@ =~= name@.skip(d + 1));
                }
                Some(e)
            } else {
                None
            }
        },
        None => None,
    }
}

/// A name made safe for the cache directory: path separators become
/// underscores.
pub open spec fn spec_sanitized(name: Seq<char>) -> Seq<char> {
    Seq::new(name.len(), |i: int| if is_path_sep(name[i]) { '_' } else { name[i] })
}

/// Replaces path separators in a name with underscores.
pub fn sanitize_name(name: &str) -> (r: String)
    ensures
        r@ == spec_sanitized(name@),
{
    let len = name.unicode_len();
    let mut out = String::new();
    let mut i: usize = 0;
    while i < len
        invariant
            0 <= i <= len == name@.len(),
            out@ =~= spec_sanitized(name@).take(i as int),
        decreases len - i,
    {
        let c = name.get_char(i);
        if c == '/' || c == '\\' {
            out.append("_");
            proof {
                reveal_strlit("_");
                assert(("_")@ =~= seq!['_']);
            }
        } else {
            let one = name.substring_char(i, i + 1);
            out.append(one);
            proof {
                assert(one@ =~= seq![name@[i as int]]);
            }
        }
        proof {
            assert(spec_sanitized(name@).take(i + 1) =~= spec_sanitized(name@).take(
                i as int,
            ).push(spec_sanitized(name@)[i as int]));
            assert(out@ =~= spec_sanitized(name@).take(i + 1));
        }
        i += 1;
    }
    proof {
        assert(spec_sanitized(name@).take(len as int) =~= spec_sanitized(name@));
    }
    out
}

/// The name a synced image is cached under: the sanitized stem of the
/// original file (or the source's name when no file is known), an
/// underscore, the wall-clock stamp, a dot and the format extension.
pub open spec fn spec_cache_file_name(
    original_file: Seq<char>,
    source_name: Seq<char>,
    data: Seq<u8>,
    now: i64,
) -> Seq<char> {
    let stem: Seq<char> = if original_file.len() > 0 {
        spec_sanitized(spec_file_stem(original_file))
    } else {
        spec_sanitized(source_name)
    };
    let ext: Seq<char> = if original_file.len() > 0 {
        match spec_file_extension(original_file) {
            Some(e) => e,
            None => spec_image_format(data),
        }
    } else {
        spec_image_format(data)
    };
    stem + seq!['_'] + enc_i64(now) + seq!['.'] + ext
}

/// Builds the cache file name for one decoded image payload.
pub fn cache_file_name(original_file: &str, source_name: &str, data: &Vec<u8>, now: i64) -> (r:
    String)
    ensures
        r@ == spec_cache_file_name(original_file@, source_name@, data@, now),
{
    let mut out: String;
    if original_file.unicode_len() > 0 {
        let stem = file_stem(original_file);
        out = sanitize_name(stem.as_str());
    } else {
        out = sanitize_name(source_name);
    }
    out.append("_");
    proof {
        reveal_strlit("_");
        assert(("_")@ =~= seq!['_']);
    }
    push_i64(&mut out, now);
    out.append(".");
    proof {
        reveal_strlit(".");
        assert((".")@ =~= seq!['.']);
    }
    if original_file.unicode_len() > 0 {
        match file_extension(original_file) {
            Some(e) => {
                out.append(e.as_str());
            },
            None => {
                out.append(detect_image_format(data));
            },
        }
    } else {
        out.append(detect_image_format(data));
    }
    proof {
        assert(out@ =~= spec_cache_file_name(original_file@, source_name@, data@, now));
    }
    out
}

} // verus!

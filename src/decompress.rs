//! Choosing a codec for a compressed image and naming what it expands to.
use vstd::prelude::*;
use crate::path::{
    bz2_chars, bz2_suffix, extension_of, file_name, gz_chars, gz_suffix, xz_chars, xz_suffix,
    zst_chars, zst_suffix,
};
use crate::text::{
    chars_end_with, chars_eq, chars_of, decimal, ends_with, find_last_index, lower_of, lowercase,
    push_char, push_decimal, push_str, string_from, string_of,
};

verus! {

/// The compressed formats that images come in.
#[derive(Clone, Copy, Debug, PartialEq, Eq, Structural)]
pub enum Codec {
    Xz,
    Gz,
    Bz2,
    Zst,
}

/// The codec that a file name's suffix selects, tried in the order `.xz`,
/// `.gz`, `.bz2`, `.zst` (case matters here).
pub open spec fn codec_of_name(name: Seq<char>) -> Option<Codec> {
    if ends_with(name, xz_suffix()) {
        Some(Codec::Xz)
    } else if ends_with(name, gz_suffix()) {
        Some(Codec::Gz)
    } else if ends_with(name, bz2_suffix()) {
        Some(Codec::Bz2)
    } else if ends_with(name, zst_suffix()) {
        Some(Codec::Zst)
    } else {
        None
    }
}

/// The codec for a file name; `None` when its suffix names none.
pub fn codec_for_name(name: &str) -> (r: Option<Codec>)
    ensures
        r == codec_of_name(name@),
{
    let cs = chars_of(name);
    if chars_end_with(&cs, &xz_chars()) {
        Some(Codec::Xz)
    } else if chars_end_with(&cs, &gz_chars()) {
        Some(Codec::Gz)
    } else if chars_end_with(&cs, &bz2_chars()) {
        Some(Codec::Bz2)
    } else if chars_end_with(&cs, &zst_chars()) {
        Some(Codec::Zst)
    } else {
        None
    }
}

/// The lower-cased extensions that mark a compressed file.
pub open spec fn compression_ext(e: Seq<char>) -> bool {
    e == seq!['x', 'z'] || e == seq!['g', 'z'] || e == seq!['b', 'z', '2'] || e == seq![
        'z',
        's',
        't',
    ]
}

/// Whether an already lower-cased extension marks a compressed file.
pub fn is_compression_ext(lowered: &str) -> (r: bool)
    ensures
        r == compression_ext(lowered@),
{
    let e = chars_of(lowered);
    let xz = vec!['x', 'z'];
    let gz = vec!['g', 'z'];
    let bz2 = vec!['b', 'z', '2'];
    let zst = vec!['z', 's', 't'];
    assert(xz@ =~= seq!['x', 'z']);
    assert(gz@ =~= seq!['g', 'z']);
    assert(bz2@ =~= seq!['b', 'z', '2']);
    assert(zst@ =~= seq!['z', 's', 't']);
    chars_eq(&e, &xz) || chars_eq(&e, &gz) || chars_eq(&e, &bz2) || chars_eq(&e, &zst)
}

/// Whether the file at `path` (`/`-separated) needs decompressing before it
/// is written: its extension, in any case, is `xz`, `gz`, `bz2` or `zst`.
pub fn needs_decompression(path: &str) -> (r: bool)
    ensures
        r == match extension_of(path@) {
            Some(e) => compression_ext(lower_of(e)),
            None => false,
        },
{
    let name = file_name(path);
    let n = name.len();
    match find_last_index(&name, '.') {
        Some(i) => {
            if i == 0 {
                return false;
            }
            let ext = string_from(&name, i + 1, n);
            let lowered = lowercase(ext.as_str());
            is_compression_ext(lowered.as_str())
        },
        None => false,
    }
}

/// `s` with every trailing repetition of `suf` removed.
pub open spec fn trim_suffix_all(s: Seq<char>, suf: Seq<char>) -> Seq<char>
    decreases s.len(),
{
    if suf.len() > 0 && ends_with(s, suf) {
        trim_suffix_all(s.subrange(0, s.len() - suf.len()), suf)
    } else {
        s
    }
}

/// The name of a custom image with its compression suffixes trimmed: all
/// trailing `.xz`, then `.gz`, then `.bz2`, then `.zst`.
pub open spec fn custom_base(name: Seq<char>) -> Seq<char> {
    trim_suffix_all(
        trim_suffix_all(trim_suffix_all(trim_suffix_all(name, xz_suffix()), gz_suffix()), bz2_suffix()),
        zst_suffix(),
    )
}

pub fn trim_all(cs: &Vec<char>, suf: &Vec<char>) -> (r: Vec<char>)
    requires
        suf@.len() > 0,
    ensures
        r@ == trim_suffix_all(cs@, suf@),
{
    let mut cur = sub_all(cs);
    while chars_end_with(&cur, suf)
        invariant
            suf@.len() > 0,
            trim_suffix_all(cur@, suf@) == trim_suffix_all(cs@, suf@),
        decreases cur@.len(),
    {
        let n = cur.len() - suf.len();
        cur = crate::text::sub_chars(&cur, 0, n);
    }
    cur
}

fn sub_all(cs: &Vec<char>) -> (r: Vec<char>)
    ensures
        r@ == cs@,
{
    let r = crate::text::sub_chars(cs, 0, cs.len());
    assert(cs@.subrange(0, cs@.len() as int) =~= cs@);
    r
}

/// The file that a custom image decompresses to: its name without compression
/// suffixes, a hyphen, and the time in milliseconds, so that two runs never
/// share an output.
pub fn custom_output_name(filename: &str, millis: u64) -> (r: String)
    ensures
        r@ == custom_base(filename@).push('-') + decimal(millis as nat),
{
    let cs = chars_of(filename);
    let a = trim_all(&cs, &xz_chars());
    let b = trim_all(&a, &gz_chars());
    let c = trim_all(&b, &bz2_chars());
    let d = trim_all(&c, &zst_chars());
    let mut s = string_of(&d);
    push_char(&mut s, '-');
    push_decimal(&mut s, millis);
    s
}

/// The codec for a custom image, or the message that its format is not one
/// of the four.
pub fn custom_codec(filename: &str) -> (r: Result<Codec, String>)
    ensures
        r matches Ok(c) ==> codec_of_name(filename@) == Some(c),
        r matches Err(m) ==> codec_of_name(filename@) is None && m@
            == "Unsupported compression format for: "@ + filename@,
{
    match codec_for_name(filename) {
        Some(c) => Ok(c),
        None => {
            let mut m = String::new();
            push_str(&mut m, "Unsupported compression format for: ");
            push_str(&mut m, filename);
            Err(m)
        },
    }
}

} // verus!

verus! {

/// Whether a custom image needs decompressing before it is written.
pub fn check_needs_decompression(image_path: &str) -> (r: Result<bool, String>)
    ensures
        r matches Ok(b) && b == match extension_of(image_path@) {
            Some(e) => compression_ext(lower_of(e)),
            None => false,
        },
{
    Ok(needs_decompression(image_path))
}

} // verus!

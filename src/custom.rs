//! Custom images picked by the user: the record of a picked file, and the
//! board that an image's file name names.
use vstd::prelude::*;
use crate::format::{normalize_slug, slug_of};
use crate::images::BoardInfo;
use crate::path::{bz2_chars, bz2_suffix, file_name, file_name_of, gz_chars, gz_suffix, xz_chars, xz_suffix, zst_chars, zst_suffix};
use crate::text::{
    ascii_lower, chars_end_with, ends_with, lower_of, split_chars, split_from, string_of,
    sub_chars, to_ascii_lower,
};

verus! {

/// A local image the user picked.
pub struct CustomImageInfo {
    pub path: String,
    pub name: String,
    pub size: u64,
}

/// The record of a picked file: its path, its file name (`unknown` when the
/// path names none), and its size.
pub fn custom_image_info(path: &str, size: u64) -> (r: CustomImageInfo)
    ensures
        r.path@ == path@,
        r.name@ == if file_name_of(path@).len() == 0 {
            "unknown"@
        } else {
            file_name_of(path@)
        },
        r.size == size,
{
    let name = file_name(path);
    CustomImageInfo {
        path: String::from_str(path),
        name: if name.len() == 0 {
            String::from_str("unknown")
        } else {
            string_of(&name)
        },
        size,
    }
}

pub open spec fn img_suffix() -> Seq<char> {
    seq!['.', 'i', 'm', 'g']
}

/// A file name without one image suffix, tried in the order `.xz`, `.gz`,
/// `.zst`, `.bz2`, `.img`.
pub open spec fn image_stem(name: Seq<char>) -> Seq<char> {
    if ends_with(name, xz_suffix()) {
        name.subrange(0, name.len() - 3)
    } else if ends_with(name, gz_suffix()) {
        name.subrange(0, name.len() - 3)
    } else if ends_with(name, zst_suffix()) {
        name.subrange(0, name.len() - 4)
    } else if ends_with(name, bz2_suffix()) {
        name.subrange(0, name.len() - 4)
    } else if ends_with(name, img_suffix()) {
        name.subrange(0, name.len() - 4)
    } else {
        name
    }
}

pub open spec fn armbian_word() -> Seq<char> {
    seq!['A', 'r', 'm', 'b', 'i', 'a', 'n']
}

/// Equal but for the case of ASCII letters.
pub open spec fn ascii_ci_eq(a: Seq<char>, b: Seq<char>) -> bool {
    a.len() == b.len() && forall|i: int| 0 <= i < a.len() ==> ascii_lower(#[trigger] a[i]) == ascii_lower(b[i])
}

fn ascii_ci_eq_exec(a: &Vec<char>, b: &Vec<char>) -> (r: bool)
    ensures
        r == ascii_ci_eq(a@, b@),
{
    if a.len() != b.len() {
        return false;
    }
    let mut i: usize = 0;
    while i < a.len()
        invariant
            a@.len() == b@.len(),
            i <= a@.len(),
            forall|k: int| 0 <= k < i ==> ascii_lower(#[trigger] a@[k]) == ascii_lower(b@[k]),
        decreases a@.len() - i,
    {
        if to_ascii_lower(a[i]) != to_ascii_lower(b[i]) {
            return false;
        }
        i += 1;
    }
    true
}

/// The board field of an image file name in the project's naming scheme
/// (`Armbian_VERSION_BOARD_DISTRO_...`): the third `_`-separated field of the
/// stem, when there are at least four and the first reads `Armbian` in any
/// case.
pub open spec fn board_field(name: Seq<char>) -> Option<Seq<char>> {
    let parts = split_from(image_stem(name), '_', 0);
    if parts.len() < 4 || !ascii_ci_eq(parts[0], armbian_word()) {
        None
    } else {
        Some(parts[2])
    }
}

fn stem_exec(name: &Vec<char>) -> (r: Vec<char>)
    ensures
        r@ == image_stem(name@),
{
    let n = name.len();
    let img = vec!['.', 'i', 'm', 'g'];
    assert(img@ =~= img_suffix());
    if chars_end_with(name, &xz_chars()) {
        sub_chars(name, 0, n - 3)
    } else if chars_end_with(name, &gz_chars()) {
        sub_chars(name, 0, n - 3)
    } else if chars_end_with(name, &zst_chars()) {
        sub_chars(name, 0, n - 4)
    } else if chars_end_with(name, &bz2_chars()) {
        sub_chars(name, 0, n - 4)
    } else if chars_end_with(name, &img) {
        sub_chars(name, 0, n - 4)
    } else {
        sub_chars(name, 0, n)
    }
}

/// The board slug that an image file name names: its board field,
/// normalized. `Ok(None)` for a name outside the naming scheme; an error
/// when the path names no file.
pub fn board_slug_from_filename(filename: &str) -> (r: Result<Option<String>, String>)
    ensures
        r is Err <==> file_name_of(filename@).len() == 0,
        r matches Err(m) ==> m@ == "Invalid filename"@,
        r matches Ok(o) ==> {
            &&& o is Some <==> board_field(file_name_of(filename@)) is Some
            &&& o matches Some(s) ==> s@ == slug_of(lower_of(board_field(file_name_of(filename@))->0))
        },
{
    let name = file_name(filename);
    if name.len() == 0 {
        return Err(String::from_str("Invalid filename"));
    }
    proof {
        assert(name@.subrange(0, name@.len() as int) =~= name@);
    }
    let stem = stem_exec(&name);
    let parts = split_chars(&stem, '_');
    let ghost pv = parts@.map_values(|p: Vec<char>| p@);
    let word = vec!['A', 'r', 'm', 'b', 'i', 'a', 'n'];
    assert(word@ =~= armbian_word());
    if parts.len() < 4 {
        return Ok(None);
    }
    assert(pv[0] == parts@[0]@);
    if !ascii_ci_eq_exec(&parts[0], &word) {
        return Ok(None);
    }
    assert(pv[2] == parts@[2]@);
    let board = string_of(&parts[2]);
    Ok(Some(normalize_slug(board.as_str())))
}

/// A copy of a board record.
pub fn copy_board(b: &BoardInfo) -> (r: BoardInfo)
    ensures
        r.slug@ == b.slug@,
        r.name@ == b.name@,
        r.image_count == b.image_count,
        r.has_promoted == b.has_promoted,
{
    BoardInfo {
        slug: b.slug.clone(),
        name: b.name.clone(),
        image_count: b.image_count,
        has_promoted: b.has_promoted,
    }
}

/// The first board whose slug is `slug`.
pub fn find_board(boards: &[BoardInfo], slug: &str) -> (r: Option<BoardInfo>)
    ensures
        r is None <==> forall|k: int| 0 <= k < boards@.len() ==> (#[trigger] boards@[k]).slug@ != slug@,
        r matches Some(b) ==> exists|k: int|
            0 <= k < boards@.len() && (#[trigger] boards@[k]).slug@ == slug@ && b.slug@ == slug@
                && b.name@ == boards@[k].name@ && b.image_count == boards@[k].image_count
                && b.has_promoted == boards@[k].has_promoted && forall|m: int|
                0 <= m < k ==> (#[trigger] boards@[m]).slug@ != slug@,
{
    let key = String::from_str(slug);
    let mut k: usize = 0;
    while k < boards.len()
        invariant
            k <= boards@.len(),
            key@ == slug@,
            forall|m: int| 0 <= m < k ==> (#[trigger] boards@[m]).slug@ != slug@,
        decreases boards@.len() - k,
    {
        if boards[k].slug == key {
            return Some(copy_board(&boards[k]));
        }
        k += 1;
    }
    None
}

/// Release metadata of the application, as the release host publishes it.
pub struct GitHubRelease {
    pub tag_name: String,
    pub name: String,
    pub body: Option<String>,
    pub html_url: String,
    pub published_at: String,
}

/// The external form of a platform authorization, handed to the privileged
/// helper.
#[derive(Clone, Copy, Default)]
pub struct AuthorizationExternalForm {
    pub bytes: [u8; 32],
}

} // verus!

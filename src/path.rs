//! File names: compression suffixes, extensions, and the name in a URL.
use vstd::prelude::*;
use vstd::string::StrSliceExecFns;
use crate::text::{chars_end_with, chars_of, ends_with, find_last_index, last_index_of, sub_chars};

verus! {

pub open spec fn xz_suffix() -> Seq<char> {
    seq!['.', 'x', 'z']
}

pub open spec fn gz_suffix() -> Seq<char> {
    seq!['.', 'g', 'z']
}

pub open spec fn bz2_suffix() -> Seq<char> {
    seq!['.', 'b', 'z', '2']
}

pub open spec fn zst_suffix() -> Seq<char> {
    seq!['.', 'z', 's', 't']
}

pub open spec fn drop_end(s: Seq<char>, n: nat) -> Seq<char> {
    s.subrange(0, s.len() - n)
}

/// `name` without its first matching compression suffix, tried in the order
/// `.xz`, `.gz`, `.bz2`, `.zst`; `name` itself when none matches.
pub open spec fn stripped_name(name: Seq<char>) -> Seq<char> {
    if ends_with(name, xz_suffix()) {
        drop_end(name, 3)
    } else if ends_with(name, gz_suffix()) {
        drop_end(name, 3)
    } else if ends_with(name, bz2_suffix()) {
        drop_end(name, 4)
    } else if ends_with(name, zst_suffix()) {
        drop_end(name, 4)
    } else {
        name
    }
}

pub fn xz_chars() -> (r: Vec<char>)
    ensures
        r@ == xz_suffix(),
{
    let r = vec!['.', 'x', 'z'];
    assert(r@ =~= xz_suffix());
    r
}

pub fn gz_chars() -> (r: Vec<char>)
    ensures
        r@ == gz_suffix(),
{
    let r = vec!['.', 'g', 'z'];
    assert(r@ =~= gz_suffix());
    r
}

pub fn bz2_chars() -> (r: Vec<char>)
    ensures
        r@ == bz2_suffix(),
{
    let r = vec!['.', 'b', 'z', '2'];
    assert(r@ =~= bz2_suffix());
    r
}

pub fn zst_chars() -> (r: Vec<char>)
    ensures
        r@ == zst_suffix(),
{
    let r = vec!['.', 'z', 's', 't'];
    assert(r@ =~= zst_suffix());
    r
}

/// Strips one compression suffix (`.xz`, `.gz`, `.bz2`, `.zst`) from a file
/// name; a name without one comes back unchanged.
pub fn strip_compression_ext(filename: &str) -> (r: &str)
    ensures
        r@ == stripped_name(filename@),
{
    let cs = chars_of(filename);
    let n = cs.len();
    if chars_end_with(&cs, &xz_chars()) {
        filename.substring_char(0, n - 3)
    } else if chars_end_with(&cs, &gz_chars()) {
        filename.substring_char(0, n - 3)
    } else if chars_end_with(&cs, &bz2_chars()) {
        filename.substring_char(0, n - 4)
    } else if chars_end_with(&cs, &zst_chars()) {
        filename.substring_char(0, n - 4)
    } else {
        filename
    }
}

/// The last component of a `/`-separated path.
pub open spec fn file_name_of(path: Seq<char>) -> Seq<char> {
    match last_index_of(path, '/', path.len() as int) {
        Some(i) => path.subrange(i + 1, path.len() as int),
        None => path,
    }
}

/// The extension of a path: what follows the last `.` of its last component,
/// where that dot is not the component's first character.
pub open spec fn extension_of(path: Seq<char>) -> Option<Seq<char>> {
    let name = file_name_of(path);
    match last_index_of(name, '.', name.len() as int) {
        Some(i) => if i > 0 {
            Some(name.subrange(i + 1, name.len() as int))
        } else {
            None
        },
        None => None,
    }
}

pub fn file_name(path: &str) -> (r: Vec<char>)
    ensures
        r@ == file_name_of(path@),
{
    let cs = chars_of(path);
    let n = cs.len();
    match find_last_index(&cs, '/') {
        Some(i) => sub_chars(&cs, i + 1, n),
        None => cs,
    }
}

} // verus!

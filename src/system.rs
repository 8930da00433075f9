//! Small rules around the core: the release file of the running system, the
//! tag of an application release, save-dialog options, and the board that a
//! custom image's file name names.
use vstd::prelude::*;
use crate::text::{
    chars_eq, chars_of, find_from, first_index_of, push_str, split_chars, split_from,
    string_of, strip_char, strip_char_exec, sub_chars, trim_chars, trimmed,
};

verus! {

/// The board of the running system, from its release file.
pub struct ArmbianReleaseInfo {
    pub board: String,
    pub board_name: String,
}

pub open spec fn board_key() -> Seq<char> {
    seq!['B', 'O', 'A', 'R', 'D']
}

pub open spec fn board_name_key() -> Seq<char> {
    seq!['B', 'O', 'A', 'R', 'D', '_', 'N', 'A', 'M', 'E']
}

/// A value with white space, then double quotes, then single quotes
/// trimmed from both ends.
pub open spec fn clean_value(v: Seq<char>) -> Seq<char> {
    strip_char(strip_char(trimmed(v), '"'), '\'')
}

/// What one line of a release file sets: `Some((key, value))` for a
/// `key=value` line that is not blank and not a comment.
pub open spec fn line_setting(line: Seq<char>) -> Option<(Seq<char>, Seq<char>)> {
    let t = trimmed(line);
    if t.len() == 0 || t[0] == '#' {
        None
    } else {
        match first_index_of(t, '=', 0) {
            Some(j) => Some((trimmed(t.subrange(0, j)), clean_value(t.subrange(j + 1, t.len() as int)))),
            None => None,
        }
    }
}

/// The `BOARD` and `BOARD_NAME` values set by lines `k..` of a file, the last
/// setting of each winning.
pub open spec fn settings_from(lines: Seq<Seq<char>>, k: int, board: Seq<char>, name: Seq<char>) -> (Seq<char>, Seq<char>)
    decreases lines.len() - k,
{
    if k < 0 || k >= lines.len() {
        (board, name)
    } else {
        match line_setting(lines[k]) {
            Some((key, value)) => if key == board_key() {
                settings_from(lines, k + 1, value, name)
            } else if key == board_name_key() {
                settings_from(lines, k + 1, board, value)
            } else {
                settings_from(lines, k + 1, board, name)
            },
            None => settings_from(lines, k + 1, board, name),
        }
    }
}

fn line_setting_exec(line: &Vec<char>) -> (r: Option<(Vec<char>, Vec<char>)>)
    ensures
        r is Some <==> line_setting(line@) is Some,
        r matches Some(kv) ==> line_setting(line@) == Some((kv.0@, kv.1@)),
{
    let t = trim_chars(line);
    if t.len() == 0 || t[0] == '#' {
        return None;
    }
    match find_from(&t, '=', 0) {
        Some(j) => {
            let n = t.len();
            let key = trim_chars(&sub_chars(&t, 0, j));
            let v = trim_chars(&sub_chars(&t, j + 1, n));
            let v = strip_char_exec(&v, '"');
            let v = strip_char_exec(&v, '\'');
            Some((key, v))
        },
        None => None,
    }
}

/// Reads a release file (`KEY=value` lines): the `BOARD` and `BOARD_NAME`
/// values, each the last one set; `None` when no non-empty `BOARD` is set.
pub fn parse_armbian_release(content: &str) -> (r: Option<ArmbianReleaseInfo>)
    ensures
        ({
            let (b, n) = settings_from(split_from(content@, '\n', 0), 0, seq![], seq![]);
            &&& r is Some <==> b.len() > 0
            &&& r matches Some(info) ==> info.board@ == b && info.board_name@ == n
        }),
{
    let cs = chars_of(content);
    let lines = split_chars(&cs, '\n');
    let ghost ls = lines@.map_values(|p: Vec<char>| p@);
    let bk = vec!['B', 'O', 'A', 'R', 'D'];
    let nk = vec!['B', 'O', 'A', 'R', 'D', '_', 'N', 'A', 'M', 'E'];
    assert(bk@ =~= board_key());
    assert(nk@ =~= board_name_key());
    let mut board: Vec<char> = Vec::new();
    let mut name: Vec<char> = Vec::new();
    let mut k: usize = 0;
    assert(board@ =~= seq![]);
    assert(name@ =~= seq![]);
    while k < lines.len()
        invariant
            ls == lines@.map_values(|p: Vec<char>| p@),
            ls == split_from(cs@, '\n', 0),
            cs@ == content@,
            bk@ == board_key(),
            nk@ == board_name_key(),
            k <= lines@.len(),
            settings_from(ls, 0, seq![], seq![]) == settings_from(ls, k as int, board@, name@),
        decreases lines@.len() - k,
    {
        assert(ls[k as int] == lines@[k as int]@);
        match line_setting_exec(&lines[k]) {
            Some((key, value)) => {
                if chars_eq(&key, &bk) {
                    board = value;
                } else if chars_eq(&key, &nk) {
                    name = value;
                }
            },
            None => {},
        }
        k += 1;
    }
    if board.len() == 0 {
        None
    } else {
        Some(ArmbianReleaseInfo { board: string_of(&board), board_name: string_of(&name) })
    }
}

/// The tag of an application release: the version trimmed, with a leading
/// `v` added when missing.
pub open spec fn release_tag(version: Seq<char>) -> Seq<char> {
    let v = trimmed(version);
    if v.len() > 0 && v[0] == 'v' {
        v
    } else {
        seq!['v'] + v
    }
}

/// The metadata URL of the application release `version` (`1.2.0` or
/// `v1.2.0`); an error for a blank version.
pub fn github_release_url(version: &str) -> (r: Result<String, String>)
    ensures
        r is Err <==> trimmed(version@).len() == 0,
        r matches Err(m) ==> m@ == "Version cannot be empty"@,
        r matches Ok(u) ==> u@ == "https://api.github.com/repos/armbian/imager/releases/tags/"@
            + release_tag(version@),
{
    let v = trim_chars(&chars_of(version));
    if v.len() == 0 {
        return Err(String::from_str("Version cannot be empty"));
    }
    let mut u = String::new();
    push_str(&mut u, "https://api.github.com/repos/armbian/imager/releases/tags/");
    let ghost u0 = u@;
    if v[0] != 'v' {
        crate::text::push_char(&mut u, 'v');
    }
    let vs = string_of(&v);
    push_str(&mut u, vs.as_str());
    proof {
        if v@[0] != 'v' {
            assert(u@ =~= u0 + (seq!['v'] + v@));
        }
    }
    Ok(u)
}

/// What a save dialog offers.
pub struct SaveDialogPlan {
    pub filename: String,
    pub extensions: Vec<&'static str>,
}

/// The file name and extensions that the save dialog offers: when the image
/// will be expanded, the name loses one `.xz` and `xz` is not offered.
pub fn save_dialog_plan(suggested: &str, decompress: bool) -> (r: SaveDialogPlan)
    ensures
        r.filename@ == if decompress && crate::text::ends_with(suggested@, crate::path::xz_suffix()) {
            suggested@.subrange(0, suggested@.len() - 3)
        } else {
            suggested@
        },
        r.extensions@.len() == if decompress {
            3int
        } else {
            4int
        },
        decompress ==> r.extensions@[0]@ == "img"@ && r.extensions@[1]@ == "iso"@
            && r.extensions@[2]@ == "raw"@,
        !decompress ==> r.extensions@[0]@ == "xz"@ && r.extensions@[1]@ == "img"@
            && r.extensions@[2]@ == "iso"@ && r.extensions@[3]@ == "raw"@,
{
    let cs = chars_of(suggested);
    let n = cs.len();
    let filename = if decompress && crate::text::chars_end_with(&cs, &crate::path::xz_chars()) {
        crate::text::string_from(&cs, 0, n - 3)
    } else {
        string_of(&cs)
    };
    let extensions = if decompress {
        vec!["img", "iso", "raw"]
    } else {
        vec!["xz", "img", "iso", "raw"]
    };
    SaveDialogPlan { filename, extensions }
}

} // verus!

//! Human-readable sizes and board slugs.
use vstd::prelude::*;
use crate::text::{
    alnum, chars_of, decimal, digit, digit_char, is_alnum, lower_of, lowercase, push_char,
    push_decimal,
};

verus! {

/// Bytes per megabyte.
pub const MB: u64 = 1048576;

/// Bytes per gigabyte.
pub const GB: u64 = 1073741824;

pub const KB_BYTES: u64 = 1024;

pub const TB_BYTES: u64 = 1099511627776;

/// `a / b` rounded to the nearest integer, ties to the even neighbour
/// (how a float is printed with a fixed number of decimals).
pub open spec fn div_round_even(a: nat, b: nat) -> nat
    recommends
        b > 0,
{
    let q = a / b;
    let r = a % b;
    if 2 * r > b {
        q + 1
    } else if 2 * r < b {
        q
    } else if q % 2 == 0 {
        q
    } else {
        q + 1
    }
}

/// `bytes / unit` printed with no decimals.
pub open spec fn whole_units(bytes: nat, unit: nat) -> Seq<char> {
    decimal(div_round_even(bytes, unit))
}

/// `bytes / unit` printed with one decimal.
pub open spec fn tenth_units(bytes: nat, unit: nat) -> Seq<char> {
    let t = div_round_even(10 * bytes, unit);
    decimal(t / 10).push('.').push(digit_char(t % 10))
}

/// The text that `format_size` gives for `bytes`.
pub open spec fn size_text(bytes: nat) -> Seq<char> {
    if bytes >= TB_BYTES {
        tenth_units(bytes, TB_BYTES as nat) + seq![' ', 'T', 'B']
    } else if bytes >= GB {
        tenth_units(bytes, GB as nat) + seq![' ', 'G', 'B']
    } else if bytes >= MB {
        whole_units(bytes, MB as nat) + seq![' ', 'M', 'B']
    } else if bytes >= KB_BYTES {
        whole_units(bytes, KB_BYTES as nat) + seq![' ', 'K', 'B']
    } else {
        decimal(bytes) + seq![' ', 'B']
    }
}

fn round_div(a: u128, b: u128) -> (r: u64)
    requires
        0 < b <= 0xffff_ffff_ffff_ffff,
        a / b < 0xffff_ffff_ffff_ffff,
    ensures
        r == div_round_even(a as nat, b as nat),
{
    let q = a / b;
    let rem = a % b;
    if 2 * rem > b {
        (q + 1) as u64
    } else if 2 * rem < b {
        q as u64
    } else if q % 2 == 0 {
        q as u64
    } else {
        (q + 1) as u64
    }
}

fn push_unit(s: &mut String, a: char, b: char)
    ensures
        final(s)@ == old(s)@ + seq![' ', a, b],
{
    push_char(s, ' ');
    push_char(s, a);
    push_char(s, b);
    assert(final(s)@ =~= old(s)@ + seq![' ', a, b]);
}

fn push_whole(s: &mut String, bytes: u64, unit: u64)
    requires
        unit >= 1024,
    ensures
        final(s)@ == old(s)@ + whole_units(bytes as nat, unit as nat),
{
    assert((bytes as int) / (unit as int) < 0xffff_ffff_ffff_ffff) by (nonlinear_arith)
        requires
            unit >= 1024,
            bytes <= 0xffff_ffff_ffff_ffff,
    ;
    let q = round_div(bytes as u128, unit as u128);
    push_decimal(s, q);
}

fn push_tenths(s: &mut String, bytes: u64, unit: u64)
    requires
        unit >= 1024,
    ensures
        final(s)@ == old(s)@ + tenth_units(bytes as nat, unit as nat),
{
    assert((10 * (bytes as int)) / (unit as int) < 0xffff_ffff_ffff_ffff) by (nonlinear_arith)
        requires
            unit >= 1024,
            bytes <= 0xffff_ffff_ffff_ffff,
    ;
    let t = round_div(10 * (bytes as u128), unit as u128);
    push_decimal(s, t / 10);
    push_char(s, '.');
    push_char(s, digit(t % 10));
    assert(final(s)@ =~= old(s)@ + tenth_units(bytes as nat, unit as nat));
}

/// Formats a byte count for people: `"512 B"`, `"2 KB"`, `"256 MB"`,
/// `"1.5 GB"`, `"2.0 TB"`.
pub fn format_size(bytes: u64) -> (r: String)
    ensures
        r@ == size_text(bytes as nat),
{
    let mut s = String::new();
    if bytes >= TB_BYTES {
        push_tenths(&mut s, bytes, TB_BYTES);
        push_unit(&mut s, 'T', 'B');
    } else if bytes >= GB {
        push_tenths(&mut s, bytes, GB);
        push_unit(&mut s, 'G', 'B');
    } else if bytes >= MB {
        push_whole(&mut s, bytes, MB);
        push_unit(&mut s, 'M', 'B');
    } else if bytes >= KB_BYTES {
        push_whole(&mut s, bytes, KB_BYTES);
        push_unit(&mut s, 'K', 'B');
    } else {
        push_decimal(&mut s, bytes);
        push_char(&mut s, ' ');
        push_char(&mut s, 'B');
        assert(s@ =~= decimal(bytes as nat) + seq![' ', 'B']);
    }
    s
}

} // verus!

verus! {

/// The runs of alphanumeric characters of `s`, joined by single hyphens.
pub open spec fn slug_of(s: Seq<char>) -> Seq<char>
    decreases s.len(),
{
    if s.len() == 0 {
        seq![]
    } else {
        let prev = slug_of(s.drop_last());
        let c = s.last();
        if !alnum(c) {
            prev
        } else if s.len() >= 2 && alnum(s[s.len() - 2]) {
            prev.push(c)
        } else if prev.len() == 0 {
            prev.push(c)
        } else {
            prev.push('-').push(c)
        }
    }
}

/// A slug from an already lower-cased name: every run of characters that
/// are not alphanumeric becomes one hyphen, and none leads or trails.
pub fn normalize_lowered(lowered: &str) -> (r: String)
    ensures
        r@ == slug_of(lowered@),
{
    let cs = chars_of(lowered);
    let mut s = String::new();
    let mut started = false;
    let mut prev_alnum = false;
    let mut i: usize = 0;
    while i < cs.len()
        invariant
            cs@ == lowered@,
            i <= cs@.len(),
            s@ == slug_of(cs@.subrange(0, i as int)),
            started == (s@.len() > 0),
            prev_alnum == (i > 0 && alnum(cs@[i - 1])),
        decreases cs@.len() - i,
    {
        let c = cs[i];
        let a = is_alnum(c);
        proof {
            assert(cs@.subrange(0, i + 1).drop_last() =~= cs@.subrange(0, i as int));
        }
        if a {
            if !prev_alnum && started {
                push_char(&mut s, '-');
            }
            push_char(&mut s, c);
            started = true;
        }
        prev_alnum = a;
        i += 1;
    }
    assert(cs@.subrange(0, i as int) =~= lowered@);
    s
}

/// Normalizes a board slug: lower case, and every run of characters that are
/// not alphanumeric becomes one hyphen (`"rock__pi__4"` gives `"rock-pi-4"`).
pub fn normalize_slug(slug: &str) -> (r: String)
    ensures
        r@ == slug_of(lower_of(slug@)),
{
    let lowered = lowercase(slug);
    normalize_lowered(lowered.as_str())
}

/// What `normalize_slug` returns is made of alphanumeric characters and
/// hyphens, never starts or ends with a hyphen, never holds two hyphens in a
/// row, and its other characters all come from the lower-cased input.
pub proof fn lemma_slug_shape(s: Seq<char>)
    ensures
        forall|i: int|
            0 <= i < slug_of(s).len() ==> alnum(#[trigger] slug_of(s)[i]) || slug_of(s)[i] == '-',
        slug_of(s).len() > 0 ==> alnum(slug_of(s)[0]) && alnum(slug_of(s).last()),
        forall|i: int|
            0 <= i < slug_of(s).len() - 1 && #[trigger] slug_of(s)[i] == '-' ==> slug_of(s)[i
                + 1] != '-',
        forall|i: int|
            0 <= i < slug_of(s).len() && #[trigger] slug_of(s)[i] != '-' ==> exists|j: int|
                0 <= j < s.len() && s[j] == slug_of(s)[i],
    decreases s.len(),
{
    if s.len() > 0 {
        let p = s.drop_last();
        lemma_slug_shape(p);
        let r = slug_of(s);
        let prev = slug_of(p);
        assert forall|i: int| 0 <= i < r.len() && #[trigger] r[i] != '-' implies exists|j: int|
            0 <= j < s.len() && s[j] == r[i] by {
            if i < prev.len() {
                let j = choose|j: int| 0 <= j < p.len() && p[j] == prev[i];
                assert(s[j] == r[i]);
            } else {
                assert(s[s.len() - 1] == r[i]);
            }
        }
    }
}

} // verus!

//! Character-level helpers shared by the parsers and formatters.
use vstd::prelude::*;
use vstd::string::StrSliceExecFns;

verus! {

/// Appends one character; relies on `String::push`, which adds `c` at the end.
#[verifier::external_body]
pub(crate) fn push_char(s: &mut String, c: char)
    ensures
        final(s)@ == old(s)@.push(c),
{
    s.push(c);
}

/// The characters of `s`, in order.
pub fn chars_of(s: &str) -> (r: Vec<char>)
    ensures
        r@ == s@,
{
    let n = s.unicode_len();
    let mut r: Vec<char> = Vec::new();
    let mut i: usize = 0;
    while i < n
        invariant
            n == s@.len(),
            i <= n,
            r@ == s@.subrange(0, i as int),
        decreases n - i,
    {
        r.push(s.get_char(i));
        i += 1;
    }
    assert(r@ =~= s@);
    r
}

/// A `String` holding the characters of `cs[from..to]`.
pub fn string_from(cs: &Vec<char>, from: usize, to: usize) -> (r: String)
    requires
        from <= to <= cs@.len(),
    ensures
        r@ == cs@.subrange(from as int, to as int),
{
    let mut r = String::new();
    let mut i: usize = from;
    while i < to
        invariant
            from <= i <= to <= cs@.len(),
            r@ == cs@.subrange(from as int, i as int),
        decreases to - i,
    {
        push_char(&mut r, cs[i]);
        i += 1;
        assert(r@ =~= cs@.subrange(from as int, i as int));
    }
    r
}

} // verus!

verus! {

/// `s` ends with `suf`.
pub open spec fn ends_with(s: Seq<char>, suf: Seq<char>) -> bool {
    suf.len() <= s.len() && s.subrange(s.len() - suf.len(), s.len() as int) == suf
}

/// `s` starts with `pre`.
pub open spec fn starts_with(s: Seq<char>, pre: Seq<char>) -> bool {
    pre.len() <= s.len() && s.subrange(0, pre.len() as int) == pre
}

/// `s` holds `pat` somewhere.
pub open spec fn contains(s: Seq<char>, pat: Seq<char>) -> bool {
    exists|i: int| 0 <= i && i + pat.len() <= s.len() && #[trigger] s.subrange(i, i + pat.len()) == pat
}

pub fn chars_end_with(s: &Vec<char>, suf: &Vec<char>) -> (r: bool)
    ensures
        r == ends_with(s@, suf@),
{
    if suf.len() > s.len() {
        return false;
    }
    let n = s.len();
    let off = n - suf.len();
    let mut i: usize = 0;
    while i < suf.len()
        invariant
            n == s@.len(),
            off + suf@.len() == s@.len(),
            i <= suf@.len(),
            forall|j: int| 0 <= j < i ==> s@[off + j] == suf@[j],
        decreases suf@.len() - i,
    {
        if s[off + i] != suf[i] {
            assert(s@.subrange(off as int, s@.len() as int)[i as int] != suf@[i as int]);
            return false;
        }
        i += 1;
    }
    assert(s@.subrange(off as int, s@.len() as int) =~= suf@);
    true
}

pub fn chars_start_with(s: &Vec<char>, pre: &Vec<char>) -> (r: bool)
    ensures
        r == starts_with(s@, pre@),
{
    if pre.len() > s.len() {
        return false;
    }
    let mut i: usize = 0;
    while i < pre.len()
        invariant
            pre@.len() <= s@.len(),
            i <= pre@.len(),
            forall|j: int| 0 <= j < i ==> s@[j] == pre@[j],
        decreases pre@.len() - i,
    {
        if s[i] != pre[i] {
            assert(s@.subrange(0, pre@.len() as int)[i as int] != pre@[i as int]);
            return false;
        }
        i += 1;
    }
    assert(s@.subrange(0, pre@.len() as int) =~= pre@);
    true
}

/// `pat` occurs in `s` at position `at`.
pub fn chars_match_at(s: &Vec<char>, pat: &Vec<char>, at: usize) -> (r: bool)
    requires
        at + pat@.len() <= s@.len(),
    ensures
        r == (s@.subrange(at as int, at + pat@.len()) == pat@),
{
    let n = s.len();
    let mut i: usize = 0;
    while i < pat.len()
        invariant
            n == s@.len(),
            at + pat@.len() <= s@.len(),
            i <= pat@.len(),
            forall|j: int| 0 <= j < i ==> s@[at + j] == pat@[j],
        decreases pat@.len() - i,
    {
        if s[at + i] != pat[i] {
            assert(s@.subrange(at as int, at + pat@.len())[i as int] != pat@[i as int]);
            return false;
        }
        i += 1;
    }
    assert(s@.subrange(at as int, at + pat@.len()) =~= pat@);
    true
}

pub fn chars_contain(s: &Vec<char>, pat: &Vec<char>) -> (r: bool)
    ensures
        r == contains(s@, pat@),
{
    if pat.len() > s.len() {
        return false;
    }
    let last = s.len() - pat.len();
    let mut i: usize = 0;
    loop
        invariant
            i <= last,
            last + pat@.len() == s@.len(),
            forall|j: int| 0 <= j < i ==> #[trigger] s@.subrange(j, j + pat@.len()) != pat@,
        decreases last - i,
    {
        if chars_match_at(s, pat, i) {
            return true;
        }
        if i == last {
            return false;
        }
        i += 1;
    }
}

} // verus!

verus! {

/// What `str::to_lowercase` makes of a string.
pub uninterp spec fn lower_of(s: Seq<char>) -> Seq<char>;

/// `char::is_alphanumeric` beyond ASCII.
pub uninterp spec fn wide_alnum(c: char) -> bool;

/// `char::is_whitespace` beyond ASCII.
pub uninterp spec fn wide_space(c: char) -> bool;

pub open spec fn ascii_alnum(c: char) -> bool {
    ('a' <= c && c <= 'z') || ('A' <= c && c <= 'Z') || ('0' <= c && c <= '9')
}

/// Alphanumeric in Unicode's sense; on ASCII, a letter or a digit.
pub open spec fn alnum(c: char) -> bool {
    if (c as u32) < 128 {
        ascii_alnum(c)
    } else {
        wide_alnum(c)
    }
}

/// White space in Unicode's sense; on ASCII, tab, line feed, vertical tab,
/// form feed, carriage return and space.
pub open spec fn space(c: char) -> bool {
    if (c as u32) < 128 {
        c == ' ' || ('\t' <= c && c <= '\r')
    } else {
        wide_space(c)
    }
}

/// Relies on `str::to_lowercase`: its result depends on the characters alone.
#[verifier::external_body]
pub(crate) fn lowercase(s: &str) -> (r: String)
    ensures
        r@ == lower_of(s@),
{
    s.to_lowercase()
}

/// Relies on `char::is_alphanumeric` (alphabetic or numeric).
#[verifier::external_body]
pub(crate) fn is_alnum(c: char) -> (r: bool)
    ensures
        r == alnum(c),
        (c as u32) >= 128 ==> r == wide_alnum(c),
{
    c.is_alphanumeric()
}

/// Relies on `char::is_whitespace` (Unicode `White_Space`).
#[verifier::external_body]
pub(crate) fn is_space(c: char) -> (r: bool)
    ensures
        r == space(c),
        (c as u32) >= 128 ==> r == wide_space(c),
{
    c.is_whitespace()
}

/// ASCII lower case of one character.
pub open spec fn ascii_lower(c: char) -> char {
    if 'A' <= c && c <= 'Z' {
        ((c as u8) + 32) as char
    } else {
        c
    }
}

pub fn to_ascii_lower(c: char) -> (r: char)
    ensures
        r == ascii_lower(c),
{
    if 'A' <= c && c <= 'Z' {
        ((c as u8) + 32) as char
    } else {
        c
    }
}

pub open spec fn digit_char(d: nat) -> char
    recommends
        d < 10,
{
    (('0' as u8) + d) as char
}

/// Decimal digits of `n`, most significant first, without leading zeros.
pub open spec fn decimal(n: nat) -> Seq<char>
    decreases n,
{
    if n < 10 {
        seq![digit_char(n)]
    } else {
        decimal(n / 10).push(digit_char(n % 10))
    }
}

pub fn digit(d: u64) -> (r: char)
    requires
        d < 10,
    ensures
        r == digit_char(d as nat),
{
    (('0' as u8) + (d as u8)) as char
}

/// Appends the decimal digits of `n`.
pub fn push_decimal(s: &mut String, n: u64)
    ensures
        final(s)@ == old(s)@ + decimal(n as nat),
    decreases n,
{
    if n >= 10 {
        push_decimal(s, n / 10);
    }
    push_char(s, digit(n % 10));
    assert(final(s)@ =~= old(s)@ + decimal(n as nat));
}

/// Appends every character of `t`.
pub fn push_str(s: &mut String, t: &str)
    ensures
        final(s)@ == old(s)@ + t@,
{
    let cs = chars_of(t);
    let mut i: usize = 0;
    let ghost s0 = s@;
    while i < cs.len()
        invariant
            cs@ == t@,
            i <= cs@.len(),
            s@ == s0 + t@.subrange(0, i as int),
        decreases cs@.len() - i,
    {
        push_char(s, cs[i]);
        i += 1;
        assert(s@ =~= s0 + t@.subrange(0, i as int));
    }
    assert(t@.subrange(0, i as int) =~= t@);
}

} // verus!

verus! {

/// A copy of `cs[from..to]`.
pub fn sub_chars(cs: &Vec<char>, from: usize, to: usize) -> (r: Vec<char>)
    requires
        from <= to <= cs@.len(),
    ensures
        r@ == cs@.subrange(from as int, to as int),
{
    let mut r: Vec<char> = Vec::new();
    let mut i: usize = from;
    while i < to
        invariant
            from <= i <= to <= cs@.len(),
            r@ == cs@.subrange(from as int, i as int),
        decreases to - i,
    {
        r.push(cs[i]);
        i += 1;
        assert(r@ =~= cs@.subrange(from as int, i as int));
    }
    r
}

/// A `String` with the characters of `cs`.
pub fn string_of(cs: &Vec<char>) -> (r: String)
    ensures
        r@ == cs@,
{
    let r = string_from(cs, 0, cs.len());
    assert(cs@.subrange(0, cs@.len() as int) =~= cs@);
    r
}

} // verus!

verus! {

pub fn chars_eq(a: &Vec<char>, b: &Vec<char>) -> (r: bool)
    ensures
        r == (a@ == b@),
{
    if a.len() != b.len() {
        return false;
    }
    let r = chars_start_with(a, b);
    proof {
        assert(a@.subrange(0, b@.len() as int) =~= a@);
    }
    r
}

} // verus!

verus! {

/// Index of the last `c` in `s` before `end`, if any.
pub open spec fn last_index_of(s: Seq<char>, c: char, end: int) -> Option<int>
    decreases end,
{
    if end <= 0 {
        None
    } else if s[end - 1] == c {
        Some(end - 1)
    } else {
        last_index_of(s, c, end - 1)
    }
}

pub fn find_last_index(s: &Vec<char>, c: char) -> (r: Option<usize>)
    ensures
        r matches Some(i) ==> last_index_of(s@, c, s@.len() as int) == Some(i as int) && i
            < s@.len() && s@[i as int] == c,
        r is None ==> last_index_of(s@, c, s@.len() as int) is None,
{
    let mut end: usize = s.len();
    while end > 0
        invariant
            end <= s@.len(),
            last_index_of(s@, c, s@.len() as int) == last_index_of(s@, c, end as int),
        decreases end,
    {
        if s[end - 1] == c {
            return Some(end - 1);
        }
        end -= 1;
    }
    None
}

} // verus!

verus! {

/// Index of the first `c` in `s` at or after `from`, if any.
pub open spec fn first_index_of(s: Seq<char>, c: char, from: int) -> Option<int>
    decreases s.len() - from,
{
    if from < 0 || from >= s.len() {
        None
    } else if s[from] == c {
        Some(from)
    } else {
        first_index_of(s, c, from + 1)
    }
}

pub fn find_first_index(s: &Vec<char>, c: char) -> (r: Option<usize>)
    ensures
        r matches Some(i) ==> first_index_of(s@, c, 0) == Some(i as int) && i < s@.len() && s@[i as int] == c,
        r is None ==> first_index_of(s@, c, 0) is None,
{
    let n = s.len();
    let mut i: usize = 0;
    while i < n
        invariant
            n == s@.len(),
            i <= n,
            first_index_of(s@, c, 0) == first_index_of(s@, c, i as int),
        decreases n - i,
    {
        if s[i] == c {
            return Some(i);
        }
        i += 1;
    }
    None
}

/// First index at or after `i` whose character is not white space.
pub open spec fn skip_space(s: Seq<char>, i: int) -> int
    decreases s.len() - i,
{
    if i < 0 || i >= s.len() || !space(s[i]) {
        i
    } else {
        skip_space(s, i + 1)
    }
}

/// First index at or after `i` whose character is white space, or the end.
pub open spec fn skip_word(s: Seq<char>, i: int) -> int
    decreases s.len() - i,
{
    if i < 0 || i >= s.len() || space(s[i]) {
        i
    } else {
        skip_word(s, i + 1)
    }
}

/// The first white-space-delimited word of `s`.
pub open spec fn first_word(s: Seq<char>) -> Option<Seq<char>> {
    let b = skip_space(s, 0);
    if b >= s.len() {
        None
    } else {
        Some(s.subrange(b, skip_word(s, b)))
    }
}

proof fn lemma_skip_bounds(s: Seq<char>, i: int)
    requires
        0 <= i <= s.len(),
    ensures
        i <= skip_space(s, i) <= s.len(),
        i <= skip_word(s, i) <= s.len(),
    decreases s.len() - i,
{
    if i < s.len() {
        lemma_skip_bounds(s, i + 1);
    }
}

pub fn first_word_of(s: &Vec<char>) -> (r: Option<Vec<char>>)
    ensures
        r matches Some(w) ==> first_word(s@) == Some(w@),
        r is None ==> first_word(s@) is None,
{
    let n = s.len();
    let mut b: usize = 0;
    proof {
        lemma_skip_bounds(s@, 0);
    }
    while b < n && is_space(s[b])
        invariant
            n == s@.len(),
            b <= n,
            skip_space(s@, 0) == skip_space(s@, b as int),
        decreases n - b,
    {
        b += 1;
    }
    if b >= n {
        return None;
    }
    let mut e: usize = b;
    while e < n && !is_space(s[e])
        invariant
            n == s@.len(),
            b <= e <= n,
            skip_word(s@, b as int) == skip_word(s@, e as int),
        decreases n - e,
    {
        e += 1;
    }
    Some(sub_chars(s, b, e))
}

pub open spec fn ascii_hex(c: char) -> bool {
    ('0' <= c && c <= '9') || ('a' <= c && c <= 'f') || ('A' <= c && c <= 'F')
}

/// Sixty-four ASCII hexadecimal digits: how a SHA-256 digest is written.
pub open spec fn sha_hex(s: Seq<char>) -> bool {
    s.len() == 64 && forall|i: int| 0 <= i < s.len() ==> ascii_hex(#[trigger] s[i])
}

pub fn is_sha_hex(s: &Vec<char>) -> (r: bool)
    ensures
        r == sha_hex(s@),
{
    if s.len() != 64 {
        return false;
    }
    let mut i: usize = 0;
    while i < 64
        invariant
            s@.len() == 64,
            i <= 64,
            forall|j: int| 0 <= j < i ==> ascii_hex(#[trigger] s@[j]),
        decreases 64 - i,
    {
        let c = s[i];
        if !(('0' <= c && c <= '9') || ('a' <= c && c <= 'f') || ('A' <= c && c <= 'F')) {
            return false;
        }
        i += 1;
    }
    true
}

} // verus!

verus! {

/// First index at or before `e` whose preceding character is not white space.
pub open spec fn back_skip_space(s: Seq<char>, e: int) -> int
    decreases e,
{
    if e <= 0 || e > s.len() || !space(s[e - 1]) {
        e
    } else {
        back_skip_space(s, e - 1)
    }
}

/// `s` without leading and trailing white space.
pub open spec fn trimmed(s: Seq<char>) -> Seq<char> {
    let b = skip_space(s, 0);
    if b >= s.len() {
        seq![]
    } else {
        s.subrange(b, back_skip_space(s, s.len() as int))
    }
}

proof fn lemma_back_skip_bounds(s: Seq<char>, e: int, b: int)
    requires
        0 <= b < e <= s.len(),
        !space(s[b]),
    ensures
        b < back_skip_space(s, e) <= e,
    decreases e,
{
    if e - 1 > b && space(s[e - 1]) {
        lemma_back_skip_bounds(s, e - 1, b);
    }
}

/// `s` without leading and trailing white space.
pub fn trim_chars(s: &Vec<char>) -> (r: Vec<char>)
    ensures
        r@ == trimmed(s@),
{
    let n = s.len();
    let mut b: usize = 0;
    proof {
        lemma_skip_bounds(s@, 0);
    }
    while b < n && is_space(s[b])
        invariant
            n == s@.len(),
            b <= n,
            skip_space(s@, 0) == skip_space(s@, b as int),
        decreases n - b,
    {
        b += 1;
    }
    if b >= n {
        return Vec::new();
    }
    let mut e: usize = n;
    proof {
        lemma_back_skip_bounds(s@, n as int, b as int);
    }
    while e > b + 1 && is_space(s[e - 1])
        invariant
            n == s@.len(),
            b < e <= n,
            !space(s@[b as int]),
            back_skip_space(s@, n as int) == back_skip_space(s@, e as int),
        decreases e,
    {
        e -= 1;
    }
    sub_chars(s, b, e)
}

} // verus!

verus! {

/// Index of the first `c` at or after `from`.
pub fn find_from(s: &Vec<char>, c: char, from: usize) -> (r: Option<usize>)
    ensures
        r matches Some(i) ==> first_index_of(s@, c, from as int) == Some(i as int) && from <= i
            < s@.len() && s@[i as int] == c,
        r is None ==> first_index_of(s@, c, from as int) is None,
{
    let n = s.len();
    let mut i: usize = from;
    while i < n
        invariant
            n == s@.len(),
            from <= i,
            first_index_of(s@, c, from as int) == first_index_of(s@, c, i as int),
        decreases n - i,
    {
        if s[i] == c {
            return Some(i);
        }
        i += 1;
    }
    None
}

/// The pieces of `s` from `i` on between occurrences of `c`.
pub open spec fn split_from(s: Seq<char>, c: char, i: int) -> Seq<Seq<char>>
    decreases s.len() - i,
{
    match first_index_of(s, c, i) {
        Some(j) => if i <= j < s.len() {
            seq![s.subrange(i, j)] + split_from(s, c, j + 1)
        } else {
            seq![]
        },
        None => if 0 <= i <= s.len() {
            seq![s.subrange(i, s.len() as int)]
        } else {
            seq![]
        },
    }
}

proof fn lemma_first_index_range(s: Seq<char>, c: char, i: int)
    requires
        0 <= i,
    ensures
        first_index_of(s, c, i) matches Some(j) ==> i <= j < s.len() && s[j] == c,
    decreases s.len() - i,
{
    if i < s.len() && s[i] != c {
        lemma_first_index_range(s, c, i + 1);
    }
}

/// The pieces of `s` between occurrences of `c` (what `str::split` gives).
pub fn split_chars(s: &Vec<char>, c: char) -> (r: Vec<Vec<char>>)
    ensures
        r@.map_values(|p: Vec<char>| p@) == split_from(s@, c, 0),
{
    let n = s.len();
    let mut r: Vec<Vec<char>> = Vec::new();
    let mut i: usize = 0;
    loop
        invariant
            n == s@.len(),
            i <= n,
            split_from(s@, c, 0) == r@.map_values(|p: Vec<char>| p@) + split_from(s@, c, i as int),
        decreases n - i,
    {
        proof {
            lemma_first_index_range(s@, c, i as int);
        }
        match find_from(s, c, i) {
            Some(j) => {
                let piece = sub_chars(s, i, j);
                let ghost before = r@;
                r.push(piece);
                assert(r@.map_values(|p: Vec<char>| p@) =~= before.map_values(|p: Vec<char>| p@)
                    + seq![s@.subrange(i as int, j as int)]);
                i = j + 1;
            },
            None => {
                let piece = sub_chars(s, i, n);
                let ghost before = r@;
                r.push(piece);
                assert(r@.map_values(|p: Vec<char>| p@) =~= before.map_values(|p: Vec<char>| p@)
                    + seq![s@.subrange(i as int, n as int)]);
                assert(split_from(s@, c, 0) =~= r@.map_values(|p: Vec<char>| p@));
                return r;
            },
        }
    }
}

/// `s` without leading and trailing `c`s (what `str::trim_matches` gives).
pub open spec fn strip_char(s: Seq<char>, c: char) -> Seq<char>
    decreases s.len(),
{
    if s.len() > 0 && s[0] == c {
        strip_char(s.subrange(1, s.len() as int), c)
    } else if s.len() > 0 && s.last() == c {
        strip_char(s.drop_last(), c)
    } else {
        s
    }
}

pub fn strip_char_exec(s: &Vec<char>, c: char) -> (r: Vec<char>)
    ensures
        r@ == strip_char(s@, c),
{
    let mut b: usize = 0;
    let mut e: usize = s.len();
    assert(s@.subrange(0, s@.len() as int) =~= s@);
    while b < e && (s[b] == c || s[e - 1] == c)
        invariant
            b <= e <= s@.len(),
            strip_char(s@, c) == strip_char(s@.subrange(b as int, e as int), c),
        decreases e - b,
    {
        let ghost t = s@.subrange(b as int, e as int);
        if s[b] == c {
            assert(t.subrange(1, t.len() as int) =~= s@.subrange(b + 1, e as int));
            b += 1;
        } else {
            assert(t.drop_last() =~= s@.subrange(b as int, e - 1));
            e -= 1;
        }
    }
    sub_chars(s, b, e)
}

} // verus!

verus! {

/// `a` comes strictly before `b` in lexicographic order of code points.
pub open spec fn lex_lt(a: Seq<char>, b: Seq<char>) -> bool
    decreases a.len(),
{
    if a.len() == 0 {
        b.len() > 0
    } else if b.len() == 0 {
        false
    } else if a[0] != b[0] {
        a[0] < b[0]
    } else {
        lex_lt(a.drop_first(), b.drop_first())
    }
}

pub proof fn lemma_lex_transitive(a: Seq<char>, b: Seq<char>, c: Seq<char>)
    requires
        lex_lt(a, b),
        lex_lt(b, c),
    ensures
        lex_lt(a, c),
    decreases a.len(),
{
    if a.len() > 0 && b.len() > 0 && c.len() > 0 && a[0] == b[0] && b[0] == c[0] {
        lemma_lex_transitive(a.drop_first(), b.drop_first(), c.drop_first());
    }
}

pub proof fn lemma_lex_asymmetric(a: Seq<char>, b: Seq<char>)
    requires
        lex_lt(a, b),
    ensures
        !lex_lt(b, a),
    decreases a.len(),
{
    if a.len() > 0 && b.len() > 0 && a[0] == b[0] {
        lemma_lex_asymmetric(a.drop_first(), b.drop_first());
    }
}

/// Whether `a` comes strictly before `b` in lexicographic order.
pub fn chars_lt(a: &Vec<char>, b: &Vec<char>) -> (r: bool)
    ensures
        r == lex_lt(a@, b@),
{
    let mut i: usize = 0;
    assert(a@.subrange(0, a@.len() as int) =~= a@);
    assert(b@.subrange(0, b@.len() as int) =~= b@);
    while i < a.len() && i < b.len() && a[i] == b[i]
        invariant
            i <= a@.len(),
            i <= b@.len(),
            lex_lt(a@, b@) == lex_lt(a@.subrange(i as int, a@.len() as int), b@.subrange(i as int, b@.len() as int)),
        decreases a@.len() - i,
    {
        proof {
            let x = a@.subrange(i as int, a@.len() as int);
            let y = b@.subrange(i as int, b@.len() as int);
            assert(x.drop_first() =~= a@.subrange(i + 1, a@.len() as int));
            assert(y.drop_first() =~= b@.subrange(i + 1, b@.len() as int));
        }
        i += 1;
    }
    if i == a.len() {
        i < b.len()
    } else if i == b.len() {
        false
    } else {
        a[i] < b[i]
    }
}

/// The value of a string of decimal digits.
pub open spec fn digits_value(s: Seq<char>) -> nat
    decreases s.len(),
{
    if s.len() == 0 {
        0
    } else {
        digits_value(s.drop_last()) * 10 + ((s.last() as u32) - ('0' as u32)) as nat
    }
}

pub open spec fn all_digits(s: Seq<char>) -> bool {
    forall|i: int| 0 <= i < s.len() ==> '0' <= #[trigger] s[i] && s[i] <= '9'
}

/// What `str::parse::<u64>` accepts: an optional `+`, then one or more
/// decimal digits whose value fits.
pub open spec fn parsed_u64(s: Seq<char>) -> Option<nat> {
    let d = if s.len() > 0 && s[0] == '+' {
        s.drop_first()
    } else {
        s
    };
    if d.len() > 0 && all_digits(d) && digits_value(d) <= u64::MAX {
        Some(digits_value(d))
    } else {
        None
    }
}

proof fn lemma_digits_grow(s: Seq<char>, n: int)
    requires
        0 < n <= s.len(),
        all_digits(s),
    ensures
        digits_value(s.subrange(0, n - 1)) <= digits_value(s.subrange(0, n)),
{
    assert(s.subrange(0, n).drop_last() =~= s.subrange(0, n - 1));
}

proof fn lemma_digits_mono(s: Seq<char>, m: int, n: int)
    requires
        0 <= m <= n <= s.len(),
        all_digits(s),
    ensures
        digits_value(s.subrange(0, m)) <= digits_value(s.subrange(0, n)),
    decreases n - m,
{
    if m < n {
        lemma_digits_mono(s, m, n - 1);
        lemma_digits_grow(s, n);
    }
}

/// Parses a decimal `u64` as `str::parse` does.
pub fn parse_u64(s: &str) -> (r: Option<u64>)
    ensures
        r is Some <==> parsed_u64(s@) is Some,
        r matches Some(v) ==> parsed_u64(s@) == Some(v as nat),
{
    let cs = chars_of(s);
    let n = cs.len();
    let start: usize = if n > 0 && cs[0] == '+' { 1 } else { 0 };
    let ghost d = if cs@.len() > 0 && cs@[0] == '+' { cs@.drop_first() } else { cs@ };
    assert(d =~= cs@.subrange(start as int, n as int));
    if start == n {
        return None;
    }
    let mut v: u64 = 0;
    let mut i: usize = start;
    while i < n
        invariant
            n == cs@.len(),
            start < n,
            start <= i <= n,
            d == cs@.subrange(start as int, n as int),
            cs@ == s@,
            d == (if cs@.len() > 0 && cs@[0] == '+' { cs@.drop_first() } else { cs@ }),
            all_digits(d.subrange(0, i - start)),
            v as nat == digits_value(d.subrange(0, i - start)),
        decreases n - i,
    {
        let c = cs[i];
        if !('0' <= c && c <= '9') {
            assert(d[i - start] == c);
            assert(!all_digits(d));
            return None;
        }
        let digit = (c as u32 - '0' as u32) as u64;
        proof {
            assert(d.subrange(0, i + 1 - start).drop_last() =~= d.subrange(0, i - start));
        }
        if v > (u64::MAX - digit) / 10 {
            proof {
                assert((v as int) * 10 + (digit as int) > u64::MAX) by (nonlinear_arith)
                    requires
                        v > (u64::MAX - digit) / 10,
                        digit <= 9,
                ;
                assert(digit as nat == ((d[i - start] as u32) - ('0' as u32)) as nat);
                assert(all_digits(d.subrange(0, i + 1 - start)));
                assert(digits_value(d.subrange(0, i + 1 - start)) > u64::MAX);
                if all_digits(d) {
                    lemma_digits_mono(d, i + 1 - start, d.len() as int);
                    assert(d.subrange(0, d.len() as int) =~= d);
                }
            }
            return None;
        }
        v = v * 10 + digit;
        i += 1;
    }
    assert(d.subrange(0, n - start) =~= d);
    Some(v)
}

} // verus!

verus! {

pub proof fn lemma_lex_total(a: Seq<char>, b: Seq<char>)
    requires
        !lex_lt(a, b),
        !lex_lt(b, a),
    ensures
        a == b,
    decreases a.len(),
{
    if a.len() > 0 && b.len() > 0 {
        if a[0] == b[0] {
            lemma_lex_total(a.drop_first(), b.drop_first());
            assert(a =~= seq![a[0]] + a.drop_first());
            assert(b =~= seq![b[0]] + b.drop_first());
        }
    } else {
        assert(a =~= b);
    }
}

} // verus!

//! The image catalog: its records, which of them are images, the boards they
//! cover, and the images offered for one board.
use vstd::prelude::*;
use crate::format::{normalize_slug, slug_of};
use crate::text::{
    chars_contain, chars_lt, chars_of, chars_start_with, contains, lemma_lex_asymmetric,
    lemma_lex_total, lemma_lex_transitive, lex_lt, lower_of, lowercase, parse_u64, parsed_u64,
    starts_with,
};

verus! {

/// One record of the catalog, as published.
pub struct ArmbianImage {
    pub board_slug: Option<String>,
    pub board_name: Option<String>,
    pub armbian_version: Option<String>,
    pub distro_release: Option<String>,
    pub kernel_branch: Option<String>,
    pub image_variant: Option<String>,
    pub preinstalled_application: Option<String>,
    pub promoted: Option<String>,
    pub file_url: Option<String>,
    pub file_url_sha: Option<String>,
    pub file_extension: Option<String>,
    pub file_size: Option<String>,
    pub download_repository: Option<String>,
    pub redi_url: Option<String>,
}

/// A board, with how many images it has and whether one is promoted.
pub struct BoardInfo {
    pub slug: String,
    pub name: String,
    pub image_count: usize,
    pub has_promoted: bool,
}

/// An image as offered for a board.
pub struct ImageInfo {
    pub armbian_version: String,
    pub distro_release: String,
    pub kernel_branch: String,
    pub image_variant: String,
    pub preinstalled_application: String,
    pub promoted: bool,
    pub file_url: String,
    pub file_url_sha: Option<String>,
    pub file_size: u64,
    pub download_repository: String,
}

/// The preinstalled-application filter value that asks for images without one.
pub const EMPTY_FILTER: &'static str = "__EMPTY__";

/// The repository of stable images.
pub const STABLE_REPO: &'static str = "archive";

/// The text of an optional field; empty when absent.
pub open spec fn text_or_empty(o: Option<String>) -> Seq<char> {
    match o {
        Some(s) => s@,
        None => seq![],
    }
}

fn copy_or_empty(o: &Option<String>) -> (r: String)
    ensures
        r@ == text_or_empty(*o),
{
    match o {
        Some(s) => s.clone(),
        None => String::new(),
    }
}

pub open spec fn true_text() -> Seq<char> {
    seq!['t', 'r', 'u', 'e']
}

/// A `promoted` field that reads `true`.
pub open spec fn promoted_flag(o: Option<String>) -> bool {
    o matches Some(s) && s@ == true_text()
}

fn is_promoted(o: &Option<String>) -> (r: bool)
    ensures
        r == promoted_flag(*o),
{
    match o {
        Some(s) => {
            let t = vec!['t', 'r', 'u', 'e'];
            assert(t@ =~= true_text());
            crate::text::chars_eq(&chars_of(s.as_str()), &t)
        },
        None => false,
    }
}

/// An already lower-cased extension that marks a disk image: it starts with
/// `img` and holds none of `asc`, `torrent`, `sha`.
pub open spec fn image_ext(e: Seq<char>) -> bool {
    starts_with(e, seq!['i', 'm', 'g']) && !contains(e, seq!['a', 's', 'c']) && !contains(
        e,
        seq!['t', 'o', 'r', 'r', 'e', 'n', 't'],
    ) && !contains(e, seq!['s', 'h', 'a'])
}

/// Whether an already lower-cased extension marks a disk image.
pub fn valid_lowered_extension(lowered: &str) -> (r: bool)
    ensures
        r == image_ext(lowered@),
{
    let e = chars_of(lowered);
    let img = vec!['i', 'm', 'g'];
    let asc = vec!['a', 's', 'c'];
    let tor = vec!['t', 'o', 'r', 'r', 'e', 'n', 't'];
    let sha = vec!['s', 'h', 'a'];
    assert(img@ =~= seq!['i', 'm', 'g']);
    assert(asc@ =~= seq!['a', 's', 'c']);
    assert(tor@ =~= seq!['t', 'o', 'r', 'r', 'e', 'n', 't']);
    assert(sha@ =~= seq!['s', 'h', 'a']);
    chars_start_with(&e, &img) && !chars_contain(&e, &asc) && !chars_contain(&e, &tor)
        && !chars_contain(&e, &sha)
}

/// Whether a file extension, in any case, marks a disk image (and not a
/// signature, torrent or checksum).
pub fn is_valid_image_extension(ext: &str) -> (r: bool)
    ensures
        r == image_ext(lower_of(ext@)),
{
    let lowered = lowercase(ext);
    valid_lowered_extension(lowered.as_str())
}

pub open spec fn cloud_text() -> Seq<char> {
    seq!['c', 'l', 'o', 'u', 'd']
}

/// A catalog record that is offered: it has an image extension and is not a
/// cloud build.
pub open spec fn offered(img: ArmbianImage) -> bool {
    img.file_extension matches Some(e) && image_ext(lower_of(e@)) && text_or_empty(
        img.kernel_branch,
    ) != cloud_text()
}

/// Whether a catalog record is offered at all.
pub fn accept_image(img: &ArmbianImage) -> (r: bool)
    ensures
        r == offered(*img),
{
    match &img.file_extension {
        Some(e) => {
            if !is_valid_image_extension(e.as_str()) {
                return false;
            }
            let k = chars_of(copy_or_empty(&img.kernel_branch).as_str());
            let cloud = vec!['c', 'l', 'o', 'u', 'd'];
            assert(cloud@ =~= cloud_text());
            !crate::text::chars_eq(&k, &cloud)
        },
        None => false,
    }
}

/// The record's slug, normalized.
pub open spec fn slug_key(img: ArmbianImage) -> Seq<char> {
    slug_of(lower_of(text_or_empty(img.board_slug)))
}

/// A record passes the board page's filters.
pub open spec fn passes(
    img: ArmbianImage,
    board: Seq<char>,
    preapp: Option<Seq<char>>,
    kernel: Option<Seq<char>>,
    variant: Option<Seq<char>>,
    stable_only: bool,
) -> bool {
    &&& slug_key(img) == slug_of(lower_of(board))
    &&& (preapp matches Some(f) ==> if f == EMPTY_FILTER@ {
        text_or_empty(img.preinstalled_application).len() == 0
    } else {
        text_or_empty(img.preinstalled_application) == f
    })
    &&& (stable_only ==> text_or_empty(img.download_repository) == STABLE_REPO@)
    &&& (kernel matches Some(f) ==> text_or_empty(img.kernel_branch) == f)
    &&& (variant matches Some(f) ==> text_or_empty(img.image_variant) == f)
}

/// `i` is what the board page shows of `img`.
pub open spec fn shows(i: ImageInfo, img: ArmbianImage) -> bool {
    &&& i.armbian_version@ == text_or_empty(img.armbian_version)
    &&& i.distro_release@ == text_or_empty(img.distro_release)
    &&& i.kernel_branch@ == text_or_empty(img.kernel_branch)
    &&& i.image_variant@ == text_or_empty(img.image_variant)
    &&& i.preinstalled_application@ == text_or_empty(img.preinstalled_application)
    &&& i.promoted == promoted_flag(img.promoted)
    &&& i.file_url@ == text_or_empty(img.file_url)
    &&& (i.file_url_sha is Some <==> img.file_url_sha is Some)
    &&& (i.file_url_sha matches Some(s) ==> s@ == img.file_url_sha->0@)
    &&& i.file_size as nat == match img.file_size {
        Some(s) => match parsed_u64(s@) {
            Some(v) => v,
            None => 0,
        },
        None => 0,
    }
    &&& i.download_repository@ == text_or_empty(img.download_repository)
}

fn show(img: &ArmbianImage) -> (r: ImageInfo)
    ensures
        shows(r, *img),
{
    ImageInfo {
        armbian_version: copy_or_empty(&img.armbian_version),
        distro_release: copy_or_empty(&img.distro_release),
        kernel_branch: copy_or_empty(&img.kernel_branch),
        image_variant: copy_or_empty(&img.image_variant),
        preinstalled_application: copy_or_empty(&img.preinstalled_application),
        promoted: is_promoted(&img.promoted),
        file_url: copy_or_empty(&img.file_url),
        file_url_sha: match &img.file_url_sha {
            Some(s) => Some(s.clone()),
            None => None,
        },
        file_size: match &img.file_size {
            Some(s) => match parse_u64(s.as_str()) {
                Some(v) => v,
                None => 0,
            },
            None => 0,
        },
        download_repository: copy_or_empty(&img.download_repository),
    }
}

/// The board page's order: promoted images first, then newer versions first.
pub open spec fn shown_before(x: ImageInfo, y: ImageInfo) -> bool {
    (x.promoted && !y.promoted) || (x.promoted == y.promoted && lex_lt(
        y.armbian_version@,
        x.armbian_version@,
    ))
}

fn before_exec(x: &ImageInfo, y: &ImageInfo) -> (r: bool)
    ensures
        r == shown_before(*x, *y),
{
    (x.promoted && !y.promoted) || (x.promoted == y.promoted && chars_lt(
        &chars_of(y.armbian_version.as_str()),
        &chars_of(x.armbian_version.as_str()),
    ))
}

proof fn lemma_before_order(x: ImageInfo, y: ImageInfo, z: ImageInfo)
    ensures
        shown_before(x, y) && shown_before(y, z) ==> shown_before(x, z),
        shown_before(x, y) ==> !shown_before(y, x),
        !shown_before(x, y) && !shown_before(y, x) ==> (x.promoted == y.promoted
            && x.armbian_version@ == y.armbian_version@),
{
    if shown_before(x, y) && shown_before(y, z) && x.promoted == y.promoted && y.promoted == z.promoted {
        lemma_lex_transitive(z.armbian_version@, y.armbian_version@, x.armbian_version@);
    }
    if shown_before(x, y) && x.promoted == y.promoted {
        lemma_lex_asymmetric(y.armbian_version@, x.armbian_version@);
    }
    if !shown_before(x, y) && !shown_before(y, x) {
        lemma_lex_total(x.armbian_version@, y.armbian_version@);
    }
}

} // verus!

verus! {

proof fn lemma_before_chain(x: ImageInfo, y: ImageInfo, z: ImageInfo)
    requires
        shown_before(x, y),
        !shown_before(z, y),
    ensures
        shown_before(x, z),
{
    lemma_before_order(z, x, y);
    lemma_before_order(x, z, y);
}

proof fn lemma_before_irreflexive(x: ImageInfo)
    ensures
        !shown_before(x, x),
{
    lemma_before_order(x, x, x);
}


proof fn lemma_skip_keeps_listing(
    r: Seq<ImageInfo>,
    idx: Seq<int>,
    images: Seq<ArmbianImage>,
    j: int,
    keep: spec_fn(ArmbianImage) -> bool,
)
    requires
        0 <= j < images.len(),
        listing(r, idx, images, j, keep),
        !keep(images[j]),
    ensures
        listing(r, idx, images, j + 1, keep),
{
}

#[verifier::rlimit(50)]
proof fn lemma_insert_keeps_listing(
    old_r: Seq<ImageInfo>,
    old_idx: Seq<int>,
    images: Seq<ArmbianImage>,
    j: int,
    keep: spec_fn(ArmbianImage) -> bool,
    p: int,
    x: ImageInfo,
)
    requires
        0 <= j < images.len(),
        listing(old_r, old_idx, images, j, keep),
        keep(images[j]),
        shows(x, images[j]),
        0 <= p <= old_r.len(),
        forall|k: int| 0 <= k < p ==> !shown_before(x, #[trigger] old_r[k]),
        p < old_r.len() ==> shown_before(x, old_r[p]),
    ensures
        listing(old_r.insert(p, x), old_idx.insert(p, j), images, j + 1, keep),
{
    let r = old_r.insert(p, x);
    let idx = old_idx.insert(p, j);
    lemma_before_irreflexive(x);
    assert forall|k: int| 0 <= k < r.len() implies 0 <= #[trigger] idx[k] < j + 1 && keep(
        images[idx[k]],
    ) && shows(r[k], images[idx[k]]) by {
        if k < p {
            assert(idx[k] == old_idx[k]);
        } else if k > p {
            assert(idx[k] == old_idx[k - 1]);
        }
    }
    assert forall|i: int| 0 <= i < j + 1 && keep(#[trigger] images[i]) implies idx.contains(
        i,
    ) by {
        if i < j {
            assert(old_idx.contains(i));
            let k = choose|k: int| 0 <= k < old_idx.len() && old_idx[k] == i;
            if k < p {
                assert(idx[k] == i);
            } else {
                assert(idx[k + 1] == i);
            }
        } else {
            assert(idx[p] == i);
        }
    }
    assert forall|a: int, b: int| 0 <= a < b < r.len() implies #[trigger] idx[a]
        != #[trigger] idx[b] by {
        if a != p && b != p {
            let oa = if a < p { a } else { a - 1 };
            let ob = if b < p { b } else { b - 1 };
            assert(old_idx[oa] != old_idx[ob]);
        } else if a == p {
            assert(old_idx[b - 1] < j);
        } else {
            assert(old_idx[a] < j);
        }
    }
    assert forall|a: int, b: int| 0 <= a < b < r.len() implies !shown_before(
        #[trigger] r[b],
        #[trigger] r[a],
    ) by {
        if a != p && b != p {
            let oa = if a < p { a } else { a - 1 };
            let ob = if b < p { b } else { b - 1 };
            assert(!shown_before(old_r[ob], old_r[oa]));
        } else if a == p {
            let y = old_r[b - 1];
            assert(shown_before(x, old_r[p]));
            if shown_before(y, x) {
                lemma_before_order(y, x, old_r[p]);
                if b - 1 > p {
        assert(!shown_before(old_r[b - 1], old_r[p]));
                }
            }
        } else {
            assert(!shown_before(x, old_r[a]));
        }
    }
    assert forall|a: int, b: int|
        0 <= a < b < r.len() && !shown_before(#[trigger] r[a], #[trigger] r[b]) implies idx[a]
            < idx[b] by {
        if a != p && b != p {
            let oa = if a < p { a } else { a - 1 };
            let ob = if b < p { b } else { b - 1 };
            assert(!shown_before(old_r[oa], old_r[ob]));
            assert(old_idx[oa] < old_idx[ob]);
        } else if a == p {
            let y = old_r[b - 1];
            assert(shown_before(x, old_r[p]));
            if b - 1 > p {
                assert(!shown_before(old_r[b - 1], old_r[p]));
            }
            lemma_before_chain(x, old_r[p], y);
        } else {
            assert(old_idx[a] < j);
        }
    }
}

pub open spec fn opt_text(o: Option<&str>) -> Option<Seq<char>> {
    match o {
        Some(s) => Some(s@),
        None => None,
    }
}

/// `r` lists, as `shows` describes, the records among the first `n` that
/// `keep` accepts, each once (`idx[k]` is the record of `r[k]`), in the board
/// page's order, records that rank equal in the order they came.
pub open spec fn listing(
    r: Seq<ImageInfo>,
    idx: Seq<int>,
    images: Seq<ArmbianImage>,
    n: int,
    keep: spec_fn(ArmbianImage) -> bool,
) -> bool {
    &&& r.len() == idx.len()
    &&& forall|k: int|
        0 <= k < r.len() ==> 0 <= #[trigger] idx[k] < n && keep(images[idx[k]]) && shows(
            r[k],
            images[idx[k]],
        )
    &&& forall|j: int| 0 <= j < n && keep(#[trigger] images[j]) ==> idx.contains(j)
    &&& forall|a: int, b: int| 0 <= a < b < r.len() ==> #[trigger] idx[a] != #[trigger] idx[b]
    &&& forall|a: int, b: int|
        0 <= a < b < r.len() ==> !shown_before(#[trigger] r[b], #[trigger] r[a])
    &&& forall|a: int, b: int|
        0 <= a < b < r.len() && !shown_before(#[trigger] r[a], #[trigger] r[b]) ==> idx[a]
            < idx[b]
}

/// The board page's filters as one test on records.
pub open spec fn board_filter(
    board: Seq<char>,
    preapp: Option<Seq<char>>,
    kernel: Option<Seq<char>>,
    variant: Option<Seq<char>>,
    stable_only: bool,
) -> spec_fn(ArmbianImage) -> bool {
    |img: ArmbianImage| passes(img, board, preapp, kernel, variant, stable_only)
}

fn texts_equal(a: &str, b: &str) -> (r: bool)
    ensures
        r == (a@ == b@),
{
    crate::text::chars_eq(&chars_of(a), &chars_of(b))
}

fn passes_exec(
    img: &ArmbianImage,
    board: &str,
    board_norm: &String,
    preapp: Option<&str>,
    kernel: Option<&str>,
    variant: Option<&str>,
    stable_only: bool,
) -> (r: bool)
    requires
        board_norm@ == slug_of(lower_of(board@)),
    ensures
        r == passes(*img, board@, opt_text(preapp), opt_text(kernel), opt_text(variant), stable_only),
{
    let own = normalize_slug(copy_or_empty(&img.board_slug).as_str());
    if !texts_equal(own.as_str(), board_norm.as_str()) {
        return false;
    }
    if let Some(f) = preapp {
        let p = copy_or_empty(&img.preinstalled_application);
        if texts_equal(f, EMPTY_FILTER) {
            if p.as_str().unicode_len() != 0 {
                return false;
            }
        } else if !texts_equal(p.as_str(), f) {
            return false;
        }
    }
    if stable_only {
        let repo = copy_or_empty(&img.download_repository);
        if !texts_equal(repo.as_str(), STABLE_REPO) {
            return false;
        }
    }
    if let Some(f) = kernel {
        let k = copy_or_empty(&img.kernel_branch);
        if !texts_equal(k.as_str(), f) {
            return false;
        }
    }
    if let Some(f) = variant {
        let v = copy_or_empty(&img.image_variant);
        if !texts_equal(v.as_str(), f) {
            return false;
        }
    }
    true
}

/// The images offered for `board_slug` (compared after normalizing both
/// slugs), narrowed by the optional filters: preinstalled application
/// (`EMPTY_FILTER` asks for none), kernel branch, variant, and the stable
/// repository. Promoted images come first, then newer versions; images that
/// rank equal keep their catalog order.
pub fn filter_images_for_board(
    images: &[ArmbianImage],
    board_slug: &str,
    preapp_filter: Option<&str>,
    kernel_filter: Option<&str>,
    variant_filter: Option<&str>,
    stable_only: bool,
) -> (r: Vec<ImageInfo>)
    ensures
        exists|idx: Seq<int>|
            #[trigger] listing(
                r@,
                idx,
                images@,
                images@.len() as int,
                board_filter(
                    board_slug@,
                    opt_text(preapp_filter),
                    opt_text(kernel_filter),
                    opt_text(variant_filter),
                    stable_only,
                ),
            ),
{
    let ghost keep = board_filter(
        board_slug@,
        opt_text(preapp_filter),
        opt_text(kernel_filter),
        opt_text(variant_filter),
        stable_only,
    );
    let board_norm = normalize_slug(board_slug);
    let mut r: Vec<ImageInfo> = Vec::new();
    let ghost mut idx: Seq<int> = seq![];
    let mut j: usize = 0;
    while j < images.len()
        invariant
            j <= images@.len(),
            board_norm@ == slug_of(lower_of(board_slug@)),
            keep == board_filter(
                board_slug@,
                opt_text(preapp_filter),
                opt_text(kernel_filter),
                opt_text(variant_filter),
                stable_only,
            ),
            listing(r@, idx, images@, j as int, keep),
        decreases images@.len() - j,
    {
        let img = &images[j];
        if passes_exec(img, board_slug, &board_norm, preapp_filter, kernel_filter, variant_filter, stable_only) {
            let x = show(img);
            let mut p: usize = 0;
            while p < r.len() && !before_exec(&x, &r[p])
                invariant
                    p <= r@.len(),
                    forall|k: int| 0 <= k < p ==> !shown_before(x, #[trigger] r@[k]),
                decreases r@.len() - p,
            {
                p += 1;
            }
            let ghost old_r = r@;
            let ghost old_idx = idx;
            r.insert(p, x);
            proof {
                idx = old_idx.insert(p as int, j as int);
                lemma_insert_keeps_listing(old_r, old_idx, images@, j as int, keep, p as int, x);
            }
        } else {
            proof {
                lemma_skip_keeps_listing(r@, idx, images@, j as int, keep);
            }
        }
        j += 1;
    }
    r
}

} // verus!

verus! {

/// Record `j` has a slug, and it normalizes to `key`.
pub open spec fn has_slug_key(img: ArmbianImage, key: Seq<char>) -> bool {
    img.board_slug is Some && slug_key(img) == key
}

/// Some record among the first `n` normalizes to `key`.
pub open spec fn key_seen(images: Seq<ArmbianImage>, n: int, key: Seq<char>) -> bool {
    exists|j: int| 0 <= j < n && #[trigger] has_slug_key(images[j], key)
}

/// How many of the first `n` records normalize to `key`.
pub open spec fn key_count(images: Seq<ArmbianImage>, n: int, key: Seq<char>) -> nat
    decreases n,
{
    if n <= 0 {
        0
    } else {
        key_count(images, n - 1, key) + if has_slug_key(images[n - 1], key) {
            1nat
        } else {
            0nat
        }
    }
}

/// Whether one of the first `n` records that normalize to `key` is promoted.
pub open spec fn key_promoted(images: Seq<ArmbianImage>, n: int, key: Seq<char>) -> bool
    decreases n,
{
    if n <= 0 {
        false
    } else {
        key_promoted(images, n - 1, key) || (has_slug_key(images[n - 1], key) && promoted_flag(
            images[n - 1].promoted,
        ))
    }
}

/// The first of the first `n` records that normalizes to `key`; -1 if none.
pub open spec fn key_first(images: Seq<ArmbianImage>, n: int, key: Seq<char>) -> int
    decreases n,
{
    if n <= 0 {
        -1
    } else if key_first(images, n - 1, key) >= 0 {
        key_first(images, n - 1, key)
    } else if has_slug_key(images[n - 1], key) {
        n - 1
    } else {
        -1
    }
}

/// A board's display name: the record's board name, else its slug.
pub open spec fn display_name(img: ArmbianImage) -> Seq<char> {
    match img.board_name {
        Some(n) => n@,
        None => text_or_empty(img.board_slug),
    }
}

/// `b` is the board that the first `n` records give for its slug.
pub open spec fn board_ok(b: BoardInfo, images: Seq<ArmbianImage>, n: int) -> bool {
    &&& key_seen(images, n, b.slug@)
    &&& b.image_count == key_count(images, n, b.slug@)
    &&& b.has_promoted == key_promoted(images, n, b.slug@)
    &&& b.name@ == display_name(images[key_first(images, n, b.slug@)])
}

/// `r` is the board list of the first `n` records: one board per slug (after
/// normalizing), ordered by lower-cased name.
pub open spec fn board_list(r: Seq<BoardInfo>, images: Seq<ArmbianImage>, n: int) -> bool {
    &&& forall|k: int| 0 <= k < r.len() ==> board_ok(#[trigger] r[k], images, n)
    &&& forall|key: Seq<char>|
        #[trigger] key_seen(images, n, key) ==> exists|k: int| 0 <= k < r.len() && #[trigger] r[k].slug@ == key
    &&& forall|a: int, b: int| 0 <= a < b < r.len() ==> #[trigger] r[a].slug@ != #[trigger] r[b].slug@
    &&& forall|a: int, b: int|
        0 <= a < b < r.len() ==> !lex_lt(lower_of(#[trigger] r[b].name@), lower_of(#[trigger] r[a].name@))
}

struct BoardRow {
    info: BoardInfo,
    low: Vec<char>,
}

proof fn lemma_key_first_range(images: Seq<ArmbianImage>, n: int, key: Seq<char>)
    requires
        0 <= n <= images.len(),
    ensures
        key_first(images, n, key) >= 0 <==> key_seen(images, n, key),
        key_first(images, n, key) >= 0 ==> key_first(images, n, key) < n && has_slug_key(
            images[key_first(images, n, key)],
            key,
        ),
        !key_seen(images, n, key) ==> key_count(images, n, key) == 0 && !key_promoted(images, n, key),
    decreases n,
{
    if n > 0 {
        lemma_key_first_range(images, n - 1, key);
        if key_seen(images, n, key) && !key_seen(images, n - 1, key) {
            let j = choose|j: int| 0 <= j < n && #[trigger] has_slug_key(images[j], key);
            assert(j == n - 1);
        }
        if key_seen(images, n - 1, key) {
            let j = choose|j: int| 0 <= j < n - 1 && #[trigger] has_slug_key(images[j], key);
            assert(has_slug_key(images[j], key));
        }
        if has_slug_key(images[n - 1], key) {
            assert(key_seen(images, n, key));
        }
    }
}

} // verus!

verus! {

spec fn infos(rows: Seq<BoardRow>) -> Seq<BoardInfo> {
    rows.map_values(|w: BoardRow| w.info)
}

spec fn rows_ok(rows: Seq<BoardRow>) -> bool {
    forall|k: int| 0 <= k < rows.len() ==> (#[trigger] rows[k]).low@ == lower_of(rows[k].info.name@)
}

proof fn lemma_key_count_bound(images: Seq<ArmbianImage>, n: int, key: Seq<char>)
    requires
        0 <= n,
    ensures
        key_count(images, n, key) <= n,
    decreases n,
{
    if n > 0 {
        lemma_key_count_bound(images, n - 1, key);
    }
}

proof fn lemma_skip_board(r: Seq<BoardInfo>, images: Seq<ArmbianImage>, j: int)
    requires
        0 <= j < images.len(),
        board_list(r, images, j),
        images[j].board_slug is None,
    ensures
        board_list(r, images, j + 1),
{
    assert forall|key: Seq<char>| #[trigger] key_seen(images, j + 1, key) implies exists|k: int|
        0 <= k < r.len() && #[trigger] r[k].slug@ == key by {
        let i = choose|i: int| 0 <= i < j + 1 && #[trigger] has_slug_key(images[i], key);
        assert(i < j);
        assert(key_seen(images, j, key));
    }
    assert forall|k: int| 0 <= k < r.len() implies board_ok(#[trigger] r[k], images, j + 1) by {
        assert(board_ok(r[k], images, j));
        let i = choose|i: int| 0 <= i < j && #[trigger] has_slug_key(images[i], r[k].slug@);
        assert(has_slug_key(images[i], r[k].slug@));
    }
}

#[verifier::rlimit(50)]
proof fn lemma_bump_board(r: Seq<BoardInfo>, images: Seq<ArmbianImage>, j: int, k: int, b: BoardInfo)
    requires
        0 <= j < images.len(),
        board_list(r, images, j),
        images[j].board_slug is Some,
        0 <= k < r.len(),
        r[k].slug@ == slug_key(images[j]),
        b.slug@ == r[k].slug@,
        b.name@ == r[k].name@,
        b.image_count == r[k].image_count + 1,
        b.has_promoted == (r[k].has_promoted || promoted_flag(images[j].promoted)),
    ensures
        board_list(r.update(k, b), images, j + 1),
{
    let key = slug_key(images[j]);
    let r2 = r.update(k, b);
    assert(has_slug_key(images[j], key));
    lemma_key_first_range(images, j, key);
    assert(board_ok(r[k], images, j));
    assert forall|m: int| 0 <= m < r2.len() implies board_ok(#[trigger] r2[m], images, j + 1) by {
        assert(board_ok(r[m], images, j));
        let i = choose|i: int| 0 <= i < j && #[trigger] has_slug_key(images[i], r[m].slug@);
        assert(has_slug_key(images[i], r[m].slug@));
        lemma_key_first_range(images, j, r[m].slug@);
        if m != k {
            assert(r[m].slug@ != r[k].slug@);
        }
    }
    assert forall|key2: Seq<char>| #[trigger] key_seen(images, j + 1, key2) implies exists|m: int|
        0 <= m < r2.len() && #[trigger] r2[m].slug@ == key2 by {
        let i = choose|i: int| 0 <= i < j + 1 && #[trigger] has_slug_key(images[i], key2);
        if i < j {
            assert(key_seen(images, j, key2));
            let m = choose|m: int| 0 <= m < r.len() && #[trigger] r[m].slug@ == key2;
            assert(r2[m].slug@ == key2);
        } else {
            assert(r2[k].slug@ == key2);
        }
    }
    assert forall|a: int, c: int| 0 <= a < c < r2.len() implies #[trigger] r2[a].slug@
        != #[trigger] r2[c].slug@ by {
        assert(r[a].slug@ != r[c].slug@);
    }
    assert forall|a: int, c: int| 0 <= a < c < r2.len() implies !lex_lt(
        lower_of(#[trigger] r2[c].name@),
        lower_of(#[trigger] r2[a].name@),
    ) by {
        assert(!lex_lt(lower_of(r[c].name@), lower_of(r[a].name@)));
    }
}

#[verifier::rlimit(80)]
proof fn lemma_new_board(r: Seq<BoardInfo>, images: Seq<ArmbianImage>, j: int, p: int, b: BoardInfo)
    requires
        0 <= j < images.len(),
        board_list(r, images, j),
        images[j].board_slug is Some,
        forall|k: int| 0 <= k < r.len() ==> (#[trigger] r[k]).slug@ != slug_key(images[j]),
        b.slug@ == slug_key(images[j]),
        b.name@ == display_name(images[j]),
        b.image_count == 1,
        b.has_promoted == promoted_flag(images[j].promoted),
        0 <= p <= r.len(),
        forall|k: int| 0 <= k < p ==> !lex_lt(lower_of(b.name@), lower_of(#[trigger] r[k].name@)),
        p < r.len() ==> lex_lt(lower_of(b.name@), lower_of(r[p].name@)),
    ensures
        board_list(r.insert(p, b), images, j + 1),
{
    let key = slug_key(images[j]);
    let r2 = r.insert(p, b);
    assert(has_slug_key(images[j], key));
    lemma_key_first_range(images, j, key);
    if key_seen(images, j, key) {
        let m = choose|m: int| 0 <= m < r.len() && #[trigger] r[m].slug@ == key;
        assert(r[m].slug@ != key);
    }
    assert(key_first(images, j + 1, key) == j);
    assert forall|m: int| 0 <= m < r2.len() implies board_ok(#[trigger] r2[m], images, j + 1) by {
        if m != p {
            let om = if m < p { m } else { m - 1 };
            assert(r2[m] == r[om]);
            assert(board_ok(r[om], images, j));
            let i = choose|i: int| 0 <= i < j && #[trigger] has_slug_key(images[i], r[om].slug@);
            assert(has_slug_key(images[i], r[om].slug@));
            lemma_key_first_range(images, j, r[om].slug@);
            assert(r[om].slug@ != key);
        } else {
            assert(has_slug_key(images[j], r2[m].slug@));
        }
    }
    assert forall|key2: Seq<char>| #[trigger] key_seen(images, j + 1, key2) implies exists|m: int|
        0 <= m < r2.len() && #[trigger] r2[m].slug@ == key2 by {
        let i = choose|i: int| 0 <= i < j + 1 && #[trigger] has_slug_key(images[i], key2);
        if i < j {
            assert(key_seen(images, j, key2));
            let m = choose|m: int| 0 <= m < r.len() && #[trigger] r[m].slug@ == key2;
            if m < p {
                assert(r2[m].slug@ == key2);
            } else {
                assert(r2[m + 1].slug@ == key2);
            }
        } else {
            assert(r2[p].slug@ == key2);
        }
    }
    assert forall|a: int, c: int| 0 <= a < c < r2.len() implies #[trigger] r2[a].slug@
        != #[trigger] r2[c].slug@ by {
        if a != p && c != p {
            let oa = if a < p { a } else { a - 1 };
            let oc = if c < p { c } else { c - 1 };
            assert(r[oa].slug@ != r[oc].slug@);
        } else if a == p {
            assert(r[c - 1].slug@ != key);
        } else {
            assert(r[a].slug@ != key);
        }
    }
    assert forall|a: int, c: int| 0 <= a < c < r2.len() implies !lex_lt(
        lower_of(#[trigger] r2[c].name@),
        lower_of(#[trigger] r2[a].name@),
    ) by {
        if a != p && c != p {
            let oa = if a < p { a } else { a - 1 };
            let oc = if c < p { c } else { c - 1 };
            assert(!lex_lt(lower_of(r[oc].name@), lower_of(r[oa].name@)));
        } else if a == p {
            let y = lower_of(r[c - 1].name@);
            let x = lower_of(b.name@);
            let z = lower_of(r[p].name@);
            if lex_lt(y, x) {
                lemma_lex_transitive(y, x, z);
                if c - 1 > p {
                    assert(!lex_lt(lower_of(r[c - 1].name@), lower_of(r[p].name@)));
                } else {
                    lemma_lex_asymmetric(y, z);
                }
            }
        } else {
            assert(!lex_lt(lower_of(b.name@), lower_of(r[a].name@)));
        }
    }
}

} // verus!

verus! {

fn display_name_exec(img: &ArmbianImage) -> (r: String)
    ensures
        r@ == display_name(*img),
{
    match &img.board_name {
        Some(n) => n.clone(),
        None => copy_or_empty(&img.board_slug),
    }
}

/// The boards of the catalog: one per slug after normalizing, with how many
/// records it has, whether one is promoted, and the name (else the slug) of
/// its first record; ordered by lower-cased name.
pub fn get_unique_boards(images: &[ArmbianImage]) -> (r: Vec<BoardInfo>)
    ensures
        board_list(r@, images@, images@.len() as int),
{
    let mut rows: Vec<BoardRow> = Vec::new();
    let mut j: usize = 0;
    while j < images.len()
        invariant
            j <= images@.len(),
            board_list(infos(rows@), images@, j as int),
            rows_ok(rows@),
        decreases images@.len() - j,
    {
        let img = &images[j];
        let ghost r0 = infos(rows@);
        match &img.board_slug {
            None => {
                proof {
                    lemma_skip_board(r0, images@, j as int);
                }
            },
            Some(s) => {
                let key = normalize_slug(s.as_str());
                let mut k: usize = 0;
                while k < rows.len() && rows[k].info.slug != key
                    invariant
                        k <= rows@.len(),
                        forall|m: int| 0 <= m < k ==> (#[trigger] rows@[m]).info.slug@ != key@,
                    decreases rows@.len() - k,
                {
                    k += 1;
                }
                let promoted = is_promoted(&img.promoted);
                if k < rows.len() {
                    proof {
                        assert(r0[k as int] == rows@[k as int].info);
                        assert(board_ok(r0[k as int], images@, j as int));
                        lemma_key_count_bound(images@, j as int, key@);
                    }
                    let mut row = rows.remove(k);
                    row.info.image_count = row.info.image_count + 1;
                    if promoted {
                        row.info.has_promoted = true;
                    }
                    let ghost b = row.info;
                    rows.insert(k, row);
                    proof {
                        lemma_bump_board(r0, images@, j as int, k as int, b);
                        assert(infos(rows@) =~= r0.update(k as int, b));
                    }
                } else {
                    let name = display_name_exec(img);
                    let lowered = lowercase(name.as_str());
                    let low = chars_of(lowered.as_str());
                    let mut p: usize = 0;
                    while p < rows.len() && !chars_lt(&low, &rows[p].low)
                        invariant
                            p <= rows@.len(),
                            rows_ok(rows@),
                            low@ == lower_of(name@),
                            forall|m: int|
                                0 <= m < p ==> !lex_lt(low@, lower_of(#[trigger] rows@[m].info.name@)),
                        decreases rows@.len() - p,
                    {
                        assert(rows@[p as int].low@ == lower_of(rows@[p as int].info.name@));
                        p += 1;
                    }
                    proof {
                        if p < rows@.len() {
                            assert(rows@[p as int].low@ == lower_of(rows@[p as int].info.name@));
                        }
                    }
                    let info = BoardInfo {
                        slug: key,
                        name,
                        image_count: 1,
                        has_promoted: promoted,
                    };
                    let ghost b = info;
                    let ghost old_rows = rows@;
                    rows.insert(p, BoardRow { info, low });
                    proof {
                        lemma_new_board(r0, images@, j as int, p as int, b);
                        assert(infos(rows@) =~= r0.insert(p as int, b));
                        assert forall|m: int| 0 <= m < rows@.len() implies (#[trigger] rows@[m]).low@
                            == lower_of(rows@[m].info.name@) by {
                            if m < p {
                                assert(rows@[m] == old_rows[m]);
                            } else if m > p {
                                assert(rows@[m] == old_rows[m - 1]);
                            }
                        }
                    }
                }
            },
        }
        j += 1;
    }
    let ghost all = infos(rows@);
    let mut out: Vec<BoardInfo> = Vec::new();
    while rows.len() > 0
        invariant
            out@ + infos(rows@) == all,
        decreases rows@.len(),
    {
        let ghost old_rows = rows@;
        let w = rows.remove(0);
        let ghost before = out@;
        assert(infos(old_rows) =~= seq![w.info] + infos(rows@));
        out.push(w.info);
        assert(out@ + infos(rows@) =~= before + infos(old_rows));
    }
    assert(out@ =~= all);
    out
}

} // verus!

//! Expected digests published by the release host, by file name, and the
//! populate-once cache that holds them for the life of the process.
use vstd::prelude::*;
use crate::download::check_sha_token;
use crate::path::file_name_of;
use crate::text::{chars_of, chars_start_with, lower_of, lowercase, sha_hex, string_from};

verus! {

/// One published digest.
pub struct DigestEntry {
    pub name: String,
    pub hash: String,
}

/// The digest recorded last for `name` among the first `n` entries.
pub open spec fn lookup_in(t: Seq<DigestEntry>, n: int, name: Seq<char>) -> Option<Seq<char>>
    decreases n,
{
    if n <= 0 || n > t.len() {
        None
    } else if t[n - 1].name@ == name {
        Some(t[n - 1].hash@)
    } else {
        lookup_in(t, n - 1, name)
    }
}

pub open spec fn lookup(t: Seq<DigestEntry>, name: Seq<char>) -> Option<Seq<char>> {
    lookup_in(t, t.len() as int, name)
}

/// Looks up the digest recorded last for `name`.
pub fn find_digest(t: &Vec<DigestEntry>, name: &str) -> (r: Option<String>)
    ensures
        r is Some <==> lookup(t@, name@) is Some,
        r matches Some(h) ==> lookup(t@, name@) == Some(h@),
{
    let mut n: usize = t.len();
    let key = String::from_str(name);
    while n > 0
        invariant
            n <= t@.len(),
            key@ == name@,
            lookup(t@, name@) == lookup_in(t@, n as int, name@),
        decreases n,
    {
        if t[n - 1].name == key {
            return Some(t[n - 1].hash.clone());
        }
        n -= 1;
    }
    None
}

pub open spec fn sha_prefix() -> Seq<char> {
    seq!['s', 'h', 'a', '2', '5', '6', ':']
}

/// A published digest field without its `sha256:` prefix.
pub open spec fn digest_body(d: Seq<char>) -> Seq<char> {
    if crate::text::starts_with(d, sha_prefix()) {
        d.subrange(7, d.len() as int)
    } else {
        d
    }
}

/// The digest table from the release's assets, each a name and a digest
/// field: an asset with both, whose digest (without `sha256:`, lower-cased)
/// is 64 hex digits, is recorded; a later asset of the same name wins.
pub open spec fn table_of(assets: Seq<(Option<String>, Option<String>)>, n: int) -> Seq<(Seq<char>, Seq<char>)>
    decreases n,
{
    if n <= 0 || n > assets.len() {
        seq![]
    } else {
        let prev = table_of(assets, n - 1);
        match assets[n - 1] {
            (Some(name), Some(d)) => if sha_hex(lower_of(digest_body(d@))) {
                prev.push((name@, lower_of(digest_body(d@))))
            } else {
                prev
            },
            _ => prev,
        }
    }
}

pub open spec fn entries_view(t: Seq<DigestEntry>) -> Seq<(Seq<char>, Seq<char>)> {
    t.map_values(|e: DigestEntry| (e.name@, e.hash@))
}

/// Builds the digest table from the release's assets (name, digest field).
pub fn digests_from_assets(assets: &Vec<(Option<String>, Option<String>)>) -> (r: Vec<DigestEntry>)
    ensures
        entries_view(r@) == table_of(assets@, assets@.len() as int),
{
    let mut r: Vec<DigestEntry> = Vec::new();
    let prefix = vec!['s', 'h', 'a', '2', '5', '6', ':'];
    assert(prefix@ =~= sha_prefix());
    let mut i: usize = 0;
    while i < assets.len()
        invariant
            prefix@ == sha_prefix(),
            i <= assets@.len(),
            entries_view(r@) == table_of(assets@, i as int),
        decreases assets@.len() - i,
    {
        match &assets[i] {
            (Some(name), Some(d)) => {
                let cs = chars_of(d.as_str());
                let body = if chars_start_with(&cs, &prefix) {
                    string_from(&cs, 7, cs.len())
                } else {
                    string_from(&cs, 0, cs.len())
                };
                proof {
                    assert(cs@.subrange(0, cs@.len() as int) =~= cs@);
                }
                let lowered = lowercase(body.as_str());
                match check_sha_token(lowered.as_str()) {
                    Ok(h) => {
                        let ghost before = r@;
                        r.push(DigestEntry { name: name.clone(), hash: h });
                        assert(entries_view(r@) =~= entries_view(before).push(
                            (name@, lower_of(digest_body(d@))),
                        ));
                    },
                    Err(_) => {},
                }
            },
            _ => {},
        }
        i += 1;
    }
    r
}

/// The digest for `filename`: recorded under that name, or else under its
/// last `/`-separated component.
pub open spec fn digest_for(t: Seq<DigestEntry>, filename: Seq<char>) -> Option<Seq<char>> {
    match lookup(t, filename) {
        Some(h) => Some(h),
        None => lookup(t, file_name_of(filename)),
    }
}

/// Looks up the digest for a file name, then for its last path component.
pub fn digest_for_file(t: &Vec<DigestEntry>, filename: &str) -> (r: Option<String>)
    ensures
        r is Some <==> digest_for(t@, filename@) is Some,
        r matches Some(h) ==> digest_for(t@, filename@) == Some(h@),
{
    match find_digest(t, filename) {
        Some(h) => Some(h),
        None => {
            let base = crate::path::file_name(filename);
            let b = crate::text::string_of(&base);
            find_digest(t, b.as_str())
        },
    }
}

/// The process-wide digest cache: empty until populated once, then reused
/// until cleared.
pub struct DigestCache {
    pub table: Option<Vec<DigestEntry>>,
}

impl DigestCache {
    pub fn new() -> (r: DigestCache)
        ensures
            r.table is None,
    {
        DigestCache { table: None }
    }

    /// Whether the table has been fetched.
    pub fn is_populated(&self) -> (r: bool)
        ensures
            r == self.table is Some,
    {
        self.table.is_some()
    }

    /// Stores a fetched table unless another one got there first; the first
    /// table stored is the one kept.
    pub fn populate(&mut self, t: Vec<DigestEntry>)
        ensures
            old(self).table is Some ==> final(self).table == old(self).table,
            old(self).table is None ==> final(self).table == Some(t),
    {
        if self.table.is_none() {
            self.table = Some(t);
        }
    }

    /// The digest for a file name, once the table is there.
    pub fn digest_for_file(&self, filename: &str) -> (r: Option<String>)
        ensures
            self.table is None ==> r is None,
            self.table matches Some(t) ==> (r is Some <==> digest_for(t@, filename@) is Some),
            self.table matches Some(t) ==> (r matches Some(h) ==> digest_for(t@, filename@) == Some(h@)),
    {
        match &self.table {
            Some(t) => digest_for_file(t, filename),
            None => None,
        }
    }
}

/// Empties the digest cache, so the next lookup fetches the table again.
pub fn clear_digest_cache(cache: &mut DigestCache)
    ensures
        final(cache).table is None,
{
    cache.table = None;
}

} // verus!

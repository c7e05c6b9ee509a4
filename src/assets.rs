//! Static assets served before any item: a table of files by path, and the
//! content type each is sent with.
use vstd::prelude::*;
use vstd::string::*;

use crate::names::{last_index_of, lemma_last_index_bounds};
use crate::phrase::words_view;
use crate::types::opt_view;

verus! {

/// The first media type that mime_guess gives for an extension, if any.
pub uninterp spec fn mime_of(ext: Seq<char>) -> Option<Seq<char>>;

/// Relies on mime_guess's `from_ext(..).first_raw()`, a lookup in its fixed
/// table; an empty extension has no entry.
#[verifier::external_body]
fn mime_for_extension(ext: &str) -> (r: Option<String>)
    ensures
        opt_view(r) == mime_of(ext@),
        ext@.len() == 0 ==> r is None,
{
    mime_guess::from_ext(ext).first_raw().map(String::from)
}

/// The extension of a path: what follows the last `.` of the part after the
/// last `/`, unless that `.` is the part's first character. (Unlike std's
/// `Path::extension`, a path ending in `/` has an empty last part here.)
pub open spec fn path_extension(path: Seq<char>) -> Option<Seq<char>> {
    let s = last_index_of(path, '/');
    let name = path.subrange(s + 1, path.len() as int);
    let j = last_index_of(name, '.');
    if j > 0 {
        Some(name.subrange(j + 1, name.len() as int))
    } else {
        None
    }
}

/// The content type of a static asset: what mime_guess gives for its
/// extension, else `application/octet-stream`.
pub open spec fn content_type_of(path: Seq<char>) -> Seq<char> {
    match path_extension(path) {
        Some(e) => match mime_of(e) {
            Some(m) => m,
            None => "application/octet-stream"@,
        },
        None => "application/octet-stream"@,
    }
}

/// The content type a static asset is sent with.
pub fn content_type_for(path: &str) -> (r: String)
    ensures
        r@ == content_type_of(path@),
{
    let n = path.unicode_len();
    proof {
        lemma_last_index_bounds(path@, '/');
    }
    let mut start: usize = 0;
    let mut i: usize = 0;
    while i < n
        invariant
            n == path@.len(),
            0 <= start <= i <= n,
            start as int == last_index_of(path@.subrange(0, i as int), '/') + 1,
        decreases n - i,
    {
        assert(path@.subrange(0, i + 1).drop_last() =~= path@.subrange(0, i as int));
        if path.get_char(i) == '/' {
            start = i + 1;
        }
        i += 1;
    }
    assert(path@.subrange(0, n as int) =~= path@);
    let name = path.substring_char(start, n);
    let m = name.unicode_len();
    let mut dot: usize = 0;
    let mut k: usize = 0;
    while k < m
        invariant
            m == name@.len(),
            0 <= k <= m,
            dot <= k,
            dot as int == last_index_of(name@.subrange(0, k as int), '.') + 1,
        decreases m - k,
    {
        assert(name@.subrange(0, k + 1).drop_last() =~= name@.subrange(0, k as int));
        if name.get_char(k) == '.' {
            dot = k + 1;
        }
        k += 1;
    }
    assert(name@.subrange(0, m as int) =~= name@);
    if dot > 1 {
        let ext = name.substring_char(dot, m);
        match mime_for_extension(ext) {
            Some(t) => t,
            None => String::from_str("application/octet-stream"),
        }
    } else {
        String::from_str("application/octet-stream")
    }
}

/// A table of files by path, such as the stylesheets and scripts of the
/// pages, in order of insertion.
pub struct AssetTable {
    entries: Vec<(String, Vec<u8>)>,
}

/// The content of the first entry under `name`, if any.
pub open spec fn lookup_in(entries: Seq<(Seq<char>, Seq<u8>)>, name: Seq<char>) -> Option<Seq<u8>>
    decreases entries.len(),
{
    if entries.len() == 0 {
        None
    } else {
        match lookup_in(entries.drop_last(), name) {
            Some(c) => Some(c),
            None => if entries.last().0 == name {
                Some(entries.last().1)
            } else {
                None
            },
        }
    }
}

/// The paths of entries, in order.
pub open spec fn entry_paths(entries: Seq<(Seq<char>, Seq<u8>)>) -> Seq<Seq<char>> {
    entries.map_values(|e: (Seq<char>, Seq<u8>)| e.0)
}

/// Once a prefix has an entry under `name`, the whole finds that one.
proof fn lemma_lookup_prefix(entries: Seq<(Seq<char>, Seq<u8>)>, name: Seq<char>, k: int)
    requires
        0 <= k <= entries.len(),
        lookup_in(entries.subrange(0, k), name) is Some,
    ensures
        lookup_in(entries, name) == lookup_in(entries.subrange(0, k), name),
    decreases entries.len() - k,
{
    if k < entries.len() {
        assert(entries.subrange(0, k + 1).drop_last() =~= entries.subrange(0, k));
        lemma_lookup_prefix(entries, name, k + 1);
    } else {
        assert(entries.subrange(0, k) =~= entries);
    }
}

impl AssetTable {
    /// The paths and contents, in order of insertion.
    pub closed spec fn entries(&self) -> Seq<(Seq<char>, Seq<u8>)> {
        self.entries@.map_values(|e: (String, Vec<u8>)| (e.0@, e.1@))
    }

    /// The content under `name`, if any.
    pub open spec fn lookup(&self, name: Seq<char>) -> Option<Seq<u8>> {
        lookup_in(self.entries(), name)
    }

    /// An empty table.
    pub fn new() -> (r: AssetTable)
        ensures
            r.entries().len() == 0,
    {
        let r = AssetTable { entries: Vec::new() };
        assert(r.entries() =~= Seq::empty());
        r
    }

    /// Adds a file under `name`, unless the table has one there already.
    pub fn insert(&mut self, name: String, content: Vec<u8>) -> (r: bool)
        ensures
            r == old(self).lookup(name@) is None,
            final(self).entries() == if r {
                old(self).entries().push((name@, content@))
            } else {
                old(self).entries()
            },
    {
        let ghost nv = name@;
        let ghost cv = content@;
        if get_file(self, name.as_str()).is_some() {
            return false;
        }
        let ghost before = self.entries();
        self.entries.push((name, content));
        assert(self.entries() =~= before.push((nv, cv)));
        true
    }
}

/// Returns the contents of a file from the given table.
pub fn get_file<'a>(table: &'a AssetTable, name: &str) -> (r: Option<&'a Vec<u8>>)
    ensures
        match r {
            Some(c) => table.lookup(name@) == Some(c@),
            None => table.lookup(name@) is None,
        },
{
    let ghost es = table.entries();
    let mut i: usize = 0;
    assert(es.subrange(0, 0).len() == 0);
    while i < table.entries.len()
        invariant
            0 <= i <= table.entries@.len(),
            es == table.entries(),
            lookup_in(es.subrange(0, i as int), name@) is None,
        decreases table.entries@.len() - i,
    {
        assert(es.subrange(0, i + 1).drop_last() =~= es.subrange(0, i as int));
        assert(es[i as int] == (table.entries@[i as int].0@, table.entries@[i as int].1@));
        if crate::names::str_equal(table.entries[i].0.as_str(), name) {
            proof {
                lemma_lookup_prefix(es, name@, i + 1);
            }
            return Some(&table.entries[i].1);
        }
        i += 1;
    }
    assert(es.subrange(0, i as int) =~= es);
    None
}

/// Returns the paths of the files in the given table, in order of insertion.
pub fn list_files(table: &AssetTable) -> (r: Vec<String>)
    ensures
        words_view(r@) == entry_paths(table.entries()),
{
    let ghost es = table.entries();
    let mut r: Vec<String> = Vec::new();
    let mut i: usize = 0;
    assert(words_view(r@) =~= entry_paths(es.subrange(0, 0)));
    while i < table.entries.len()
        invariant
            0 <= i <= table.entries@.len(),
            es == table.entries(),
            words_view(r@) == entry_paths(es.subrange(0, i as int)),
        decreases table.entries@.len() - i,
    {
        let ghost before = r@;
        let path = table.entries[i].0.clone();
        assert(es[i as int].0 == table.entries@[i as int].0@);
        r.push(path);
        assert(words_view(r@) =~= words_view(before).push(path@));
        assert(entry_paths(es.subrange(0, i + 1)) =~= entry_paths(es.subrange(0, i as int)).push(
            es[i as int].0,
        ));
        i += 1;
    }
    assert(es.subrange(0, i as int) =~= es);
    r
}

/// A static asset for `path`, with the content type it is sent with; `None`
/// when the table has no such file.
pub fn get_static_file<'a>(table: &'a AssetTable, path: &str) -> (r: Option<(&'a Vec<u8>, String)>)
    ensures
        match r {
            Some((c, t)) => table.lookup(path@) == Some(c@) && t@ == content_type_of(path@),
            None => table.lookup(path@) is None,
        },
{
    match get_file(table, path) {
        Some(c) => Some((c, content_type_for(path))),
        None => None,
    }
}

} // verus!

//! The management view: which directory entries are records, and the list
//! of items, newest first.
use vstd::prelude::*;
use vstd::string::*;
use vstd::multiset::Multiset;
use vstd::seq_lib::group_to_multiset_ensures;

use crate::names::{find_first, first_index_of, lemma_first_index_bounds};
use crate::types::{FileMetadata, MetaView};

verus! {

broadcast use group_to_multiset_ensures;

/// `p` is a suffix of `s`.
pub open spec fn is_suffix(p: Seq<char>, s: Seq<char>) -> bool {
    p.len() <= s.len() && s.subrange(s.len() - p.len(), s.len() as int) == p
}

/// The id whose record a directory entry holds: the entry's name up to its
/// first `.`, for names that end in `.info.json`.
pub open spec fn listed_id(file_name: Seq<char>) -> Option<Seq<char>> {
    let i = first_index_of(file_name, '.');
    if is_suffix(".info.json"@, file_name) && i >= 0 {
        Some(file_name.subrange(0, i))
    } else {
        None
    }
}

/// Whether `s` ends with `p`.
pub fn ends_with(s: &str, p: &str) -> (r: bool)
    ensures
        r == is_suffix(p@, s@),
{
    let n = s.unicode_len();
    let m = p.unicode_len();
    if m > n {
        return false;
    }
    let off = n - m;
    let mut i: usize = 0;
    while i < m
        invariant
            n == s@.len(),
            m == p@.len(),
            off == n - m,
            0 <= i <= m,
            forall|k: int| 0 <= k < i ==> s@[off + k] == p@[k],
        decreases m - i,
    {
        if s.get_char(off + i) != p.get_char(i) {
            assert(s@.subrange(off as int, n as int)[i as int] != p@[i as int]);
            return false;
        }
        i += 1;
    }
    assert(s@.subrange(off as int, n as int) =~= p@);
    true
}

/// The id whose record the directory entry `file_name` holds, if any.
pub fn record_id_of(file_name: &str) -> (r: Option<String>)
    ensures
        match r {
            Some(id) => listed_id(file_name@) == Some(id@),
            None => listed_id(file_name@) is None,
        },
{
    if !ends_with(file_name, ".info.json") {
        return None;
    }
    proof {
        lemma_first_index_bounds(file_name@, '.');
    }
    match find_first(file_name, '.') {
        Some(i) => Some(String::from_str(file_name.substring_char(0, i))),
        None => None,
    }
}

/// One item of the management list.
pub struct ManageMetadata {
    pub name: String,
    pub meta: FileMetadata,
}

/// The items of the management list.
pub struct FileListing {
    pub files: Vec<ManageMetadata>,
}

/// What the management page shows besides the list.
pub struct FileViewerState {
    pub username: String,
}

/// The items of a list, as values.
pub open spec fn listing_view(s: Seq<ManageMetadata>) -> Seq<(Seq<char>, MetaView)> {
    s.map_values(|e: ManageMetadata| (e.name@, e.meta@))
}

/// Newer items come first.
pub open spec fn newest_first(s: Seq<ManageMetadata>) -> bool {
    forall|i: int, j: int|
        0 <= i < j < s.len() ==> (#[trigger] s[i]).meta.date.timestamp >= (
        #[trigger] s[j]).meta.date.timestamp
}

/// The same items, newest first.
pub fn sort_newest_first(files: Vec<ManageMetadata>) -> (r: Vec<ManageMetadata>)
    ensures
        listing_view(r@).to_multiset() == listing_view(files@).to_multiset(),
        newest_first(r@),
{
    let ghost all = listing_view(files@).to_multiset();
    let mut rest = files;
    let mut out: Vec<ManageMetadata> = Vec::new();
    assert(listing_view(out@) =~= Seq::empty());
    assert(listing_view(out@).to_multiset() =~= Multiset::empty());
    while rest.len() > 0
        invariant
            listing_view(out@).to_multiset().add(listing_view(rest@).to_multiset()) == all,
            newest_first(out@),
            forall|a: int, b: int|
                0 <= a < out@.len() && 0 <= b < rest@.len() ==> (#[trigger] out@[a]).meta.date.timestamp
                    >= (#[trigger] rest@[b]).meta.date.timestamp,
        decreases rest@.len(),
    {
        let mut m: usize = 0;
        let mut k: usize = 1;
        while k < rest.len()
            invariant
                0 <= m < k <= rest@.len(),
                forall|t: int|
                    0 <= t < k ==> (#[trigger] rest@[t]).meta.date.timestamp
                        <= rest@[m as int].meta.date.timestamp,
            decreases rest@.len() - k,
        {
            if rest[k].meta.date.timestamp > rest[m].meta.date.timestamp {
                m = k;
            }
            k += 1;
        }
        let ghost old_rest = rest@;
        let ghost old_out = out@;
        let x = rest.remove(m);
        let ghost xv = (x.name@, x.meta@);
        out.push(x);
        proof {
            assert(listing_view(rest@) =~= listing_view(old_rest).remove(m as int));
            assert(listing_view(old_rest)[m as int] == xv);
            assert(listing_view(out@) =~= listing_view(old_out).push(xv));
            let lr = listing_view(old_rest);
            assert(lr.remove(m as int).to_multiset() == lr.to_multiset().remove(lr[m as int]));
            assert(lr.to_multiset().count(xv) > 0) by {
                assert(lr.contains(xv)) by {
                    assert(lr[m as int] == xv);
                }
            }
            assert(listing_view(out@).to_multiset().add(listing_view(rest@).to_multiset()) =~= all);
            assert forall|a: int, b: int|
                0 <= a < out@.len() && 0 <= b < rest@.len() implies (#[trigger] out@[a]).meta.date.timestamp
                >= (#[trigger] rest@[b]).meta.date.timestamp by {
                if b < m {
                    assert(rest@[b] == old_rest[b]);
                } else {
                    assert(rest@[b] == old_rest[b + 1]);
                }
                if a < old_out.len() {
                    assert(out@[a] == old_out[a]);
                }
            }
            assert forall|i: int, j: int| 0 <= i < j < out@.len() implies (#[trigger] out@[i]).meta.date.timestamp
                >= (#[trigger] out@[j]).meta.date.timestamp by {
                assert(out@[i] == old_out[i]);
                if j < old_out.len() {
                    assert(out@[j] == old_out[j]);
                } else {
                    assert(out@[j] == old_rest[m as int]);
                }
            }
        }
    }
    assert(listing_view(rest@) =~= Seq::empty());
    assert(listing_view(rest@).to_multiset() =~= Multiset::empty());
    assert(listing_view(out@).to_multiset() =~= all);
    out
}

} // verus!

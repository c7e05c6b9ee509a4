//! Rules on the names of items, blobs and record files.
use vstd::prelude::*;
use vstd::string::*;

verus! {

/// Characters that an item id may not hold, so that it cannot leave the
/// storage directory.
pub open spec fn is_traversal_char(c: char) -> bool {
    c == '.' || c == '/' || c == '\\'
}

/// An id is safe to put in a path: it holds no `.`, `/` or `\`.
pub open spec fn safe_name(s: Seq<char>) -> bool {
    forall|i: int| 0 <= i < s.len() ==> !is_traversal_char(#[trigger] s[i])
}

/// An id names an item: it is not empty and is safe in a path.
pub open spec fn valid_id(id: Seq<char>) -> bool {
    id.len() > 0 && safe_name(id)
}

/// A blob name names a file inside the storage directory: it is not empty,
/// not `.` or `..`, and holds no `/` or `\`.
pub open spec fn plain_file_name(s: Seq<char>) -> bool {
    &&& s.len() > 0
    &&& !(s.len() == 1 && s[0] == '.')
    &&& !(s.len() == 2 && s[0] == '.' && s[1] == '.')
    &&& forall|i: int| 0 <= i < s.len() ==> (#[trigger] s[i] != '/' && s[i] != '\\')
}

/// Index of the last `c` in `s`, or -1.
pub open spec fn last_index_of(s: Seq<char>, c: char) -> int
    decreases s.len(),
{
    if s.len() == 0 {
        -1
    } else if s.last() == c {
        s.len() - 1
    } else {
        last_index_of(s.drop_last(), c)
    }
}

/// Index of the first `c` in `s`, or -1.
pub open spec fn first_index_of(s: Seq<char>, c: char) -> int
    decreases s.len(),
{
    if s.len() == 0 {
        -1
    } else {
        let p = first_index_of(s.drop_last(), c);
        if p >= 0 {
            p
        } else if s.last() == c {
            s.len() - 1
        } else {
            -1
        }
    }
}

/// `s` holds no `/` or `\`.
pub open spec fn no_separators(s: Seq<char>) -> bool {
    forall|i: int| 0 <= i < s.len() ==> (#[trigger] s[i] != '/' && s[i] != '\\')
}

/// A safe name holds no `.`.
pub proof fn lemma_safe_has_no_dot(a: Seq<char>)
    requires
        safe_name(a),
    ensures
        first_index_of(a, '.') == -1,
    decreases a.len(),
{
    if a.len() > 0 {
        assert(safe_name(a.drop_last())) by {
            assert forall|i: int| 0 <= i < a.drop_last().len() implies !is_traversal_char(
                #[trigger] a.drop_last()[i],
            ) by {
                assert(a.drop_last()[i] == a[i]);
            }
        }
        lemma_safe_has_no_dot(a.drop_last());
        assert(!is_traversal_char(a[a.len() - 1]));
    }
}

/// A blob named after a safe id and an extension part that is empty or
/// starts with `.` is renamed to the target id and the same part.
pub proof fn lemma_renamed_own_blob(source: Seq<char>, target: Seq<char>, e: Seq<char>)
    requires
        safe_name(source),
        e.len() == 0 || e[0] == '.',
    ensures
        renamed_blob_name(target, source + e) == target + e,
{
    let s = source + e;
    lemma_safe_has_no_dot(source);
    if e.len() == 0 {
        assert(s =~= source);
        assert(target + e =~= target);
    } else {
        let k = source.len() as int;
        let p = s.subrange(0, k + 1);
        assert(p.drop_last() =~= source);
        assert(p.last() == '.');
        assert(first_index_of(p, '.') == k);
        lemma_first_prefix(s, '.', k + 1);
        assert(s.subrange(k, s.len() as int) =~= e);
    }
}

/// The extension of an uploaded file's name: what follows its last `.`,
/// possibly empty, when that holds no `/` or `\`.
pub open spec fn extension(name: Seq<char>) -> Option<Seq<char>> {
    let i = last_index_of(name, '.');
    if 0 <= i && no_separators(name.subrange(i + 1, name.len() as int)) {
        Some(name.subrange(i + 1, name.len() as int))
    } else {
        None
    }
}

/// The blob name of a new upload: the id, then `.` and the extension of the
/// uploader's file name if it has one.
pub open spec fn upload_blob_name(id: Seq<char>, filename: Seq<char>) -> Seq<char> {
    match extension(filename) {
        Some(e) => id + seq!['.'] + e,
        None => id,
    }
}

/// The blob name after a rename: the target id, then all of the old blob name
/// from its first `.` on.
pub open spec fn renamed_blob_name(target: Seq<char>, blob: Seq<char>) -> Seq<char> {
    let i = first_index_of(blob, '.');
    if i >= 0 {
        target + blob.subrange(i, blob.len() as int)
    } else {
        target
    }
}

/// The name of the file that holds the record of `id`.
pub open spec fn sidecar_name(id: Seq<char>) -> Seq<char> {
    id + ".info.json"@
}

pub proof fn lemma_last_index_bounds(s: Seq<char>, c: char)
    ensures
        -1 <= last_index_of(s, c) < s.len(),
        last_index_of(s, c) >= 0 ==> s[last_index_of(s, c)] == c,
    decreases s.len(),
{
    if s.len() > 0 && s.last() != c {
        lemma_last_index_bounds(s.drop_last(), c);
    }
}

pub proof fn lemma_first_index_bounds(s: Seq<char>, c: char)
    ensures
        -1 <= first_index_of(s, c) < s.len(),
        first_index_of(s, c) >= 0 ==> s[first_index_of(s, c)] == c,
    decreases s.len(),
{
    if s.len() > 0 {
        lemma_first_index_bounds(s.drop_last(), c);
    }
}

/// Whether two strings hold the same characters.
pub fn str_equal(a: &str, b: &str) -> (r: bool)
    ensures
        r == (a@ == b@),
{
    let n = a.unicode_len();
    if n != b.unicode_len() {
        return false;
    }
    let mut i: usize = 0;
    while i < n
        invariant
            n == a@.len(),
            n == b@.len(),
            0 <= i <= n,
            forall|k: int| 0 <= k < i ==> a@[k] == b@[k],
        decreases n - i,
    {
        if a.get_char(i) != b.get_char(i) {
            return false;
        }
        i += 1;
    }
    assert(a@ =~= b@);
    true
}

/// Whether `s` is safe to use as an id in a path.
pub fn is_safe_name(s: &str) -> (r: bool)
    ensures
        r == safe_name(s@),
{
    let n = s.unicode_len();
    let mut i: usize = 0;
    while i < n
        invariant
            n == s@.len(),
            0 <= i <= n,
            forall|k: int| 0 <= k < i ==> !is_traversal_char(#[trigger] s@[k]),
        decreases n - i,
    {
        let c = s.get_char(i);
        if c == '.' || c == '/' || c == '\\' {
            return false;
        }
        i += 1;
    }
    true
}

/// Whether `s` names a file inside the storage directory.
pub fn is_plain_file_name(s: &str) -> (r: bool)
    ensures
        r == plain_file_name(s@),
{
    let n = s.unicode_len();
    if n == 0 {
        return false;
    }
    if n == 1 && s.get_char(0) == '.' {
        return false;
    }
    if n == 2 && s.get_char(0) == '.' && s.get_char(1) == '.' {
        return false;
    }
    let mut i: usize = 0;
    while i < n
        invariant
            n == s@.len(),
            0 <= i <= n,
            forall|k: int| 0 <= k < i ==> (#[trigger] s@[k] != '/' && s@[k] != '\\'),
        decreases n - i,
    {
        let c = s.get_char(i);
        if c == '/' || c == '\\' {
            return false;
        }
        i += 1;
    }
    true
}

/// Whether `s` holds no `/` or `\`.
pub fn has_no_separators(s: &str) -> (r: bool)
    ensures
        r == no_separators(s@),
{
    let n = s.unicode_len();
    let mut i: usize = 0;
    while i < n
        invariant
            n == s@.len(),
            0 <= i <= n,
            forall|k: int| 0 <= k < i ==> (#[trigger] s@[k] != '/' && s@[k] != '\\'),
        decreases n - i,
    {
        let c = s.get_char(i);
        if c == '/' || c == '\\' {
            return false;
        }
        i += 1;
    }
    true
}

/// The blob name of an upload under a non-empty safe id stays inside the
/// storage directory.
pub proof fn lemma_upload_blob_plain(id: Seq<char>, filename: Seq<char>)
    requires
        id.len() > 0,
        safe_name(id),
    ensures
        plain_file_name(upload_blob_name(id, filename)),
{
    let b = upload_blob_name(id, filename);
    assert(!is_traversal_char(id[0]));
    match extension(filename) {
        Some(e) => {
            let i = last_index_of(filename, '.');
            assert(e == filename.subrange(i + 1, filename.len() as int));
            assert(no_separators(e));
            assert forall|k: int| 0 <= k < b.len() implies (#[trigger] b[k] != '/' && b[k] != '\\') by {
                if k < id.len() {
                    assert(b[k] == id[k]);
                    assert(!is_traversal_char(id[k]));
                } else if k == id.len() {
                    assert(b[k] == '.');
                } else {
                    assert(b[k] == e[k - id.len() - 1]);
                }
            }
            assert(b[0] == id[0]);
        },
        None => {
            assert forall|k: int| 0 <= k < b.len() implies (#[trigger] b[k] != '/' && b[k] != '\\') by {
                assert(!is_traversal_char(id[k]));
            }
        },
    }
}

/// The index of the last `c` in `s`.
fn find_last(s: &str, c: char) -> (r: Option<usize>)
    ensures
        match r {
            Some(i) => i == last_index_of(s@, c),
            None => last_index_of(s@, c) == -1,
        },
{
    let n = s.unicode_len();
    let mut i: usize = 0;
    let mut found: Option<usize> = None;
    while i < n
        invariant
            n == s@.len(),
            0 <= i <= n,
            match found {
                Some(k) => k == last_index_of(s@.subrange(0, i as int), c),
                None => last_index_of(s@.subrange(0, i as int), c) == -1,
            },
        decreases n - i,
    {
        let ch = s.get_char(i);
        assert(s@.subrange(0, i + 1).drop_last() =~= s@.subrange(0, i as int));
        if ch == c {
            found = Some(i);
        }
        i += 1;
    }
    assert(s@.subrange(0, n as int) =~= s@);
    found
}

/// The index of the first `c` in `s`.
pub fn find_first(s: &str, c: char) -> (r: Option<usize>)
    ensures
        match r {
            Some(i) => i == first_index_of(s@, c),
            None => first_index_of(s@, c) == -1,
        },
{
    let n = s.unicode_len();
    let mut i: usize = 0;
    while i < n
        invariant
            n == s@.len(),
            0 <= i <= n,
            first_index_of(s@.subrange(0, i as int), c) == -1,
        decreases n - i,
    {
        let ch = s.get_char(i);
        assert(s@.subrange(0, i + 1).drop_last() =~= s@.subrange(0, i as int));
        if ch == c {
            proof {
                lemma_first_prefix(s@, c, i + 1);
            }
            return Some(i);
        }
        i += 1;
    }
    assert(s@.subrange(0, n as int) =~= s@);
    None
}

/// Once the first `c` lies in a prefix, it is the first `c` of the whole.
pub proof fn lemma_first_prefix(s: Seq<char>, c: char, k: int)
    requires
        0 <= k <= s.len(),
        first_index_of(s.subrange(0, k), c) >= 0,
    ensures
        first_index_of(s, c) == first_index_of(s.subrange(0, k), c),
    decreases s.len() - k,
{
    if k < s.len() {
        assert(s.subrange(0, k + 1).drop_last() =~= s.subrange(0, k));
        lemma_first_prefix(s, c, k + 1);
    } else {
        assert(s.subrange(0, k) =~= s);
    }
}

/// The extension of an uploaded file's name, if it has one.
pub fn extension_of(filename: &str) -> (r: Option<String>)
    ensures
        opt_view_eq(r, extension(filename@)),
{
    let n = filename.unicode_len();
    proof {
        lemma_last_index_bounds(filename@, '.');
    }
    match find_last(filename, '.') {
        Some(i) => {
            let e = filename.substring_char(i + 1, n);
            if has_no_separators(e) {
                Some(String::from_str(e))
            } else {
                None
            }
        },
        None => None,
    }
}

/// An optional string has the given view.
pub open spec fn opt_view_eq(o: Option<String>, v: Option<Seq<char>>) -> bool {
    match o {
        Some(s) => v == Some(s@),
        None => v is None,
    }
}

/// The blob name of a new upload with this id and uploader's file name.
pub fn blob_name_for_upload(id: &str, filename: &str) -> (r: String)
    ensures
        r@ == upload_blob_name(id@, filename@),
{
    let mut r = String::from_str(id);
    match extension_of(filename) {
        Some(e) => {
            r.append(".");
            r.append(e.as_str());
            proof {
                reveal_strlit(".");
            }
        },
        None => {},
    }
    r
}

/// The blob name that a blob takes when its item is renamed to `target`.
pub fn blob_name_for_rename(target: &str, blob: &str) -> (r: String)
    ensures
        r@ == renamed_blob_name(target@, blob@),
{
    let mut r = String::from_str(target);
    match find_first(blob, '.') {
        Some(i) => {
            let n = blob.unicode_len();
            proof {
                lemma_first_index_bounds(blob@, '.');
            }
            let rest = blob.substring_char(i, n);
            r.append(rest);
        },
        None => {},
    }
    r
}

/// The name of the file that holds the record of `id`.
pub fn sidecar_file_name(id: &str) -> (r: String)
    ensures
        r@ == sidecar_name(id@),
{
    let mut r = String::from_str(id);
    r.append(".info.json");
    r
}

} // verus!

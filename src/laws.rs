//! What holds of the operations together, stated over the model of the
//! storage directory.
use vstd::prelude::*;

use crate::names::{
    is_traversal_char, lemma_renamed_own_blob, renamed_blob_name, safe_name, valid_id,
};
use crate::phrase::{ascii_upper, capital_case, is_ascii_lower, is_phrase};
use crate::resolve::{ResolutionView, Served, resolve_outcome, serve};
use crate::store::{
    Disk, ModifyError, OpView, apply_op, apply_ops, delete_outcome, lemma_apply_one_more,
    rename_outcome, stored, with_blob,
};
use crate::types::{
    Date, FileType, LoadError, MetaView, date_from_text, file_type_named, record_from_fields,
};
use crate::upload::{looks_like_url, upload_outcome};

verus! {

/// Two served answers carry the same content; a text's public URL may differ.
pub open spec fn same_content(x: Served, y: Served) -> bool {
    match (x, y) {
        (Served::NotFound, Served::NotFound) => true,
        (Served::Invalid, Served::Invalid) => true,
        (Served::File { content: a, display_name: n }, Served::File { content: b, display_name: m }) =>
            a == b && n == m,
        (Served::Redirect { url: a }, Served::Redirect { url: b }) => a == b,
        (Served::Text { content: a, .. }, Served::Text { content: b, .. }) => a == b,
        _ => false,
    }
}

/// A name with `.`, `/` or `\` is refused by delete, rename and resolve,
/// whatever the directory holds: the answer does not depend on what was
/// loaded, so nothing needs to be read or written.
pub proof fn law_unsafe_names_refused(
    id: Seq<char>,
    other: Seq<char>,
    base_url: Seq<char>,
    loaded: Result<MetaView, LoadError>,
    target_taken: bool,
)
    requires
        !safe_name(id),
    ensures
        delete_outcome(id, loaded) == Err::<Seq<crate::store::OpView>, _>(ModifyError::InvalidName),
        rename_outcome(id, other, loaded, target_taken) == Err::<Seq<crate::store::OpView>, _>(
            ModifyError::InvalidName,
        ),
        rename_outcome(other, id, loaded, target_taken) == Err::<Seq<crate::store::OpView>, _>(
            ModifyError::InvalidName,
        ),
        resolve_outcome(base_url, id, loaded) == ResolutionView::Invalid,
{
}

/// After a delete, the id serves nothing, its record is gone and so is its
/// blob, and no other blob or record appears.
pub proof fn law_delete_removes_blob_and_record(d: Disk, base_url: Seq<char>, id: Seq<char>)
    requires
        safe_name(id),
        d.records.contains_key(id),
    ensures
        apply_ops(d, delete_outcome(id, stored(d, id))->Ok_0) matches Some(d2) && {
            &&& serve(d2, base_url, id) == Served::NotFound
            &&& !d2.records.contains_key(id)
            &&& d.records[id].actual_filename matches Some(b) ==> !d2.blobs.contains_key(b)
            &&& forall|n: Seq<char>| #[trigger] d2.blobs.contains_key(n) ==> d.blobs.contains_key(n)
            &&& forall|n: Seq<char>| #[trigger] d2.records.contains_key(n) ==> d.records.contains_key(n)
        },
{
    let ops = delete_outcome(id, stored(d, id))->Ok_0;
    reveal_with_fuel(apply_ops, 3);
    match d.records[id].actual_filename {
        Some(b) => {
            let d1 = apply_op(d, ops[0])->Some_0;
            assert(ops.drop_first() =~= seq![crate::store::OpView::RemoveRecord(id)]);
            assert(ops.drop_first().drop_first().len() == 0);
            assert(d1.records.contains_key(id));
        },
        None => {
            assert(ops.drop_first().len() == 0);
        },
    }
}

/// The rename of `source` to a free `target`, as it was planned.
pub open spec fn rename_plan(d: Disk, source: Seq<char>, target: Seq<char>) -> Seq<OpView> {
    rename_outcome(source, target, stored(d, source), false)->Ok_0
}

/// The directory after each step of a rename.
proof fn lemma_rename_steps(d: Disk, source: Seq<char>, target: Seq<char>)
    requires
        safe_name(source),
        valid_id(target),
        d.records.contains_key(source),
        !d.records.contains_key(target),
    ensures
        ({
            let ops = rename_plan(d, source, target);
            let m = d.records[source];
            &&& ops.take(ops.len() as int) == ops
            &&& apply_ops(d, ops.take(0)) == Some(d)
            &&& match m.actual_filename {
                Some(b) => {
                    let nb = renamed_blob_name(target, b);
                    let r1 = d.records.insert(target, with_blob(m, nb));
                    let bl = d.blobs.remove(b).insert(nb, d.blobs[b]);
                    &&& ops.len() == 3
                    &&& apply_ops(d, ops.take(1)) == Some(Disk { records: r1, blobs: d.blobs })
                    &&& d.blobs.contains_key(b) ==> apply_ops(d, ops.take(2)) == Some(
                        Disk { records: r1, blobs: bl },
                    ) && apply_ops(d, ops.take(3)) == Some(
                        Disk { records: r1.remove(source), blobs: bl },
                    )
                    &&& !d.blobs.contains_key(b) ==> apply_ops(d, ops.take(2)) is None
                        && apply_ops(d, ops.take(3)) is None
                },
                None => {
                    let r1 = d.records.insert(target, m);
                    &&& ops.len() == 2
                    &&& apply_ops(d, ops.take(1)) == Some(Disk { records: r1, blobs: d.blobs })
                    &&& apply_ops(d, ops.take(2)) == Some(
                        Disk { records: r1.remove(source), blobs: d.blobs },
                    )
                },
            }
        }),
{
    let ops = rename_plan(d, source, target);
    assert(ops.take(ops.len() as int) =~= ops);
    assert(ops.take(0) =~= Seq::<OpView>::empty());
    lemma_apply_one_more(d, ops, 0);
    lemma_apply_one_more(d, ops, 1);
    if ops.len() == 3 {
        lemma_apply_one_more(d, ops, 2);
    }
}

/// Serving from a directory whose records and blobs agree with another's on
/// an id's record and its blob gives the same answer.
proof fn lemma_serve_same_record(
    d: Disk,
    e: Disk,
    base_url: Seq<char>,
    id: Seq<char>,
    other: Seq<char>,
)
    requires
        d.records.contains_key(id),
        e.records.contains_key(other),
        safe_name(id),
        safe_name(other),
        e.records[other] == d.records[id] || (d.records[id].actual_filename matches Some(b)
            && e.records[other] == with_blob(
            d.records[id],
            renamed_blob_name(other, b),
        ) && d.blobs.contains_key(b) && e.blobs.contains_key(renamed_blob_name(other, b))
            && e.blobs[renamed_blob_name(other, b)] == d.blobs[b]),
        e.records[other] == d.records[id] ==> forall|n: Seq<char>|
            #[trigger] e.blobs.contains_key(n) == d.blobs.contains_key(n) && e.blobs[n]
                == d.blobs[n],
    ensures
        same_content(serve(e, base_url, other), serve(d, base_url, id)),
{
    let m = d.records[id];
    match m.file_type {
        FileType::File => {},
        FileType::Url => {},
        FileType::Text => {},
    }
}

/// While a rename from `source` to a free `target` is under way, after any
/// number of its steps that succeeded, the item's content is still served
/// under `source` or under `target`.
pub proof fn law_rename_keeps_the_item(
    d: Disk,
    base_url: Seq<char>,
    source: Seq<char>,
    target: Seq<char>,
    k: int,
)
    requires
        safe_name(source),
        valid_id(target),
        d.records.contains_key(source),
        !d.records.contains_key(target),
        0 <= k <= rename_plan(d, source, target).len(),
        apply_ops(d, rename_plan(d, source, target).take(k)) is Some,
    ensures
        ({
            let dk = apply_ops(d, rename_plan(d, source, target).take(k))->Some_0;
            same_content(serve(dk, base_url, source), serve(d, base_url, source)) || same_content(
                serve(dk, base_url, target),
                serve(d, base_url, source),
            )
        }),
{
    lemma_rename_steps(d, source, target);
    let dk = apply_ops(d, rename_plan(d, source, target).take(k))->Some_0;
    let m = d.records[source];
    if k <= 1 {
        assert(dk.records[source] == m);
        lemma_serve_same_record(d, dk, base_url, source, source);
    } else {
        assert(dk.records.contains_key(target));
        lemma_serve_same_record(d, dk, base_url, source, target);
    }
}

/// After a rename from `source` to a free `target`, the source serves
/// nothing and the target serves what the source served.
pub proof fn law_rename_moves_content(d: Disk, base_url: Seq<char>, source: Seq<char>, target: Seq<char>)
    requires
        safe_name(source),
        valid_id(target),
        d.records.contains_key(source),
        !d.records.contains_key(target),
        apply_ops(d, rename_plan(d, source, target)) is Some,
    ensures
        apply_ops(d, rename_plan(d, source, target)) matches Some(d2) && {
            &&& serve(d2, base_url, source) == Served::NotFound
            &&& same_content(serve(d2, base_url, target), serve(d, base_url, source))
        },
{
    lemma_rename_steps(d, source, target);
    let ops = rename_plan(d, source, target);
    let d2 = apply_ops(d, ops.take(ops.len() as int))->Some_0;
    assert(!d2.records.contains_key(source));
    lemma_serve_same_record(d, d2, base_url, source, target);
}

/// A rename from `source` to a free `target` and then a delete of `target`
/// leave no record under either name, and no blob under the old or the new
/// blob name; in particular, for a blob named after the source id and a part
/// that is empty or starts with `.`, none under either id with that part.
pub proof fn law_rename_then_delete_leaves_nothing(
    d: Disk,
    source: Seq<char>,
    target: Seq<char>,
)
    requires
        safe_name(source),
        valid_id(target),
        d.records.contains_key(source),
        !d.records.contains_key(target),
        apply_ops(d, rename_plan(d, source, target)) is Some,
    ensures
        ({
            let d1 = apply_ops(d, rename_plan(d, source, target))->Some_0;
            apply_ops(d1, delete_outcome(target, stored(d1, target))->Ok_0) matches Some(d2) && {
                &&& !d2.records.contains_key(source)
                &&& !d2.records.contains_key(target)
                &&& d.records[source].actual_filename matches Some(b) ==> !d2.blobs.contains_key(b)
                    && !d2.blobs.contains_key(renamed_blob_name(target, b))
                &&& forall|e: Seq<char>|
                    d.records[source].actual_filename == Some(source + e) && (e.len() == 0 || e[0]
                        == '.') ==> !d2.blobs.contains_key(#[trigger] (source + e))
                        && !d2.blobs.contains_key(target + e)
            }
        }),
{
    lemma_rename_steps(d, source, target);
    let ops = rename_plan(d, source, target);
    let d1 = apply_ops(d, ops.take(ops.len() as int))->Some_0;
    assert(d1.records.contains_key(target));
    law_delete_removes_blob_and_record(d1, seq![], target);
    assert forall|e: Seq<char>|
        d.records[source].actual_filename == Some(source + e) && (e.len() == 0 || e[0] == '.')
            implies renamed_blob_name(target, #[trigger] (source + e)) == target + e by {
        lemma_renamed_own_blob(source, target, e);
    }
}

/// A record loaded from its stored fields keeps the stored kind, link and
/// names as they were, and holds the date that chrono reads from the stored
/// text.
pub proof fn law_record_fields_round_trip(
    date: Seq<char>,
    file_type: FileType,
    url: Option<Seq<char>>,
    filename: Option<Seq<char>>,
    actual_filename: Option<Seq<char>>,
)
    requires
        record_from_fields(date, file_type, url, filename, actual_filename) is Ok,
    ensures
        ({
            let m = record_from_fields(date, file_type, url, filename, actual_filename)->Ok_0;
            &&& date_from_text(date) == Some(m.date)
            &&& m.file_type == file_type
            &&& m.url == url
            &&& m.filename == filename
            &&& m.actual_filename == actual_filename
        }),
{
}

/// An accepted upload of a file, or of a text that is not taken for a link,
/// hands back the public URL of its id, and that id then serves the content
/// that was uploaded.
pub proof fn law_upload_then_get(
    d: Disk,
    kind: Seq<char>,
    id: Seq<char>,
    filename: Seq<char>,
    content: Seq<u8>,
    date: Date,
    base_url: Seq<char>,
)
    requires
        valid_id(id),
        upload_outcome(kind, id, Some(filename), content, date, base_url) is Ok,
        apply_ops(d, upload_outcome(kind, id, Some(filename), content, date, base_url)->Ok_0.0) is Some,
        file_type_named(kind) == Some(FileType::File) || (file_type_named(kind) == Some(
            FileType::Text,
        ) && !looks_like_url(content)),
    ensures
        ({
            let (ops, url) = upload_outcome(kind, id, Some(filename), content, date, base_url)->Ok_0;
            let d2 = apply_ops(d, ops)->Some_0;
            &&& url == base_url + id
            &&& file_type_named(kind) == Some(FileType::File) ==> serve(d2, base_url, id)
                == Served::File { content, display_name: filename }
            &&& file_type_named(kind) == Some(FileType::Text) ==> serve(d2, base_url, id)
                == Served::Text { content, url: base_url + id }
        }),
{
    let ops = upload_outcome(kind, id, Some(filename), content, date, base_url)->Ok_0.0;
    reveal_with_fuel(apply_ops, 3);
    assert(ops.drop_first().drop_first().len() == 0);
    assert(ops.drop_first()[0] == ops[1]);
}


/// `w` is one or more ASCII lowercase letters.
pub open spec fn is_lower_word(w: Seq<char>) -> bool {
    w.len() > 0 && forall|i: int| 0 <= i < w.len() ==> is_ascii_lower(#[trigger] w[i])
}

/// `w` is an ASCII capital followed by ASCII lowercase letters.
pub open spec fn is_title_word(w: Seq<char>) -> bool {
    &&& w.len() > 0
    &&& 'A' <= w[0] && w[0] <= 'Z'
    &&& forall|i: int| 1 <= i < w.len() ==> is_ascii_lower(#[trigger] w[i])
}

/// `s` is two title words, one after the other.
pub open spec fn two_title_words(s: Seq<char>) -> bool {
    exists|k: int|
        0 < k < s.len() && is_title_word(s.subrange(0, k)) && is_title_word(
            #[trigger] s.subrange(k, s.len() as int),
        )
}

/// A lowercase word, capitalised, is a title word and a valid id.
proof fn lemma_capital_lower_word(w: Seq<char>)
    requires
        is_lower_word(w),
    ensures
        is_title_word(capital_case(w)),
        valid_id(capital_case(w)),
        capital_case(w).len() == w.len(),
{
    let c = capital_case(w);
    assert(is_ascii_lower(w[0]));
    assert(c[0] == ascii_upper(w[0]));
    assert forall|i: int| 1 <= i < c.len() implies is_ascii_lower(#[trigger] c[i]) by {
        assert(c[i] == w[i]);
    }
    assert forall|i: int| 0 <= i < c.len() implies !is_traversal_char(#[trigger] c[i]) by {
        if i > 0 {
            assert(c[i] == w[i]);
            assert(is_ascii_lower(w[i]));
        }
    }
}

/// When every word of both lists is one or more ASCII lowercase letters,
/// every generated phrase is a capitalised adjective followed by a
/// capitalised noun, and a valid id.
pub proof fn law_phrases_are_two_title_words(
    adjectives: Seq<Seq<char>>,
    nouns: Seq<Seq<char>>,
    s: Seq<char>,
)
    requires
        forall|i: int| 0 <= i < adjectives.len() ==> is_lower_word(#[trigger] adjectives[i]),
        forall|j: int| 0 <= j < nouns.len() ==> is_lower_word(#[trigger] nouns[j]),
        is_phrase(adjectives, nouns, s),
    ensures
        two_title_words(s),
        valid_id(s),
{
    let (i, j) = choose|i: int, j: int|
        0 <= i < adjectives.len() && 0 <= j < nouns.len() && s == capital_case(
            #[trigger] adjectives[i],
        ) + capital_case(#[trigger] nouns[j]);
    let a = capital_case(adjectives[i]);
    let n = capital_case(nouns[j]);
    lemma_capital_lower_word(adjectives[i]);
    lemma_capital_lower_word(nouns[j]);
    let k = a.len() as int;
    assert(s.subrange(0, k) =~= a);
    assert(s.subrange(k, s.len() as int) =~= n);
    assert forall|t: int| 0 <= t < s.len() implies !is_traversal_char(#[trigger] s[t]) by {
        if t < k {
            assert(s[t] == a[t]);
        } else {
            assert(s[t] == n[t - k]);
        }
    }
}

} // verus!

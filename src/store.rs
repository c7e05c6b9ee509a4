//! The storage directory as a model, the filesystem steps that change it, and
//! the plans of the delete and rename operations.
use vstd::prelude::*;

use vstd::string::*;

use crate::names::{blob_name_for_rename, is_safe_name, renamed_blob_name, safe_name, valid_id};
use crate::types::{FileMetadata, LoadError, MetaView, loaded_view};

verus! {

/// One step on the storage directory.
pub enum FsOp {
    /// Remove a blob; a blob that is already gone is only worth a warning.
    RemoveBlob(String),
    /// Remove the record file of an id.
    RemoveRecord(String),
    /// Rename a blob.
    RenameBlob(String, String),
    /// Write a blob; when the flag is set, fail if the blob exists.
    WriteBlob(String, Vec<u8>, bool),
    /// Write the record file of an id, replacing any.
    WriteRecord(String, FileMetadata),
}

/// A step on the storage directory, as values.
pub enum OpView {
    RemoveBlob(Seq<char>),
    RemoveRecord(Seq<char>),
    RenameBlob(Seq<char>, Seq<char>),
    WriteBlob(Seq<char>, Seq<u8>, bool),
    WriteRecord(Seq<char>, MetaView),
}

impl View for FsOp {
    type V = OpView;

    open spec fn view(&self) -> OpView {
        match self {
            FsOp::RemoveBlob(n) => OpView::RemoveBlob(n@),
            FsOp::RemoveRecord(id) => OpView::RemoveRecord(id@),
            FsOp::RenameBlob(a, b) => OpView::RenameBlob(a@, b@),
            FsOp::WriteBlob(n, c, e) => OpView::WriteBlob(n@, c@, *e),
            FsOp::WriteRecord(id, m) => OpView::WriteRecord(id@, m@),
        }
    }
}

/// The steps of a plan, as values.
pub open spec fn ops_view(ops: Seq<FsOp>) -> Seq<OpView> {
    ops.map_values(|o: FsOp| o@)
}

/// The storage directory: the records by id and the blobs by name.
pub struct Disk {
    pub records: Map<Seq<char>, MetaView>,
    pub blobs: Map<Seq<char>, Seq<u8>>,
}

/// The directory after one step, or `None` where the step fails.
pub open spec fn apply_op(d: Disk, op: OpView) -> Option<Disk> {
    match op {
        OpView::RemoveBlob(n) => Some(Disk { records: d.records, blobs: d.blobs.remove(n) }),
        OpView::RemoveRecord(id) => {
            if d.records.contains_key(id) {
                Some(Disk { records: d.records.remove(id), blobs: d.blobs })
            } else {
                None
            }
        },
        OpView::RenameBlob(a, b) => {
            if d.blobs.contains_key(a) {
                Some(Disk { records: d.records, blobs: d.blobs.remove(a).insert(b, d.blobs[a]) })
            } else {
                None
            }
        },
        OpView::WriteBlob(n, c, exclusive) => {
            if exclusive && d.blobs.contains_key(n) {
                None
            } else {
                Some(Disk { records: d.records, blobs: d.blobs.insert(n, c) })
            }
        },
        OpView::WriteRecord(id, m) => Some(Disk { records: d.records.insert(id, m), blobs: d.blobs }),
    }
}

/// The directory after the steps in order, or `None` where one fails (the
/// steps after it are not taken).
pub open spec fn apply_ops(d: Disk, ops: Seq<OpView>) -> Option<Disk>
    decreases ops.len(),
{
    if ops.len() == 0 {
        Some(d)
    } else {
        match apply_op(d, ops[0]) {
            Some(d2) => apply_ops(d2, ops.drop_first()),
            None => None,
        }
    }
}

/// Taking one more step of a plan: the first `k + 1` steps give what the
/// first `k` give, followed by step `k`.
pub proof fn lemma_apply_one_more(d: Disk, ops: Seq<OpView>, k: int)
    requires
        0 <= k < ops.len(),
    ensures
        apply_ops(d, ops.take(k + 1)) == match apply_ops(d, ops.take(k)) {
            Some(dk) => apply_op(dk, ops[k]),
            None => None,
        },
    decreases k,
{
    reveal_with_fuel(apply_ops, 2);
    if k == 0 {
        assert(ops.take(1).drop_first() =~= Seq::<OpView>::empty());
        assert(ops.take(0) =~= Seq::<OpView>::empty());
    } else {
        assert(ops.take(k + 1).drop_first() =~= ops.drop_first().take(k));
        assert(ops.take(k).drop_first() =~= ops.drop_first().take(k - 1));
        match apply_op(d, ops[0]) {
            Some(d1) => {
                lemma_apply_one_more(d1, ops.drop_first(), k - 1);
            },
            None => {},
        }
    }
}

/// What loading the record of `id` from the directory gives.
pub open spec fn stored(d: Disk, id: Seq<char>) -> Result<MetaView, LoadError> {
    if d.records.contains_key(id) {
        Ok(d.records[id])
    } else {
        Err(LoadError::NotFound)
    }
}

/// Why a delete or a rename was refused.
#[derive(Clone, Copy, Debug, PartialEq, Eq, Structural)]
pub enum ModifyError {
    /// A name holds `.`, `/` or `\`, or the rename target is empty.
    InvalidName,
    /// No record could be loaded for the source.
    NotFound,
    /// The rename target already has a record.
    Conflict,
}

/// The view of a plan or its error.
pub open spec fn plan_view(r: Result<Vec<FsOp>, ModifyError>) -> Result<Seq<OpView>, ModifyError> {
    match r {
        Ok(ops) => Ok(ops_view(ops@)),
        Err(e) => Err(e),
    }
}

/// The steps that delete `id`, given what loading its record gave: the blob
/// first, then the record.
pub open spec fn delete_outcome(id: Seq<char>, loaded: Result<MetaView, LoadError>) -> Result<
    Seq<OpView>,
    ModifyError,
> {
    if !safe_name(id) {
        Err(ModifyError::InvalidName)
    } else {
        match loaded {
            Err(_) => Err(ModifyError::NotFound),
            Ok(m) => match m.actual_filename {
                Some(b) => Ok(seq![OpView::RemoveBlob(b), OpView::RemoveRecord(id)]),
                None => Ok(seq![OpView::RemoveRecord(id)]),
            },
        }
    }
}

/// The record as it stands after a rename moved its blob to `blob`.
pub open spec fn with_blob(m: MetaView, blob: Seq<char>) -> MetaView {
    MetaView { actual_filename: Some(blob), ..m }
}

/// The steps that rename `source` to `target`, given what loading the
/// source's record gave and whether the target already has a record: the
/// new record is written first, then the blob is renamed, then the old record
/// is removed, so that a step that fails never leaves the item without a
/// record. The target must be a non-empty safe id.
pub open spec fn rename_outcome(
    source: Seq<char>,
    target: Seq<char>,
    loaded: Result<MetaView, LoadError>,
    target_taken: bool,
) -> Result<Seq<OpView>, ModifyError> {
    if !safe_name(source) || !valid_id(target) {
        Err(ModifyError::InvalidName)
    } else {
        match loaded {
            Err(_) => Err(ModifyError::NotFound),
            Ok(m) => {
                if target_taken {
                    Err(ModifyError::Conflict)
                } else {
                    match m.actual_filename {
                        Some(b) => {
                            let nb = renamed_blob_name(target, b);
                            Ok(
                                seq![
                                    OpView::WriteRecord(target, with_blob(m, nb)),
                                    OpView::RenameBlob(b, nb),
                                    OpView::RemoveRecord(source),
                                ],
                            )
                        },
                        None => Ok(
                            seq![OpView::WriteRecord(target, m), OpView::RemoveRecord(source)],
                        ),
                    }
                }
            },
        }
    }
}

/// A copy of a string.
fn copy_str(s: &str) -> (r: String)
    ensures
        r@ == s@,
{
    String::from_str(s)
}

/// Plans the delete of `id`, given what loading its record gave. A name
/// with `.`, `/` or `\` is refused whatever was loaded.
pub fn plan_delete(id: &str, loaded: Result<FileMetadata, LoadError>) -> (r: Result<
    Vec<FsOp>,
    ModifyError,
>)
    ensures
        plan_view(r) == delete_outcome(id@, loaded_view(loaded)),
{
    if !is_safe_name(id) {
        return Err(ModifyError::InvalidName);
    }
    let m = match loaded {
        Ok(m) => m,
        Err(_) => return Err(ModifyError::NotFound),
    };
    let mut ops: Vec<FsOp> = Vec::new();
    match m.actual_filename {
        Some(b) => {
            ops.push(FsOp::RemoveBlob(b));
        },
        None => {},
    }
    ops.push(FsOp::RemoveRecord(copy_str(id)));
    proof {
        assert(ops_view(ops@) =~= delete_outcome(id@, loaded_view(loaded))->Ok_0);
    }
    Ok(ops)
}

/// Plans the rename of `source` to `target`, given what loading the source's
/// record gave and whether `target` already has a record.
pub fn plan_rename(
    source: &str,
    target: &str,
    loaded: Result<FileMetadata, LoadError>,
    target_taken: bool,
) -> (r: Result<Vec<FsOp>, ModifyError>)
    ensures
        plan_view(r) == rename_outcome(source@, target@, loaded_view(loaded), target_taken),
{
    if !is_safe_name(source) || !is_safe_name(target) || target.unicode_len() == 0 {
        return Err(ModifyError::InvalidName);
    }
    let m = match loaded {
        Ok(m) => m,
        Err(_) => return Err(ModifyError::NotFound),
    };
    if target_taken {
        return Err(ModifyError::Conflict);
    }
    let ghost mv = m@;
    let mut ops: Vec<FsOp> = Vec::new();
    let FileMetadata { date, file_type, url, filename, actual_filename } = m;
    let (new_blob, move_blob) = match actual_filename {
        Some(b) => {
            let nb = blob_name_for_rename(target, b.as_str());
            let nb2 = copy_str(nb.as_str());
            (Some(nb2), Some(FsOp::RenameBlob(b, nb)))
        },
        None => (None, None),
    };
    let moved = FileMetadata { date, file_type, url, filename, actual_filename: new_blob };
    ops.push(FsOp::WriteRecord(copy_str(target), moved));
    match move_blob {
        Some(op) => ops.push(op),
        None => {},
    }
    ops.push(FsOp::RemoveRecord(copy_str(source)));
    proof {
        let expected = rename_outcome(source@, target@, loaded_view(loaded), target_taken)->Ok_0;
        match mv.actual_filename {
            Some(b) => {
                assert(moved@ == with_blob(mv, renamed_blob_name(target@, b)));
                assert(move_blob matches Some(op) && op@ == OpView::RenameBlob(
                    b,
                    renamed_blob_name(target@, b),
                ));
            },
            None => {
                assert(moved@ == mv);
            },
        }
        assert(ops_view(ops@) =~= expected);
    }
    Ok(ops)
}

} // verus!

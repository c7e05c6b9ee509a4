//! The plan of an upload: which blob and record a new item gets, and the URL
//! that is handed back.
use vstd::prelude::*;
use vstd::string::*;
use vstd::utf8::{decode_utf8, valid_utf8};

use crate::config::{Config, key_accepted};
use crate::names::{blob_name_for_upload, upload_blob_name, valid_id};
use crate::phrase::{MAX_NAME_ATTEMPTS, PhraseGenerator, every_phrase_free, is_phrase, words_view};
use crate::store::{FsOp, OpView, ops_view};
use crate::types::{Date, FileMetadata, FileType, MetaView, file_type_named};

verus! {

/// Why an upload was refused.
#[derive(Clone, Copy, Debug, PartialEq, Eq, Structural)]
pub enum UploadError {
    /// The API key is missing or unknown.
    Unauthorized,
    /// The kind is unknown, or is `url`, which cannot be uploaded directly.
    InvalidKind,
    /// No file name came with a file or a text.
    NoFilename,
    /// The blob of a file upload already exists.
    AlreadyExists,
    /// The content could not be read, or a write failed.
    IoError,
    /// No free name was found within the attempts allowed.
    NameExhausted,
}

/// Relies on std's `String::from_utf8`, which succeeds exactly on valid
/// UTF-8 and keeps the bytes as the string's encoding.
#[verifier::external_body]
fn utf8_text(bytes: &Vec<u8>) -> (r: Option<String>)
    ensures
        r is Some <==> valid_utf8(bytes@),
        r matches Some(s) ==> s@ == decode_utf8(bytes@),
{
    String::from_utf8(bytes.clone()).ok()
}

/// Leading bytes that are looked at for a URL scheme.
pub const URL_PREFIX_LEN: usize = 8;

/// A text upload is taken for a link when its first eight bytes hold `://`.
/// Shorter content is always text.
pub open spec fn looks_like_url(content: Seq<u8>) -> bool {
    &&& content.len() >= 8
    &&& exists|i: int|
        0 <= i <= 5 && #[trigger] content[i] == 58u8 && content[i + 1] == 47u8 && content[i + 2]
            == 47u8
}

/// What an upload does, when it is accepted: its steps on the directory and
/// the public URL it hands back.
pub struct UploadPlan {
    pub id: String,
    pub ops: Vec<FsOp>,
    pub url: String,
}

/// The record of an uploaded file or text.
pub open spec fn blob_record(
    date: Date,
    file_type: FileType,
    filename: Seq<char>,
    blob: Seq<char>,
) -> MetaView {
    MetaView {
        date,
        file_type,
        url: None,
        filename: Some(filename),
        actual_filename: Some(blob),
    }
}

/// The record of a link.
pub open spec fn link_record(date: Date, url: Seq<char>) -> MetaView {
    MetaView { date, file_type: FileType::Url, url: Some(url), filename: None, actual_filename: None }
}

/// The steps of an upload of `content` under `id`, as the uploader named it
/// `filename`, and the URL handed back; or why it is refused.
pub open spec fn upload_outcome(
    kind: Seq<char>,
    id: Seq<char>,
    filename: Option<Seq<char>>,
    content: Seq<u8>,
    date: Date,
    base_url: Seq<char>,
) -> Result<(Seq<OpView>, Seq<char>), UploadError> {
    match file_type_named(kind) {
        None => Err(UploadError::InvalidKind),
        Some(FileType::Url) => Err(UploadError::InvalidKind),
        Some(t) => match filename {
            None => Err(UploadError::NoFilename),
            Some(name) => if name.len() == 0 {
                Err(UploadError::NoFilename)
            } else {
                let blob = upload_blob_name(id, name);
                let url = base_url + id;
                if t == FileType::File {
                    Ok(
                        (
                            seq![
                                OpView::WriteBlob(blob, content, true),
                                OpView::WriteRecord(id, blob_record(date, t, name, blob)),
                            ],
                            url,
                        ),
                    )
                } else if !valid_utf8(content) {
                    Err(UploadError::IoError)
                } else if looks_like_url(content) {
                    Ok(
                        (
                            seq![OpView::WriteRecord(id, link_record(date, decode_utf8(content)))],
                            url,
                        ),
                    )
                } else {
                    Ok(
                        (
                            seq![
                                OpView::WriteBlob(blob, content, false),
                                OpView::WriteRecord(id, blob_record(date, t, name, blob)),
                            ],
                            url,
                        ),
                    )
                }
            },
        },
    }
}

/// The view of an upload plan or its error.
pub open spec fn upload_view(r: Result<UploadPlan, UploadError>) -> Result<
    (Seq<OpView>, Seq<char>),
    UploadError,
> {
    match r {
        Ok(p) => Ok((ops_view(p.ops@), p.url@)),
        Err(e) => Err(e),
    }
}

/// Whether the content's first eight bytes hold `://`.
pub fn is_url_like(content: &Vec<u8>) -> (r: bool)
    ensures
        r == looks_like_url(content@),
{
    if content.len() < URL_PREFIX_LEN {
        return false;
    }
    let mut i: usize = 0;
    while i <= 5
        invariant
            content@.len() >= 8,
            0 <= i <= 6,
            forall|k: int|
                0 <= k < i ==> !(#[trigger] content@[k] == 58u8 && content@[k + 1] == 47u8
                    && content@[k + 2] == 47u8),
        decreases 6 - i,
    {
        if content[i] == 58u8 && content[i + 1] == 47u8 && content[i + 2] == 47u8 {
            return true;
        }
        i += 1;
    }
    false
}

/// Plans the upload of `content` under the fresh id `id`. `kind` is the
/// route's kind, `filename` the name the uploader gave, `date` the time of
/// the upload and `base_url` the public prefix of item URLs. A file becomes a
/// blob that may not exist yet; a text becomes a blob, or a link when its
/// first bytes hold a URL scheme.
pub fn plan_upload(
    kind: &str,
    id: &str,
    filename: Option<String>,
    content: Vec<u8>,
    date: Date,
    base_url: &str,
) -> (r: Result<UploadPlan, UploadError>)
    requires
        valid_id(id@),
        date.wf(),
    ensures
        upload_view(r) == upload_outcome(
            kind@,
            id@,
            crate::types::opt_view(filename),
            content@,
            date,
            base_url@,
        ),
        r matches Ok(p) ==> p.id@ == id@,
        r matches Ok(p) ==> forall|i: int|
            0 <= i < p.ops@.len() ==> (#[trigger] p.ops@[i] matches FsOp::WriteRecord(_, m)
                ==> m.wf()),
{
    let t = match FileType::from_str(kind) {
        Some(FileType::Url) => return Err(UploadError::InvalidKind),
        Some(t) => t,
        None => return Err(UploadError::InvalidKind),
    };
    let name = match filename {
        Some(n) => n,
        None => return Err(UploadError::NoFilename),
    };
    if name.as_str().unicode_len() == 0 {
        return Err(UploadError::NoFilename);
    }
    let blob = blob_name_for_upload(id, name.as_str());
    let mut url = String::from_str(base_url);
    url.append(id);
    proof {
        crate::names::lemma_upload_blob_plain(id@, name@);
    }
    let mut ops: Vec<FsOp> = Vec::new();
    match t {
        FileType::File => {
            let blob2 = String::from_str(blob.as_str());
            ops.push(FsOp::WriteBlob(blob, content, true));
            let m = FileMetadata {
                date,
                file_type: t,
                url: None,
                filename: Some(name),
                actual_filename: Some(blob2),
            };
            ops.push(FsOp::WriteRecord(String::from_str(id), m));
        },
        _ => {
            let text = match utf8_text(&content) {
                Some(s) => s,
                None => return Err(UploadError::IoError),
            };
            if is_url_like(&content) {
                let m = FileMetadata {
                    date,
                    file_type: FileType::Url,
                    url: Some(text),
                    filename: None,
                    actual_filename: None,
                };
                ops.push(FsOp::WriteRecord(String::from_str(id), m));
            } else {
                let blob2 = String::from_str(blob.as_str());
                ops.push(FsOp::WriteBlob(blob, content, false));
                let m = FileMetadata {
                    date,
                    file_type: t,
                    url: None,
                    filename: Some(name),
                    actual_filename: Some(blob2),
                };
                ops.push(FsOp::WriteRecord(String::from_str(id), m));
            }
        },
    }
    proof {
        let expected = upload_outcome(
            kind@,
            id@,
            crate::types::opt_view(filename),
            content@,
            date,
            base_url@,
        );
        assert(ops_view(ops@) =~= expected->Ok_0.0);
    }
    Ok(UploadPlan { id: String::from_str(id), ops, url })
}

/// Uploads `content` for the holder of `api_key`: checks the key and the
/// kind, draws an id that none of `existing` has, and plans the upload under
/// it. The id is random, so which one comes, and whether a free one is found
/// within the attempts allowed, is not fixed by the inputs.
pub fn upload(
    config: &Config,
    phrases: &PhraseGenerator,
    existing: &Vec<String>,
    api_key: Option<&str>,
    kind: &str,
    filename: Option<String>,
    content: Vec<u8>,
    date: Date,
) -> (r: Result<UploadPlan, UploadError>)
    requires
        phrases.wf(),
        date.wf(),
    ensures
        (r == Err::<UploadPlan, UploadError>(UploadError::Unauthorized)) <==> !(api_key matches Some(
            k,
        ) && key_accepted(config.api_keys@, k@)),
        r matches Ok(p) ==> {
            &&& valid_id(p.id@)
            &&& is_phrase(phrases.adjective_words(), phrases.noun_words(), p.id@)
            &&& forall|k: int| 0 <= k < existing@.len() ==> (#[trigger] existing@[k])@ != p.id@
            &&& upload_view(r) == upload_outcome(
                kind@,
                p.id@,
                crate::types::opt_view(filename),
                content@,
                date,
                config.external_url@,
            )
        },
        r matches Err(e) ==> e == UploadError::Unauthorized || e == UploadError::NameExhausted
            || exists|id: Seq<char>|
            valid_id(id) && upload_outcome(
                kind@,
                id,
                crate::types::opt_view(filename),
                content@,
                date,
                config.external_url@,
            ) == Err::<(Seq<OpView>, Seq<char>), UploadError>(e),
        (api_key matches Some(k) && key_accepted(config.api_keys@, k@)) && file_type_named(kind@)
            != Some(FileType::File) && file_type_named(kind@) != Some(FileType::Text) ==> r == Err::<
            UploadPlan,
            UploadError,
        >(UploadError::InvalidKind),
        (api_key matches Some(k) && key_accepted(config.api_keys@, k@)) && every_phrase_free(
            phrases.adjective_words(),
            phrases.noun_words(),
            words_view(existing@),
        ) ==> r != Err::<UploadPlan, UploadError>(UploadError::NameExhausted),
{
    let key = match api_key {
        Some(k) => k,
        None => return Err(UploadError::Unauthorized),
    };
    if !config.accepts_api_key(key) {
        return Err(UploadError::Unauthorized);
    }
    match FileType::from_str(kind) {
        Some(FileType::File) => {},
        Some(FileType::Text) => {},
        _ => {
            proof {
                let id = seq!['a'];
                assert(valid_id(id));
                assert(upload_outcome(
                    kind@,
                    id,
                    crate::types::opt_view(filename),
                    content@,
                    date,
                    config.external_url@,
                ) == Err::<(Seq<OpView>, Seq<char>), UploadError>(UploadError::InvalidKind));
            }
            return Err(UploadError::InvalidKind);
        },
    }
    let id = match phrases.generate_unique(existing, MAX_NAME_ATTEMPTS) {
        Ok(id) => id,
        Err(e) => return Err(e),
    };
    plan_upload(kind, id.as_str(), filename, content, date, config.external_url.as_str())
}

} // verus!

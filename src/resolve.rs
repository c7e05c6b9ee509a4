//! What a request for an item's id resolves to.
use vstd::prelude::*;
use vstd::string::*;
use vstd::utf8::valid_utf8;

use crate::names::{is_safe_name, safe_name};
use crate::store::{Disk, stored};
use crate::types::{FileMetadata, FileType, LoadError, MetaView, loaded_view};

verus! {

/// Whether iron reads the text as a URL.
pub uninterp spec fn url_parses(text: Seq<char>) -> bool;

/// Relies on iron's `Url::parse`, which succeeds or fails on the text alone.
#[verifier::external_body]
fn parses_as_url(text: &str) -> (r: bool)
    ensures
        r == url_parses(text@),
{
    iron::Url::parse(text).is_ok()
}

/// What a request for an id resolves to, before any blob is read.
pub enum Resolution {
    /// No item, or no usable record, under that id.
    NotFound,
    /// The id or the stored link is not acceptable.
    Invalid,
    /// Send the blob, offered for download under the uploader's file name.
    ServeBlob { blob: String, display_name: String },
    /// Redirect to the stored link.
    Redirect { url: String },
    /// Show the blob as text, with the item's public URL.
    RenderText { blob: String, url: String },
}

/// A resolution, as values.
pub enum ResolutionView {
    NotFound,
    Invalid,
    ServeBlob { blob: Seq<char>, display_name: Seq<char> },
    Redirect { url: Seq<char> },
    RenderText { blob: Seq<char>, url: Seq<char> },
}

impl View for Resolution {
    type V = ResolutionView;

    open spec fn view(&self) -> ResolutionView {
        match self {
            Resolution::NotFound => ResolutionView::NotFound,
            Resolution::Invalid => ResolutionView::Invalid,
            Resolution::ServeBlob { blob, display_name } => ResolutionView::ServeBlob {
                blob: blob@,
                display_name: display_name@,
            },
            Resolution::Redirect { url } => ResolutionView::Redirect { url: url@ },
            Resolution::RenderText { blob, url } => ResolutionView::RenderText {
                blob: blob@,
                url: url@,
            },
        }
    }
}

/// What a request for `id` resolves to, given what loading its record gave.
/// Every load error reads as `NotFound`.
pub open spec fn resolve_outcome(
    base_url: Seq<char>,
    id: Seq<char>,
    loaded: Result<MetaView, LoadError>,
) -> ResolutionView {
    if !safe_name(id) {
        ResolutionView::Invalid
    } else {
        match loaded {
            Err(_) => ResolutionView::NotFound,
            Ok(m) => match m.file_type {
                FileType::File => match (m.actual_filename, m.filename) {
                    (Some(b), Some(n)) => ResolutionView::ServeBlob { blob: b, display_name: n },
                    _ => ResolutionView::NotFound,
                },
                FileType::Url => match m.url {
                    Some(u) => if url_parses(u) {
                        ResolutionView::Redirect { url: u }
                    } else {
                        ResolutionView::Invalid
                    },
                    None => ResolutionView::NotFound,
                },
                FileType::Text => match m.actual_filename {
                    Some(b) => ResolutionView::RenderText { blob: b, url: base_url + id },
                    None => ResolutionView::NotFound,
                },
            },
        }
    }
}

/// What a request for an id serves, once blobs are read.
pub enum Served {
    NotFound,
    Invalid,
    File { content: Seq<u8>, display_name: Seq<char> },
    Redirect { url: Seq<char> },
    Text { content: Seq<u8>, url: Seq<char> },
}

/// What a request for `id` serves from the directory `d`: a blob that is
/// missing, or a text blob that is not UTF-8, is `NotFound`.
pub open spec fn serve(d: Disk, base_url: Seq<char>, id: Seq<char>) -> Served {
    match resolve_outcome(base_url, id, stored(d, id)) {
        ResolutionView::NotFound => Served::NotFound,
        ResolutionView::Invalid => Served::Invalid,
        ResolutionView::ServeBlob { blob, display_name } => if d.blobs.contains_key(blob) {
            Served::File { content: d.blobs[blob], display_name }
        } else {
            Served::NotFound
        },
        ResolutionView::Redirect { url } => Served::Redirect { url },
        ResolutionView::RenderText { blob, url } => if d.blobs.contains_key(blob) && valid_utf8(
            d.blobs[blob],
        ) {
            Served::Text { content: d.blobs[blob], url }
        } else {
            Served::NotFound
        },
    }
}

/// Resolves a request for `id`, given what loading its record gave. The id
/// is checked before anything else: one with `.`, `/` or `\` is `Invalid`
/// whatever was loaded.
pub fn resolve_record(base_url: &str, id: &str, loaded: Result<FileMetadata, LoadError>) -> (r:
    Resolution)
    ensures
        r@ == resolve_outcome(base_url@, id@, loaded_view(loaded)),
{
    if !is_safe_name(id) {
        return Resolution::Invalid;
    }
    let m = match loaded {
        Ok(m) => m,
        Err(_) => return Resolution::NotFound,
    };
    match m.file_type {
        FileType::File => match (m.actual_filename, m.filename) {
            (Some(b), Some(n)) => Resolution::ServeBlob { blob: b, display_name: n },
            _ => Resolution::NotFound,
        },
        FileType::Url => match m.url {
            Some(u) => {
                if parses_as_url(u.as_str()) {
                    Resolution::Redirect { url: u }
                } else {
                    Resolution::Invalid
                }
            },
            None => Resolution::NotFound,
        },
        FileType::Text => match m.actual_filename {
            Some(b) => {
                let mut url = String::from_str(base_url);
                url.append(id);
                Resolution::RenderText { blob: b, url }
            },
            None => Resolution::NotFound,
        },
    }
}

} // verus!

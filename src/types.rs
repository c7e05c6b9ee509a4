//! The record kept beside each shared item, and the date it carries.
use vstd::prelude::*;

use crate::names::{is_plain_file_name, plain_file_name};

verus! {

/// A plain error message, for errors that carry nothing but text.
pub struct StringError(pub String);

impl StringError {
    /// The message this error carries.
    pub fn message(&self) -> (r: &String)
        ensures
            r@ == self.0@,
    {
        &self.0
    }
}

/// The different kinds of shared item.
#[derive(Clone, Copy, Debug, PartialEq, Eq, Structural)]
pub enum FileType {
    File,
    Url,
    Text,
}

/// The kind named by an upload route segment, if any.
pub open spec fn file_type_named(name: Seq<char>) -> Option<FileType> {
    if name == "file"@ {
        Some(FileType::File)
    } else if name == "url"@ {
        Some(FileType::Url)
    } else if name == "text"@ {
        Some(FileType::Text)
    } else {
        None
    }
}

/// Whether items of this kind keep their content in a blob.
pub open spec fn has_blob(t: FileType) -> bool {
    t != FileType::Url
}

impl FileType {
    /// Parses a file type from its route form: `file`, `url` or `text`.
    pub fn from_str(name: &str) -> (r: Option<FileType>)
        ensures
            r == file_type_named(name@),
    {
        let file = "file";
        let url = "url";
        let text = "text";
        if crate::names::str_equal(name, file) {
            Some(FileType::File)
        } else if crate::names::str_equal(name, url) {
            Some(FileType::Url)
        } else if crate::names::str_equal(name, text) {
            Some(FileType::Text)
        } else {
            None
        }
    }

    /// Whether items of this kind keep their content in a blob.
    pub fn has_blob(&self) -> (r: bool)
        ensures
            r == has_blob(*self),
    {
        match self {
            FileType::Url => false,
            _ => true,
        }
    }
}

/// Earliest local second that the RFC 2822 form can write: 0000-01-01 00:00:00.
pub const MIN_LOCAL_SECONDS: i64 = -62167219200;

/// Latest local second that the RFC 2822 form can write: 9999-12-31 23:59:59.
pub const MAX_LOCAL_SECONDS: i64 = 253402300799;

/// Exclusive bound on the size of a UTC offset, in seconds.
pub const OFFSET_LIMIT: i32 = 86400;

/// A point in time with the UTC offset it was written in.
#[derive(Clone, Copy, Debug, PartialEq, Eq, Structural)]
pub struct Date {
    /// Seconds since 1970-01-01 00:00:00 UTC.
    pub timestamp: i64,
    /// Seconds east of UTC.
    pub offset: i32,
}

/// The RFC 2822 text that chrono writes for a date.
pub uninterp spec fn rfc2822_text(timestamp: i64, offset: i32) -> Seq<char>;

/// The instant, offset and sub-second nanoseconds that chrono reads from
/// RFC 2822 text, if it reads one.
pub uninterp spec fn rfc2822_fields(text: Seq<char>) -> Option<(i64, i32, u32)>;

/// Relies on chrono's `DateTime::to_rfc2822` on the date with this instant and
/// offset. It panics only for local years outside 0..=9999, which `requires`
/// leaves out.
#[verifier::external_body]
fn format_rfc2822(timestamp: i64, offset: i32) -> (r: String)
    requires
        -86400 < offset < 86400,
        MIN_LOCAL_SECONDS <= timestamp + offset <= MAX_LOCAL_SECONDS,
    ensures
        r@ == rfc2822_text(timestamp, offset),
{
    let zone = chrono::FixedOffset::east_opt(offset).unwrap();
    chrono::DateTime::from_timestamp(timestamp, 0).unwrap().with_timezone(&zone).to_rfc2822()
}

/// Relies on chrono's `DateTime::parse_from_rfc2822`: the instant, the offset
/// and the sub-second nanoseconds of what it parsed (not zero only for a
/// leap second). chrono's `FixedOffset` holds offsets under a day.
#[verifier::external_body]
fn parse_rfc2822(text: &str) -> (r: Option<(i64, i32, u32)>)
    ensures
        r == rfc2822_fields(text@),
        r matches Some(p) ==> -86400 < p.1 < 86400,
{
    chrono::DateTime::parse_from_rfc2822(text).ok().map(
        |d| (d.timestamp(), d.offset().local_minus_utc(), d.timestamp_subsec_nanos()),
    )
}

impl Date {
    /// The offset is under a day and the local time lies in years 0 to 9999.
    pub open spec fn wf(&self) -> bool {
        &&& -86400 < self.offset < 86400
        &&& MIN_LOCAL_SECONDS <= self.timestamp + self.offset <= MAX_LOCAL_SECONDS
    }

    /// Whether a date with these fields is well formed.
    pub fn is_valid(timestamp: i64, offset: i32) -> (r: bool)
        ensures
            r == (Date { timestamp, offset }).wf(),
    {
        -OFFSET_LIMIT < offset && offset < OFFSET_LIMIT && MIN_LOCAL_SECONDS - (offset as i64)
            <= timestamp && timestamp <= MAX_LOCAL_SECONDS - (offset as i64)
    }

    /// The date in RFC 2822 form, as it is kept on disk.
    pub fn to_rfc2822(&self) -> (r: String)
        requires
            self.wf(),
        ensures
            r@ == rfc2822_text(self.timestamp, self.offset),
    {
        format_rfc2822(self.timestamp, self.offset)
    }

    /// Reads a date in RFC 2822 form; `None` where chrono reads none, where it
    /// reads a leap second (a `Date` holds whole seconds, so one could not be
    /// written back as it was read), or where what it reads is not well
    /// formed.
    pub fn parse_rfc2822(text: &str) -> (r: Option<Date>)
        ensures
            r == date_from_text(text@),
            r matches Some(d) ==> d.wf(),
    {
        match parse_rfc2822(text) {
            Some(p) => {
                if p.2 == 0 && Date::is_valid(p.0, p.1) {
                    Some(Date { timestamp: p.0, offset: p.1 })
                } else {
                    None
                }
            },
            None => None,
        }
    }
}

/// The well-formed date read from RFC 2822 text, if any; a leap second is
/// none.
pub open spec fn date_from_text(text: Seq<char>) -> Option<Date> {
    match rfc2822_fields(text) {
        Some(p) => {
            let d = Date { timestamp: p.0, offset: p.1 };
            if p.2 == 0 && d.wf() {
                Some(d)
            } else {
                None
            }
        },
        None => None,
    }
}

/// The view of an optional string.
pub open spec fn opt_view(o: Option<String>) -> Option<Seq<char>> {
    match o {
        Some(s) => Some(s@),
        None => None,
    }
}

/// The record of one shared item, as values.
pub struct MetaView {
    pub date: Date,
    pub file_type: FileType,
    pub url: Option<Seq<char>>,
    pub filename: Option<Seq<char>>,
    pub actual_filename: Option<Seq<char>>,
}

/// The record kept beside each shared item. The item's id is not in it: it
/// is the name of the file the record is kept in.
pub struct FileMetadata {
    /// When the item was uploaded.
    pub date: Date,
    /// What kind of item this is.
    pub file_type: FileType,
    /// Where a link points; present exactly for links.
    pub url: Option<String>,
    /// The name the uploader gave; present exactly for files and texts.
    pub filename: Option<String>,
    /// The name of the blob on disk; present exactly for files and texts.
    pub actual_filename: Option<String>,
}

impl View for FileMetadata {
    type V = MetaView;

    open spec fn view(&self) -> MetaView {
        MetaView {
            date: self.date,
            file_type: self.file_type,
            url: opt_view(self.url),
            filename: opt_view(self.filename),
            actual_filename: opt_view(self.actual_filename),
        }
    }
}

/// A record holds exactly the fields its kind needs, a well-formed date,
/// and a blob name that stays inside the storage directory.
pub open spec fn record_wf(m: MetaView) -> bool {
    &&& m.date.wf()
    &&& if has_blob(m.file_type) {
        &&& m.url is None
        &&& m.filename is Some
        &&& m.actual_filename matches Some(b) && plain_file_name(b)
    } else {
        &&& m.url is Some
        &&& m.filename is None
        &&& m.actual_filename is None
    }
}

/// Why a record could not be loaded.
#[derive(Clone, Copy, Debug, PartialEq, Eq, Structural)]
pub enum LoadError {
    /// No record is kept under that id.
    NotFound,
    /// The record's file could not be read.
    Unreadable,
    /// The record's file does not hold a well-formed record.
    Malformed,
}

/// The record built from the fields kept on disk, or `Malformed`.
pub open spec fn record_from_fields(
    date: Seq<char>,
    file_type: FileType,
    url: Option<Seq<char>>,
    filename: Option<Seq<char>>,
    actual_filename: Option<Seq<char>>,
) -> Result<MetaView, LoadError> {
    match date_from_text(date) {
        Some(d) => {
            let m = MetaView { date: d, file_type, url, filename, actual_filename };
            if record_wf(m) {
                Ok(m)
            } else {
                Err(LoadError::Malformed)
            }
        },
        None => Err(LoadError::Malformed),
    }
}

/// The view of the result of loading a record.
pub open spec fn loaded_view(r: Result<FileMetadata, LoadError>) -> Result<MetaView, LoadError> {
    match r {
        Ok(m) => Ok(m@),
        Err(e) => Err(e),
    }
}

/// A copy of an optional string.
fn clone_opt(o: &Option<String>) -> (r: Option<String>)
    ensures
        opt_view(r) == opt_view(*o),
{
    match o {
        Some(s) => Some(s.clone()),
        None => None,
    }
}

impl FileMetadata {
    /// The record is well formed.
    pub open spec fn wf(&self) -> bool {
        record_wf(self@)
    }

    /// Builds a record from the fields kept on disk: the date in RFC 2822
    /// form, the kind, and the optional names. A date that does not parse, or
    /// fields that do not fit the kind, make the record `Malformed`.
    pub fn from_fields(
        date: &str,
        file_type: FileType,
        url: Option<String>,
        filename: Option<String>,
        actual_filename: Option<String>,
    ) -> (r: Result<FileMetadata, LoadError>)
        ensures
            loaded_view(r) == record_from_fields(
                date@,
                file_type,
                opt_view(url),
                opt_view(filename),
                opt_view(actual_filename),
            ),
            r matches Ok(m) ==> m.wf(),
    {
        let d = match Date::parse_rfc2822(date) {
            Some(d) => d,
            None => return Err(LoadError::Malformed),
        };
        let fields_fit = if file_type.has_blob() {
            url.is_none() && filename.is_some() && match &actual_filename {
                Some(b) => is_plain_file_name(b.as_str()),
                None => false,
            }
        } else {
            url.is_some() && filename.is_none() && actual_filename.is_none()
        };
        if fields_fit {
            Ok(FileMetadata { date: d, file_type, url, filename, actual_filename })
        } else {
            Err(LoadError::Malformed)
        }
    }

    /// The date of this record in the form it is kept on disk.
    pub fn date_text(&self) -> (r: String)
        requires
            self.date.wf(),
        ensures
            r@ == rfc2822_text(self.date.timestamp, self.date.offset),
    {
        self.date.to_rfc2822()
    }

    /// A copy of this record.
    pub fn duplicate(&self) -> (r: FileMetadata)
        ensures
            r@ == self@,
    {
        FileMetadata {
            date: self.date,
            file_type: self.file_type,
            url: clone_opt(&self.url),
            filename: clone_opt(&self.filename),
            actual_filename: clone_opt(&self.actual_filename),
        }
    }
}

} // verus!

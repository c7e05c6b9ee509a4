use filepush::names::{
    blob_name_for_rename, blob_name_for_upload, extension_of, is_plain_file_name, is_safe_name,
    sidecar_file_name,
};
use filepush::phrase::{as_capital_case, lines_of};
use filepush::types::{Date, FileMetadata, FileType, LoadError, StringError};

#[test]
fn file_type_from_route_names() {
    assert_eq!(FileType::from_str("file"), Some(FileType::File));
    assert_eq!(FileType::from_str("url"), Some(FileType::Url));
    assert_eq!(FileType::from_str("text"), Some(FileType::Text));
    assert_eq!(FileType::from_str("File"), None);
    assert_eq!(FileType::from_str(""), None);
    assert_eq!(FileType::from_str("zip"), None);
}

#[test]
fn safe_names_reject_traversal_characters() {
    assert!(is_safe_name("BraveFox"));
    assert!(is_safe_name(""));
    assert!(!is_safe_name("Brave.Fox"));
    assert!(!is_safe_name(".."));
    assert!(!is_safe_name("a/b"));
    assert!(!is_safe_name("a\\b"));
}

#[test]
fn plain_file_names_stay_in_the_directory() {
    assert!(is_plain_file_name("BraveFox.pdf"));
    assert!(is_plain_file_name("BraveFox"));
    assert!(!is_plain_file_name(""));
    assert!(!is_plain_file_name("."));
    assert!(!is_plain_file_name(".."));
    assert!(!is_plain_file_name("../etc/passwd"));
    assert!(!is_plain_file_name("a\\b"));
}

#[test]
fn extension_is_the_last_dot_segment() {
    assert_eq!(extension_of("report.pdf"), Some("pdf".to_string()));
    assert_eq!(extension_of("archive.tar.gz"), Some("gz".to_string()));
    assert_eq!(extension_of("README"), None);
    assert_eq!(extension_of("trailing."), Some(String::new()));
    assert_eq!(extension_of("odd.b/c"), None);
    assert_eq!(extension_of(""), None);
}

#[test]
fn upload_blob_names_keep_the_extension() {
    assert_eq!(blob_name_for_upload("BraveFox", "report.pdf"), "BraveFox.pdf");
    assert_eq!(blob_name_for_upload("BraveFox", "archive.tar.gz"), "BraveFox.gz");
    assert_eq!(blob_name_for_upload("BraveFox", "README"), "BraveFox");
    assert_eq!(blob_name_for_upload("BraveFox", "x."), "BraveFox.");
}

#[test]
fn renamed_blob_names_keep_everything_from_the_first_dot() {
    assert_eq!(blob_name_for_rename("CalmOwl", "BraveFox.pdf"), "CalmOwl.pdf");
    assert_eq!(blob_name_for_rename("CalmOwl", "BraveFox.tar.gz"), "CalmOwl.tar.gz");
    assert_eq!(blob_name_for_rename("CalmOwl", "BraveFox"), "CalmOwl");
}

#[test]
fn sidecar_names_end_in_info_json() {
    assert_eq!(sidecar_file_name("BraveFox"), "BraveFox.info.json");
}

#[test]
fn capital_case_uppercases_the_first_letter() {
    assert_eq!(as_capital_case("brave"), "Brave");
    assert_eq!(as_capital_case("b"), "B");
    assert_eq!(as_capital_case(""), "");
    assert_eq!(as_capital_case("fOX"), "FOX");
    assert_eq!(as_capital_case("élan"), "Élan");
    assert_eq!(as_capital_case("9lives"), "9lives");
}

#[test]
fn lines_split_on_line_breaks() {
    assert_eq!(lines_of("brave\ncalm"), vec!["brave".to_string(), "calm".to_string()]);
    assert_eq!(lines_of(""), vec!["".to_string()]);
    assert_eq!(lines_of("a\n"), vec!["a".to_string(), "".to_string()]);
}

#[test]
fn rfc2822_dates_parse_to_instant_and_offset() {
    let d = Date::parse_rfc2822("Mon, 11 Dec 2017 10:28:36 +0000").unwrap();
    assert_eq!(d, Date { timestamp: 1512988116, offset: 0 });
    let e = Date::parse_rfc2822("Tue, 1 Jul 2003 10:52:37 +0200").unwrap();
    assert_eq!(e, Date { timestamp: 1057049557, offset: 7200 });
    assert_eq!(Date::parse_rfc2822("yesterday"), None);
    assert_eq!(Date::parse_rfc2822("Sat, 31 Dec 2016 23:59:60 +0000"), None);
}

#[test]
fn rfc2822_dates_write_back_the_same_text() {
    for text in ["Mon, 11 Dec 2017 10:28:36 +0000", "Tue, 1 Jul 2003 10:52:37 +0200"] {
        let d = Date::parse_rfc2822(text).unwrap();
        assert_eq!(d.to_rfc2822(), text);
    }
}

#[test]
fn date_validity_bounds() {
    assert!(Date::is_valid(0, 0));
    assert!(!Date::is_valid(0, 86400));
    assert!(Date::is_valid(253402300799, 0));
    assert!(!Date::is_valid(253402300800, 0));
    assert!(!Date::is_valid(-62167219201, 0));
}

#[test]
fn records_load_from_well_formed_fields() {
    let m = FileMetadata::from_fields(
        "Mon, 11 Dec 2017 10:28:36 +0000",
        FileType::File,
        None,
        Some("report.pdf".to_string()),
        Some("BraveFox.pdf".to_string()),
    )
    .unwrap();
    assert_eq!(m.file_type, FileType::File);
    assert_eq!(m.date_text(), "Mon, 11 Dec 2017 10:28:36 +0000");
    let link = FileMetadata::from_fields(
        "Mon, 11 Dec 2017 10:28:36 +0000",
        FileType::Url,
        Some("https://example.com/".to_string()),
        None,
        None,
    );
    assert!(link.is_ok());
}

#[test]
fn records_with_wrong_fields_are_malformed() {
    let date = "Mon, 11 Dec 2017 10:28:36 +0000";
    let no_url = FileMetadata::from_fields(date, FileType::Url, None, None, None);
    assert_eq!(no_url.err(), Some(LoadError::Malformed));
    let no_blob =
        FileMetadata::from_fields(date, FileType::Text, None, Some("a.txt".to_string()), None);
    assert_eq!(no_blob.err(), Some(LoadError::Malformed));
    let escaping = FileMetadata::from_fields(
        date,
        FileType::File,
        None,
        Some("x".to_string()),
        Some("../secret".to_string()),
    );
    assert_eq!(escaping.err(), Some(LoadError::Malformed));
    let bad_date = FileMetadata::from_fields(
        "not a date",
        FileType::File,
        None,
        Some("x".to_string()),
        Some("BraveFox".to_string()),
    );
    assert_eq!(bad_date.err(), Some(LoadError::Malformed));
}

#[test]
fn string_error_keeps_its_message() {
    let e = StringError("boom".to_string());
    assert_eq!(e.message(), "boom");
}


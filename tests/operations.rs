use std::collections::HashMap;

use filepush::config::{APIKey, Config, UserCredentials};
use filepush::phrase::PhraseGenerator;
use filepush::resolve::{Resolution, resolve_record};
use filepush::store::{FsOp, ModifyError, plan_delete, plan_rename};
use filepush::types::{Date, FileMetadata, FileType, LoadError};
use filepush::upload::{UploadError, is_url_like, plan_upload, upload};

const BASE: &str = "https://files.example/";

fn today() -> Date {
    Date { timestamp: 1512988116, offset: 0 }
}

/// The storage directory in memory.
struct MemoryDisk {
    records: HashMap<String, FileMetadata>,
    blobs: HashMap<String, Vec<u8>>,
}

/// What a request for an id serves from memory.
#[derive(Debug, PartialEq)]
enum Answer {
    NotFound,
    Invalid,
    File(Vec<u8>, String),
    Redirect(String),
    Text(String, String),
}

fn empty_disk() -> MemoryDisk {
    MemoryDisk { records: HashMap::new(), blobs: HashMap::new() }
}

fn run_ops(d: &mut MemoryDisk, ops: Vec<FsOp>) -> bool {
    for op in ops {
        match op {
            FsOp::RemoveBlob(n) => {
                d.blobs.remove(&n);
            }
            FsOp::RemoveRecord(id) => {
                if d.records.remove(&id).is_none() {
                    return false;
                }
            }
            FsOp::RenameBlob(a, b) => match d.blobs.remove(&a) {
                Some(c) => {
                    d.blobs.insert(b, c);
                }
                None => return false,
            },
            FsOp::WriteBlob(n, c, exclusive) => {
                if exclusive && d.blobs.contains_key(&n) {
                    return false;
                }
                d.blobs.insert(n, c);
            }
            FsOp::WriteRecord(id, m) => {
                d.records.insert(id, m);
            }
        }
    }
    true
}

fn load_from(d: &MemoryDisk, id: &str) -> Result<FileMetadata, LoadError> {
    match d.records.get(id) {
        Some(m) => Ok(m.duplicate()),
        None => Err(LoadError::NotFound),
    }
}

fn fetch(d: &MemoryDisk, id: &str) -> Answer {
    match resolve_record(BASE, id, load_from(d, id)) {
        Resolution::NotFound => Answer::NotFound,
        Resolution::Invalid => Answer::Invalid,
        Resolution::ServeBlob { blob, display_name } => match d.blobs.get(&blob) {
            Some(c) => Answer::File(c.clone(), display_name),
            None => Answer::NotFound,
        },
        Resolution::Redirect { url } => Answer::Redirect(url),
        Resolution::RenderText { blob, url } => match d.blobs.get(&blob) {
            Some(c) => match String::from_utf8(c.clone()) {
                Ok(t) => Answer::Text(t, url),
                Err(_) => Answer::NotFound,
            },
            None => Answer::NotFound,
        },
    }
}

fn put(d: &mut MemoryDisk, kind: &str, id: &str, name: &str, content: &[u8]) -> String {
    let plan =
        plan_upload(kind, id, Some(name.to_string()), content.to_vec(), today(), BASE).unwrap();
    assert!(run_ops(d, plan.ops));
    plan.url
}

fn sample_config() -> Config {
    Config {
        bind_addr: "127.0.0.1:8080".to_string(),
        external_url: BASE.to_string(),
        base_path: "/srv/files/".to_string(),
        api_keys: vec![APIKey { key: "k3y".to_string(), comment: Some("ci".to_string()) }],
        users: vec![UserCredentials {
            username: "alice".to_string(),
            password: "PsgPwPqo24t+bpnHQTYFSWWQGorff9b1GxlipMDcqxw=".to_string(),
        }],
        key: "0123456789abcdef0123456789abcdef".to_string(),
    }
}

#[test]
fn upload_of_a_file_then_get_serves_the_bytes() {
    let mut d = empty_disk();
    let content = b"%PDF-1.4 some bytes".to_vec();
    let url = put(&mut d, "file", "BraveFox", "report.pdf", &content);
    assert_eq!(url, "https://files.example/BraveFox");
    assert!(d.blobs.contains_key("BraveFox.pdf"));
    assert_eq!(fetch(&d, "BraveFox"), Answer::File(content, "report.pdf".to_string()));
}

#[test]
fn upload_of_text_then_get_renders_it_verbatim() {
    let mut d = empty_disk();
    put(&mut d, "text", "CalmOwl", "note.txt", b"hello world");
    assert_eq!(
        fetch(&d, "CalmOwl"),
        Answer::Text("hello world".to_string(), "https://files.example/CalmOwl".to_string())
    );
}

#[test]
fn text_with_a_scheme_becomes_a_link() {
    let mut d = empty_disk();
    put(&mut d, "text", "QuickCat", "link.txt", b"https://example.com/page");
    assert!(d.blobs.is_empty());
    assert_eq!(fetch(&d, "QuickCat"), Answer::Redirect("https://example.com/page".to_string()));
}

#[test]
fn short_text_with_a_scheme_stays_text() {
    assert!(!is_url_like(&b"a://b".to_vec()));
    assert!(is_url_like(&b"http://x".to_vec()));
    assert!(!is_url_like(&b"hello world".to_vec()));
    let mut d = empty_disk();
    put(&mut d, "text", "TinyAnt", "x.txt", b"a://b");
    assert_eq!(
        fetch(&d, "TinyAnt"),
        Answer::Text("a://b".to_string(), "https://files.example/TinyAnt".to_string())
    );
}

#[test]
fn upload_refuses_bad_kinds_and_missing_names() {
    let go = |kind: &str, name: Option<String>, content: &[u8]| {
        plan_upload(kind, "BraveFox", name, content.to_vec(), today(), BASE).err()
    };
    assert_eq!(go("zip", Some("a.zip".to_string()), b"x"), Some(UploadError::InvalidKind));
    assert_eq!(go("url", Some("a".to_string()), b"x"), Some(UploadError::InvalidKind));
    assert_eq!(go("file", None, b"x"), Some(UploadError::NoFilename));
    assert_eq!(go("text", Some(String::new()), b"x"), Some(UploadError::NoFilename));
    assert_eq!(go("text", Some("a.txt".to_string()), &[0xff, 0xfe]), Some(UploadError::IoError));
}

#[test]
fn file_upload_never_overwrites_a_blob() {
    let mut d = empty_disk();
    d.blobs.insert("BraveFox.pdf".to_string(), b"old".to_vec());
    let plan =
        plan_upload("file", "BraveFox", Some("r.pdf".to_string()), b"new".to_vec(), today(), BASE)
            .unwrap();
    assert!(!run_ops(&mut d, plan.ops));
    assert_eq!(d.blobs.get("BraveFox.pdf"), Some(&b"old".to_vec()));
}

#[test]
fn upload_checks_the_api_key_first() {
    let config = sample_config();
    let phrases = PhraseGenerator::new("brave\ncalm", "fox\nowl");
    let none: Vec<String> = Vec::new();
    let refused =
        upload(&config, &phrases, &none, Some("nope"), "file", None, Vec::new(), today());
    assert_eq!(refused.err(), Some(UploadError::Unauthorized));
    let missing = upload(&config, &phrases, &none, None, "file", None, Vec::new(), today());
    assert_eq!(missing.err(), Some(UploadError::Unauthorized));
    let kind = upload(&config, &phrases, &none, Some("k3y"), "url", None, Vec::new(), today());
    assert_eq!(kind.err(), Some(UploadError::InvalidKind));
}

#[test]
fn upload_hands_back_a_two_word_id() {
    let config = sample_config();
    let phrases = PhraseGenerator::new("brave\ncalm", "fox\nowl");
    let taken = vec!["BraveFox".to_string()];
    let plan = upload(
        &config,
        &phrases,
        &taken,
        Some("k3y"),
        "file",
        Some("report.pdf".to_string()),
        b"%PDF-1.4...".to_vec(),
        today(),
    )
    .unwrap();
    assert!(["BraveOwl", "CalmFox", "CalmOwl"].contains(&plan.id.as_str()));
    assert_eq!(plan.url, format!("{}{}", BASE, plan.id));
    let mut d = empty_disk();
    assert!(run_ops(&mut d, plan.ops));
    assert_eq!(
        fetch(&d, &plan.id),
        Answer::File(b"%PDF-1.4...".to_vec(), "report.pdf".to_string())
    );
}

#[test]
fn upload_gives_up_when_every_name_is_taken() {
    let config = sample_config();
    let phrases = PhraseGenerator::new("brave", "fox");
    let taken = vec!["BraveFox".to_string()];
    let r = upload(
        &config,
        &phrases,
        &taken,
        Some("k3y"),
        "file",
        Some("a.txt".to_string()),
        b"x".to_vec(),
        today(),
    );
    assert_eq!(r.err(), Some(UploadError::NameExhausted));
}

#[test]
fn traversal_ids_are_refused_without_loading() {
    for bad in ["a.b", "a/b", "a\\b", ".."] {
        assert_eq!(plan_delete(bad, Err(LoadError::NotFound)).err(), Some(ModifyError::InvalidName));
        assert_eq!(
            plan_rename(bad, "Good", Err(LoadError::NotFound), false).err(),
            Some(ModifyError::InvalidName)
        );
        assert_eq!(
            plan_rename("Good", bad, Err(LoadError::NotFound), false).err(),
            Some(ModifyError::InvalidName)
        );
        assert!(matches!(resolve_record(BASE, bad, Err(LoadError::NotFound)), Resolution::Invalid));
    }
}

#[test]
fn rename_moves_blob_and_record() {
    let mut d = empty_disk();
    put(&mut d, "file", "BraveFox", "report.pdf", b"data");
    let ops = plan_rename("BraveFox", "CalmOwl", load_from(&d, "BraveFox"), false).unwrap();
    assert!(run_ops(&mut d, ops));
    assert_eq!(fetch(&d, "BraveFox"), Answer::NotFound);
    assert_eq!(fetch(&d, "CalmOwl"), Answer::File(b"data".to_vec(), "report.pdf".to_string()));
    assert!(d.blobs.contains_key("CalmOwl.pdf"));
    assert!(!d.blobs.contains_key("BraveFox.pdf"));
}

#[test]
fn rename_onto_a_taken_id_is_a_conflict() {
    let mut d = empty_disk();
    put(&mut d, "file", "BraveFox", "a.txt", b"a");
    put(&mut d, "file", "CalmOwl", "b.txt", b"b");
    let r = plan_rename("BraveFox", "CalmOwl", load_from(&d, "BraveFox"), d.records.contains_key("CalmOwl"));
    assert_eq!(r.err(), Some(ModifyError::Conflict));
    let missing = plan_rename("Nobody", "Other", load_from(&d, "Nobody"), false);
    assert_eq!(missing.err(), Some(ModifyError::NotFound));
    let empty = plan_rename("BraveFox", "", load_from(&d, "BraveFox"), false);
    assert_eq!(empty.err(), Some(ModifyError::InvalidName));
}

#[test]
fn delete_removes_blob_and_record() {
    let mut d = empty_disk();
    put(&mut d, "text", "CalmOwl", "note.txt", b"hello");
    let ops = plan_delete("CalmOwl", load_from(&d, "CalmOwl")).unwrap();
    assert!(run_ops(&mut d, ops));
    assert_eq!(fetch(&d, "CalmOwl"), Answer::NotFound);
    assert!(d.blobs.is_empty());
    assert!(d.records.is_empty());
    assert_eq!(plan_delete("CalmOwl", load_from(&d, "CalmOwl")).err(), Some(ModifyError::NotFound));
}

#[test]
fn rename_then_delete_leaves_nothing() {
    let mut d = empty_disk();
    put(&mut d, "file", "BraveFox", "report.pdf", b"data");
    let ops = plan_rename("BraveFox", "CalmOwl", load_from(&d, "BraveFox"), false).unwrap();
    assert!(run_ops(&mut d, ops));
    let ops = plan_delete("CalmOwl", load_from(&d, "CalmOwl")).unwrap();
    assert!(run_ops(&mut d, ops));
    assert!(d.records.is_empty());
    assert!(d.blobs.is_empty());
}

#[test]
fn link_records_redirect_or_are_invalid() {
    let good = FileMetadata {
        date: today(),
        file_type: FileType::Url,
        url: Some("https://example.com/".to_string()),
        filename: None,
        actual_filename: None,
    };
    assert!(matches!(
        resolve_record(BASE, "Link", Ok(good)),
        Resolution::Redirect { url } if url == "https://example.com/"
    ));
    let bad = FileMetadata {
        date: today(),
        file_type: FileType::Url,
        url: Some("not a url".to_string()),
        filename: None,
        actual_filename: None,
    };
    assert!(matches!(resolve_record(BASE, "Link", Ok(bad)), Resolution::Invalid));
}

#[test]
fn missing_blob_is_not_found_even_with_a_record() {
    let mut d = empty_disk();
    put(&mut d, "file", "BraveFox", "report.pdf", b"data");
    d.blobs.clear();
    assert_eq!(fetch(&d, "BraveFox"), Answer::NotFound);
    assert!(matches!(
        resolve_record(BASE, "BraveFox", load_from(&d, "BraveFox")),
        Resolution::ServeBlob { .. }
    ));
    assert!(matches!(
        resolve_record(BASE, "Gone", Err(LoadError::Malformed)),
        Resolution::NotFound
    ));
}

#[test]
fn every_step_of_a_rename_keeps_the_item_reachable() {
    let mut d = empty_disk();
    put(&mut d, "file", "BraveFox", "report.pdf", b"data");
    let ops = plan_rename("BraveFox", "CalmOwl", load_from(&d, "BraveFox"), false).unwrap();
    assert!(matches!(ops[0], FsOp::WriteRecord(ref id, _) if id == "CalmOwl"));
    let expected = Answer::File(b"data".to_vec(), "report.pdf".to_string());
    let mut steps = ops.into_iter();
    assert!(run_ops(&mut d, vec![steps.next().unwrap()]));
    assert_eq!(fetch(&d, "BraveFox"), expected);
    assert!(run_ops(&mut d, vec![steps.next().unwrap()]));
    assert_eq!(fetch(&d, "CalmOwl"), expected);
    assert!(run_ops(&mut d, steps.collect()));
    assert_eq!(fetch(&d, "BraveFox"), Answer::NotFound);
    assert_eq!(fetch(&d, "CalmOwl"), expected);
}

#[test]
fn upload_with_a_valid_key_and_unknown_kind_is_invalid_kind() {
    let config = sample_config();
    let phrases = PhraseGenerator::new("brave", "fox");
    let taken = vec!["BraveFox".to_string()];
    let r = upload(&config, &phrases, &taken, Some("k3y"), "zip", None, Vec::new(), today());
    assert_eq!(r.err(), Some(UploadError::InvalidKind));
}

#[test]
fn upload_with_only_free_names_finds_one() {
    let config = sample_config();
    let phrases = PhraseGenerator::new("brave", "fox");
    let r = upload(
        &config,
        &phrases,
        &Vec::new(),
        Some("k3y"),
        "text",
        Some("a.txt".to_string()),
        b"hello".to_vec(),
        today(),
    )
    .unwrap();
    assert_eq!(r.id, "BraveFox");
}

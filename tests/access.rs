use filepush::assets::{AssetTable, content_type_for, get_file, get_static_file, list_files};
use filepush::auth::{
    AuthError, SessionStore, User, homepage_redirect, login_redirect, parse_token, session_token,
};
use filepush::phrase::{PhraseGenerator, RandomFilename};
use filepush::config::{APIKey, Config, ConfigContainer, UserCredentials, password_digest};
use filepush::listing::{ManageMetadata, record_id_of, sort_newest_first};
use filepush::split::{ChainSplit, starts_with};
use filepush::types::{Date, FileMetadata, FileType};

fn access_config() -> Config {
    Config {
        bind_addr: "127.0.0.1:8080".to_string(),
        external_url: "https://files.example/".to_string(),
        base_path: "/srv/files/".to_string(),
        api_keys: vec![
            APIKey { key: "first".to_string(), comment: None },
            APIKey { key: "second".to_string(), comment: Some("backup".to_string()) },
        ],
        users: vec![
            UserCredentials {
                username: "alice".to_string(),
                password: "PsgPwPqo24t+bpnHQTYFSWWQGorff9b1GxlipMDcqxw=".to_string(),
            },
            UserCredentials { username: "alice".to_string(), password: "other".to_string() },
        ],
        key: "0123456789abcdef0123456789abcdef".to_string(),
    }
}

#[test]
fn password_digest_is_base64_of_sha3() {
    assert_eq!(password_digest("hunter2"), "PsgPwPqo24t+bpnHQTYFSWWQGorff9b1GxlipMDcqxw=");
    assert_eq!(password_digest("abc"), "Ophdp0/iJbIEXBcta9OQvYVfCG4+nVJbRr/iRRFDFTI=");
}

#[test]
fn login_is_decided_by_the_first_user_of_that_name() {
    let c = access_config();
    assert!(c.check_login("alice", "hunter2"));
    assert!(!c.check_login("alice", "wrong"));
    assert!(!c.check_digest("alice", "other"));
    assert!(!c.check_login("bob", "hunter2"));
}

#[test]
fn api_keys_are_matched_exactly() {
    let c = access_config();
    assert!(c.accepts_api_key("first"));
    assert!(c.accepts_api_key("second"));
    assert!(!c.accepts_api_key("firs"));
    assert!(!c.accepts_api_key(""));
}

#[test]
fn config_container_hands_back_its_config() {
    let holder = ConfigContainer::new(access_config());
    assert_eq!(holder.config().base_path, "/srv/files/");
}

#[test]
fn wrong_password_redirects_with_error_and_manage_is_refused() {
    let c = access_config();
    let mut sessions = SessionStore::new();
    let token = sessions.login(&c, "alice", "wrong");
    assert_eq!(token, None);
    assert_eq!(login_redirect(token.is_some()), ".?error=invalid-login");
    assert_eq!(sessions.require_user(token).err(), Some(AuthError::Unauthorized));
}

#[test]
fn right_password_opens_a_session_until_logout() {
    let c = access_config();
    let mut sessions = SessionStore::new();
    let token = sessions.login(&c, "alice", "hunter2");
    assert!(token.is_some());
    assert_eq!(login_redirect(true), "manage");
    assert_eq!(sessions.require_user(token), Ok("alice".to_string()));
    let gone = sessions.logout(token);
    assert_eq!(gone.map(|u| u.username), Some("alice".to_string()));
    assert_eq!(sessions.require_user(token).err(), Some(AuthError::Unauthorized));
    assert!(sessions.logout(None).is_none());
}

#[test]
fn session_tokens_are_not_reused() {
    let mut sessions = SessionStore::new();
    assert!(sessions.insert(7, User { username: "a".to_string() }));
    assert!(!sessions.insert(7, User { username: "b".to_string() }));
    assert_eq!(sessions.username(7), Some("a".to_string()));
    assert_eq!(sessions.remove(7).map(|u| u.username), Some("a".to_string()));
    assert_eq!(sessions.username(7), None);
}

#[test]
fn homepage_sends_logged_in_users_to_manage() {
    assert_eq!(homepage_redirect(true), Some("manage".to_string()));
    assert_eq!(homepage_redirect(false), None);
}

#[test]
fn split_sends_session_paths_left() {
    let split = ChainSplit::new(
        1u8,
        2u8,
        vec!["delete/".to_string(), "upload/".to_string(), "rename/".to_string()],
        vec!["".to_string(), "login".to_string(), "logout".to_string(), "manage".to_string()],
    );
    assert!(split.goes_left("delete/BraveFox"));
    assert!(split.goes_left("rename/A/B"));
    assert!(split.goes_left(""));
    assert!(split.goes_left("manage"));
    assert!(!split.goes_left("managed"));
    assert!(!split.goes_left("css/main.css"));
    assert!(!split.goes_left("BraveFox"));
    assert_eq!(*split.left(), 1u8);
    assert_eq!(*split.right(), 2u8);
    assert!(starts_with("abc", "ab"));
    assert!(!starts_with("a", "ab"));
}

#[test]
fn asset_table_finds_files_by_path() {
    let mut t = AssetTable::new();
    assert!(t.insert("css/main.css".to_string(), b"body{}".to_vec()));
    assert!(t.insert("js/manage.js".to_string(), b"f()".to_vec()));
    assert!(!t.insert("css/main.css".to_string(), b"other".to_vec()));
    assert_eq!(get_file(&t, "css/main.css"), Some(&b"body{}".to_vec()));
    assert_eq!(get_file(&t, "BraveFox"), None);
    assert_eq!(list_files(&t), vec!["css/main.css".to_string(), "js/manage.js".to_string()]);
}

#[test]
fn static_files_get_a_content_type() {
    let mut t = AssetTable::new();
    t.insert("css/main.css".to_string(), b"body{}".to_vec());
    let (content, kind) = get_static_file(&t, "css/main.css").unwrap();
    assert_eq!(content, &b"body{}".to_vec());
    assert_eq!(kind, "text/css");
    assert!(get_static_file(&t, "css/none.css").is_none());
    assert_eq!(content_type_for("js/vue.min.js"), "text/javascript");
    assert_eq!(content_type_for("docs/report.pdf"), "application/pdf");
    assert_eq!(content_type_for("LICENSE"), "application/octet-stream");
    assert_eq!(content_type_for(".hidden"), "application/octet-stream");
    assert_eq!(content_type_for("a.b/noext"), "application/octet-stream");
    assert_eq!(content_type_for("file.unknownext"), "application/octet-stream");
}

#[test]
fn record_files_name_their_ids() {
    assert_eq!(record_id_of("BraveFox.info.json"), Some("BraveFox".to_string()));
    assert_eq!(record_id_of("BraveFox.pdf"), None);
    assert_eq!(record_id_of("BraveFox.json"), None);
}

fn entry(name: &str, timestamp: i64) -> ManageMetadata {
    ManageMetadata {
        name: name.to_string(),
        meta: FileMetadata {
            date: Date { timestamp, offset: 0 },
            file_type: FileType::Url,
            url: Some("https://example.com/".to_string()),
            filename: None,
            actual_filename: None,
        },
    }
}

#[test]
fn listing_is_newest_first() {
    let sorted = sort_newest_first(vec![entry("Old", 10), entry("New", 30), entry("Mid", 20)]);
    let names: Vec<String> = sorted.into_iter().map(|e| e.name).collect();
    assert_eq!(names, vec!["New".to_string(), "Mid".to_string(), "Old".to_string()]);
    assert!(sort_newest_first(Vec::new()).is_empty());
}

#[test]
fn session_tokens_are_read_from_cookie_pairs() {
    assert_eq!(parse_token("42"), Some(42));
    assert_eq!(parse_token("18446744073709551615"), Some(u64::MAX));
    assert_eq!(parse_token("18446744073709551616"), None);
    assert_eq!(parse_token(""), None);
    assert_eq!(parse_token("4x2"), None);
    let pairs = vec!["theme=dark".to_string(), "session=1234".to_string(), "session=99".to_string()];
    assert_eq!(session_token(&pairs), Some(1234));
    assert_eq!(session_token(&vec!["session=".to_string()]), None);
    assert_eq!(session_token(&vec!["other=1".to_string()]), None);
}

#[test]
fn phrases_join_a_capitalised_adjective_and_noun() {
    let g = PhraseGenerator::new("brave\ncalm", "fox");
    assert!(g.has_words());
    for _ in 0..20 {
        let p = g.generate();
        assert!(p == "BraveFox" || p == "CalmFox");
        let f = RandomFilename::from(&g);
        assert!(f.filename == "BraveFox" || f.filename == "CalmFox");
    }
    let taken = vec!["BraveFox".to_string()];
    assert_eq!(g.generate_unique(&taken, 64), Ok("CalmFox".to_string()));
    let dotted = PhraseGenerator::new("a.b", "c");
    assert!(dotted.generate_unique(&Vec::new(), 8).is_err());
}

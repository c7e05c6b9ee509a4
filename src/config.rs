//! Runtime configuration: where to listen and store, and who may log in or
//! upload.
use vstd::prelude::*;
use vstd::utf8::encode_utf8;

use crate::names::str_equal;

verus! {

/// A key that lets a program upload.
pub struct APIKey {
    pub key: String,
    pub comment: Option<String>,
}

/// The credentials of one user.
pub struct UserCredentials {
    /// The user's name.
    pub username: String,
    /// The user's password, hashed with SHA3-256 and written in base64.
    pub password: String,
}

/// The configuration: runtime properties and credentials.
pub struct Config {
    pub bind_addr: String,
    pub external_url: String,
    pub base_path: String,
    pub api_keys: Vec<APIKey>,
    pub users: Vec<UserCredentials>,
    pub key: String,
}

/// SHA3-256 of the bytes, as tiny-keccak computes it.
pub uninterp spec fn sha3_256_of(data: Seq<u8>) -> Seq<u8>;

/// The standard base64 text of the bytes, with padding, as base64 writes it.
pub uninterp spec fn base64_of(data: Seq<u8>) -> Seq<char>;

/// Relies on tiny-keccak's `sha3_256`, a function of the bytes alone that
/// gives 32 bytes.
#[verifier::external_body]
fn sha3_256(data: &[u8]) -> (r: Vec<u8>)
    ensures
        r@ == sha3_256_of(data@),
        r@.len() == 32,
{
    tiny_keccak::sha3_256(data).to_vec()
}

/// Relies on base64's `encode`, the standard alphabet with padding.
#[verifier::external_body]
fn base64_encode(data: &[u8]) -> (r: String)
    ensures
        r@ == base64_of(data@),
{
    base64::encode(data)
}

/// The stored form of a password: SHA3-256 of its UTF-8 bytes, in base64.
pub open spec fn password_digest_of(password: Seq<char>) -> Seq<char> {
    base64_of(sha3_256_of(encode_utf8(password)))
}

/// A login is accepted when the first user with that name has that password
/// digest.
pub open spec fn login_accepted(users: Seq<UserCredentials>, username: Seq<char>, digest: Seq<
    char,
>) -> bool {
    exists|i: int|
        0 <= i < users.len() && (#[trigger] users[i]).username@ == username && users[i].password@
            == digest && forall|j: int| 0 <= j < i ==> (#[trigger] users[j]).username@ != username
}

/// One of the keys is `key`.
pub open spec fn key_accepted(keys: Seq<APIKey>, key: Seq<char>) -> bool {
    exists|i: int| 0 <= i < keys.len() && (#[trigger] keys[i]).key@ == key
}

/// The stored form of a password.
pub fn password_digest(password: &str) -> (r: String)
    ensures
        r@ == password_digest_of(password@),
{
    let bytes = password.as_bytes();
    let hash = sha3_256(bytes);
    base64_encode(hash.as_slice())
}

impl Config {
    /// Whether the first user named `username` has the password digest
    /// `digest`.
    pub fn check_digest(&self, username: &str, digest: &str) -> (r: bool)
        ensures
            r == login_accepted(self.users@, username@, digest@),
    {
        let mut i: usize = 0;
        while i < self.users.len()
            invariant
                0 <= i <= self.users@.len(),
                forall|j: int| 0 <= j < i ==> (#[trigger] self.users@[j]).username@ != username@,
            decreases self.users@.len() - i,
        {
            if str_equal(self.users[i].username.as_str(), username) {
                let ok = str_equal(self.users[i].password.as_str(), digest);
                proof {
                    if !ok {
                        assert forall|k: int|
                            0 <= k < self.users@.len() && (#[trigger] self.users@[k]).username@
                                == username@ && self.users@[k].password@ == digest@ implies exists|
                            j: int,
                        |
                            0 <= j < k && (#[trigger] self.users@[j]).username@ == username@ by {
                            if k > i {
                                assert(self.users@[i as int].username@ == username@);
                            }
                        }
                    }
                }
                return ok;
            }
            i += 1;
        }
        false
    }

    /// Whether `password` is the password of the first user named
    /// `username`.
    pub fn check_login(&self, username: &str, password: &str) -> (r: bool)
        ensures
            r == login_accepted(self.users@, username@, password_digest_of(password@)),
    {
        let digest = password_digest(password);
        self.check_digest(username, digest.as_str())
    }

    /// Whether `key` is one of the API keys.
    pub fn accepts_api_key(&self, key: &str) -> (r: bool)
        ensures
            r == key_accepted(self.api_keys@, key@),
    {
        let mut i: usize = 0;
        while i < self.api_keys.len()
            invariant
                0 <= i <= self.api_keys@.len(),
                forall|j: int| 0 <= j < i ==> (#[trigger] self.api_keys@[j]).key@ != key@,
            decreases self.api_keys@.len() - i,
        {
            if str_equal(self.api_keys[i].key.as_str(), key) {
                return true;
            }
            i += 1;
        }
        false
    }
}

/// The configuration as shared by every request, read only after startup.
pub struct ConfigContainer {
    config: Config,
}

impl ConfigContainer {
    /// The configuration held.
    pub closed spec fn held(&self) -> &Config {
        &self.config
    }

    /// Holds a configuration for sharing.
    pub fn new(config: Config) -> (r: ConfigContainer)
        ensures
            r.held() == config,
    {
        ConfigContainer { config }
    }

    /// The configuration held.
    pub fn config(&self) -> (r: &Config)
        ensures
            r == self.held(),
    {
        &self.config
    }
}

} // verus!

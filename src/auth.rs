//! Interactive sessions: who is logged in under which token, and what the
//! login, logout, homepage and management pages decide.
use vstd::prelude::*;
use vstd::string::*;
use std::collections::HashMap;

use crate::config::{Config, login_accepted, password_digest_of};

verus! {

broadcast use vstd::std_specs::hash::group_hash_axioms;

/// A logged-in user.
pub struct User {
    pub username: String,
}

/// Relies on rand's `random`, a value drawn from the thread's generator.
#[verifier::external_body]
fn random_token() -> (r: u64) {
    rand::random::<u64>()
}

/// Tokens drawn before a login gives up on finding a free one.
pub const TOKEN_ATTEMPTS: usize = 8;

/// The sessions in memory, by token.
pub struct SessionStore {
    sessions: HashMap<u64, User>,
}

/// The name of each user of a table of sessions.
pub open spec fn names_of(m: Map<u64, User>) -> Map<u64, Seq<char>> {
    m.map_values(|u: User| u.username@)
}

impl View for SessionStore {
    type V = Map<u64, Seq<char>>;

    closed spec fn view(&self) -> Map<u64, Seq<char>> {
        names_of(self.sessions@)
    }
}

/// Why a page was refused.
#[derive(Clone, Copy, Debug, PartialEq, Eq, Structural)]
pub enum AuthError {
    /// No valid session, or no valid API key.
    Unauthorized,
}

impl SessionStore {
    /// An empty table.
    pub fn new() -> (r: SessionStore)
        ensures
            r@ == Map::<u64, Seq<char>>::empty(),
    {
        let r = SessionStore { sessions: HashMap::new() };
        assert(r@ =~= Map::<u64, Seq<char>>::empty());
        r
    }

    /// Starts a session for `user` under `token`, unless that token is taken.
    pub fn insert(&mut self, token: u64, user: User) -> (r: bool)
        ensures
            r == !old(self)@.contains_key(token),
            final(self)@ == if r {
                old(self)@.insert(token, user.username@)
            } else {
                old(self)@
            },
    {
        if self.sessions.contains_key(&token) {
            return false;
        }
        let ghost before = self.sessions@;
        let ghost name = user.username@;
        self.sessions.insert(token, user);
        assert(names_of(self.sessions@) =~= names_of(before).insert(token, name));
        true
    }

    /// The name of the user of a session, if the token has one.
    pub fn username(&self, token: u64) -> (r: Option<String>)
        ensures
            match r {
                Some(s) => self@.contains_key(token) && s@ == self@[token],
                None => !self@.contains_key(token),
            },
    {
        match self.sessions.get(&token) {
            Some(u) => Some(u.username.clone()),
            None => None,
        }
    }

    /// Ends the session of a token, handing back its user if it had one.
    pub fn remove(&mut self, token: u64) -> (r: Option<User>)
        ensures
            final(self)@ == old(self)@.remove(token),
            match r {
                Some(u) => old(self)@.contains_key(token) && u.username@ == old(self)@[token],
                None => !old(self)@.contains_key(token),
            },
    {
        let ghost before = self.sessions@;
        let r = self.sessions.remove(&token);
        assert(names_of(self.sessions@) =~= names_of(before).remove(token));
        r
    }

    /// Checks a login against the configuration and, when it is accepted,
    /// starts a session under a fresh random token. A refused login changes
    /// nothing. An accepted one can still come back `None` if every token
    /// drawn was taken.
    pub fn login(&mut self, config: &Config, username: &str, password: &str) -> (r: Option<u64>)
        ensures
            !login_accepted(config.users@, username@, password_digest_of(password@)) ==> (r is None
                && final(self)@ == old(self)@),
            match r {
                Some(t) => !old(self)@.contains_key(t) && final(self)@ == old(self)@.insert(
                    t,
                    username@,
                ),
                None => final(self)@ == old(self)@,
            },
            login_accepted(config.users@, username@, password_digest_of(password@)) && old(self)@
                == Map::<u64, Seq<char>>::empty() ==> r is Some,
    {
        if !config.check_login(username, password) {
            return None;
        }
        let mut tries: usize = 0;
        while tries < TOKEN_ATTEMPTS
            invariant
                self@ == old(self)@,
                old(self)@ == Map::<u64, Seq<char>>::empty() ==> tries == 0,
                login_accepted(config.users@, username@, password_digest_of(password@)),
            decreases TOKEN_ATTEMPTS - tries,
        {
            let token = random_token();
            if self.insert(token, User { username: String::from_str(username) }) {
                return Some(token);
            }
            tries += 1;
        }
        None
    }

    /// Ends the session of `token`, if there is one.
    pub fn logout(&mut self, token: Option<u64>) -> (r: Option<User>)
        ensures
            match token {
                Some(t) => final(self)@ == old(self)@.remove(t) && (r is Some <==> old(
                    self,
                )@.contains_key(t)),
                None => final(self)@ == old(self)@ && r is None,
            },
    {
        match token {
            Some(t) => self.remove(t),
            None => None,
        }
    }

    /// The user a restricted page is shown to: the user of the session, or
    /// `Unauthorized` without one.
    pub fn require_user(&self, token: Option<u64>) -> (r: Result<String, AuthError>)
        ensures
            match token {
                Some(t) => match r {
                    Ok(s) => self@.contains_key(t) && s@ == self@[t],
                    Err(_) => !self@.contains_key(t),
                },
                None => r is Err,
            },
    {
        match token {
            Some(t) => match self.username(t) {
                Some(s) => Ok(s),
                None => Err(AuthError::Unauthorized),
            },
            None => Err(AuthError::Unauthorized),
        }
    }
}

/// The name of the cookie that carries a session token.
pub open spec fn cookie_prefix() -> Seq<char> {
    "session="@
}

/// `s` is made of decimal digits only.
pub open spec fn is_digits(s: Seq<char>) -> bool {
    forall|i: int| 0 <= i < s.len() ==> '0' <= #[trigger] s[i] && s[i] <= '9'
}

/// The number that decimal digits write.
pub open spec fn digits_value(s: Seq<char>) -> nat
    decreases s.len(),
{
    if s.len() == 0 {
        0
    } else {
        digits_value(s.drop_last()) * 10 + ((s.last() as u32 - '0' as u32) as nat)
    }
}

/// The token that a cookie value writes: one or more decimal digits whose
/// number fits in 64 bits.
pub open spec fn token_of(s: Seq<char>) -> Option<u64> {
    if s.len() > 0 && is_digits(s) && digits_value(s) <= u64::MAX {
        Some(digits_value(s) as u64)
    } else {
        None
    }
}

/// The session token of the first cookie pair named `session`, if any.
pub open spec fn token_in(pairs: Seq<Seq<char>>) -> Option<u64>
    decreases pairs.len(),
{
    if pairs.len() == 0 {
        None
    } else {
        let p = pairs[0];
        if crate::split::is_prefix(cookie_prefix(), p) {
            token_of(p.subrange(cookie_prefix().len() as int, p.len() as int))
        } else {
            token_in(pairs.drop_first())
        }
    }
}

/// A longer run of digits writes at least as large a number.
proof fn lemma_digits_grow(s: Seq<char>, k: int)
    requires
        0 <= k <= s.len(),
        is_digits(s),
    ensures
        digits_value(s.subrange(0, k)) <= digits_value(s),
    decreases s.len() - k,
{
    if k < s.len() {
        lemma_digits_grow(s, k + 1);
        let t = s.subrange(0, k + 1);
        assert(t.drop_last() =~= s.subrange(0, k));
        assert('0' <= s[k] && s[k] <= '9');
    } else {
        assert(s.subrange(0, k) =~= s);
    }
}

/// Reads a session token from a cookie value.
pub fn parse_token(s: &str) -> (r: Option<u64>)
    ensures
        r == token_of(s@),
{
    let n = s.unicode_len();
    if n == 0 {
        return None;
    }
    let mut v: u64 = 0;
    let mut i: usize = 0;
    assert(s@.subrange(0, 0).len() == 0);
    while i < n
        invariant
            n == s@.len(),
            0 <= i <= n,
            v as nat == digits_value(s@.subrange(0, i as int)),
            is_digits(s@.subrange(0, i as int)),
        decreases n - i,
    {
        let c = s.get_char(i);
        let ghost t = s@.subrange(0, i + 1);
        assert(t.drop_last() =~= s@.subrange(0, i as int));
        if c < '0' || c > '9' {
            assert(!is_digits(s@));
            return None;
        }
        let d = (c as u32 - '0' as u32) as u64;
        if v > (u64::MAX - d) / 10 {
            proof {
                assert(v * 10 + d > u64::MAX) by (nonlinear_arith)
                    requires
                        v > (u64::MAX - d) / 10,
                        d <= 9,
                ;
                assert(digits_value(t) == v * 10 + d);
                if is_digits(s@) {
                    lemma_digits_grow(s@, i + 1);
                }
            }
            return None;
        }
        assert(v * 10 + d <= u64::MAX) by (nonlinear_arith)
            requires
                v <= (u64::MAX - d) / 10,
                d <= 9,
        ;
        v = v * 10 + d;
        assert(is_digits(t));
        i += 1;
    }
    assert(s@.subrange(0, n as int) =~= s@);
    Some(v)
}

/// The session token of the first cookie pair named `session`, if it
/// holds one.
pub fn session_token(pairs: &Vec<String>) -> (r: Option<u64>)
    ensures
        r == token_in(crate::phrase::words_view(pairs@)),
{
    let ghost all = crate::phrase::words_view(pairs@);
    let mut i: usize = 0;
    assert(all.subrange(0, all.len() as int) =~= all);
    while i < pairs.len()
        invariant
            0 <= i <= pairs@.len(),
            all == crate::phrase::words_view(pairs@),
            token_in(all) == token_in(all.subrange(i as int, all.len() as int)),
        decreases pairs@.len() - i,
    {
        let p = pairs[i].as_str();
        let ghost rest = all.subrange(i as int, all.len() as int);
        assert(rest[0] == p@);
        assert(rest.drop_first() =~= all.subrange(i + 1, all.len() as int));
        if crate::split::starts_with(p, "session=") {
            let m = p.unicode_len();
            let k = "session=".unicode_len();
            return parse_token(p.substring_char(k, m));
        }
        i += 1;
    }
    None
}

/// Where a login sends the browser.
pub open spec fn login_target(accepted: bool) -> Seq<char> {
    if accepted {
        "manage"@
    } else {
        ".?error=invalid-login"@
    }
}

/// Where a login sends the browser: to the management page, or back home
/// with an error.
pub fn login_redirect(accepted: bool) -> (r: String)
    ensures
        r@ == login_target(accepted),
{
    if accepted {
        String::from_str("manage")
    } else {
        String::from_str(".?error=invalid-login")
    }
}

/// Where the homepage sends a logged-in browser; `None` shows the login form.
pub fn homepage_redirect(logged_in: bool) -> (r: Option<String>)
    ensures
        logged_in ==> (r matches Some(s) && s@ == "manage"@),
        !logged_in ==> r is None,
{
    if logged_in {
        Some(String::from_str("manage"))
    } else {
        None
    }
}

} // verus!

//! Sessions and logging in: the session cookie, CSRF tokens, password checks
//! and the decisions of the login and logout pages.

use argon2::password_hash::rand_core::OsRng;
use argon2::password_hash::{PasswordHash, PasswordHasher, PasswordVerifier, SaltString};
use argon2::Argon2;
use rand::Rng;
use vstd::prelude::*;
use vstd::string::StringSliceAdditionalSpecFns;

use crate::text::{
    chars_of, decimal, decimal_string, find_char, find_char_in, lemma_decimal_no_char,
    lemma_decimal_roundtrip, lemma_find_char_first, parse_i64_chars, parse_i64_spec, push_char,
    push_str, string_of,
};

verus! {

broadcast use vstd::utf8::encode_utf8_decode_utf8;

// ---------------------------------------------------------------------------
// The session cookie
// ---------------------------------------------------------------------------

/// The name of the session cookie.
pub fn cookie_name() -> (name: &'static str)
    ensures
        name@ == "session"@,
{
    "session"
}

/// The `SameSite` attribute of a cookie.
#[derive(Clone, Copy, Debug, PartialEq, Eq, Structural)]
pub enum SameSite {
    Strict,
    Lax,
    NoRestriction,
}

/// A cookie as the server sets it: its name and value and the attributes that
/// go with them. `max_age_seconds` is the `Max-Age` attribute.
#[derive(Debug)]
pub struct SessionCookie {
    pub name: String,
    pub value: String,
    pub http_only: bool,
    pub same_site: SameSite,
    pub secure: bool,
    pub max_age_seconds: i64,
    pub path: String,
}

/// Seven days, in seconds: how long a session cookie lives.
pub const SESSION_MAX_AGE_SECONDS: i64 = 604800;

/// The value of the session cookie of `user_id` with CSRF token `csrf`:
/// the decimal user id, a colon, then the token.
pub open spec fn session_value(user_id: int, csrf: Seq<char>) -> Seq<char> {
    decimal(user_id) + seq![':'] + csrf
}

/// What the session cookie of `user_id` with token `csrf` holds.
pub open spec fn is_session_cookie(c: SessionCookie, user_id: int, csrf: Seq<char>, secure: bool) -> bool {
    &&& c.name@ == "session"@
    &&& c.value@ == session_value(user_id, csrf)
    &&& c.http_only
    &&& c.same_site == SameSite::Lax
    &&& c.secure == secure
    &&& c.max_age_seconds == SESSION_MAX_AGE_SECONDS
    &&& c.path@ == "/"@
}

/// The session cookie for `user_id` (0 before logging in) carrying the CSRF
/// token `csrf`: HTTP-only, `SameSite=Lax`, `Secure` when `secure`, valid for
/// seven days on path `/`.
pub fn make_session_cookie(user_id: i64, csrf: &str, secure: bool) -> (c: SessionCookie)
    ensures
        is_session_cookie(c, user_id as int, csrf@, secure),
{
    let mut value = decimal_string(user_id);
    push_char(&mut value, ':');
    push_str(&mut value, csrf);
    assert(value@ =~= session_value(user_id as int, csrf@));
    SessionCookie {
        name: cookie_name().to_owned(),
        value,
        http_only: true,
        same_site: SameSite::Lax,
        secure,
        max_age_seconds: SESSION_MAX_AGE_SECONDS,
        path: "/".to_owned(),
    }
}

/// What `parse_session_cookie` reads from a cookie value: the user id before
/// the first colon and the CSRF token after it.
pub open spec fn parse_session_spec(v: Seq<char>) -> Option<(i64, Seq<char>)> {
    match find_char(v, ':') {
        Some(i) => match parse_i64_spec(v.take(i)) {
            Some(id) => Some((id, v.skip(i + 1))),
            None => None,
        },
        None => None,
    }
}

/// Splits a session cookie value at its first colon into the user id before
/// it and the CSRF token after it. `None` when there is no colon or the part
/// before it is not a decimal `i64`.
pub fn parse_session_cookie(value: &str) -> (r: Option<(i64, String)>)
    ensures
        match r {
            Some((id, csrf)) => parse_session_spec(value@) == Some((id, csrf@)),
            None => parse_session_spec(value@) is None,
        },
{
    let v = chars_of(value);
    match find_char_in(&v, ':') {
        Some(i) => {
            proof {
                crate::text::lemma_find_char(v@, ':');
            }
            assert(v@.subrange(0, i as int) == v@.take(i as int));
            match parse_i64_chars(&v, 0, i) {
                Some(id) => {
                    let csrf = string_of(&v, i + 1, v.len());
                    assert(csrf@ == v@.skip(i + 1));
                    Some((id, csrf))
                },
                None => None,
            }
        },
        None => None,
    }
}

/// The view of an optional cookie value.
pub open spec fn opt_view(c: Option<&str>) -> Option<Seq<char>> {
    match c {
        Some(s) => Some(s@),
        None => None,
    }
}

/// The CSRF token carried by the session cookie, if there is a well-formed one.
pub open spec fn session_csrf_spec(cookie: Option<Seq<char>>) -> Option<Seq<char>> {
    match cookie {
        Some(v) => match parse_session_spec(v) {
            Some((_, csrf)) => Some(csrf),
            None => None,
        },
        None => None,
    }
}

/// The CSRF token of the session cookie whose value is `session_cookie`.
pub fn get_session_csrf(session_cookie: Option<&str>) -> (r: Option<String>)
    ensures
        match r {
            Some(t) => session_csrf_spec(opt_view(session_cookie)) == Some(t@),
            None => session_csrf_spec(opt_view(session_cookie)) is None,
        },
{
    match session_cookie {
        Some(v) => match parse_session_cookie(v) {
            Some((_, csrf)) => Some(csrf),
            None => None,
        },
        None => None,
    }
}

/// The user that a session cookie names: its user id, when it is a logged-in
/// session (an id above zero).
pub open spec fn session_user_spec(cookie: Option<Seq<char>>) -> Option<i64> {
    match cookie {
        Some(v) => match parse_session_spec(v) {
            Some((id, _)) => if id > 0 {
                Some(id)
            } else {
                None
            },
            None => None,
        },
        None => None,
    }
}

/// The user id of a logged-in session; `None` sends the visitor to the login
/// page.
pub fn session_user_id(session_cookie: Option<&str>) -> (r: Option<i64>)
    ensures
        r == session_user_spec(opt_view(session_cookie)),
{
    match session_cookie {
        Some(v) => match parse_session_cookie(v) {
            Some((id, _)) => if id > 0 {
                Some(id)
            } else {
                None
            },
            None => None,
        },
        None => None,
    }
}

/// A session cookie read back gives the user id and CSRF token it was made
/// with.
pub proof fn lemma_session_cookie_roundtrip(user_id: i64, csrf: Seq<char>)
    ensures
        parse_session_spec(session_value(user_id as int, csrf)) == Some((user_id, csrf)),
{
    let d = decimal(user_id as int);
    let s = session_value(user_id as int, csrf);
    lemma_decimal_no_char(user_id as int, ':');
    assert(s[d.len() as int] == ':');
    assert forall|j: int| 0 <= j < d.len() implies s[j] != ':' by {
        assert(s[j] == d[j]);
    }
    lemma_find_char_first(s, ':', d.len() as int);
    assert(s.take(d.len() as int) == d);
    assert(s.skip(d.len() as int + 1) == csrf);
    lemma_decimal_roundtrip(user_id);
}

// ---------------------------------------------------------------------------
// CSRF tokens
// ---------------------------------------------------------------------------

/// Whether two strings are equal, looking at every byte whatever the first
/// difference (the strings' lengths are not hidden).
pub fn constant_time_eq(a: &str, b: &str) -> (eq: bool)
    ensures
        eq == (a@ == b@),
{
    let x = a.as_bytes();
    let y = b.as_bytes();
    if x.len() != y.len() {
        return false;
    }
    let mut acc: u8 = 0;
    let mut i: usize = 0;
    assert(x@.take(0) =~= y@.take(0));
    while i < x.len()
        invariant
            x@.len() == y@.len(),
            x@ == a.spec_bytes(),
            y@ == b.spec_bytes(),
            i <= x@.len(),
            (acc == 0) == (x@.take(i as int) =~= y@.take(i as int)),
        decreases x@.len() - i,
    {
        let p = x[i];
        let q = y[i];
        let d = p ^ q;
        assert((acc | d) == 0 <==> (acc == 0 && d == 0)) by (bit_vector);
        assert(d == 0 <==> p == q) by (bit_vector)
            requires
                d == p ^ q,
        ;
        proof {
            let xs = x@.take(i + 1);
            let ys = y@.take(i + 1);
            assert(xs.drop_last() =~= x@.take(i as int));
            assert(ys.drop_last() =~= y@.take(i as int));
            assert(xs.last() == p);
            assert(ys.last() == q);
            if xs =~= ys {
                assert(xs.drop_last() =~= ys.drop_last());
            }
            if x@.take(i as int) =~= y@.take(i as int) && p == q {
                assert(xs =~= ys);
            }
        }
        acc = acc | d;
        i += 1;
    }
    assert(x@.take(x@.len() as int) == x@);
    assert(y@.take(y@.len() as int) == y@);
    proof {
        if x@ =~= y@ {
            vstd::utf8::encode_utf8_decode_utf8(a@);
            vstd::utf8::encode_utf8_decode_utf8(b@);
        }
    }
    acc == 0
}

/// The lowercase hexadecimal digit for `n`, which is below sixteen.
pub open spec fn hex_digit(n: int) -> char {
    if n < 10 {
        ((n + 48) as u32) as char
    } else {
        ((n + 87) as u32) as char
    }
}

/// Lowercase hexadecimal: two digits per byte, high half first.
pub open spec fn hex_lower(b: Seq<u8>) -> Seq<char>
    decreases b.len(),
{
    if b.len() == 0 {
        seq![]
    } else {
        seq![hex_digit((b[0] / 16) as int), hex_digit((b[0] % 16) as int)] + hex_lower(b.drop_first())
    }
}

/// Whether `c` is one of `0-9a-f`.
pub open spec fn is_hex_lower_char(c: char) -> bool {
    (48 <= (c as u32) <= 57) || (97 <= (c as u32) <= 102)
}

/// What a CSRF token looks like: 32 lowercase hexadecimal digits.
pub open spec fn is_csrf_token(t: Seq<char>) -> bool {
    t.len() == 32 && forall|i: int| 0 <= i < t.len() ==> is_hex_lower_char(#[trigger] t[i])
}

/// `hex::encode`: lowercase hexadecimal, two digits per byte.
#[verifier::external_body]
fn hex_encode(data: &[u8]) -> (s: String)
    ensures
        s@ == hex_lower(data@),
{
    hex::encode(data)
}

/// `rand::thread_rng().gen::<[u8; 16]>()`: sixteen bytes from the thread's
/// random generator. Nothing is stated of their values.
#[verifier::external_body]
fn random_token_bytes() -> (b: Vec<u8>)
    ensures
        b@.len() == 16,
{
    let bytes: [u8; 16] = rand::thread_rng().gen();
    bytes.to_vec()
}

/// A fresh CSRF token: sixteen random bytes in lowercase hexadecimal.
pub fn generate_csrf_token() -> (t: String)
    ensures
        exists|b: Seq<u8>| b.len() == 16 && t@ == #[trigger] hex_lower(b),
{
    let bytes = random_token_bytes();
    let t = hex_encode(bytes.as_slice());
    assert(t@ == hex_lower(bytes@));
    t
}

proof fn lemma_hex_digit(n: int)
    requires
        0 <= n < 16,
    ensures
        is_hex_lower_char(hex_digit(n)),
{
    let u = if n < 10 {
        (n + 48) as u32
    } else {
        (n + 87) as u32
    };
    vstd::utf8::char_u32_cast(u as char, u);
}

/// Lowercase hexadecimal has two digits per byte, all of them in `0-9a-f`.
pub proof fn lemma_hex_lower_shape(b: Seq<u8>)
    ensures
        hex_lower(b).len() == 2 * b.len(),
        forall|i: int| 0 <= i < hex_lower(b).len() ==> is_hex_lower_char(#[trigger] hex_lower(b)[i]),
    decreases b.len(),
{
    if b.len() > 0 {
        lemma_hex_lower_shape(b.drop_first());
        lemma_hex_digit((b[0] / 16) as int);
        lemma_hex_digit((b[0] % 16) as int);
        let h = hex_lower(b);
        let t = hex_lower(b.drop_first());
        assert forall|i: int| 0 <= i < h.len() implies is_hex_lower_char(#[trigger] h[i]) by {
            if i >= 2 {
                assert(h[i] == t[i - 2]);
            }
        }
    }
}

/// Every token that `generate_csrf_token` gives is 32 lowercase hexadecimal
/// digits.
pub proof fn lemma_csrf_token_shape(b: Seq<u8>)
    requires
        b.len() == 16,
    ensures
        is_csrf_token(hex_lower(b)),
{
    lemma_hex_lower_shape(b);
}

// ---------------------------------------------------------------------------
// Passwords
// ---------------------------------------------------------------------------

/// Whether `password_hash::PasswordHash::new` accepts `hash` as a PHC string.
pub uninterp spec fn phc_string_parses(hash: Seq<char>) -> bool;

/// Whether Argon2 (`Argon2::default().verify_password`) finds that `password`
/// matches the PHC string `hash`.
pub uninterp spec fn argon2_verifies(password: Seq<char>, hash: Seq<char>) -> bool;

/// `PasswordHash::new(hash).is_ok()`: whether `hash` is a well-formed PHC
/// string.
#[verifier::external_body]
fn phc_parses(hash: &str) -> (ok: bool)
    ensures
        ok == phc_string_parses(hash@),
{
    PasswordHash::new(hash).is_ok()
}

/// `Argon2::default().verify_password(password, &PasswordHash::new(hash)?)`:
/// whether Argon2 accepts `password` for the well-formed PHC string `hash`.
/// The `Err` arm cannot be taken: `hash` parses by the precondition.
#[verifier::external_body]
fn argon2_verify(password: &str, hash: &str) -> (ok: bool)
    requires
        phc_string_parses(hash@),
    ensures
        ok == argon2_verifies(password@, hash@),
{
    match PasswordHash::new(hash) {
        Ok(parsed) => Argon2::default().verify_password(password.as_bytes(), &parsed).is_ok(),
        Err(_) => false,
    }
}

/// Whether `password` matches the stored hash `hash`; a malformed hash
/// matches no password.
pub open spec fn password_matches(password: Seq<char>, hash: Seq<char>) -> bool {
    phc_string_parses(hash) && argon2_verifies(password, hash)
}

/// Checks `password` against the stored Argon2 hash `hash`.
pub fn verify_password(password: &str, hash: &str) -> (ok: bool)
    ensures
        ok == password_matches(password@, hash@),
{
    if !phc_parses(hash) {
        return false;
    }
    argon2_verify(password, hash)
}

/// The longest password Argon2 hashes, in bytes (`argon2::MAX_PWD_LEN`).
pub const MAX_PASSWORD_BYTES: u64 = 0xFFFF_FFFF;

/// `Argon2::default().hash_password(password, &SaltString::generate(&mut OsRng))`:
/// the PHC string of `password` under a fresh random salt. With the default
/// parameters and a generated salt, the source's only error is a password
/// longer than `MAX_PWD_LEN` bytes (`Error::PwdTooLong`), which gives `None`.
/// The salt is random, so only this is stated of the string: as Argon2's
/// documentation shows, checking `password` against it succeeds.
#[verifier::external_body]
fn argon2_hash_new(password: &str) -> (r: Option<String>)
    ensures
        r is Some <==> password.spec_bytes().len() <= MAX_PASSWORD_BYTES,
        r matches Some(h) ==> password_matches(password@, h@),
{
    let salt = SaltString::generate(&mut OsRng);
    match Argon2::default().hash_password(password.as_bytes(), &salt) {
        Ok(hash) => Some(hash.to_string()),
        Err(_) => None,
    }
}

/// The hash to store for a new password: Argon2 with the default parameters
/// and a random salt. `None` exactly when the password is longer than Argon2
/// accepts (more than 2^32 - 1 bytes in UTF-8).
pub fn hash_password(password: &str) -> (r: Option<String>)
    ensures
        r is Some <==> password.spec_bytes().len() <= MAX_PASSWORD_BYTES,
        r matches Some(h) ==> password_matches(password@, h@),
{
    argon2_hash_new(password)
}

/// A well-formed Argon2 hash that belongs to no account. It is checked when
/// the username is unknown, so that a login takes as long either way.
pub fn dummy_hash() -> (h: &'static str)
    ensures
        h@ == "$argon2id$v=19$m=19456,t=2,p=1$c29tZXNhbHRzb21lc2FsdA$RdescudvJCsgt3ub+b+dWRWJTmaaJObG"@,
{
    "$argon2id$v=19$m=19456,t=2,p=1$c29tZXNhbHRzb21lc2FsdA$RdescudvJCsgt3ub+b+dWRWJTmaaJObG"
}

// ---------------------------------------------------------------------------
// Logging in
// ---------------------------------------------------------------------------

/// The user behind a request that carries a logged-in session.
#[derive(Debug)]
pub struct AuthUser {
    pub id: i64,
    pub username: String,
}

/// The fields of the login form.
#[derive(Debug)]
pub struct LoginForm {
    pub username: String,
    pub password: String,
    pub _csrf: Option<String>,
}

/// The account found for a username: its id and stored password hash.
#[derive(Debug)]
pub struct LoginRow {
    pub id: i64,
    pub password_hash: String,
}

/// The CSRF token that a form submitted; a missing one counts as empty.
pub open spec fn submitted_token(t: Option<String>) -> Seq<char> {
    match t {
        Some(s) => s@,
        None => Seq::empty(),
    }
}

/// The token a form submitted, or the empty string.
pub fn submitted_str(t: &Option<String>) -> (s: &str)
    ensures
        s@ == submitted_token(*t),
{
    match t {
        Some(s) => s.as_str(),
        None => {
            proof {
                reveal_strlit("");
            }
            ""
        },
    }
}

/// The account that a login with `password` opens: the row's id when the
/// username was found and the password matches its hash.
pub open spec fn authenticated(row: Option<LoginRow>, password: Seq<char>) -> Option<i64> {
    match row {
        Some(r) => if password_matches(password, r.password_hash@) {
            Some(r.id)
        } else {
            None
        },
        None => None,
    }
}

/// Checks `password` against the account found for the username. When none
/// was found, a hash that matches nothing is checked all the same.
pub fn authenticate(row: &Option<LoginRow>, password: &str) -> (r: Option<i64>)
    ensures
        r == authenticated(*row, password@),
{
    match row {
        Some(r) => if verify_password(password, r.password_hash.as_str()) {
            Some(r.id)
        } else {
            None
        },
        None => {
            let _ = verify_password(password, dummy_hash());
            None
        },
    }
}

/// Whether a login form may be processed: the session cookie carries a CSRF
/// token and the form submitted that same token.
pub open spec fn login_csrf_ok(cookie: Option<Seq<char>>, submitted: Seq<char>) -> bool {
    match session_csrf_spec(cookie) {
        Some(t) => t == submitted,
        None => false,
    }
}

/// What the login form's POST answers.
#[derive(Debug)]
pub enum LoginReply {
    /// The login page again, with this HTTP status, username prefill, form
    /// token and error message.
    Page { status: u16, username: String, csrf: String, error: String },
    /// A new session for `user_id`: set `cookie`, then redirect to `/`.
    SignedIn { user_id: i64, cookie: SessionCookie },
}

/// Whether `r` is the login page with these status, prefill, token and error.
pub open spec fn is_login_page(
    r: LoginReply,
    status: u16,
    username: Seq<char>,
    csrf: Seq<char>,
    error: Seq<char>,
) -> bool {
    r matches LoginReply::Page { status: s, username: u, csrf: c, error: e } && s == status && u@
        == username && c@ == csrf && e@ == error
}

/// The first check of a login POST. `None` lets the login go on; otherwise
/// the answer is the login page with status 403 and "Invalid CSRF token.".
pub fn check_login_csrf(session_cookie: Option<&str>, form: &LoginForm) -> (r: Option<LoginReply>)
    ensures
        r is None <==> login_csrf_ok(opt_view(session_cookie), submitted_token(form._csrf)),
        r matches Some(reply) ==> is_login_page(
            reply,
            403,
            Seq::empty(),
            submitted_token(form._csrf),
            "Invalid CSRF token."@,
        ),
{
    let submitted = submitted_str(&form._csrf);
    let ok = match get_session_csrf(session_cookie) {
        Some(expected) => constant_time_eq(expected.as_str(), submitted),
        None => false,
    };
    if ok {
        None
    } else {
        Some(
            LoginReply::Page {
                status: 403,
                username: String::new(),
                csrf: submitted.to_owned(),
                error: "Invalid CSRF token.".to_owned(),
            },
        )
    }
}

/// The rest of a login POST, once the account was looked up by username
/// (`Err` when the lookup failed): the login page with status 500 or 401, or a
/// new session whose CSRF token is `fresh_csrf`, a token the caller drew with
/// `generate_csrf_token` for this login.
pub fn finish_login(
    form: &LoginForm,
    lookup: &Result<Option<LoginRow>, ()>,
    cookie_secure: bool,
    fresh_csrf: &str,
) -> (r: LoginReply)
    ensures
        match *lookup {
            Err(_) => is_login_page(
                r,
                500,
                form.username@,
                submitted_token(form._csrf),
                "Server error."@,
            ),
            Ok(row) => match authenticated(row, form.password@) {
                None => is_login_page(
                    r,
                    401,
                    form.username@,
                    submitted_token(form._csrf),
                    "Invalid username or password."@,
                ),
                Some(id) => r matches LoginReply::SignedIn { user_id, cookie } && user_id == id
                    && is_session_cookie(cookie, id as int, fresh_csrf@, cookie_secure),
            },
        },
{
    let submitted = submitted_str(&form._csrf);
    match lookup {
        Err(_) => LoginReply::Page {
            status: 500,
            username: form.username.clone(),
            csrf: submitted.to_owned(),
            error: "Server error.".to_owned(),
        },
        Ok(row) => match authenticate(row, form.password.as_str()) {
            None => LoginReply::Page {
                status: 401,
                username: form.username.clone(),
                csrf: submitted.to_owned(),
                error: "Invalid username or password.".to_owned(),
            },
            Some(id) => {
                let cookie = make_session_cookie(id, fresh_csrf, cookie_secure);
                LoginReply::SignedIn { user_id: id, cookie }
            },
        },
    }
}

/// What a GET of the login page answers.
#[derive(Debug)]
pub enum LoginPageReply {
    /// The visitor is logged in already: redirect to `/`.
    GoHome,
    /// Show the login form with the token of the session cookie the visitor
    /// already has.
    ShowPage { csrf: String },
    /// Set a fresh pre-login session cookie (user id 0) and show the login
    /// form with its token.
    NewSession { csrf: String, cookie: SessionCookie },
}

/// The session cookie's user id and token, when it has a well-formed value.
pub open spec fn parsed_cookie(cookie: Option<Seq<char>>) -> Option<(i64, Seq<char>)> {
    match cookie {
        Some(v) => parse_session_spec(v),
        None => None,
    }
}

/// What a GET of the login page answers for the session cookie `cookie`,
/// where `fresh` is the token that a new session gets.
pub open spec fn login_page_reply_ok(
    cookie: Option<Seq<char>>,
    r: LoginPageReply,
    secure: bool,
    fresh: Seq<char>,
) -> bool {
    let p = parsed_cookie(cookie);
    if p is Some && p.unwrap().0 > 0 {
        r is GoHome
    } else if p is Some && p.unwrap().1.len() > 0 {
        r matches LoginPageReply::ShowPage { csrf: t } && t@ == p.unwrap().1
    } else {
        r matches LoginPageReply::NewSession { csrf, cookie } && csrf@ == fresh
            && is_session_cookie(cookie, 0, fresh, secure)
    }
}

/// Whether a GET of the login page with this session cookie value starts a
/// new pre-login session, so that it needs a fresh token.
pub open spec fn login_page_needs_token(cookie: Option<Seq<char>>) -> bool {
    let p = parsed_cookie(cookie);
    !(p is Some && (p.unwrap().0 > 0 || p.unwrap().1.len() > 0))
}

/// Decides a GET of the login page from the session cookie's value. A
/// logged-in visitor goes home; a pre-login cookie with a token keeps that
/// token, so that every extra GET does not invalidate a form already shown;
/// anyone else gets a new pre-login cookie whose token is `fresh_csrf`, a
/// token the caller drew with `generate_csrf_token` for this request.
pub fn login_page_request(session_cookie: Option<&str>, cookie_secure: bool, fresh_csrf: &str) -> (r:
    LoginPageReply)
    ensures
        login_page_reply_ok(opt_view(session_cookie), r, cookie_secure, fresh_csrf@),
        r is NewSession <==> login_page_needs_token(opt_view(session_cookie)),
{
    if let Some(v) = session_cookie {
        if let Some((uid, csrf)) = parse_session_cookie(v) {
            if uid > 0 {
                return LoginPageReply::GoHome;
            }
            if !csrf.as_str().is_empty() {
                return LoginPageReply::ShowPage { csrf };
            }
        }
    }
    let cookie = make_session_cookie(0, fresh_csrf, cookie_secure);
    LoginPageReply::NewSession { csrf: fresh_csrf.to_owned(), cookie }
}

// ---------------------------------------------------------------------------
// Laws of sessions
// ---------------------------------------------------------------------------

/// The session cookie of a login names its user and carries its token: the
/// user is logged in exactly when the id is above zero, and its token is the
/// one the cookie was made with.
pub proof fn lemma_session_cookie_identifies(c: SessionCookie, user_id: i64, csrf: Seq<char>, secure: bool)
    requires
        is_session_cookie(c, user_id as int, csrf, secure),
    ensures
        session_csrf_spec(Some(c.value@)) == Some(csrf),
        session_user_spec(Some(c.value@)) == (if user_id > 0 {
            Some(user_id)
        } else {
            None
        }),
{
    lemma_session_cookie_roundtrip(user_id, csrf);
}

/// A login form that submits the token of the pre-login cookie it was shown
/// with passes the CSRF check, and a form that submits any other token does
/// not.
pub proof fn lemma_login_form_token_accepted(csrf: Seq<char>, submitted: Seq<char>)
    ensures
        login_csrf_ok(Some(session_value(0, csrf)), submitted) <==> submitted == csrf,
{
    lemma_session_cookie_roundtrip(0, csrf);
}

/// An account whose stored hash `hash_password` made for a password opens
/// with that password.
pub proof fn lemma_stored_hash_opens(id: i64, password: Seq<char>, hash: String)
    requires
        password_matches(password, hash@),
    ensures
        authenticated(Some(LoginRow { id, password_hash: hash }), password) == Some(id),
{
}

/// A login POST without a session cookie is always refused.
pub proof fn lemma_login_without_cookie_refused(submitted: Seq<char>)
    ensures
        !login_csrf_ok(None, submitted),
{
}

} // verus!

use forum::auth::{
    check_login_csrf, constant_time_eq, cookie_name, finish_login, generate_csrf_token,
    get_session_csrf, hash_password, login_page_request, make_session_cookie,
    parse_session_cookie, session_user_id, verify_password, authenticate, LoginForm,
    LoginPageReply, LoginReply, LoginRow, SameSite, SESSION_MAX_AGE_SECONDS,
};

fn is_token(t: &str) -> bool {
    t.len() == 32 && t.chars().all(|c| c.is_ascii_digit() || ('a'..='f').contains(&c))
}

#[test]
fn parse_session_cookie_splits_at_first_colon() {
    assert_eq!(parse_session_cookie("5:abc"), Some((5, "abc".to_string())));
    assert_eq!(parse_session_cookie("5:a:b"), Some((5, "a:b".to_string())));
    assert_eq!(parse_session_cookie("0:"), Some((0, String::new())));
    assert_eq!(parse_session_cookie("-3:t"), Some((-3, "t".to_string())));
    assert_eq!(parse_session_cookie("abc"), None);
    assert_eq!(parse_session_cookie("x:y"), None);
    assert_eq!(parse_session_cookie(":y"), None);
}

#[test]
fn session_cookie_has_its_attributes() {
    let c = make_session_cookie(42, "deadbeef", true);
    assert_eq!(c.name, "session");
    assert_eq!(c.name, cookie_name());
    assert_eq!(c.value, "42:deadbeef");
    assert!(c.http_only);
    assert_eq!(c.same_site, SameSite::Lax);
    assert!(c.secure);
    assert_eq!(c.max_age_seconds, 7 * 24 * 60 * 60);
    assert_eq!(c.max_age_seconds, SESSION_MAX_AGE_SECONDS);
    assert_eq!(c.path, "/");
    let c = make_session_cookie(0, "t", false);
    assert!(!c.secure);
    assert_eq!(c.value, "0:t");
}

#[test]
fn session_cookie_reads_back() {
    for (id, csrf) in [(1i64, "abc"), (0, ""), (i64::MAX, "x:y"), (i64::MIN, "tok")] {
        let c = make_session_cookie(id, csrf, false);
        assert_eq!(parse_session_cookie(&c.value), Some((id, csrf.to_string())));
    }
}

#[test]
fn session_csrf_and_user() {
    assert_eq!(get_session_csrf(Some("7:tok")), Some("tok".to_string()));
    assert_eq!(get_session_csrf(Some("garbage")), None);
    assert_eq!(get_session_csrf(None), None);
    assert_eq!(session_user_id(Some("7:tok")), Some(7));
    assert_eq!(session_user_id(Some("0:tok")), None);
    assert_eq!(session_user_id(Some("-2:tok")), None);
    assert_eq!(session_user_id(Some("seven:tok")), None);
    assert_eq!(session_user_id(None), None);
}

#[test]
fn constant_time_eq_is_equality() {
    assert!(constant_time_eq("abc", "abc"));
    assert!(constant_time_eq("", ""));
    assert!(!constant_time_eq("abc", "abd"));
    assert!(!constant_time_eq("abc", "ab"));
    assert!(!constant_time_eq("é", "e"));
}

#[test]
fn csrf_tokens_are_hex_and_fresh() {
    let a = generate_csrf_token();
    let b = generate_csrf_token();
    assert!(is_token(&a), "{a}");
    assert!(is_token(&b), "{b}");
    assert_ne!(a, b);
}

#[test]
fn passwords_check_against_their_hash() {
    let hash = hash_password("secret").expect("hash");
    assert!(hash.starts_with("$argon2id$"));
    assert!(verify_password("secret", &hash));
    assert!(!verify_password("Secret", &hash));
    assert!(!verify_password("secret", "not a hash"));
    assert!(!verify_password("secret", ""));
}

#[test]
fn authenticate_needs_account_and_password() {
    let hash = hash_password("pw").expect("hash");
    let row = Some(LoginRow { id: 9, password_hash: hash });
    assert_eq!(authenticate(&row, "pw"), Some(9));
    assert_eq!(authenticate(&row, "nope"), None);
    assert_eq!(authenticate(&None, "pw"), None);
}

fn form(username: &str, password: &str, csrf: Option<&str>) -> LoginForm {
    LoginForm {
        username: username.to_string(),
        password: password.to_string(),
        _csrf: csrf.map(|s| s.to_string()),
    }
}

fn page_of(r: &LoginReply) -> (u16, &str, &str, &str) {
    match r {
        LoginReply::Page { status, username, csrf, error } => (*status, username, csrf, error),
        LoginReply::SignedIn { .. } => panic!("expected a page"),
    }
}

#[test]
fn login_csrf_check() {
    assert!(check_login_csrf(Some("0:tok"), &form("a", "b", Some("tok"))).is_none());
    let r = check_login_csrf(Some("0:tok"), &form("a", "b", Some("other"))).unwrap();
    assert_eq!(page_of(&r), (403, "", "other", "Invalid CSRF token."));
    let r = check_login_csrf(None, &form("a", "b", Some("tok"))).unwrap();
    assert_eq!(page_of(&r), (403, "", "tok", "Invalid CSRF token."));
    let r = check_login_csrf(Some("0:tok"), &form("a", "b", None)).unwrap();
    assert_eq!(page_of(&r), (403, "", "", "Invalid CSRF token."));
    // A cookie without a token still needs a token in the form.
    let r = check_login_csrf(Some("garbage"), &form("a", "b", None)).unwrap();
    assert_eq!(page_of(&r).0, 403);
}

#[test]
fn login_outcomes() {
    let f = form("alice", "pw", Some("tok"));
    let fresh = generate_csrf_token();
    let r = finish_login(&f, &Err(()), false, &fresh);
    assert_eq!(page_of(&r), (500, "alice", "tok", "Server error."));
    let r = finish_login(&f, &Ok(None), false, &fresh);
    assert_eq!(page_of(&r), (401, "alice", "tok", "Invalid username or password."));
    let hash = hash_password("pw").expect("hash");
    let r = finish_login(&f, &Ok(Some(LoginRow { id: 3, password_hash: hash.clone() })), true, &fresh);
    match r {
        LoginReply::SignedIn { user_id, cookie } => {
            assert_eq!(user_id, 3);
            assert!(cookie.secure);
            let (id, token) = parse_session_cookie(&cookie.value).unwrap();
            assert_eq!(id, 3);
            assert_eq!(token, fresh);
            assert!(is_token(&token));
            assert_ne!(token, "tok");
        }
        other => panic!("expected a session, got {other:?}"),
    }
    let wrong = form("alice", "bad", Some("tok"));
    let r = finish_login(&wrong, &Ok(Some(LoginRow { id: 3, password_hash: hash })), true, &fresh);
    assert_eq!(page_of(&r).0, 401);
}

#[test]
fn login_session_carries_the_drawn_token() {
    let f = form("bob", "secret", Some("tok"));
    let hash = hash_password("secret").expect("hash");
    let drawn = "00112233445566778899aabbccddeeff";
    let r = finish_login(&f, &Ok(Some(LoginRow { id: 9, password_hash: hash })), false, drawn);
    match r {
        LoginReply::SignedIn { user_id, cookie } => {
            assert_eq!(user_id, 9);
            assert_eq!(cookie.value, "9:00112233445566778899aabbccddeeff");
            assert!(!cookie.secure);
        }
        other => panic!("expected a session, got {other:?}"),
    }
}

#[test]
fn login_page_keeps_or_mints_tokens() {
    let fresh = generate_csrf_token();
    assert!(matches!(login_page_request(Some("7:tok"), false, &fresh), LoginPageReply::GoHome));
    match login_page_request(Some("0:tok"), false, &fresh) {
        LoginPageReply::ShowPage { csrf } => assert_eq!(csrf, "tok"),
        other => panic!("{other:?}"),
    }
    for cookie in [None, Some("0:"), Some("garbage"), Some("-5:")] {
        match login_page_request(cookie, true, &fresh) {
            LoginPageReply::NewSession { csrf, cookie } => {
                assert_eq!(csrf, fresh);
                assert!(is_token(&csrf));
                assert_eq!(cookie.value, format!("0:{csrf}"));
                assert!(cookie.secure);
            }
            other => panic!("{other:?}"),
        }
    }
    // A negative id with a token is not logged in: its token is reused.
    match login_page_request(Some("-5:tok"), false, &fresh) {
        LoginPageReply::ShowPage { csrf } => assert_eq!(csrf, "tok"),
        other => panic!("{other:?}"),
    }
}

#[test]
fn issued_login_token_is_accepted() {
    match login_page_request(None, false, &generate_csrf_token()) {
        LoginPageReply::NewSession { csrf, cookie } => {
            let f = form("a", "b", Some(&csrf));
            assert!(check_login_csrf(Some(&cookie.value), &f).is_none());
        }
        other => panic!("{other:?}"),
    }
}

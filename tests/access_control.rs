use htpasswd_auth::auth_data::AuthData;
use htpasswd_auth::user_control_policy::{AnyLoggedUser, Anyone};
use htpasswd_auth::{AuthControl, AuthResult, Denial, Error, HtpasswdDatabase, Outcome, UserControlPolicy};
use sha1::{Digest, Sha1};

fn basic(credentials: &[u8]) -> Vec<u8> {
    format!("Basic {}", base64::encode(credentials)).into_bytes()
}

fn store_with_bob() -> HtpasswdDatabase {
    let mut db = HtpasswdDatabase::new();
    db.add("bob", Sha1::digest(b"hunter2").to_vec()).unwrap();
    db
}

fn parse(h: &[u8]) -> Result<Option<AuthData>, Error> {
    AuthData::from_header(Some(h))
}

#[test]
fn no_header_is_anonymous() {
    let db = store_with_bob();
    match AuthControl::<Anyone>::authorize(None, &db) {
        Outcome::Allowed(r) => assert_eq!(r, AuthResult::Anonymous),
        other => panic!("unexpected: {:?}", other),
    }
    assert!(matches!(AuthControl::<AnyLoggedUser>::authorize(None, &db), Outcome::Forbidden));
    assert!(matches!(AuthData::from_header(None), Ok(None)));
}

#[test]
fn valid_basic_credentials_are_allowed() {
    let db = store_with_bob();
    let h = basic(b"bob:hunter2");
    match AuthControl::<AnyLoggedUser>::authorize(Some(&h), &db) {
        Outcome::Allowed(r) => assert_eq!(r, AuthResult::LoggedUser { user: "bob".to_string() }),
        other => panic!("unexpected: {:?}", other),
    }
    match AuthControl::<Anyone>::authorize(Some(&h), &db) {
        Outcome::Allowed(r) => assert_eq!(r, AuthResult::LoggedUser { user: "bob".to_string() }),
        other => panic!("unexpected: {:?}", other),
    }
}

#[test]
fn wrong_password_is_unauthorized() {
    let db = store_with_bob();
    let h = basic(b"bob:wrongpass");
    assert!(matches!(
        AuthControl::<AnyLoggedUser>::authorize(Some(&h), &db),
        Outcome::Unauthorized(Denial::InvalidCredentials)
    ));
    assert!(matches!(
        AuthControl::<Anyone>::authorize(Some(&h), &db),
        Outcome::Unauthorized(Denial::InvalidCredentials)
    ));
}

#[test]
fn unknown_user_is_unauthorized_like_wrong_password() {
    let db = store_with_bob();
    let h = basic(b"mallory:hunter2");
    assert!(matches!(
        AuthControl::<AnyLoggedUser>::authorize(Some(&h), &db),
        Outcome::Unauthorized(Denial::InvalidCredentials)
    ));
}

#[test]
fn other_scheme_is_unsupported() {
    let db = store_with_bob();
    let h = b"Digest username=\"bob\"".to_vec();
    match AuthControl::<AnyLoggedUser>::authorize(Some(&h), &db) {
        Outcome::Unauthorized(Denial::MalformedHeader(Error::UnsupportedScheme { scheme })) => {
            assert_eq!(scheme, "Digest")
        }
        other => panic!("unexpected: {:?}", other),
    }
    match parse(b"basic Ym9iOmh1bnRlcjI=") {
        Err(Error::UnsupportedScheme { scheme }) => assert_eq!(scheme, "basic"),
        other => panic!("unexpected: {:?}", other.err()),
    }
}

#[test]
fn empty_password_is_rejected_before_the_store() {
    let mut db = HtpasswdDatabase::new();
    db.add("bob", Vec::new()).unwrap();
    let h = basic(b"bob:");
    assert!(matches!(
        AuthControl::<Anyone>::authorize(Some(&h), &db),
        Outcome::Unauthorized(Denial::MalformedHeader(Error::EmptyPassword))
    ));
    assert!(matches!(parse(&h), Err(Error::EmptyPassword)));
}

#[test]
fn short_header_is_rejected() {
    assert!(matches!(parse(b"Basic "), Err(Error::HeaderNotLongEnough)));
    assert!(matches!(parse(b""), Err(Error::HeaderNotLongEnough)));
}

#[test]
fn non_text_header_is_rejected() {
    assert!(matches!(parse(b"Basic \x01bcd"), Err(Error::CannotConvertHeaderToString)));
    assert!(matches!(parse(b"Basic \xc3\xa9bcd"), Err(Error::CannotConvertHeaderToString)));
}

#[test]
fn header_without_space_misses_its_scheme() {
    assert!(matches!(parse(b"BasicYm9iOmh1bnRlcjI="), Err(Error::MissingScheme)));
}

#[test]
fn bad_base64_credentials_are_malformed() {
    assert!(matches!(parse(b"Basic !!!!"), Err(Error::MalformedCredentials)));
    assert!(matches!(parse(b"Basic  Ym9iOmh1bnRlcjI="), Err(Error::MalformedCredentials)));
}

#[test]
fn credentials_without_colon_lack_a_password() {
    assert!(matches!(parse(&basic(b"bobhunter2")), Err(Error::CannotExtractPassword)));
}

#[test]
fn password_may_hold_colons() {
    match parse(&basic(b"bob:a:b")) {
        Ok(Some(d)) => {
            assert_eq!(d.user, "bob");
            assert_eq!(d.password, "a:b");
        }
        other => panic!("unexpected: {:?}", other.err()),
    }
}

#[test]
fn empty_user_is_read() {
    match parse(&basic(b":pw")) {
        Ok(Some(d)) => {
            assert_eq!(d.user, "");
            assert_eq!(d.password, "pw");
        }
        other => panic!("unexpected: {:?}", other.err()),
    }
}

#[test]
fn invalid_utf8_credentials_are_decoded_lossily() {
    match parse(&basic(b"\xffbob:pw")) {
        Ok(Some(d)) => {
            assert_eq!(d.user, "\u{FFFD}bob");
            assert_eq!(d.password, "pw");
        }
        other => panic!("unexpected: {:?}", other.err()),
    }
}

#[test]
fn exact_header_decoding() {
    match parse(b"Basic Ym9iOmh1bnRlcjI=") {
        Ok(Some(d)) => {
            assert_eq!(d.user, "bob");
            assert_eq!(d.password, "hunter2");
        }
        other => panic!("unexpected: {:?}", other.err()),
    }
}

#[test]
fn policies_decide_by_identity() {
    let anon = AuthResult::Anonymous;
    let bob = AuthResult::LoggedUser { user: "bob".to_string() };
    assert!(Anyone::allows(&anon));
    assert!(Anyone::allows(&bob));
    assert!(!AnyLoggedUser::allows(&anon));
    assert!(AnyLoggedUser::allows(&bob));
    assert_eq!(Anyone::display(), "Anyone");
    assert_eq!(AnyLoggedUser::display(), "AnyLoggedUser");
}

#[test]
fn granted_only_when_the_policy_admits() {
    let bob = AuthResult::LoggedUser { user: "bob".to_string() };
    let c = AuthControl::<AnyLoggedUser>::granted(bob.clone()).unwrap();
    assert_eq!(c.auth_result, bob);
    assert!(AuthControl::<AnyLoggedUser>::granted(AuthResult::Anonymous).is_none());
    assert!(AuthControl::<Anyone>::granted(AuthResult::Anonymous).is_some());
}

#[test]
fn header_errors_are_unauthorized() {
    let db = store_with_bob();
    assert!(matches!(
        AuthControl::<Anyone>::authorize(Some(b"Basic"), &db),
        Outcome::Unauthorized(Denial::MalformedHeader(Error::HeaderNotLongEnough))
    ));
}

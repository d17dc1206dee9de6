use htpasswd_auth::{Error, HtpasswdDatabase};
use sha1::{Digest, Sha1};

fn digest_b64(password: &str) -> String {
    base64::encode(Sha1::digest(password.as_bytes()))
}

fn lines(text: &[&str]) -> Vec<String> {
    text.iter().map(|l| l.to_string()).collect()
}

#[test]
fn round_trip_alice_secret() {
    assert_eq!(digest_b64("secret"), "5en6G6MezRroT3XKqkdPOmY/BfQ=");
    let src = lines(&["alice:{SHA}5en6G6MezRroT3XKqkdPOmY/BfQ="]);
    let db = HtpasswdDatabase::from_lines("htpasswd", &src).unwrap();
    assert!(db.is_valid("alice", "secret"));
}

#[test]
fn correct_password_accepted_other_refused() {
    let src = lines(&[
        &format!("alice:{{SHA}}{}", digest_b64("secret")),
        &format!("bob:{{SHA}}{}", digest_b64("hunter2")),
    ]);
    let db = HtpasswdDatabase::from_lines("htpasswd", &src).unwrap();
    assert!(db.is_valid("alice", "secret"));
    assert!(db.is_valid("bob", "hunter2"));
    assert!(!db.is_valid("alice", "hunter2"));
    assert!(!db.is_valid("bob", "secret"));
    assert!(!db.is_valid("alice", "Secret"));
    assert!(!db.is_valid("alice", ""));
}

#[test]
fn unknown_user_refused() {
    let src = lines(&[&format!("alice:{{SHA}}{}", digest_b64("secret"))]);
    let db = HtpasswdDatabase::from_lines("htpasswd", &src).unwrap();
    assert!(!db.is_valid("carol", "secret"));
    assert!(!db.is_valid("", "secret"));
    assert!(!db.is_valid("alic", "secret"));
    assert!(!HtpasswdDatabase::new().is_valid("alice", "secret"));
}

#[test]
fn duplicate_user_in_source_fails() {
    let src = lines(&[
        &format!("alice:{{SHA}}{}", digest_b64("one")),
        &format!("bob:{{SHA}}{}", digest_b64("two")),
        &format!("alice:{{SHA}}{}", digest_b64("three")),
    ]);
    match HtpasswdDatabase::from_lines("htpasswd", &src) {
        Err(Error::DuplicateUser { user }) => assert_eq!(user, "alice"),
        other => panic!("unexpected: {:?}", other.err()),
    }
}

#[test]
fn line_without_separator_is_malformed_with_its_number() {
    let src = lines(&[
        &format!("alice:{{SHA}}{}", digest_b64("one")),
        "",
        "   ",
        "bob:plaintext",
    ]);
    match HtpasswdDatabase::from_lines("users.htpasswd", &src) {
        Err(Error::MalformedHtpasswdLine { path_string, line }) => {
            assert_eq!(path_string, "users.htpasswd");
            assert_eq!(line, 3);
        }
        other => panic!("unexpected: {:?}", other.err()),
    }
}

#[test]
fn repeated_separator_is_malformed() {
    let src = lines(&["a:{SHA}b:{SHA}c"]);
    match HtpasswdDatabase::from_lines("f", &src) {
        Err(Error::MalformedHtpasswdLine { line, .. }) => assert_eq!(line, 0),
        other => panic!("unexpected: {:?}", other.err()),
    }
}

#[test]
fn other_scheme_marker_is_malformed() {
    let src = lines(&["alice:$apr1$abc$def"]);
    match HtpasswdDatabase::from_lines("f", &src) {
        Err(Error::MalformedHtpasswdLine { line, .. }) => assert_eq!(line, 0),
        other => panic!("unexpected: {:?}", other.err()),
    }
}

#[test]
fn bad_base64_digest_is_reported_with_line() {
    let src = lines(&["", "alice:{SHA}not base64!"]);
    match HtpasswdDatabase::from_lines("f", &src) {
        Err(Error::InvalidPasswordString { path_string, line }) => {
            assert_eq!(path_string, "f");
            assert_eq!(line, 1);
        }
        other => panic!("unexpected: {:?}", other.err()),
    }
}

#[test]
fn first_fault_wins() {
    let src = lines(&["broken", "alice:{SHA}!!!"]);
    match HtpasswdDatabase::from_lines("f", &src) {
        Err(Error::MalformedHtpasswdLine { line, .. }) => assert_eq!(line, 0),
        other => panic!("unexpected: {:?}", other.err()),
    }
}

#[test]
fn blank_lines_and_surrounding_space_are_ignored() {
    let src = lines(&[
        "",
        &format!("  \talice:{{SHA}}{}  \r", digest_b64("secret")),
        "\t",
        &format!("bob:{{SHA}}{}", digest_b64("pw")),
    ]);
    let db = HtpasswdDatabase::from_lines("f", &src).unwrap();
    assert!(db.is_valid("alice", "secret"));
    assert!(db.is_valid("bob", "pw"));
    assert!(!db.is_valid("  \talice", "secret"));
}

#[test]
fn empty_source_gives_empty_store() {
    let db = HtpasswdDatabase::from_lines("f", &[]).unwrap();
    assert!(!db.is_valid("alice", "secret"));
}

#[test]
fn add_registers_and_rejects_duplicates() {
    let mut db = HtpasswdDatabase::new();
    let digest = Sha1::digest(b"secret").to_vec();
    assert!(db.add("alice", digest.clone()).is_ok());
    assert!(db.is_valid("alice", "secret"));
    match db.add("alice", Sha1::digest(b"other").to_vec()) {
        Err(Error::DuplicateUser { user }) => assert_eq!(user, "alice"),
        other => panic!("unexpected: {:?}", other.err()),
    }
    assert!(db.is_valid("alice", "secret"));
    assert!(!db.is_valid("alice", "other"));
}

#[test]
fn digest_must_match_in_full() {
    let mut db = HtpasswdDatabase::new();
    let mut digest = Sha1::digest(b"secret").to_vec();
    digest.pop();
    db.add("alice", digest).unwrap();
    assert!(!db.is_valid("alice", "secret"));
}

#[test]
fn add_line_step_by_step() {
    let mut db = HtpasswdDatabase::new();
    db.add_line("f", 0, "   ").unwrap();
    db.add_line("f", 1, &format!("alice:{{SHA}}{}", digest_b64("secret"))).unwrap();
    assert!(db.is_valid("alice", "secret"));
    match db.add_line("f", 7, "nope") {
        Err(Error::MalformedHtpasswdLine { line, .. }) => assert_eq!(line, 7),
        other => panic!("unexpected: {:?}", other.err()),
    }
    assert!(db.is_valid("alice", "secret"));
}

#[test]
fn non_ascii_user_and_password() {
    let src = lines(&[&format!("jürgen:{{SHA}}{}", digest_b64("pässwörd"))]);
    let db = HtpasswdDatabase::from_lines("f", &src).unwrap();
    assert!(db.is_valid("jürgen", "pässwörd"));
    assert!(!db.is_valid("jurgen", "pässwörd"));
}

#[test]
fn error_kinds() {
    assert_eq!(Error::HeaderNotLongEnough.kind(), "HeaderNotLongEnough");
    assert_eq!(Error::CannotConvertHeaderToString.kind(), "CannotConvertHeaderToString");
    assert_eq!(Error::UnsupportedScheme { scheme: "Digest".to_string() }.kind(), "UnsupportedScheme");
    assert_eq!(Error::MissingScheme.kind(), "MissingScheme");
    assert_eq!(Error::MalformedCredentials.kind(), "MalformedCredentials");
    assert_eq!(Error::CannotExtractUsername.kind(), "CannotExtractUsername");
    assert_eq!(Error::CannotExtractPassword.kind(), "CannotExtractPassword");
    assert_eq!(Error::EmptyPassword.kind(), "EmptyPassword");
    let io = || std::io::Error::new(std::io::ErrorKind::NotFound, "missing");
    assert_eq!(
        Error::CannotOpenHtpasswdFile { path_string: "p".to_string(), io_error: io() }.kind(),
        "CannotOpenHtpasswdFile"
    );
    assert_eq!(
        Error::CannotReadHtpasswdFile { path_string: "p".to_string(), io_error: io() }.kind(),
        "CannotReadHtpasswdFile"
    );
    assert_eq!(
        Error::MalformedHtpasswdLine { path_string: "p".to_string(), line: 1 }.kind(),
        "MalformedHtpasswdLine"
    );
    assert_eq!(
        Error::InvalidPasswordString { path_string: "p".to_string(), line: 1 }.kind(),
        "InvalidPasswordString"
    );
    assert_eq!(Error::DuplicateUser { user: "u".to_string() }.kind(), "DuplicateUser");
}

use dockify::auth::admin_row_grants;
use dockify::auth::decode_verification_code;
use dockify::auth::default_str;
use dockify::auth::login_precheck;
use dockify::auth::login_user_gate;
use dockify::auth::normalize_identity;
use dockify::auth::parse_bearer_token;
use dockify::auth::token_identity;
use dockify::auth::Claims;
use dockify::auth::UserLookup;

fn lookup(verified: i32) -> UserLookup {
    UserLookup {
        hash: "h".to_string(),
        verified,
        username: "alice".to_string(),
        email: "alice@gmail.com".to_string(),
    }
}

#[test]
fn bearer_headers_yield_their_token() {
    assert_eq!(
        parse_bearer_token("Bearer abc.def.ghi"),
        Some("abc.def.ghi".to_string())
    );
    assert_eq!(parse_bearer_token("Basic xyz"), Some("xyz".to_string()));
}

#[test]
fn a_header_without_a_space_carries_no_token() {
    assert_eq!(parse_bearer_token("Bearer"), None);
    assert_eq!(parse_bearer_token(""), None);
}

#[test]
fn only_the_second_space_separated_piece_counts() {
    assert_eq!(parse_bearer_token("Bearer  abc"), Some("".to_string()));
    assert_eq!(parse_bearer_token("a b c"), Some("b".to_string()));
    assert_eq!(parse_bearer_token("Bearer tok "), Some("tok".to_string()));
}

#[test]
fn identities_fold_to_lower_case() {
    let id = normalize_identity(&"BOB".to_string(), &"".to_string());
    assert_eq!(id, "bob");
    let id = normalize_identity(&"ignored".to_string(), &"Foo@GMAIL.Com".to_string());
    assert_eq!(id, "foo@gmail.com");
}

#[test]
fn empty_identifier_or_password_fails_the_precheck() {
    assert!(!login_precheck(&"".to_string(), &"pw".to_string()));
    assert!(!login_precheck(&"bob".to_string(), &"".to_string()));
    assert!(login_precheck(&"bob".to_string(), &"pw".to_string()));
}

#[test]
fn only_verified_accounts_pass_the_login_gate() {
    assert_eq!(login_user_gate(None), None);
    assert_eq!(login_user_gate(Some(lookup(0))), None);
    assert_eq!(
        login_user_gate(Some(lookup(1))),
        Some(("h".to_string(), "alice".to_string()))
    );
}

#[test]
fn token_identity_fails_closed() {
    let (ok, who) = token_identity(None);
    assert!(!ok);
    assert_eq!(who, "");
    let (ok, who) = token_identity(Some(Claims::new("alice".to_string(), 99)));
    assert!(ok);
    assert_eq!(who, "alice");
}

#[test]
fn claims_expire_at_their_timestamp() {
    let c = Claims::new("alice".to_string(), 100);
    assert!(c.valid_at(99));
    assert!(!c.valid_at(100));
    assert!(!c.valid_at(101));
}

#[test]
fn only_the_admin_value_one_grants_the_right() {
    assert!(admin_row_grants(Some(1)));
    assert!(!admin_row_grants(Some(0)));
    assert!(!admin_row_grants(Some(2)));
    assert!(!admin_row_grants(None));
}

#[test]
fn verification_codes_decode_from_base64_text() {
    assert_eq!(
        decode_verification_code(&"aGVsbG8=".to_string()),
        Some("hello".to_string())
    );
}

#[test]
fn bad_verification_codes_are_refused() {
    // Empty, not base64, and base64 of bytes that are not text.
    assert_eq!(decode_verification_code(&"".to_string()), None);
    assert_eq!(decode_verification_code(&"!!!".to_string()), None);
    assert_eq!(decode_verification_code(&"/w==".to_string()), None);
}

#[test]
fn left_out_fields_read_as_empty() {
    assert_eq!(default_str(), "");
}

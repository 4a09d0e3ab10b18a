use dockify::email::is_domain_accepted;
use dockify::email::matches_email_shape;
use dockify::email::validate_email;

#[test]
fn well_formed_addresses_match_the_shape() {
    assert!(matches_email_shape("a@b.cd"));
    assert!(matches_email_shape("first.last-x_1@mail-host.example"));
    assert!(matches_email_shape("a@b.c.de"));
}

#[test]
fn malformed_addresses_fail_the_shape() {
    assert!(!matches_email_shape(""));
    assert!(!matches_email_shape("@b.cd"));
    assert!(!matches_email_shape("a@.cd"));
    assert!(!matches_email_shape("a@b.c"));
    assert!(!matches_email_shape("a@bcd"));
    assert!(!matches_email_shape("ab.cd"));
    assert!(!matches_email_shape("a b@c.de"));
    assert!(!matches_email_shape("a@b.cd-"));
    assert!(!matches_email_shape("a@b.c9"));
}

#[test]
fn only_the_listed_domains_are_accepted() {
    assert!(is_domain_accepted("x@gmail.com"));
    assert!(is_domain_accepted("x@outlook.com"));
    assert!(is_domain_accepted("x@sigma.town"));
    assert!(!is_domain_accepted("x@yahoo.com"));
    assert!(!is_domain_accepted("nodomain"));
    assert!(!is_domain_accepted("a@b@gmail.com"));
}

#[test]
fn signup_addresses_need_shape_and_domain() {
    assert!(validate_email("user@gmail.com"));
    assert!(validate_email("first.last@outlook.com"));
    assert!(validate_email("someone@sigma.town"));
    assert!(!validate_email("user@yahoo.com"));
    assert!(!validate_email("user@gmailcom"));
    assert!(!validate_email("@gmail.com"));
}

#[test]
fn non_ascii_addresses_are_refused() {
    assert!(!validate_email("usér@gmail.com"));
}

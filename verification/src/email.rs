//! Signup email validation: an address must be ascii, have the shape
//! `local@host.tld` — a non-empty local part of word characters, dots and
//! dashes, a non-empty host of letters, digits, dots and dashes, and a final
//! label of at least two letters — and its domain must be one of the few the
//! service accepts.

use vstd::prelude::*;

use crate::text::find_char;
use crate::text::lemma_find_char_at;
use crate::text::spec_find_char;

verus! {

/// An ascii letter.
pub open spec fn spec_letter(c: char) -> bool {
    ('a' <= c <= 'z') || ('A' <= c <= 'Z')
}

/// An ascii digit.
pub open spec fn spec_digit(c: char) -> bool {
    '0' <= c <= '9'
}

/// A character the local part may hold: a word character, a dot or a dash.
pub open spec fn spec_local_char(c: char) -> bool {
    spec_letter(c) || spec_digit(c) || c == '_' || c == '.' || c == '-'
}

/// A character the host part may hold: a letter, a digit, a dot or a dash.
pub open spec fn spec_host_char(c: char) -> bool {
    spec_letter(c) || spec_digit(c) || c == '.' || c == '-'
}

/// The characters split as an address: `a` is the position of the one `@`,
/// `b` of the dot before the final label.
pub open spec fn spec_email_split(s: Seq<char>, a: int, b: int) -> bool {
    &&& 1 <= a
    &&& a + 2 <= b
    &&& b + 3 <= s.len()
    &&& s[a] == '@'
    &&& s[b] == '.'
    &&& forall|i: int| 0 <= i < a ==> spec_local_char(#[trigger] s[i])
    &&& forall|i: int| a < i < b ==> spec_host_char(#[trigger] s[i])
    &&& forall|i: int| b < i < s.len() ==> spec_letter(#[trigger] s[i])
}

/// The characters have the shape of an address.
pub open spec fn spec_email_shape(s: Seq<char>) -> bool {
    exists|a: int, b: int| spec_email_split(s, a, b)
}

/// In any valid split, the `@` stands at the first `@` of the string.
proof fn lemma_split_at_first(s: Seq<char>, a: int, b: int)
    requires
        spec_email_split(s, a, b),
    ensures
        spec_find_char(s, '@', 0) == a,
{
    assert forall|k: int| 0 <= k < a implies s[k] != '@' by {
        assert(spec_local_char(s[k]));
    }
    lemma_find_char_at(s, '@', 0, a);
}

/// Whether the characters of `s` have the shape of an address: one `@` after
/// a non-empty run of local characters, a non-empty host, and a final label
/// of at least two letters after a dot.
#[verifier::loop_isolation(false)]
pub fn matches_email_shape(s: &str) -> (r: bool)
    ensures
        r == spec_email_shape(s@),
{
    let n = s.unicode_len();
    let a = find_char(s, '@', 0);
    if a == n || a == 0 {
        proof {
            if spec_email_shape(s@) {
                let (a2, b2) = choose|a2: int, b2: int| spec_email_split(s@, a2, b2);
                lemma_split_at_first(s@, a2, b2);
            }
        }
        return false;
    }
    let mut i: usize = 0;
    while i < a
        invariant
            i <= a,
            forall|k: int| 0 <= k < i ==> spec_local_char(#[trigger] s@[k]),
        decreases a - i,
    {
        let c = s.get_char(i);
        if !is_local_char(c) {
            proof {
                if spec_email_shape(s@) {
                    let (a2, b2) = choose|a2: int, b2: int| spec_email_split(s@, a2, b2);
                    lemma_split_at_first(s@, a2, b2);
                    assert(spec_local_char(s@[i as int]));
                }
            }
            return false;
        }
        i = i + 1;
    }
    let mut j: usize = n;
    while j > a + 1 && is_letter_at(s, j - 1)
        invariant
            a + 1 <= j <= n,
            forall|k: int| j <= k < n ==> spec_letter(#[trigger] s@[k]),
        decreases j,
    {
        j = j - 1;
    }
    if j == a + 1 {
        proof {
            if spec_email_shape(s@) {
                let (a2, b2) = choose|a2: int, b2: int| spec_email_split(s@, a2, b2);
                lemma_split_at_first(s@, a2, b2);
                assert(spec_letter(s@[b2]));
            }
        }
        return false;
    }
    let b = j - 1;
    proof {
        if spec_email_shape(s@) {
            let (a2, b2) = choose|a2: int, b2: int| spec_email_split(s@, a2, b2);
            lemma_split_at_first(s@, a2, b2);
            if b2 > b as int {
                assert(spec_letter(s@[b2]));
            }
            if b2 < b as int {
                assert(spec_letter(s@[b as int]));
            }
            assert(b2 == b as int);
        }
    }
    if n - j < 2 {
        return false;
    }
    if s.get_char(b) != '.' {
        return false;
    }
    if b < a + 2 {
        return false;
    }
    let mut k = a + 1;
    while k < b
        invariant
            a + 1 <= k <= b,
            forall|t: int| a < t < k ==> spec_host_char(#[trigger] s@[t]),
        decreases b - k,
    {
        let c = s.get_char(k);
        if !is_host_char(c) {
            proof {
                if spec_email_shape(s@) {
                    let (a2, b2) = choose|a2: int, b2: int| spec_email_split(s@, a2, b2);
                    lemma_split_at_first(s@, a2, b2);
                    assert(spec_host_char(s@[k as int]));
                }
            }
            return false;
        }
        k = k + 1;
    }
    proof {
        assert(spec_email_split(s@, a as int, b as int));
    }
    true
}

fn is_letter(c: char) -> (r: bool)
    ensures
        r == spec_letter(c),
{
    ('a' <= c && c <= 'z') || ('A' <= c && c <= 'Z')
}

fn is_letter_at(s: &str, i: usize) -> (r: bool)
    requires
        i < s@.len(),
    ensures
        r == spec_letter(s@[i as int]),
{
    is_letter(s.get_char(i))
}

fn is_local_char(c: char) -> (r: bool)
    ensures
        r == spec_local_char(c),
{
    is_letter(c) || ('0' <= c && c <= '9') || c == '_' || c == '.' || c == '-'
}

fn is_host_char(c: char) -> (r: bool)
    ensures
        r == spec_host_char(c),
{
    is_letter(c) || ('0' <= c && c <= '9') || c == '.' || c == '-'
}

/// The domain the service accepts mail from.
pub open spec fn spec_accepted_domain(d: Seq<char>) -> bool {
    d == "gmail.com"@ || d == "outlook.com"@ || d == "sigma.town"@
}

/// The address carries exactly one `@` and its domain part is accepted.
pub open spec fn spec_domain_accepted(s: Seq<char>) -> bool {
    let a = spec_find_char(s, '@', 0);
    &&& a < s.len()
    &&& spec_find_char(s, '@', a + 1) == s.len()
    &&& spec_accepted_domain(s.subrange(a + 1, s.len() as int))
}

/// Whether the part after a single `@` is one of the accepted domains. An
/// address without an `@`, or with more than one, is refused.
pub fn is_domain_accepted(email: &str) -> (r: bool)
    ensures
        r == spec_domain_accepted(email@),
{
    let n = email.unicode_len();
    let a = find_char(email, '@', 0);
    if a == n {
        return false;
    }
    let second = find_char(email, '@', a + 1);
    if second != n {
        return false;
    }
    let domain: String = email.substring_char(a + 1, n).to_owned();
    let gmail: String = "gmail.com".to_owned();
    let outlook: String = "outlook.com".to_owned();
    let sigma: String = "sigma.town".to_owned();
    domain == gmail || domain == outlook || domain == sigma
}

/// Whether the address is accepted for signup: ascii, shaped as an address,
/// and under an accepted domain.
pub fn validate_email(email: &str) -> (r: bool)
    ensures
        r == (email.is_ascii() && spec_email_shape(email@) && spec_domain_accepted(email@)),
{
    if !email.is_ascii() {
        return false;
    }
    if !matches_email_shape(email) {
        return false;
    }
    is_domain_accepted(email)
}

} // verus!

use vstd::prelude::*;

verus! {

pub open spec fn ascii_letter(c: char) -> bool {
    ('a' <= c && c <= 'z') || ('A' <= c && c <= 'Z')
}

pub open spec fn ascii_digit(c: char) -> bool {
    '0' <= c && c <= '9'
}

/// A character allowed before the `@` of an email address.
pub open spec fn local_char(c: char) -> bool {
    ascii_letter(c) || ascii_digit(c) || c == '.' || c == '_' || c == '%' || c == '+' || c == '-'
}

/// A character allowed in the domain of an email address, before the last
/// label.
pub open spec fn domain_char(c: char) -> bool {
    ascii_letter(c) || ascii_digit(c) || c == '.' || c == '-'
}

/// `s` reads `local@domain.tld`: a non-empty local part, a non-empty domain
/// and a final label of at least two ASCII letters.
pub open spec fn email_shaped(s: Seq<char>) -> bool {
    exists|at: int, dot: int|
        #![trigger s[at], s[dot]]
        0 < at && at + 1 < dot && dot + 2 < s.len() && s[at] == '@' && s[dot] == '.' && (forall|k: int|
            0 <= k < at ==> local_char(#[trigger] s[k])) && (forall|k: int|
            at < k < dot ==> domain_char(#[trigger] s[k])) && (forall|k: int|
            dot < k < s.len() ==> ascii_letter(#[trigger] s[k]))
}

/// `s` is exactly ten ASCII digits.
pub open spec fn phone_shaped(s: Seq<char>) -> bool {
    s.len() == 10 && forall|k: int| 0 <= k < s.len() ==> ascii_digit(#[trigger] s[k])
}

/// Relies on regex::Regex::new, which accepts this pattern, and on
/// regex::Regex::is_match: the anchored pattern (`^...$`, `$` at the end of
/// the text only, ASCII ranges only) matches exactly the texts of the email
/// shape.
#[verifier::external_body]
pub(crate) fn is_email(s: &str) -> (r: bool)
    ensures
        r == email_shaped(s@),
{
    regex::Regex::new(r"^[a-zA-Z0-9._%+-]+@[a-zA-Z0-9.-]+\.[a-zA-Z]{2,}$").unwrap().is_match(s)
}

/// Relies on regex::Regex::new, which accepts this pattern, and on
/// regex::Regex::is_match: the anchored pattern matches exactly the texts of
/// ten ASCII digits.
#[verifier::external_body]
pub(crate) fn is_phone_number(s: &str) -> (r: bool)
    ensures
        r == phone_shaped(s@),
{
    regex::Regex::new(r"^[0-9]{10}$").unwrap().is_match(s)
}

} // verus!

use vstd::prelude::*;

verus! {

/// The characters `0`..`9` and `a`..`f`.
pub open spec fn is_lower_hex_digit(c: char) -> bool {
    ('0' <= c && c <= '9') || ('a' <= c && c <= 'f')
}

/// `s` is the lowercase hyphenated text of a random (version 4, RFC 4122 variant) UUID:
/// 36 characters, hyphens at positions 8, 13, 18 and 23, lowercase hex digits elsewhere,
/// the version digit `4` at position 14 and one of `8`, `9`, `a`, `b` at position 19.
pub open spec fn is_hyphenated_v4_uuid(s: Seq<char>) -> bool {
    &&& s.len() == 36
    &&& forall|i: int|
        0 <= i < 36 ==> if i == 8 || i == 13 || i == 18 || i == 23 {
            s[i] == '-'
        } else {
            is_lower_hex_digit(#[trigger] s[i])
        }
    &&& s[14] == '4'
    &&& (s[19] == '8' || s[19] == '9' || s[19] == 'a' || s[19] == 'b')
}

/// Calls `uuid::Uuid::new_v4()` and renders it with `to_string()`.
///
/// Trusted: the result is random, so the contract claims only its shape, which the uuid
/// crate's source fixes: `new_v4` masks in version 4 and the RFC 4122 variant, and
/// `Display` writes the lowercase hyphenated form. Uniqueness is not claimed. The call
/// panics only if the operating system's random source fails.
#[verifier::external_body]
fn random_uuid_v4_text() -> (s: String)
    ensures
        is_hyphenated_v4_uuid(s@),
{
    uuid::Uuid::new_v4().to_string()
}

/// Opaque evidence that a native process was created by this owner instance.
pub struct ProcessOwnershipToken(String);

impl View for ProcessOwnershipToken {
    type V = Seq<char>;

    closed spec fn view(&self) -> Seq<char> {
        self.0@
    }
}

impl Clone for ProcessOwnershipToken {
    fn clone(&self) -> (r: Self)
        ensures
            r@ == self@,
    {
        ProcessOwnershipToken(self.0.clone())
    }
}

impl PartialEq for ProcessOwnershipToken {
    fn eq(&self, other: &Self) -> (r: bool) {
        self.0 == other.0
    }
}

impl vstd::std_specs::cmp::PartialEqSpecImpl for ProcessOwnershipToken {
    open spec fn obeys_eq_spec() -> bool {
        true
    }

    open spec fn eq_spec(&self, other: &Self) -> bool {
        self@ == other@
    }
}

impl Eq for ProcessOwnershipToken {

}

impl ProcessOwnershipToken {
    /// A fresh token: the text of a random version 4 UUID.
    pub fn new() -> (t: Self)
        ensures
            is_hyphenated_v4_uuid(t@),
    {
        ProcessOwnershipToken(random_uuid_v4_text())
    }

    /// Wraps token text that was produced elsewhere, unchanged.
    pub fn from_opaque(value: String) -> (t: Self)
        ensures
            t@ == value@,
    {
        ProcessOwnershipToken(value)
    }

    pub fn as_str(&self) -> (s: &str)
        ensures
            s@ == self@,
    {
        self.0.as_str()
    }

    /// The debug rendering of a token, which never shows the token itself.
    pub fn debug_text(&self) -> (s: String)
        ensures
            s@ == "ProcessOwnershipToken([REDACTED])"@,
    {
        String::from_str("ProcessOwnershipToken([REDACTED])")
    }
}

} // verus!

//! Peer identities and relay hints as the user types them: the parsing is
//! iroh-base's; what the rest of the library may rely on is stated here.
use vstd::prelude::*;
use iroh_base::key::PublicKey;
use iroh_base::node_addr::RelayUrl;

verus! {

/// A peer's public key: the address other parties connect to.
#[verifier::external_type_specification]
#[verifier::external_body]
pub struct ExPublicKey(PublicKey);

/// The address of a relay server.
#[verifier::external_type_specification]
#[verifier::external_body]
pub struct ExRelayUrl(RelayUrl);

/// Whether iroh-base reads `s` as a public key.
pub uninterp spec fn node_id_accepts(s: Seq<char>) -> bool;

/// Whether iroh-base reads `s` as a relay URL.
pub uninterp spec fn relay_url_accepts(s: Seq<char>) -> bool;

/// `s` with leading and trailing whitespace removed.
pub uninterp spec fn trimmed(s: Seq<char>) -> Seq<char>;

pub open spec fn is_hex_digit(c: char) -> bool {
    ('0' <= c <= '9') || ('a' <= c <= 'f') || ('A' <= c <= 'F')
}

pub open spec fn is_base32_digit(c: char) -> bool {
    ('a' <= c <= 'z') || ('A' <= c <= 'Z') || ('2' <= c <= '7')
}

/// The two text forms of a 32-byte key: 64 hexadecimal digits, or 52
/// base32 digits.
pub open spec fn key_text_shape(s: Seq<char>) -> bool {
    ||| s.len() == 64 && forall|i: int| 0 <= i < s.len() ==> is_hex_digit(#[trigger] s[i])
    ||| s.len() == 52 && forall|i: int| 0 <= i < s.len() ==> is_base32_digit(#[trigger] s[i])
}

/// Relies on `<PublicKey as FromStr>::from_str` of iroh-base: a string of
/// 64 bytes is decoded as hexadecimal, any other as unpadded base32 that
/// must give exactly 32 bytes, which must then be a valid ed25519 point.
/// The error is rendered with its `Display`.
#[verifier::external_body]
pub(crate) fn parse_node_id(s: &str) -> (r: Result<PublicKey, String>)
    ensures
        r.is_ok() == node_id_accepts(s@),
        r.is_ok() ==> key_text_shape(s@),
{
    match <PublicKey as std::str::FromStr>::from_str(s) {
        Ok(k) => Ok(k),
        Err(e) => Err(format!("{}", e)),
    }
}

/// Relies on `<RelayUrl as FromStr>::from_str` of iroh-base, which parses
/// `s` as a URL. The error is rendered with its `Display`.
#[verifier::external_body]
pub(crate) fn parse_relay_url(s: &str) -> (r: Result<RelayUrl, String>)
    ensures
        r.is_ok() == relay_url_accepts(s@),
{
    match <RelayUrl as std::str::FromStr>::from_str(s) {
        Ok(u) => Ok(u),
        Err(e) => Err(format!("{}", e)),
    }
}

/// Relies on `str::trim`: the slice of `s` without leading and trailing
/// whitespace.
#[verifier::external_body]
pub(crate) fn trim(s: &str) -> (r: &str)
    ensures
        r@ == trimmed(s@),
        r@.len() <= s@.len(),
{
    s.trim()
}

} // verus!

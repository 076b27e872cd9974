//! Text conversions the log entries need: UTF-8 decoding of byte values and
//! the `address:port` form of a peer.
use vstd::prelude::*;
use vstd::utf8::{decode_utf8, valid_utf8};

verus! {

/// The decimal digit for `d < 10`.
pub open spec fn digit_char(d: nat) -> char {
    (d + 48) as char
}

/// The decimal representation of `n`, most significant digit first.
pub open spec fn decimal(n: nat) -> Seq<char>
    decreases n,
{
    if n < 10 {
        seq![digit_char(n)]
    } else {
        decimal(n / 10).push(digit_char(n % 10))
    }
}

/// A peer written as `address:port`.
pub open spec fn peer_text(address: Seq<char>, port: u32) -> Seq<char> {
    address + seq![':'] + decimal(port as nat)
}

/// The text that bytes encode, where they are valid UTF-8.
pub open spec fn utf8_text(b: Seq<u8>) -> Option<Seq<char>> {
    if valid_utf8(b) {
        Some(decode_utf8(b))
    } else {
        None
    }
}

/// Relies on `String::from_utf8`: `Ok` exactly when the bytes are valid UTF-8,
/// holding the characters they encode.
#[verifier::external_body]
pub(crate) fn utf8_string(v: Vec<u8>) -> (r: Option<String>)
    ensures
        r is Some <==> utf8_text(v@) is Some,
        r is Some ==> r.unwrap()@ == utf8_text(v@).unwrap(),
{
    String::from_utf8(v).ok()
}

/// Relies on `format!` with `u32`'s `Display`, which writes the number in
/// decimal without sign or padding.
#[verifier::external_body]
pub(crate) fn format_peer(address: &String, port: u32) -> (r: String)
    ensures
        r@ == peer_text(address@, port),
{
    format!("{}:{}", address, port)
}

} // verus!

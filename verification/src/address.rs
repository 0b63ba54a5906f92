//! Validated addresses.
//!
//! The host hands addresses over as bech32 text.  A text is accepted only
//! when the bech32 crate's checksum-validating parse accepts it; the
//! library keeps the text it validated together with the decoded payload.
//! A malformed encoding becomes the structured addressing failure, never
//! a crash.

use vstd::prelude::*;

use crate::failure::Failure;
use crate::text::append_str;

verus! {

/// What `bech32::decode` yields on a given text: the lowercase
/// human-readable part and the five-bit data payload, or nothing when
/// the text is not valid bech32.  The checksum arithmetic behind it is
/// not restated here; the result is a function of the text alone.
pub uninterp spec fn bech32_decode_of(s: Seq<char>) -> Option<(Seq<char>, Seq<u8>)>;

#[verifier::external_type_specification]
#[verifier::external_body]
pub struct ExBech32Error(bech32::Error);

/// Relies on `bech32::decode`: the checksum-validating parse of a bech32
/// string, deterministic in the text alone.  On success the payload
/// comes back as plain five-bit values, each below 32.
#[verifier::external_body]
fn bech32_decode(s: &str) -> (r: Result<(Vec<char>, Vec<u8>), bech32::Error>)
    ensures
        r is Ok <==> bech32_decode_of(s@) is Some,
        r matches Ok(p) ==> Some((p.0@, p.1@)) == bech32_decode_of(s@),
        r matches Ok(p) ==> forall|i: int| 0 <= i < p.1@.len() ==> p.1@[i] < 32,
{
    match bech32::decode(s) {
        Ok((hrp, data, _)) => Ok(
            (hrp.chars().collect(), data.into_iter().map(|u| u.to_u8()).collect()),
        ),
        Err(e) => Err(e),
    }
}

/// Relies on bech32's error rendering for the description of a rejected
/// encoding.
#[verifier::external_body]
fn bech32_error_text(e: &bech32::Error) -> Vec<char> {
    format!("{}", e).chars().collect()
}

/// An address whose bech32 encoding has been validated.
#[derive(Clone)]
pub struct Address {
    text: Vec<char>,
    payload: Vec<u8>,
}

impl Address {
    /// The validated bech32 text, as given by the host.
    pub closed spec fn text_view(&self) -> Seq<char> {
        self.text@
    }

    /// The decoded five-bit payload.
    pub closed spec fn payload_view(&self) -> Seq<u8> {
        self.payload@
    }

    /// Well-formed: the text parses, and the payload is its decode.
    pub open spec fn wf(&self) -> bool {
        bech32_decode_of(self.text_view()) matches Some(p) && p.1 == self.payload_view()
    }

    /// Validates `s` as a bech32 address.
    ///
    /// Returns the address exactly when the bech32 parse accepts `s`;
    /// a rejected text becomes the structured addressing failure.
    pub fn parse(s: &str) -> (r: Result<Address, Failure>)
        ensures
            r is Ok <==> bech32_decode_of(s@) is Some,
            r matches Ok(a) ==> a.wf() && a.text_view() == s@,
            r matches Err(f) ==> f is Address,
    {
        match bech32_decode(s) {
            Ok(p) => {
                let mut text: Vec<char> = Vec::new();
                append_str(&mut text, s);
                Ok(Address { text, payload: p.1 })
            },
            Err(e) => Err(Failure::Address(bech32_error_text(&e))),
        }
    }

    /// The validated bech32 text.
    pub fn text(&self) -> (r: &Vec<char>)
        ensures
            r@ == self.text_view(),
    {
        &self.text
    }

    /// The decoded five-bit payload.
    pub fn payload(&self) -> (r: &Vec<u8>)
        ensures
            r@ == self.payload_view(),
    {
        &self.payload
    }
}

} // verus!

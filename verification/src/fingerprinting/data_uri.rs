//! The textual form of a signature: a fixed data-URI prefix followed by
//! the base64 of the binary encoding.

use vstd::prelude::*;

use crate::fingerprinting::peak_sort::sorted_view;
use crate::fingerprinting::signature_format::{
    decode_spec, encodable, encode_spec, valid_sample_rate, DecodedSignature, SigView,
    SignatureError,
};

verus! {

/// The prefix every textual signature starts with.
pub const DATA_URI_PREFIX: &'static str = "data:audio/vnd.shazam.sig;base64,";

/// The prefix as a character sequence; it is 33 characters long.
pub open spec fn uri_prefix() -> Seq<char> {
    "data:audio/vnd.shazam.sig;base64,"@
}

/// Standard padded base64 of a byte sequence, as characters. It is a
/// pure function of the bytes; the codec relies only on decoding being
/// its inverse.
pub uninterp spec fn base64_of(data: Seq<u8>) -> Seq<char>;

/// Relies on base64::encode: standard-alphabet, padded base64, a pure
/// function of the input bytes.
#[verifier::external_body]
fn base64_encode(data: &[u8]) -> (r: String)
    ensures
        r@ == base64_of(data@),
{
    base64::encode(data)
}

/// Relies on base64::decode: with the standard padded alphabet it
/// inverts base64::encode, so any string that some byte sequence
/// encodes to decodes back to exactly that sequence.
#[verifier::external_body]
fn base64_decode(s: &str) -> (r: Option<Vec<u8>>)
    ensures
        forall|b: Seq<u8>| s@ == base64_of(b) ==> r is Some && r->Some_0@ == b,
{
    base64::decode(s).ok()
}

/// Whether `u` starts with the data-URI prefix.
pub open spec fn uri_well_prefixed(u: Seq<char>) -> bool {
    u.len() >= 33 && u.subrange(0, 33) == uri_prefix()
}

impl DecodedSignature {
    /// The textual form: the data-URI prefix, then the base64 of the
    /// binary encoding. Fails exactly when the sample rate is unknown.
    pub fn encode_to_uri(&self) -> (r: Result<String, SignatureError>)
        requires
            self.wf(),
            encodable(self@),
        ensures
            valid_sample_rate(self@.sample_rate_hz) ==> (r matches Ok(u) && u@ == uri_prefix()
                + base64_of(encode_spec(sorted_view(self@)))),
            !valid_sample_rate(self@.sample_rate_hz) ==> (r matches Err(e) && e
                == SignatureError::InvalidSampleRate),
    {
        let bin = match self.encode_to_binary() {
            Ok(bin) => bin,
            Err(e) => {
                return Err(e);
            },
        };
        let b64 = base64_encode(bin.as_slice());
        let mut out = String::from_str(DATA_URI_PREFIX);
        out.append(b64.as_str());
        Ok(out)
    }

    /// Parses the textual form: checks the prefix, undoes the base64,
    /// then decodes the binary signature.
    pub fn decode_from_uri(uri: &str) -> (r: Result<DecodedSignature, SignatureError>)
        ensures
            !uri_well_prefixed(uri@) ==> (r matches Err(e) && e == SignatureError::BadUriPrefix),
            forall|b: Seq<u8>|
                (uri_well_prefixed(uri@) && uri@.skip(33) == base64_of(b)) ==> match decode_spec(
                    b,
                ) {
                    Ok(v) => r matches Ok(s) && s@ == v && s.wf(),
                    Err(e) => r matches Err(e2) && e2 == e,
                },
    {
        proof {
            reveal_strlit("data:audio/vnd.shazam.sig;base64,");
        }
        let n = uri.unicode_len();
        if n < 33 {
            return Err(SignatureError::BadUriPrefix);
        }
        for i in 0..33usize
            invariant
                n == uri@.len(),
                n >= 33,
                uri_prefix().len() == 33,
                DATA_URI_PREFIX@ == uri_prefix(),
                forall|j: int| 0 <= j < i ==> uri@[j] == uri_prefix()[j],
        {
            if uri.get_char(i) != DATA_URI_PREFIX.get_char(i) {
                proof {
                    assert(uri@.subrange(0, 33)[i as int] != uri_prefix()[i as int]);
                }
                return Err(SignatureError::BadUriPrefix);
            }
        }
        proof {
            assert(uri@.subrange(0, 33) =~= uri_prefix());
        }
        let tail = uri.substring_char(33, n);
        proof {
            assert(tail@ =~= uri@.skip(33));
        }
        let bytes = match base64_decode(tail) {
            Some(bytes) => bytes,
            None => {
                return Err(SignatureError::BadBase64);
            },
        };
        match DecodedSignature::decode_from_binary(bytes.as_slice()) {
            Ok(s) => Ok(s),
            Err(e) => Err(e),
        }
    }
}

} // verus!

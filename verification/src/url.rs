//! The share link's slug: secret id, encryption key and additional data
//! joined by `|` and carried as standard base64.
//!
//! The joining, splitting and UTF-8 handling are the library's own verified
//! logic; the base64 transport is an outside call whose result is named.

use vstd::prelude::*;

verus! {

use vstd::string::{StrSliceExecFns, StringExecFns, StringSliceAdditionalSpecFns};
use vstd::utf8::{valid_utf8, decode_utf8, encode_utf8};
use base64::Engine;
use crate::text::{split_str, split_spec};
use crate::crypto::OperationError;

/// The slug text: id, key and additional data joined by `|`.
pub open spec fn slug_chars_spec(id: Seq<char>, key: Seq<char>, ad: Seq<char>) -> Seq<char> {
    id + seq!['|'] + key + seq!['|'] + ad
}

/// The base64 text of a byte sequence (standard alphabet, padded); a
/// function of the bytes alone.
pub uninterp spec fn b64_of(data: Seq<u8>) -> Seq<char>;

/// Relies on base64's standard engine: encoding depends on the bytes alone.
#[verifier::external_body]
fn b64_encode(data: &Vec<u8>) -> (r: String)
    ensures
        r@ == b64_of(data@),
{
    base64::engine::general_purpose::STANDARD.encode(data)
}

/// Relies on base64's standard engine: decoding accepts canonical encodings
/// only — any accepted input is the encoding of the returned bytes and of no
/// other bytes (canonical decoding inverts the encoding), and a rejected
/// input is the encoding of nothing.
#[verifier::external_body]
fn b64_decode(s: &str) -> (r: Option<Vec<u8>>)
    ensures
        r matches Some(d) ==> b64_of(d@) == s@,
        r matches Some(d) ==> forall|d2: Seq<u8>| b64_of(d2) == s@ ==> d2 == d@,
        r is None ==> forall|d: Seq<u8>| b64_of(d) != s@,
{
    base64::engine::general_purpose::STANDARD.decode(s).ok()
}

/// Relies on String::from_utf8: accepts exactly valid UTF-8, yielding the
/// decoded characters.
#[verifier::external_body]
fn string_from_utf8(bytes: Vec<u8>) -> (r: Option<String>)
    ensures
        r is Some <==> valid_utf8(bytes@),
        r matches Some(s) ==> s@ == decode_utf8(bytes@),
{
    String::from_utf8(bytes).ok()
}

/// Splits a decoded slug into its exactly three `|`-separated parts.
pub fn slug_parts(decoded: &str) -> (r: Option<(String, String, String)>)
    ensures
        r is Some <==> split_spec(decoded@, '|').len() == 3,
        r matches Some(p) ==> {
            &&& p.0@ == split_spec(decoded@, '|')[0]
            &&& p.1@ == split_spec(decoded@, '|')[1]
            &&& p.2@ == split_spec(decoded@, '|')[2]
        },
{
    let parts = split_str(decoded, '|');
    if parts.len() == 3 {
        Some((parts[0].clone(), parts[1].clone(), parts[2].clone()))
    } else {
        None
    }
}

/// Encodes the slug for a share link.
pub fn get_encoded_url_slug(secret_id: &str, encryption_key: &str, additional_data: &str) -> (r:
    String)
    ensures
        r@ == b64_of(
            encode_utf8(slug_chars_spec(secret_id@, encryption_key@, additional_data@)),
        ),
{
    let mut combined = String::from_str(secret_id);
    combined.append("|");
    combined.append(encryption_key);
    combined.append("|");
    combined.append(additional_data);
    proof {
        reveal_strlit("|");
        assert(combined@ =~= slug_chars_spec(secret_id@, encryption_key@, additional_data@));
    }
    let bytes = combined.as_str().as_bytes_vec();
    b64_encode(&bytes)
}

/// Decodes a share link's slug back into its parts. Succeeds exactly on
/// canonical base64 of a UTF-8 text of exactly three `|`-separated parts,
/// and fails with a decode error on everything else.
pub fn get_encoded_url_slug_parts(data: &str) -> (r: Result<
    (String, String, String),
    OperationError,
>)
    ensures
        r matches Err(e) ==> e == OperationError::UrlDecodeError,
        r is Ok <==> (exists|d: Seq<u8>|
            {
                &&& #[trigger] b64_of(d) == data@
                &&& valid_utf8(d)
                &&& split_spec(decode_utf8(d), '|').len() == 3
            }),
        r matches Ok(p) ==> (exists|d: Seq<u8>|
            {
                &&& #[trigger] b64_of(d) == data@
                &&& valid_utf8(d)
                &&& split_spec(decode_utf8(d), '|').len() == 3
                &&& p.0@ == split_spec(decode_utf8(d), '|')[0]
                &&& p.1@ == split_spec(decode_utf8(d), '|')[1]
                &&& p.2@ == split_spec(decode_utf8(d), '|')[2]
            }),
{
    let bytes = match b64_decode(data) {
        Some(b) => b,
        None => {
            return Err(OperationError::UrlDecodeError);
        },
    };
    let ghost byte_view = bytes@;
    let decoded = match string_from_utf8(bytes) {
        Some(s) => s,
        None => {
            proof {
                if exists|d: Seq<u8>|
                    {
                        &&& #[trigger] b64_of(d) == data@
                        &&& valid_utf8(d)
                        &&& split_spec(decode_utf8(d), '|').len() == 3
                    } {
                    let d = choose|d: Seq<u8>|
                        {
                            &&& #[trigger] b64_of(d) == data@
                            &&& valid_utf8(d)
                            &&& split_spec(decode_utf8(d), '|').len() == 3
                        };
                    assert(d == byte_view);
                }
            }
            return Err(OperationError::UrlDecodeError);
        },
    };
    match slug_parts(decoded.as_str()) {
        Some(p) => {
            proof {
                assert(b64_of(byte_view) == data@);
            }
            Ok(p)
        },
        None => {
            proof {
                if exists|d: Seq<u8>|
                    {
                        &&& #[trigger] b64_of(d) == data@
                        &&& valid_utf8(d)
                        &&& split_spec(decode_utf8(d), '|').len() == 3
                    } {
                    let d = choose|d: Seq<u8>|
                        {
                            &&& #[trigger] b64_of(d) == data@
                            &&& valid_utf8(d)
                            &&& split_spec(decode_utf8(d), '|').len() == 3
                        };
                    assert(d == byte_view);
                }
            }
            Err(OperationError::UrlDecodeError)
        },
    }
}

} // verus!

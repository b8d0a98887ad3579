//! Decryption of a stored blob: `[hex(iv)]/[hex(data)]/[hex(mac)]` with a
//! raw password.
//!
//! The structure — splitting, hex decoding, key normalization, length
//! checks — is the library's own verified logic; only the AES-256-GCM
//! primitive itself is an outside call. An input whose structure is wrong in
//! any way, including an initialization vector or tag of the wrong size, is
//! reported as a decryption error rather than a panic.

use vstd::prelude::*;

verus! {

use vstd::string::{StrSliceExecFns, StringSliceAdditionalSpecFns};
use crate::text::{split_str, split_spec};
use crate::ip::{is_hex_digit, hex_digit_val};
use crypto::aead::AeadDecryptor;

/// An operation on a secret failed.
#[derive(Clone, Copy, Debug, PartialEq, Eq, Structural)]
pub enum OperationError {
    EncryptionError,
    DecryptionError,
    UrlDecodeError,
}

/// A key of exactly 32 bytes: the password's bytes padded with zeros, or cut
/// off, to length.
pub open spec fn valid_key_spec(bytes: Seq<u8>) -> Seq<u8> {
    if bytes.len() < 32 {
        bytes + Seq::<u8>::new((32 - bytes.len()) as nat, |k: int| 0u8)
    } else {
        bytes.take(32)
    }
}

/// Normalizes a password to a 32-byte key: shorter ones are padded with
/// zeros, longer ones are truncated.
pub fn get_valid_key(key: &str) -> (r: Vec<u8>)
    ensures
        r@ == valid_key_spec(key.spec_bytes()),
        r@.len() == 32,
{
    let mut bytes = key.as_bytes_vec();
    let n = bytes.len();
    if n < 32 {
        let mut k: usize = n;
        while k < 32
            invariant
                n <= k <= 32,
                n == key.spec_bytes().len(),
                bytes@ =~= key.spec_bytes() + Seq::<u8>::new((k - n) as nat, |m: int| 0u8),
            decreases 32 - k,
        {
            bytes.push(0u8);
            proof {
                assert(bytes@ =~= key.spec_bytes() + Seq::<u8>::new(
                    (k + 1 - n) as nat,
                    |m: int| 0u8,
                ));
            }
            k = k + 1;
        }
        bytes
    } else {
        bytes.truncate(32);
        proof {
            assert(bytes@ =~= key.spec_bytes().take(32));
        }
        bytes
    }
}

/// Whether a character sequence is well-formed hex: even length, hex digits
/// only.
pub open spec fn hex_ok_spec(s: Seq<char>) -> bool {
    s.len() % 2 == 0 && forall|k: int| 0 <= k < s.len() ==> is_hex_digit(#[trigger] s[k])
}

/// The bytes a well-formed hex sequence denotes, two digits per byte.
pub open spec fn hex_bytes_spec(s: Seq<char>) -> Seq<u8>
    decreases s.len(),
{
    if s.len() < 2 {
        Seq::<u8>::empty()
    } else {
        hex_bytes_spec(s.take(s.len() - 2)).push(
            (hex_digit_val(s[s.len() - 2]) * 16 + hex_digit_val(s[s.len() - 1])) as u8,
        )
    }
}

fn hex_digit_value(c: char) -> (r: Option<u8>)
    ensures
        r is Some <==> is_hex_digit(c),
        r matches Some(v) ==> v == hex_digit_val(c) && v < 16,
{
    if c >= '0' && c <= '9' {
        Some((c as u8) - ('0' as u8))
    } else if c >= 'a' && c <= 'f' {
        Some((c as u8) - ('a' as u8) + 10)
    } else if c >= 'A' && c <= 'F' {
        Some((c as u8) - ('A' as u8) + 10)
    } else {
        None
    }
}

/// Decodes a hex string to bytes; accepts exactly the well-formed inputs.
pub fn decode_hex(s: &str) -> (r: Option<Vec<u8>>)
    ensures
        r is Some <==> hex_ok_spec(s@),
        r matches Some(v) ==> v@ == hex_bytes_spec(s@) && v@.len() == s@.len() / 2,
{
    let n = s.unicode_len();
    if n % 2 != 0 {
        return None;
    }
    let mut out: Vec<u8> = Vec::new();
    let mut i: usize = 0;
    while i < n
        invariant
            0 <= i <= n,
            i % 2 == 0,
            n % 2 == 0,
            n == s@.len(),
            forall|k: int| 0 <= k < i ==> is_hex_digit(#[trigger] s@[k]),
            out@ == hex_bytes_spec(s@.take(i as int)),
            out@.len() == i / 2,
        decreases n - i,
    {
        let hi = match hex_digit_value(s.get_char(i)) {
            Some(v) => v,
            None => {
                return None;
            },
        };
        let lo = match hex_digit_value(s.get_char(i + 1)) {
            Some(v) => v,
            None => {
                return None;
            },
        };
        proof {
            assert(s@.take(i + 2).take(i as int) =~= s@.take(i as int));
            assert(s@.take(i + 2)[i as int] == s@[i as int]);
            assert(s@.take(i + 2)[i + 1] == s@[i + 1]);
        }
        out.push(hi * 16 + lo);
        i = i + 2;
    }
    proof {
        assert(s@.take(n as int) =~= s@);
    }
    Some(out)
}

/// Whether the blob has the expected structure: three `/`-separated
/// well-formed hex parts, a 12-byte initialization vector and a 16-byte tag.
pub open spec fn blob_structure_ok_spec(s: Seq<char>) -> bool {
    let ps = split_spec(s, '/');
    &&& ps.len() == 3
    &&& hex_ok_spec(ps[0])
    &&& hex_ok_spec(ps[1])
    &&& hex_ok_spec(ps[2])
    &&& ps[0].len() == 24
    &&& ps[2].len() == 32
}

/// The decoded parts of a well-formed blob: initialization vector,
/// ciphertext, tag.
pub open spec fn blob_parts_spec(s: Seq<char>) -> (Seq<u8>, Seq<u8>, Seq<u8>) {
    let ps = split_spec(s, '/');
    (hex_bytes_spec(ps[0]), hex_bytes_spec(ps[1]), hex_bytes_spec(ps[2]))
}

fn split_iv_data_mac(orig: &str) -> (r: Option<(Vec<u8>, Vec<u8>, Vec<u8>)>)
    ensures
        r is Some <==> blob_structure_ok_spec(orig@),
        r matches Some(v) ==> (v.0@, v.1@, v.2@) == blob_parts_spec(orig@) && v.0@.len() == 12
            && v.2@.len() == 16,
{
    let parts = split_str(orig, '/');
    if parts.len() != 3 {
        return None;
    }
    let iv = match decode_hex(parts[0].as_str()) {
        Some(v) => v,
        None => {
            return None;
        },
    };
    let data = match decode_hex(parts[1].as_str()) {
        Some(v) => v,
        None => {
            return None;
        },
    };
    let mac = match decode_hex(parts[2].as_str()) {
        Some(v) => v,
        None => {
            return None;
        },
    };
    if iv.len() != 12 || mac.len() != 16 {
        return None;
    }
    Some((iv, data, mac))
}

/// The tag validity AES-256-GCM computes for a key, nonce, ciphertext and
/// tag; a function of those values alone.
pub uninterp spec fn aes256gcm_tag_ok(key: Seq<u8>, iv: Seq<u8>, data: Seq<u8>, mac: Seq<u8>) -> bool;

/// The plaintext AES-256-GCM yields for a key, nonce and ciphertext; a
/// function of those values alone, as long as the ciphertext.
pub uninterp spec fn aes256gcm_plaintext(key: Seq<u8>, iv: Seq<u8>, data: Seq<u8>) -> Seq<u8>;

/// Relies on crypto::aes_gcm::AesGcm with a 256-bit key: decryption writes
/// the keystream-decrypted plaintext and reports whether the authentication
/// tag matches; both depend only on the key, nonce, ciphertext and tag.
#[verifier::external_body]
fn aes256_gcm_open(key: &Vec<u8>, iv: &Vec<u8>, data: &Vec<u8>, mac: &Vec<u8>) -> (r: Option<
    Vec<u8>,
>)
    requires
        key@.len() == 32,
        iv@.len() == 12,
        mac@.len() == 16,
    ensures
        r is Some <==> aes256gcm_tag_ok(key@, iv@, data@, mac@),
        r matches Some(v) ==> v@ == aes256gcm_plaintext(key@, iv@, data@) && v@.len()
            == data@.len(),
{
    let mut decipher = crypto::aes_gcm::AesGcm::new(
        crypto::aes::KeySize::KeySize256,
        key.as_slice(),
        iv.as_slice(),
        &[],
    );
    let mut dst: Vec<u8> = vec![0u8; data.len()];
    if decipher.decrypt(data.as_slice(), &mut dst, mac.as_slice()) {
        Some(dst)
    } else {
        None
    }
}

/// Decrypts a `[hex(iv)]/[hex(data)]/[hex(mac)]` blob with a raw password.
/// Fails closed: a malformed structure, wrong-sized vector or tag, or a tag
/// mismatch all yield a decryption error and nothing else.
pub fn decrypt_aes256_data(iv_data_mac: &str, key: &str) -> (r: Result<Vec<u8>, OperationError>)
    ensures
        !blob_structure_ok_spec(iv_data_mac@) ==> r == Err::<Vec<u8>, OperationError>(
            OperationError::DecryptionError,
        ),
        blob_structure_ok_spec(iv_data_mac@) ==> {
            let (iv, data, mac) = blob_parts_spec(iv_data_mac@);
            let k = valid_key_spec(key.spec_bytes());
            &&& (r is Ok <==> aes256gcm_tag_ok(k, iv, data, mac))
            &&& (r matches Ok(v) ==> v@ == aes256gcm_plaintext(k, iv, data))
        },
        r matches Err(e) ==> e == OperationError::DecryptionError,
{
    let (iv, data, mac) = match split_iv_data_mac(iv_data_mac) {
        Some(parts) => parts,
        None => {
            return Err(OperationError::DecryptionError);
        },
    };
    let key_bytes = get_valid_key(key);
    match aes256_gcm_open(&key_bytes, &iv, &data, &mac) {
        Some(plaintext) => Ok(plaintext),
        None => Err(OperationError::DecryptionError),
    }
}

} // verus!

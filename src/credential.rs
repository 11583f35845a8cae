use vstd::prelude::*;
use vstd::string::*;

use crate::error::RunError;

verus! {

#[verifier::external_type_specification]
#[verifier::external_body]
pub struct ExEncodingKey(jsonwebtoken::EncodingKey);

pub open spec fn is_digit(c: char) -> bool {
    '0' <= c && c <= '9'
}

pub open spec fn digit_value(c: char) -> nat {
    ((c as u32) - ('0' as u32)) as nat
}

pub open spec fn all_digits(d: Seq<char>) -> bool {
    forall|i: int| 0 <= i < d.len() ==> is_digit(#[trigger] d[i])
}

/// The number that a string of decimal digits writes.
pub open spec fn digits_value(s: Seq<char>) -> nat
    decreases s.len(),
{
    if s.len() == 0 {
        0
    } else {
        digits_value(s.drop_last()) * 10 + digit_value(s.last())
    }
}

/// The digits of an unsigned number: what follows an optional leading `+`.
pub open spec fn unsigned_digits(s: Seq<char>) -> Seq<char> {
    if s.len() > 0 && s[0] == '+' {
        s.drop_first()
    } else {
        s
    }
}

/// The application id that `s` writes: a positive decimal number that fits in
/// 64 bits, with an optional leading `+` and nothing else around it.
pub open spec fn app_id_value(s: Seq<char>) -> Option<nat> {
    let d = unsigned_digits(s);
    if d.len() > 0 && all_digits(d) && 0 < digits_value(d) <= u64::MAX {
        Some(digits_value(d))
    } else {
        None
    }
}

proof fn lemma_prefix_value_grows(d: Seq<char>, i: int, j: int)
    requires
        0 <= i <= j <= d.len(),
        forall|k: int| 0 <= k < d.len() ==> is_digit(#[trigger] d[k]),
    ensures
        digits_value(d.take(i)) <= digits_value(d.take(j)),
    decreases j - i,
{
    if i < j {
        lemma_prefix_value_grows(d, i, j - 1);
        assert(d.take(j).drop_last() =~= d.take(j - 1));
    }
}

/// Reads an application id, as [`app_id_value`] describes it.
pub fn parse_app_id(s: &str) -> (r: Result<u64, RunError>)
    ensures
        match app_id_value(s@) {
            Some(v) => r matches Ok(n) && n == v,
            None => r matches Err(RunError::GitHubAppId),
        },
{
    let len = s.unicode_len();
    let mut i: usize = 0;
    if len > 0 && s.get_char(0) == '+' {
        i = 1;
    }
    let start = i;
    let ghost d = unsigned_digits(s@);
    assert(d =~= s@.subrange(start as int, len as int));
    if i == len {
        return Err(RunError::GitHubAppId);
    }
    let mut acc: u64 = 0;
    while i < len
        invariant
            start <= i <= len,
            len == s@.len(),
            d == s@.subrange(start as int, len as int),
            d == unsigned_digits(s@),
            forall|k: int| 0 <= k < i - start ==> is_digit(#[trigger] d[k]),
            acc == digits_value(d.take(i - start)),
        decreases len - i,
    {
        let c = s.get_char(i);
        if c < '0' || c > '9' {
            assert(!is_digit(d[i - start]));
            assert(!all_digits(d));
            return Err(RunError::GitHubAppId);
        }
        let v = (c as u32 - '0' as u32) as u64;
        assert(d.take(i - start + 1).drop_last() =~= d.take(i - start));
        if acc > 1844674407370955161 || (acc == 1844674407370955161 && v > 5) {
            proof {
                if all_digits(d) {
                    lemma_prefix_value_grows(d, i - start + 1, d.len() as int);
                    assert(d.take(d.len() as int) =~= d);
                }
            }
            return Err(RunError::GitHubAppId);
        }
        acc = acc * 10 + v;
        i = i + 1;
    }
    assert(d.take(d.len() as int) =~= d);
    if acc == 0 {
        return Err(RunError::GitHubAppId);
    }
    Ok(acc)
}

/// Whether the bytes are a PEM-encoded RSA private key that jsonwebtoken
/// accepts for signing.
pub uninterp spec fn rsa_pem_accepted(pem: Seq<u8>) -> bool;

/// Relies on `jsonwebtoken::EncodingKey::from_rsa_pem`: it decodes the PEM text
/// and accepts or refuses it by its bytes alone.
#[verifier::external_body]
fn decode_rsa_pem(pem: &[u8]) -> (r: Result<jsonwebtoken::EncodingKey, jsonwebtoken::errors::Error>)
    ensures
        r is Ok == rsa_pem_accepted(pem@),
{
    jsonwebtoken::EncodingKey::from_rsa_pem(pem)
}

/// Relies on `octocrab::auth::create_jwt`: it signs an RS256 token for the app
/// id that is valid for a few minutes from the clock's present time. The token
/// holds the time, so nothing is stated of it. The call panics only on a
/// system clock set to the first minute of 1970 or before.
#[verifier::external_body]
fn sign_app_jwt(app_id: u64, key: &jsonwebtoken::EncodingKey) -> (r: Result<String, jsonwebtoken::errors::Error>)
{
    octocrab::auth::create_jwt(app_id.into(), key)
}

/// Builds the app's signed bearer credential from its configuration: the
/// application id as text and the private key file's bytes, either of them
/// `None` where it was not set or could not be read.
///
/// The id is checked first, then the key; a key that cannot be decoded, or
/// that the signer refuses, gives `GitHubAppPrivateKeyDecode`.
pub fn app_credential(app_id: Option<&str>, private_key: Option<&[u8]>) -> (r: Result<String, RunError>)
    ensures
        credential_outcome(app_id, private_key, r),
{
    let id = match app_id {
        None => return Err(RunError::GitHubAppId),
        Some(text) => match parse_app_id(text) {
            Ok(n) => n,
            Err(e) => return Err(e),
        },
    };
    let pem = match private_key {
        None => return Err(RunError::GitHubAppPrivateKey),
        Some(bytes) => bytes,
    };
    let key = match decode_rsa_pem(pem) {
        Ok(k) => k,
        Err(e) => return Err(RunError::GitHubAppPrivateKeyDecode(e)),
    };
    match sign_app_jwt(id, &key) {
        Ok(token) => Ok(token),
        Err(e) => Err(RunError::GitHubAppPrivateKeyDecode(e)),
    }
}

/// What building the credential may give for this configuration: the error
/// that the first missing or invalid piece calls for, or, where everything
/// decodes, a token or a signing error.
pub open spec fn credential_outcome(app_id: Option<&str>, private_key: Option<&[u8]>, r: Result<String, RunError>) -> bool {
    match app_id {
        None => r matches Err(RunError::GitHubAppId),
        Some(text) => match app_id_value(text@) {
            None => r matches Err(RunError::GitHubAppId),
            Some(_) => match private_key {
                None => r matches Err(RunError::GitHubAppPrivateKey),
                Some(pem) => if rsa_pem_accepted(pem@) {
                    r is Ok || r matches Err(RunError::GitHubAppPrivateKeyDecode(_))
                } else {
                    r matches Err(RunError::GitHubAppPrivateKeyDecode(_))
                },
            },
        },
    }
}

} // verus!

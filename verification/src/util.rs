//! Stateless utility helpers: random alphanumeric strings, RSA key-pair
//! generation, the wall clock, the current user's name, and the platform
//! backup-coordination probe.

use rand::distributions::Alphanumeric;
use rand::{thread_rng, Rng};
use rsa::pkcs1::{EncodeRsaPrivateKey, EncodeRsaPublicKey};
use rsa::pkcs8::LineEnding;
use rsa::{RsaPrivateKey, RsaPublicKey};
use vstd::prelude::*;

verus! {

/// An ASCII digit or letter, as a byte.
pub open spec fn is_alnum_byte(b: u8) -> bool {
    (48 <= b && b <= 57) || (65 <= b && b <= 90) || (97 <= b && b <= 122)
}

/// An ASCII digit or letter, as a character.
pub open spec fn is_alnum_char(c: char) -> bool {
    (48 <= c as u32 && c as u32 <= 57) || (65 <= c as u32 && c as u32 <= 90) || (97 <= c as u32
        && c as u32 <= 122)
}

/// Relies on rand's `Alphanumeric` distribution: every sampled byte is an
/// ASCII letter or digit.
#[verifier::external_body]
fn sample_alnum_bytes(len: usize) -> (v: Vec<u8>)
    ensures
        v@.len() == len,
        forall|i: int| 0 <= i < v@.len() ==> is_alnum_byte(v@[i]),
{
    thread_rng().sample_iter(&Alphanumeric).take(len).collect()
}

/// Relies on `String`'s `FromIterator` over `char`: collecting characters
/// yields exactly those characters, in order.
#[verifier::external_body]
pub(crate) fn string_from_chars(cs: &Vec<char>) -> (s: String)
    ensures
        s@ == cs@,
{
    cs.iter().copied().collect()
}

/// A random string of exactly `len` ASCII alphanumeric characters.
pub fn gen_rand_str_with(len: usize) -> (r: String)
    ensures
        r@.len() == len,
        forall|i: int| 0 <= i < r@.len() ==> is_alnum_char(r@[i]),
{
    let bytes = sample_alnum_bytes(len);
    let mut chars: Vec<char> = Vec::new();
    let mut i: usize = 0;
    while i < bytes.len()
        invariant
            i <= bytes@.len(),
            bytes@.len() == len,
            chars@.len() == i,
            forall|j: int| 0 <= j < bytes@.len() ==> is_alnum_byte(bytes@[j]),
            forall|j: int| 0 <= j < i ==> is_alnum_char(chars@[j]),
        decreases bytes@.len() - i,
    {
        chars.push(bytes[i] as char);
        i = i + 1;
    }
    string_from_chars(&chars)
}

/// Relies on the rsa crate: a freshly generated 2048-bit key pair, encoded as
/// PKCS#1 PEM text, public key first; `None` if generation or encoding
/// fails.
#[verifier::external_body]
pub fn generate_rsa_key() -> Option<(String, String)> {
    let private_key = RsaPrivateKey::new(&mut rand::thread_rng(), 2048).ok()?;
    let public_key = RsaPublicKey::from(&private_key);
    let public_pem = public_key.to_pkcs1_pem(LineEnding::LF).ok()?.to_string();
    let private_pem = private_key.to_pkcs1_pem(LineEnding::LF).ok()?.to_string();
    Some((public_pem, private_pem))
}

/// Relies on `std::time::UNIX_EPOCH`: whole seconds of wall-clock time since
/// the Unix epoch. Aborts if the clock reports a time before the epoch,
/// which is a broken environment, not a recoverable error.
#[verifier::external_body]
pub fn get_now_secs() -> u64 {
    std::time::UNIX_EPOCH.elapsed().expect("get_now_secs failed").as_secs()
}

/// Relies on the users crate: the name of the user running this process.
/// Aborts if the name cannot be determined or is not valid UTF-8, which is a
/// broken environment, not a recoverable error.
#[verifier::external_body]
pub fn get_current_username() -> String {
    let name = users::get_current_username().expect("get_current_username failed");
    String::from(name.to_str().expect("get_current_username failed"))
}

/// Whether the backup-coordination wait event exists. No such event can
/// exist on this platform, so the probe always reports `false`.
pub fn cbs_exist() -> (r: bool)
    ensures
        r == false,
{
    false
}

} // verus!

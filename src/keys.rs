use russh::keys::{Algorithm, PrivateKey};
use vstd::prelude::*;

verus! {

#[verifier::external_type_specification]
#[verifier::external_body]
pub struct ExPrivateKey(PrivateKey);

/// Whether `pem` decodes as an OpenSSH private key.
pub uninterp spec fn is_openssh_key(pem: Seq<u8>) -> bool;

/// Relies on `PrivateKey::from_openssh` (ssh-key, re-exported by
/// `russh::keys`): it decodes the bytes of an OpenSSH PEM file, and whether
/// it succeeds depends on those bytes alone.
#[verifier::external_body]
fn decode_openssh(pem: &Vec<u8>) -> (r: Option<PrivateKey>)
    ensures
        r is Some <==> is_openssh_key(pem@),
{
    PrivateKey::from_openssh(pem.as_slice()).ok()
}

/// Relies on `PrivateKey::random` (ssh-key, re-exported by `russh::keys`)
/// with the operating system's generator: a fresh Ed25519 key. For Ed25519
/// the source always returns `Ok`; nothing more is promised of the key.
#[verifier::external_body]
fn generate_ed25519() -> (r: Option<PrivateKey>)
    ensures
        r is Some,
{
    PrivateKey::random(&mut rand_core::OsRng, Algorithm::Ed25519).ok()
}

/// Why the server's keys could not be had.
#[derive(Clone, Copy, Debug, PartialEq, Eq, Structural)]
pub enum KeyError {
    /// The key file at this position (counting from zero) is not an OpenSSH
    /// private key.
    Parse(usize),
}

/// The server's keys, from the contents of the configured key files
/// (OpenSSH PEM files only). With no key file, one fresh Ed25519 key is
/// generated, and this never fails. Otherwise each file gives one key, in order, and the first
/// file that does not decode is named in the error.
pub fn get_server_keys(contents: &Vec<Vec<u8>>) -> (r: Result<Vec<PrivateKey>, KeyError>)
    ensures
        contents@.len() == 0 ==> r is Ok && r->Ok_0@.len() == 1,
        contents@.len() > 0 ==> match r {
            Ok(keys) => {
                &&& keys@.len() == contents@.len()
                &&& forall|i: int| 0 <= i < contents@.len() ==> is_openssh_key(#[trigger] contents@[i]@)
            },
            Err(KeyError::Parse(i)) => {
                &&& i < contents@.len()
                &&& !is_openssh_key(contents@[i as int]@)
                &&& forall|j: int| 0 <= j < i ==> is_openssh_key(#[trigger] contents@[j]@)
            },
        },
{
    if contents.len() == 0 {
        let mut keys: Vec<PrivateKey> = Vec::new();
        keys.push(generate_ed25519().unwrap());
        return Ok(keys);
    }
    let mut keys: Vec<PrivateKey> = Vec::new();
    let mut i: usize = 0;
    while i < contents.len()
        invariant
            i <= contents@.len(),
            keys@.len() == i,
            forall|j: int| 0 <= j < i ==> is_openssh_key(#[trigger] contents@[j]@),
        decreases contents@.len() - i,
    {
        match decode_openssh(&contents[i]) {
            Some(key) => keys.push(key),
            None => return Err(KeyError::Parse(i)),
        }
        i = i + 1;
    }
    Ok(keys)
}

} // verus!

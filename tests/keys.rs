use russh::keys::ssh_key::LineEnding;
use russh::keys::{Algorithm, PrivateKey};
use rust_tunnel::get_server_keys;
use rust_tunnel::keys::KeyError;

fn pem() -> Vec<u8> {
    let key = PrivateKey::random(&mut rand_core::OsRng, Algorithm::Ed25519).unwrap();
    key.to_openssh(LineEnding::LF).unwrap().as_bytes().to_vec()
}

#[test]
fn no_key_file_generates_one_key() {
    let keys = get_server_keys(&vec![]).unwrap();
    assert!(get_server_keys(&vec![]).is_ok());
    assert_eq!(keys.len(), 1);
    assert_eq!(keys[0].algorithm(), Algorithm::Ed25519);
}

#[test]
fn key_files_are_decoded_in_order() {
    let files = vec![pem(), pem()];
    let keys = get_server_keys(&files).unwrap();
    assert_eq!(keys.len(), 2);
    let expected = PrivateKey::from_openssh(&files[1]).unwrap();
    assert_eq!(keys[1].public_key(), expected.public_key());
}

#[test]
fn first_bad_key_file_is_named() {
    let files = vec![pem(), b"not a key".to_vec(), b"junk".to_vec()];
    assert_eq!(get_server_keys(&files).err(), Some(KeyError::Parse(1)));
    assert_eq!(
        get_server_keys(&vec![Vec::new()]).err(),
        Some(KeyError::Parse(0))
    );
}

//! AES-128 in CBC mode with PKCS#7 padding, as the `aes` and `cbc` crates
//! compute it, and the source of initialization vectors.

use cbc::cipher::block_padding::Pkcs7;
use cbc::cipher::{BlockDecryptMut, BlockEncryptMut, KeyIvInit};
use rand::RngCore;
use vstd::prelude::*;

verus! {

/// The ciphertext of `plaintext` under AES-128-CBC with PKCS#7 padding, for a
/// key and an initialization vector of sixteen bytes each.
pub uninterp spec fn aes128_cbc_encrypted(key: Seq<u8>, iv: Seq<u8>, plaintext: Seq<u8>) -> Seq<u8>;

/// The plaintext that `ciphertext` decrypts to under AES-128-CBC with PKCS#7
/// padding, or `None` where its length or its padding is not that of a
/// ciphertext.
pub uninterp spec fn aes128_cbc_decrypted(key: Seq<u8>, iv: Seq<u8>, ciphertext: Seq<u8>) -> Option<
    Seq<u8>,
>;

/// The length of the ciphertext of a plaintext of `len` bytes: the padding
/// fills the last block and is never empty.
pub open spec fn padded_len(len: nat) -> nat {
    16 * (len / 16 + 1)
}

/// Encrypts `plaintext`.
///
/// Calls `cbc::Encryptor::<aes::Aes128>::new` and, on the cipher it gives,
/// `encrypt_padded_vec_mut::<Pkcs7>`. Trusted: the result is the ciphertext
/// named above; it is one block longer than the whole blocks of the
/// plaintext; and decrypting it with the same key and vector gives the
/// plaintext back.
#[verifier::external_body]
pub(crate) fn encrypt(key: &[u8; 16], iv: &[u8; 16], plaintext: &[u8]) -> (ciphertext: Vec<u8>)
    requires
        plaintext@.len() + 16 <= usize::MAX,
    ensures
        ciphertext@ == aes128_cbc_encrypted(key@, iv@, plaintext@),
        ciphertext@.len() == padded_len(plaintext@.len()),
        aes128_cbc_decrypted(key@, iv@, ciphertext@) == Some(plaintext@),
{
    let cipher = cbc::Encryptor::<aes::Aes128>::new(&(*key).into(), &(*iv).into());
    cipher.encrypt_padded_vec_mut::<Pkcs7>(plaintext)
}

/// Decrypts `ciphertext`.
///
/// Calls `cbc::Decryptor::<aes::Aes128>::new` and, on the cipher it gives,
/// `decrypt_padded_vec_mut::<Pkcs7>`. Trusted: the result is the plaintext
/// named above, and there is one only where the ciphertext is made of whole
/// blocks, the last of which holds between one and sixteen bytes of padding.
#[verifier::external_body]
pub(crate) fn decrypt(key: &[u8; 16], iv: &[u8; 16], ciphertext: &[u8]) -> (plaintext: Option<
    Vec<u8>,
>)
    ensures
        match plaintext {
            Some(p) => {
                &&& aes128_cbc_decrypted(key@, iv@, ciphertext@) == Some(p@)
                &&& ciphertext@.len() % 16 == 0
                &&& p@.len() < ciphertext@.len() <= p@.len() + 16
            },
            None => aes128_cbc_decrypted(key@, iv@, ciphertext@).is_none(),
        },
{
    let cipher = cbc::Decryptor::<aes::Aes128>::new(&(*key).into(), &(*iv).into());
    cipher.decrypt_padded_vec_mut::<Pkcs7>(ciphertext).ok()
}

/// Draws an initialization vector from the operating system's random
/// source.
///
/// Calls `RngCore::try_fill_bytes` on `rand::rngs::OsRng`. Nothing is
/// claimed of the bytes that come back, nor of when the source fails; its
/// error is handed on as the `std::io::Error` that `rand` converts it to.
#[verifier::external_body]
pub(crate) fn fresh_iv() -> core::result::Result<[u8; 16], std::io::Error> {
    let mut iv = [0u8; 16];
    match rand::rngs::OsRng.try_fill_bytes(&mut iv) {
        Ok(()) => Ok(iv),
        Err(e) => Err(e.into()),
    }
}

} // verus!

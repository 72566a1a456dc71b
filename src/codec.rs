//! AES-128 in CBC mode with PKCS#7 padding, the cipher that hides order numbers,
//! and the derivation of its key material.

use vstd::prelude::*;
use aes::cipher::{BlockEncryptMut, KeyIvInit};
use aes::cipher::block_padding::Pkcs7;
use aes::cipher::generic_array::GenericArray;
use vstd::utf8::encode_utf8;
use crate::text::{ascii_bytes, decimal, decimal_bytes};

verus! {

/// Size in bytes of a cipher block, of a key and of an IV.
pub const BLOCK_SIZE: usize = 16;

/// Length of the ciphertext of `n` bytes: padding always adds between one byte
/// and a whole block.
pub open spec fn padded_len(n: nat) -> nat {
    (n / 16 + 1) * 16
}

/// AES-128-CBC with PKCS#7 padding of `plain` under `key` and `iv`.
pub uninterp spec fn aes128_cbc_pkcs7(key: Seq<u8>, iv: Seq<u8>, plain: Seq<u8>) -> Seq<u8>;

/// MD5 digest of `data`.
pub uninterp spec fn md5_digest(data: Seq<u8>) -> Seq<u8>;

/// Relies on `cbc::Encryptor<aes::Aes128>` and cipher's `encrypt_padded_vec_mut`
/// with `Pkcs7`: the ciphertext depends on key, IV and message alone, and the
/// output buffer is `16 * (len / 16 + 1)` bytes, all of which PKCS#7 fills.
/// `GenericArray::from_slice` panics unless key and IV have 16 bytes.
#[verifier::external_body]
fn aes_cbc_encrypt(key: &[u8], iv: &[u8], plain: &[u8]) -> (r: Vec<u8>)
    requires
        key@.len() == 16,
        iv@.len() == 16,
    ensures
        r@ == aes128_cbc_pkcs7(key@, iv@, plain@),
        r@.len() == padded_len(plain@.len()),
{
    cbc::Encryptor::<aes::Aes128>::new(GenericArray::from_slice(key), GenericArray::from_slice(iv))
        .encrypt_padded_vec_mut::<Pkcs7>(plain)
}

/// Relies on `md5::compute`: the digest of `data`, sixteen bytes.
#[verifier::external_body]
fn md5_compute(data: &[u8]) -> (r: Vec<u8>)
    ensures
        r@ == md5_digest(data@),
        r@.len() == 16,
{
    md5::compute(data).0.to_vec()
}

/// A value to encrypt: text, taken as its UTF-8 bytes, or raw bytes.
pub enum EncryptArgs {
    String(String),
    Bytes(Vec<u8>),
}

impl EncryptArgs {
    /// The bytes that encryption reads.
    pub open spec fn payload(&self) -> Seq<u8> {
        match self {
            EncryptArgs::String(s) => encode_utf8(s@),
            EncryptArgs::Bytes(b) => b@,
        }
    }

    /// The bytes that encryption reads.
    pub fn bytes(&self) -> (r: &[u8])
        ensures
            r@ == self.payload(),
    {
        match self {
            EncryptArgs::String(s) => s.as_str().as_bytes(),
            EncryptArgs::Bytes(b) => b.as_slice(),
        }
    }
}


impl From<String> for EncryptArgs {
    fn from(s: String) -> (r: Self)
        ensures
            r == EncryptArgs::String(s),
    {
        EncryptArgs::String(s)
    }
}

impl vstd::std_specs::convert::FromSpecImpl<String> for EncryptArgs {
    open spec fn obeys_from_spec() -> bool {
        true
    }

    open spec fn from_spec(s: String) -> EncryptArgs {
        EncryptArgs::String(s)
    }
}

impl From<Vec<u8>> for EncryptArgs {
    fn from(b: Vec<u8>) -> (r: Self)
        ensures
            r == EncryptArgs::Bytes(b),
    {
        EncryptArgs::Bytes(b)
    }
}

impl vstd::std_specs::convert::FromSpecImpl<Vec<u8>> for EncryptArgs {
    open spec fn obeys_from_spec() -> bool {
        true
    }

    open spec fn from_spec(b: Vec<u8>) -> EncryptArgs {
        EncryptArgs::Bytes(b)
    }
}

/// A number is encrypted as the ASCII text of its decimal digits.
impl From<u32> for EncryptArgs {
    fn from(n: u32) -> (r: Self)
        ensures
            r.payload() == ascii_bytes(decimal(n as nat)),
    {
        EncryptArgs::Bytes(decimal_bytes(n))
    }
}

impl vstd::std_specs::convert::FromSpecImpl<u32> for EncryptArgs {
    open spec fn obeys_from_spec() -> bool {
        false
    }

    open spec fn from_spec(n: u32) -> EncryptArgs {
        arbitrary()
    }
}

/// Why encryption was refused.
#[derive(Debug, Clone, Copy, PartialEq, Eq, Structural)]
pub enum EncryptionError {
    /// The key does not have exactly 16 bytes.
    InvalidKeyLength,
    /// The IV does not have exactly 16 bytes.
    InvalidIvLength,
}

/// Ciphertext of `plain` under `key` and `iv`, when both have 16 bytes.
pub open spec fn encrypt_spec(key: Seq<u8>, iv: Seq<u8>, plain: Seq<u8>) -> Result<
    Seq<u8>,
    EncryptionError,
> {
    if key.len() != 16 {
        Err(EncryptionError::InvalidKeyLength)
    } else if iv.len() != 16 {
        Err(EncryptionError::InvalidIvLength)
    } else {
        Ok(aes128_cbc_pkcs7(key, iv, plain))
    }
}

/// Encryption is deterministic: the same bytes under the same key and IV
/// always give the same outcome, whichever variant carried them.
pub proof fn encryption_is_deterministic(key: Seq<u8>, iv: Seq<u8>, a: EncryptArgs, b: EncryptArgs)
    requires
        a.payload() == b.payload(),
    ensures
        encrypt_spec(key, iv, a.payload()) == encrypt_spec(key, iv, b.payload()),
        key.len() == 16 && iv.len() == 16 ==> encrypt_spec(key, iv, a.payload()) is Ok,
{
}

/// Encrypts the bytes of `data` with AES-128-CBC and PKCS#7 padding.
/// The ciphertext is `(len / 16 + 1) * 16` bytes long and depends on the
/// arguments alone.
pub fn encrypt(key: &[u8], iv: &[u8], data: &EncryptArgs) -> (r: Result<Vec<u8>, EncryptionError>)
    ensures
        r matches Ok(c) ==> encrypt_spec(key@, iv@, data.payload()) == Ok::<Seq<u8>, EncryptionError>(c@)
            && c@.len() == padded_len(data.payload().len()),
        r matches Err(e) ==> encrypt_spec(key@, iv@, data.payload()) == Err::<Seq<u8>, EncryptionError>(e),
{
    if key.len() != BLOCK_SIZE {
        return Err(EncryptionError::InvalidKeyLength);
    }
    if iv.len() != BLOCK_SIZE {
        return Err(EncryptionError::InvalidIvLength);
    }
    Ok(aes_cbc_encrypt(key, iv, data.bytes()))
}

/// Key and IV that encrypt order numbers.
pub struct KeyMaterial {
    pub key: Vec<u8>,
    pub iv: Vec<u8>,
}

impl KeyMaterial {
    /// Both parts have the size the cipher needs.
    pub open spec fn wf(&self) -> bool {
        self.key@.len() == 16 && self.iv@.len() == 16
    }

    /// Material given by the caller; `None` unless key and IV have 16 bytes.
    pub fn from_parts(key: Vec<u8>, iv: Vec<u8>) -> (r: Option<KeyMaterial>)
        ensures
            r matches Some(m) ==> m.key@ == key@ && m.iv@ == iv@ && m.wf(),
            r is None <==> key@.len() != 16 || iv@.len() != 16,
    {
        if key.len() == BLOCK_SIZE && iv.len() == BLOCK_SIZE {
            Some(KeyMaterial { key, iv })
        } else {
            None
        }
    }

    /// The material in use before any secret is shared: key and IV are both
    /// the MD5 digest of the empty input.
    pub fn initial() -> (r: KeyMaterial)
        ensures
            r.wf(),
            r.key@ == md5_digest(Seq::empty()),
            r.iv@ == md5_digest(Seq::empty()),
    {
        let empty: Vec<u8> = Vec::new();
        let key = md5_compute(empty.as_slice());
        let iv = md5_compute(empty.as_slice());
        KeyMaterial { key, iv }
    }

    /// Encrypts `data` under this material.
    pub fn encrypt(&self, data: &EncryptArgs) -> (r: Vec<u8>)
        requires
            self.wf(),
        ensures
            r@ == aes128_cbc_pkcs7(self.key@, self.iv@, data.payload()),
            r@.len() == padded_len(data.payload().len()),
    {
        aes_cbc_encrypt(self.key.as_slice(), self.iv.as_slice(), data.bytes())
    }
}

} // verus!

//! The parts of a bcachefs superblock that mounting reads: the filesystem's
//! UUID, the nonce of its key, and the optional field that holds the
//! encryption parameters.
//!
//! The on-disk layout belongs to the storage engine. What it decoded is held
//! here as plain values, under the names the engine gives its structures.

use bitfield::BitRange;
use vstd::prelude::*;

verus! {

/// The selector that the encryption flags hold for the scrypt key derivation
/// function.
pub const BCH_KDF_SCRYPT: u64 = 0;

/// The bits `lsb..=msb` of `word`, moved down to bit 0.
pub open spec fn bits_of(word: u64, msb: u64, lsb: u64) -> u64
    recommends
        lsb <= msb < 64,
{
    (word >> lsb) & (u64::MAX >> ((63 - msb + lsb) as u64))
}

/// The number that `bytes` spell in big-endian order.
pub open spec fn be_value(bytes: Seq<u8>) -> nat
    decreases bytes.len(),
{
    if bytes.len() == 0 {
        0
    } else {
        be_value(bytes.drop_last()) * 256 + bytes.last() as nat
    }
}

/// `BitRange::<u64>::bit_range` of the bitfield crate, on a `u64`: the bits
/// from `lsb` up to `msb`, both included, as a number. The crate shifts by
/// `63 - msb` and by `63 - msb + lsb`, so the range has to lie inside the word.
#[verifier::external_body]
fn bit_range(word: u64, msb: usize, lsb: usize) -> (field: u64)
    requires
        lsb <= msb < 64,
    ensures
        field == bits_of(word, msb as u64, lsb as u64),
{
    word.bit_range(msb, lsb)
}

/// `Uuid::from_bytes` of the uuid crate, read back with `as_u128`: the sixteen
/// bytes taken as one number, first byte highest.
#[verifier::external_body]
fn uuid_from_bytes(bytes: &[u8; 16]) -> (value: u128)
    ensures
        value as nat == be_value(bytes@),
{
    uuid::Uuid::from_bytes(*bytes).as_u128()
}

/// A symmetric key: 256 bits as four words.
#[allow(non_camel_case_types)]
#[derive(Clone, Copy, Debug, PartialEq, Eq)]
pub struct bch_key {
    pub key: [u64; 4],
}

/// A key as the superblock stores it: a magic word, then the key. Both are
/// encrypted while the filesystem is locked.
#[allow(non_camel_case_types)]
#[derive(Clone, Copy, Debug, PartialEq, Eq)]
pub struct bch_encrypted_key {
    pub magic: u64,
    pub key: bch_key,
}

/// The nonce of a stream cipher call.
#[allow(non_camel_case_types)]
#[derive(Clone, Copy, Debug, PartialEq, Eq)]
pub struct nonce {
    pub d: [u32; 4],
}

/// The flag word of the encryption field.
#[allow(non_camel_case_types)]
#[derive(Clone, Copy, Debug, PartialEq, Eq)]
pub struct bch_crypt_flags(pub u64);

/// The cost parameters of scrypt, packed into one word.
#[allow(non_camel_case_types)]
#[derive(Clone, Copy, Debug, PartialEq, Eq)]
pub struct bch_scrypt_flags(pub u64);

impl bch_crypt_flags {
    /// The selector of the key derivation function: bits 0 to 4.
    #[allow(non_snake_case)]
    pub fn TYPE(&self) -> (selector: u64)
        ensures
            selector == bits_of(self.0, 4, 0),
    {
        bit_range(self.0, 4, 0)
    }
}

impl bch_scrypt_flags {
    /// The CPU and memory cost, as a power of two: bits 0 to 16.
    #[allow(non_snake_case)]
    pub fn N(&self) -> (n: u64)
        ensures
            n == bits_of(self.0, 16, 0),
    {
        bit_range(self.0, 16, 0)
    }

    /// The block size, as a power of two: bits 16 to 32.
    #[allow(non_snake_case)]
    pub fn R(&self) -> (r: u64)
        ensures
            r == bits_of(self.0, 32, 16),
    {
        bit_range(self.0, 32, 16)
    }

    /// The parallelism, as a power of two: bits 32 to 48.
    #[allow(non_snake_case)]
    pub fn P(&self) -> (p: u64)
        ensures
            p == bits_of(self.0, 48, 32),
    {
        bit_range(self.0, 48, 32)
    }
}

/// The superblock field that is present exactly when the filesystem is
/// encrypted.
#[allow(non_camel_case_types)]
#[derive(Clone, Copy, Debug, PartialEq, Eq)]
pub struct bch_sb_field_crypt {
    pub flags: u64,
    pub kdf_flags: u64,
    pub key: bch_encrypted_key,
}

impl bch_sb_field_crypt {
    /// The scrypt parameters that the field declares, if scrypt is the
    /// function it selects.
    pub open spec fn scrypt_flags(&self) -> Option<bch_scrypt_flags> {
        if bits_of(self.flags, 4, 0) == BCH_KDF_SCRYPT {
            Some(bch_scrypt_flags(self.kdf_flags))
        } else {
            None
        }
    }

    /// The scrypt parameters, or `None` where the field selects another key
    /// derivation function.
    pub fn get_scrypt_flags(&self) -> (flags: Option<bch_scrypt_flags>)
        ensures
            flags == self.scrypt_flags(),
    {
        let t = bch_crypt_flags(self.flags);
        if t.TYPE() != BCH_KDF_SCRYPT {
            None
        } else {
            Some(bch_scrypt_flags(self.kdf_flags))
        }
    }

    /// The filesystem's key, encrypted.
    pub fn key(&self) -> (key: &bch_encrypted_key)
        ensures
            *key == self.key,
    {
        &self.key
    }
}

/// A decoded superblock.
#[allow(non_camel_case_types)]
#[derive(Clone, Copy, Debug, PartialEq, Eq)]
pub struct bch_sb {
    /// The UUID that users know the filesystem by.
    pub user_uuid: [u8; 16],
    /// The nonce under which the filesystem's key is encrypted.
    pub key_nonce: nonce,
    /// The encryption field, where the superblock has one.
    pub crypt: Option<bch_sb_field_crypt>,
}

impl bch_sb {
    /// The UUID as one number, first byte highest.
    pub open spec fn uuid(&self) -> u128 {
        be_value(self.user_uuid@) as u128
    }

    /// The encryption field, where the superblock has one.
    pub fn get_crypt(&self) -> (crypt: Option<&bch_sb_field_crypt>)
        ensures
            crypt is Some == self.crypt is Some,
            crypt is Some ==> *crypt->0 == self.crypt->0,
    {
        self.crypt.as_ref()
    }

    /// The filesystem's UUID.
    pub fn get_uuid(&self) -> (uuid: u128)
        ensures
            uuid == self.uuid(),
    {
        uuid_from_bytes(&self.user_uuid)
    }

    /// The nonce under which the filesystem's key is encrypted.
    pub fn nonce(&self) -> (n: nonce)
        ensures
            n == self.key_nonce,
    {
        self.key_nonce
    }
}

/// A superblock as the storage engine hands it out after reading a device.
#[allow(non_camel_case_types)]
#[derive(Clone, Copy, Debug, PartialEq, Eq)]
pub struct bch_sb_handle {
    pub sb: bch_sb,
}

impl bch_sb_handle {
    /// The superblock behind the handle.
    pub fn get_sb(&self) -> (sb: &bch_sb)
        ensures
            *sb == self.sb,
    {
        &self.sb
    }
}

} // verus!

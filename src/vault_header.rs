//! The fixed-size header at the start of a vault file.
use vstd::prelude::*;

use crate::bytes::{copy_array, push_all};
use crate::error::VaultError;
use crate::primitives::constant_time_eq;

verus! {

/// The only format version this library reads and writes.
pub const FORMAT_VERSION: u16 = 1;

/// The length of an encoded header in bytes.
pub const HEADER_LEN: usize = 66;

/// The four magic bytes that open every vault file: ASCII `PMGR`.
pub open spec fn spec_magic() -> Seq<u8> {
    seq![0x50u8, 0x4du8, 0x47u8, 0x52u8]
}

/// The two little-endian bytes of `v`.
pub open spec fn le_bytes_u16(v: u16) -> Seq<u8> {
    seq![(v % 256) as u8, (v / 256) as u8]
}

/// The encoding of a header with the given fields.
pub open spec fn header_bytes(
    magic: Seq<u8>,
    version: u16,
    salt: Seq<u8>,
    verifier: Seq<u8>,
    nonce: Seq<u8>,
) -> Seq<u8> {
    magic + le_bytes_u16(version) + salt + verifier + nonce
}

/// The error that reading a header from `data` meets, if any.
///
/// The magic bytes are checked as soon as they are there and the version as
/// soon as it is there; salt, verifier and nonce play no part in the checks.
pub open spec fn header_error(data: Seq<u8>) -> Option<VaultError> {
    if data.len() < 4 {
        Some(VaultError::Truncated)
    } else if data.subrange(0, 4) != spec_magic() {
        Some(VaultError::InvalidFormat)
    } else if data.len() < 6 {
        Some(VaultError::Truncated)
    } else if data[4] as int + 256 * data[5] as int != FORMAT_VERSION as int {
        Some(VaultError::InvalidFormat)
    } else if data.len() < HEADER_LEN {
        Some(VaultError::Truncated)
    } else {
        None
    }
}

fn magic() -> (r: [u8; 4])
    ensures
        r@ == spec_magic(),
{
    let r: [u8; 4] = [0x50, 0x4d, 0x47, 0x52];
    assert(r@ == spec_magic());
    r
}

/// The header of a vault file: magic bytes, format version, the key
/// derivation salt, the password verifier and the encryption nonce.
pub struct VaultHeader {
    pub magic: [u8; 4],
    pub version: u16,
    pub salt: [u8; 16],
    pub verifier: [u8; 32],
    pub nonce: [u8; 12],
}

impl VaultHeader {
    /// The header carries the supported magic bytes and version.
    pub open spec fn wf(&self) -> bool {
        self.magic@ == spec_magic() && self.version == FORMAT_VERSION
    }

    /// The encoding of this header.
    pub open spec fn spec_bytes(&self) -> Seq<u8> {
        header_bytes(self.magic@, self.version, self.salt@, self.verifier@, self.nonce@)
    }

    /// A header of the supported format with the given salt, verifier and nonce.
    pub fn new(salt: [u8; 16], verifier: [u8; 32], nonce: [u8; 12]) -> (h: VaultHeader)
        ensures
            h.wf(),
            h.salt == salt,
            h.verifier == verifier,
            h.nonce == nonce,
    {
        VaultHeader { magic: magic(), version: FORMAT_VERSION, salt, verifier, nonce }
    }

    /// Encodes the header: magic (4 bytes), version (2 bytes, little-endian),
    /// salt (16), verifier (32) and nonce (12).
    pub fn write(&self) -> (r: Vec<u8>)
        ensures
            r@ == self.spec_bytes(),
            r@.len() == HEADER_LEN,
    {
        let mut out: Vec<u8> = Vec::new();
        push_all(&mut out, self.magic.as_slice());
        out.push((self.version % 256) as u8);
        out.push((self.version / 256) as u8);
        push_all(&mut out, self.salt.as_slice());
        push_all(&mut out, self.verifier.as_slice());
        push_all(&mut out, self.nonce.as_slice());
        out
    }

    /// Decodes a header from the start of `data`; bytes after the header are
    /// not looked at. The magic bytes are compared in constant time.
    pub fn read(data: &[u8]) -> (r: Result<VaultHeader, VaultError>)
        ensures
            match r {
                Ok(h) => header_error(data@) is None && h.wf() && h.spec_bytes() == data@.subrange(
                    0,
                    HEADER_LEN as int,
                ),
                Err(e) => header_error(data@) == Some(e),
            },
    {
        if data.len() < 4 {
            return Err(VaultError::Truncated);
        }
        let found: [u8; 4] = copy_array(data, 0);
        let expected = magic();
        if !constant_time_eq(found.as_slice(), expected.as_slice()) {
            return Err(VaultError::InvalidFormat);
        }
        if data.len() < 6 {
            return Err(VaultError::Truncated);
        }
        let version: u16 = data[4] as u16 + 256 * data[5] as u16;
        if version != FORMAT_VERSION {
            return Err(VaultError::InvalidFormat);
        }
        if data.len() < HEADER_LEN {
            return Err(VaultError::Truncated);
        }
        let salt: [u8; 16] = copy_array(data, 6);
        let verifier: [u8; 32] = copy_array(data, 22);
        let nonce: [u8; 12] = copy_array(data, 54);
        let h = VaultHeader { magic: found, version, salt, verifier, nonce };
        assert(h.spec_bytes() == data@.subrange(0, HEADER_LEN as int));
        Ok(h)
    }
}

/// Reading the encoding of a well-formed header succeeds and gives back that
/// header: the encoding meets none of the read errors, and the only header
/// with this encoding is the header itself.
pub proof fn lemma_header_round_trip(h: VaultHeader, other: VaultHeader)
    requires
        h.wf(),
    ensures
        header_error(h.spec_bytes()) is None,
        h.spec_bytes().subrange(0, HEADER_LEN as int) == h.spec_bytes(),
        other.spec_bytes() == h.spec_bytes() ==> other == h,
{
    let b = h.spec_bytes();
    assert(b.subrange(0, 4) == spec_magic());
    if other.spec_bytes() == b {
        let o = other.spec_bytes();
        assert(other.magic@ == o.subrange(0, 4));
        assert(h.magic@ == b.subrange(0, 4));
        assert(other.salt@ == o.subrange(6, 22));
        assert(h.salt@ == b.subrange(6, 22));
        assert(other.verifier@ == o.subrange(22, 54));
        assert(h.verifier@ == b.subrange(22, 54));
        assert(other.nonce@ == o.subrange(54, 66));
        assert(h.nonce@ == b.subrange(54, 66));
        assert(other.magic == h.magic);
        assert(other.salt == h.salt);
        assert(other.verifier == h.verifier);
        assert(other.nonce == h.nonce);
    }
}

/// A header whose encoding opens `data` has the fields found at their offsets.
pub proof fn lemma_header_fields(h: VaultHeader, data: Seq<u8>)
    requires
        data.len() >= HEADER_LEN,
        h.spec_bytes() == data.subrange(0, HEADER_LEN as int),
    ensures
        h.magic@ == data.subrange(0, 4),
        h.salt@ == data.subrange(6, 22),
        h.verifier@ == data.subrange(22, 54),
        h.nonce@ == data.subrange(54, 66),
{
    let b = h.spec_bytes();
    assert(h.magic@ == b.subrange(0, 4));
    assert(h.salt@ == b.subrange(6, 22));
    assert(h.verifier@ == b.subrange(22, 54));
    assert(h.nonce@ == b.subrange(54, 66));
    assert(b.subrange(0, 4) == data.subrange(0, 4));
    assert(b.subrange(6, 22) == data.subrange(6, 22));
    assert(b.subrange(22, 54) == data.subrange(22, 54));
    assert(b.subrange(54, 66) == data.subrange(54, 66));
}

/// A buffer whose first four bytes are not the magic bytes is rejected as
/// being of an unknown format, whatever follows them.
pub proof fn lemma_bad_magic_rejected(data: Seq<u8>)
    requires
        data.len() >= 4,
        data.subrange(0, 4) != spec_magic(),
    ensures
        header_error(data) == Some(VaultError::InvalidFormat),
{
}

} // verus!

//! The fixed header that precedes a signed image in a firmware upload, and the
//! MCUboot image and trailer words the updater reads and writes.
use vstd::prelude::*;

use crate::{
    FLASH_WRITE_SIZE, MAX_SIGNED_IMAGE_SIZE, MCUBOOT_IMAGE_MAGIC, MCUBOOT_TRAILER_MAGIC,
    UPDATE_HEADER_SIZE, UPDATE_PROTOCOL_MAGIC, UPDATE_PROTOCOL_VERSION,
};

verus! {

/// Smallest image length an upload header may announce.
pub const MIN_SIGNED_IMAGE_SIZE: u32 = 0x200;

/// Metadata sent before the signed image bytes.
#[derive(Debug, PartialEq, Eq)]
pub struct UpdateHeader {
    pub image_length: u32,
    pub sha256: [u8; 32],
}

/// Why an upload header was rejected before flash was touched.
#[derive(Clone, Copy, Debug, PartialEq, Eq, Structural)]
pub enum UpdateHeaderError {
    WrongMagic,
    UnsupportedVersion,
    NonzeroReservedBytes,
    InvalidLength,
}

/// The value of the four little-endian bytes of `s` that start at `at`.
pub open spec fn le_u32_at(s: Seq<u8>, at: int) -> int {
    s[at] as int + s[at + 1] as int * 0x100 + s[at + 2] as int * 0x1_0000 + s[at + 3] as int
        * 0x100_0000
}

/// The first check that the 44 header bytes `b` fail, if any.
pub open spec fn update_header_error(b: Seq<u8>) -> Option<UpdateHeaderError> {
    if b.subrange(0, 4) != UPDATE_PROTOCOL_MAGIC@ {
        Some(UpdateHeaderError::WrongMagic)
    } else if b[4] != UPDATE_PROTOCOL_VERSION {
        Some(UpdateHeaderError::UnsupportedVersion)
    } else if b[5] != 0 || b[6] != 0 || b[7] != 0 {
        Some(UpdateHeaderError::NonzeroReservedBytes)
    } else if !(MIN_SIGNED_IMAGE_SIZE <= le_u32_at(b, 8) <= MAX_SIGNED_IMAGE_SIZE) {
        Some(UpdateHeaderError::InvalidLength)
    } else {
        None
    }
}

/// The header bytes a client sends for an image of `length` bytes with
/// SHA-256 digest `digest`.
pub open spec fn update_header_bytes(length: u32, digest: Seq<u8>) -> Seq<u8> {
    UPDATE_PROTOCOL_MAGIC@ + seq![UPDATE_PROTOCOL_VERSION, 0u8, 0u8, 0u8] + seq![
        (length % 0x100) as u8,
        ((length / 0x100) % 0x100) as u8,
        ((length / 0x1_0000) % 0x100) as u8,
        (length / 0x100_0000) as u8,
    ] + digest
}

impl UpdateHeader {
    /// Decode the fixed 44-byte, little-endian upload header.
    pub fn decode(bytes: &[u8; UPDATE_HEADER_SIZE]) -> (result: Result<Self, UpdateHeaderError>)
        ensures
            result is Err <==> update_header_error(bytes@) is Some,
            result matches Err(error) ==> update_header_error(bytes@) == Some(error),
            result matches Ok(header) ==> {
                &&& header.image_length == le_u32_at(bytes@, 8)
                &&& header.sha256@ == bytes@.subrange(12, 44)
            },
    {
        if bytes[0] != UPDATE_PROTOCOL_MAGIC[0] || bytes[1] != UPDATE_PROTOCOL_MAGIC[1] || bytes[2]
            != UPDATE_PROTOCOL_MAGIC[2] || bytes[3] != UPDATE_PROTOCOL_MAGIC[3] {
            assert(bytes@.subrange(0, 4) != UPDATE_PROTOCOL_MAGIC@) by {
                if bytes@.subrange(0, 4) == UPDATE_PROTOCOL_MAGIC@ {
                    assert(bytes@.subrange(0, 4)[0] == bytes@[0]);
                    assert(bytes@.subrange(0, 4)[1] == bytes@[1]);
                    assert(bytes@.subrange(0, 4)[2] == bytes@[2]);
                    assert(bytes@.subrange(0, 4)[3] == bytes@[3]);
                }
            }
            return Err(UpdateHeaderError::WrongMagic);
        }
        assert(bytes@.subrange(0, 4) =~= UPDATE_PROTOCOL_MAGIC@);
        if bytes[4] != UPDATE_PROTOCOL_VERSION {
            return Err(UpdateHeaderError::UnsupportedVersion);
        }
        if bytes[5] != 0 || bytes[6] != 0 || bytes[7] != 0 {
            return Err(UpdateHeaderError::NonzeroReservedBytes);
        }
        let image_length: u32 = bytes[8] as u32 + (bytes[9] as u32) * 0x100 + (bytes[10] as u32)
            * 0x1_0000 + (bytes[11] as u32) * 0x100_0000;
        if !(MIN_SIGNED_IMAGE_SIZE <= image_length && image_length <= MAX_SIGNED_IMAGE_SIZE) {
            return Err(UpdateHeaderError::InvalidLength);
        }
        let mut sha256 = [0u8; 32];
        let mut i: usize = 0;
        while i < 32
            invariant
                i <= 32,
                forall|j: int| 0 <= j < i ==> sha256@[j] == bytes@[12 + j],
            decreases 32 - i,
        {
            sha256[i] = bytes[12 + i];
            i = i + 1;
        }
        assert(sha256@ =~= bytes@.subrange(12, 44));
        Ok(UpdateHeader { image_length, sha256 })
    }
}

/// A header built from a valid length and a 32-byte digest decodes to that
/// length and digest.
pub proof fn lemma_update_header_roundtrip(length: u32, digest: Seq<u8>)
    requires
        MIN_SIGNED_IMAGE_SIZE <= length <= MAX_SIGNED_IMAGE_SIZE,
        digest.len() == 32,
    ensures
        update_header_bytes(length, digest).len() == UPDATE_HEADER_SIZE,
        update_header_error(update_header_bytes(length, digest)) is None,
        le_u32_at(update_header_bytes(length, digest), 8) == length,
        update_header_bytes(length, digest).subrange(12, 44) == digest,
{
    let b = update_header_bytes(length, digest);
    assert(b.subrange(0, 4) =~= UPDATE_PROTOCOL_MAGIC@);
    assert(b.subrange(12, 44) =~= digest);
    assert(le_u32_at(b, 8) == length);
}

/// Check the first bytes before treating an upload as an MCUboot image.
pub fn has_mcuboot_image_magic(bytes: &[u8]) -> (found: bool)
    ensures
        found == (bytes@.len() >= 4 && bytes@.subrange(0, 4) == MCUBOOT_IMAGE_MAGIC@),
{
    if bytes.len() < 4 {
        return false;
    }
    let found = bytes[0] == MCUBOOT_IMAGE_MAGIC[0] && bytes[1] == MCUBOOT_IMAGE_MAGIC[1]
        && bytes[2] == MCUBOOT_IMAGE_MAGIC[2] && bytes[3] == MCUBOOT_IMAGE_MAGIC[3];
    if found {
        assert(bytes@.subrange(0, 4) =~= MCUBOOT_IMAGE_MAGIC@);
    } else {
        assert(bytes@.subrange(0, 4) != MCUBOOT_IMAGE_MAGIC@) by {
            if bytes@.subrange(0, 4) == MCUBOOT_IMAGE_MAGIC@ {
                assert(bytes@.subrange(0, 4)[0] == bytes@[0]);
                assert(bytes@.subrange(0, 4)[1] == bytes@[1]);
                assert(bytes@.subrange(0, 4)[2] == bytes@[2]);
                assert(bytes@.subrange(0, 4)[3] == bytes@[3]);
            }
        }
    }
    found
}

/// Start of the aligned 32-byte trailer write containing MCUboot's magic:
/// the last write block of the slot.
pub fn trailer_magic_block_offset(slot_offset: u32, slot_size: u32) -> (offset: u32)
    requires
        32 <= slot_offset + slot_size <= u32::MAX,
    ensures
        offset == slot_offset + slot_size - 32,
{
    slot_offset + slot_size - 32
}

/// Start of the trailer's `image_ok` write block, just before the magic block.
pub fn trailer_image_ok_offset(slot_offset: u32, slot_size: u32) -> (offset: u32)
    requires
        64 <= slot_offset + slot_size <= u32::MAX,
    ensures
        offset == slot_offset + slot_size - 64,
{
    trailer_magic_block_offset(slot_offset, slot_size) - 32
}

/// Start of the trailer's `swap_info` write block, two blocks before `image_ok`.
pub fn trailer_swap_info_offset(slot_offset: u32, slot_size: u32) -> (offset: u32)
    requires
        128 <= slot_offset + slot_size <= u32::MAX,
    ensures
        offset == slot_offset + slot_size - 128,
{
    trailer_image_ok_offset(slot_offset, slot_size) - 64
}

/// Sixteen erased bytes followed by MCUboot's trailer magic.
pub open spec fn magic_block_bytes() -> Seq<u8> {
    Seq::new(16, |i: int| 0xffu8) + MCUBOOT_TRAILER_MAGIC@
}

/// A flag byte followed by erased bytes, one flash write block long.
pub open spec fn flag_block_bytes(flag: u8) -> Seq<u8> {
    Seq::new(FLASH_WRITE_SIZE as nat, |i: int| if i == 0 { flag } else { 0xffu8 })
}

/// Build an aligned flash word that marks a secondary image as present.
pub fn mcuboot_magic_block() -> (block: [u8; FLASH_WRITE_SIZE])
    ensures
        block@ == magic_block_bytes(),
{
    let mut block = [0xffu8; FLASH_WRITE_SIZE];
    let mut i: usize = 0;
    while i < 16
        invariant
            i <= 16,
            forall|j: int| 0 <= j < 16 ==> block@[j] == 0xffu8,
            forall|j: int| 0 <= j < i ==> block@[16 + j] == MCUBOOT_TRAILER_MAGIC@[j],
        decreases 16 - i,
    {
        block[16 + i] = MCUBOOT_TRAILER_MAGIC[i];
        i = i + 1;
    }
    assert(block@ =~= magic_block_bytes());
    block
}

/// Build MCUboot's test-upgrade swap-info word for image number zero.
pub fn mcuboot_test_swap_info_block() -> (block: [u8; FLASH_WRITE_SIZE])
    ensures
        block@ == flag_block_bytes(2),
{
    let mut block = [0xffu8; FLASH_WRITE_SIZE];
    block[0] = 2;
    assert(block@ =~= flag_block_bytes(2));
    block
}

/// Build the one-way flash word used to confirm a healthy trial image.
pub fn mcuboot_image_ok_block() -> (block: [u8; FLASH_WRITE_SIZE])
    ensures
        block@ == flag_block_bytes(1),
{
    let mut block = [0xffu8; FLASH_WRITE_SIZE];
    block[0] = 1;
    assert(block@ =~= flag_block_bytes(1));
    block
}

} // verus!

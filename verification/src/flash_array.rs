//! The flash block format for typed persistent storage: a header (magic,
//! type hash, payload length), the serialized payload and a CRC-32, in one
//! erase block.

use vstd::prelude::*;
use vstd::string::StringSliceAdditionalSpecFns;

verus! {

/// Marks a block as written by this format (`"BLKS"` read little-endian).
pub const MAGIC: u32 = 0x424C_4B53;

/// Bytes before the payload: magic, type hash, payload length.
pub const HEADER_SIZE: usize = 10;

/// Bytes of the CRC after the payload.
pub const CRC_SIZE: usize = 4;

/// Bytes in one flash erase block.
pub const FLASH_BLOCK_SIZE: usize = 4096;

/// Bytes in one flash erase block.
pub const FLASH_BLOCK_SIZE_U32: u32 = 4096;

/// The largest payload a block holds.
pub const MAX_PAYLOAD_SIZE: usize = FLASH_BLOCK_SIZE - HEADER_SIZE - CRC_SIZE;

/// Errors of block storage.
#[derive(Debug)]
pub enum FlashBlockError<E> {
    /// The flash device failed.
    Io(E),
    /// The value does not serialize into one block.
    FormatError,
    /// The block's length or CRC does not check out, or its payload does not
    /// deserialize.
    StorageCorrupted,
}

/// The raw flash a platform provides.
pub trait FlashDevice {
    type Error;

    /// Reads `bytes.len()` bytes at `offset`.
    fn read(&mut self, offset: u32, bytes: &mut [u8]) -> Result<(), Self::Error>;

    /// Writes `bytes` at `offset`.
    fn write(&mut self, offset: u32, bytes: &[u8]) -> Result<(), Self::Error>;

    /// Erases the bytes from `from` up to `to`.
    fn erase(&mut self, from: u32, to: u32) -> Result<(), Self::Error>;
}

/// One bit step of the reflected CRC-32 register: shift right, folding in
/// the reflected IEEE polynomial `0xEDB88320` when the low bit was set.
pub open spec fn crc32_bit(register: u32) -> u32 {
    if register & 1 == 1 {
        (register >> 1) ^ 0xEDB8_8320u32
    } else {
        register >> 1
    }
}

/// The register after `bits` bit steps.
pub open spec fn crc32_bits(register: u32, bits: nat) -> u32
    decreases bits,
{
    if bits == 0 {
        register
    } else {
        crc32_bit(crc32_bits(register, (bits - 1) as nat))
    }
}

/// The register after feeding `bytes`, least significant bit first, into a
/// register that starts as all ones.
pub open spec fn crc32_register(bytes: Seq<u8>) -> u32
    decreases bytes.len(),
{
    if bytes.len() == 0 {
        0xFFFF_FFFFu32
    } else {
        crc32_bits(crc32_register(bytes.drop_last()) ^ (bytes.last() as u32), 8)
    }
}

/// The CRC-32 (IEEE) checksum of a byte string: the final register with
/// every bit inverted.
pub open spec fn crc32(bytes: Seq<u8>) -> u32 {
    crc32_register(bytes) ^ 0xFFFF_FFFFu32
}

/// `crc32fast::hash`: the CRC-32 (IEEE) checksum of the bytes. Claimed: the
/// result is [`crc32`] of the bytes, the reflected CRC with polynomial
/// `0xEDB88320`, initial value and final xor `0xFFFFFFFF`, which is the
/// checksum `crc32fast` documents and computes.
#[verifier::external_body]
pub fn compute_crc(bytes: &[u8]) -> (crc: u32)
    ensures
        crc == crc32(bytes@),
{
    crc32fast::hash(bytes)
}

/// The 32-bit FNV-1a offset basis.
pub const FNV_OFFSET: u32 = 2_166_136_261;

/// The 32-bit FNV prime.
pub const FNV_PRIME: u32 = 16_777_619;

/// The 32-bit FNV-1a hash of a byte string: starting from the offset basis,
/// each byte is xored in and the state multiplied by the prime, modulo
/// `2^32`.
pub open spec fn fnv1a(bytes: Seq<u8>) -> u32
    decreases bytes.len(),
{
    if bytes.len() == 0 {
        FNV_OFFSET
    } else {
        let previous = fnv1a(bytes.drop_last()) ^ (bytes.last() as u32);
        ((previous as nat * FNV_PRIME as nat) % 0x1_0000_0000) as u32
    }
}

/// Returns the 32-bit FNV-1a hash of `bytes`.
pub fn fnv1a_hash(bytes: &[u8]) -> (hash: u32)
    ensures
        hash == fnv1a(bytes@),
{
    let mut hash = FNV_OFFSET;
    let mut index = 0usize;
    while index < bytes.len()
        invariant
            index <= bytes@.len(),
            hash == fnv1a(bytes@.take(index as int)),
        decreases bytes@.len() - index,
    {
        proof {
            assert(bytes@.take(index + 1).drop_last() =~= bytes@.take(index as int));
        }
        hash ^= bytes[index] as u32;
        hash = hash.wrapping_mul(FNV_PRIME);
        index += 1;
    }
    proof {
        assert(bytes@.take(bytes@.len() as int) =~= bytes@);
    }
    hash
}

/// The hash that tags blocks holding values of a type, given the type's
/// name: the FNV-1a hash of the name's bytes.
pub fn compute_type_hash(type_name_text: &str) -> (hash: u32)
    ensures
        hash == fnv1a(type_name_text.spec_bytes()),
{
    fnv1a_hash(type_name_text.as_bytes())
}

/// The four little-endian bytes of a `u32`.
pub open spec fn le_bytes_u32(value: u32) -> Seq<u8> {
    seq![
        (value % 0x100) as u8,
        ((value / 0x100) % 0x100) as u8,
        ((value / 0x1_0000) % 0x100) as u8,
        (value / 0x100_0000) as u8,
    ]
}

/// The two little-endian bytes of a `u16`.
pub open spec fn le_bytes_u16(value: u16) -> Seq<u8> {
    seq![(value % 0x100) as u8, (value / 0x100) as u8]
}

/// The `u32` stored little-endian at `offset`.
pub open spec fn le_u32_in(bytes: Seq<u8>, offset: int) -> int {
    bytes[offset] + 0x100 * bytes[offset + 1] + 0x1_0000 * bytes[offset + 2] + 0x100_0000
        * bytes[offset + 3]
}

/// The `u16` stored little-endian at `offset`.
pub open spec fn le_u16_in(bytes: Seq<u8>, offset: int) -> int {
    bytes[offset] + 0x100 * bytes[offset + 1]
}

/// The header and payload of the block holding `payload` for a type with
/// hash `type_hash`.
pub open spec fn block_body(type_hash: u32, payload: Seq<u8>) -> Seq<u8> {
    le_bytes_u32(MAGIC) + le_bytes_u32(type_hash) + le_bytes_u16(payload.len() as u16) + payload
}

/// The whole block holding `payload` for a type with hash `type_hash`: the
/// body, its CRC-32, and erased (0xFF) bytes to the end of the block.
pub open spec fn block_bytes(type_hash: u32, payload: Seq<u8>) -> Seq<u8> {
    let body = block_body(type_hash, payload);
    body + le_bytes_u32(crc32(body)) + Seq::new(
        (FLASH_BLOCK_SIZE - body.len() - CRC_SIZE) as nat,
        |i: int| 0xffu8,
    )
}

/// What reading a block for a type with hash `type_hash` finds: `Ok(None)`
/// when it holds no value of that type (wrong magic or type hash), the
/// payload length when the length and CRC check out, and an error otherwise.
pub open spec fn block_check(block: Seq<u8>, type_hash: u32) -> Result<Option<int>, ()> {
    if le_u32_in(block, 0) != MAGIC {
        Ok(None)
    } else if le_u32_in(block, 4) != type_hash {
        Ok(None)
    } else {
        let payload_len = le_u16_in(block, 8);
        if payload_len > MAX_PAYLOAD_SIZE {
            Err(())
        } else if le_u32_in(block, HEADER_SIZE + payload_len) != crc32(
            block.subrange(0, HEADER_SIZE + payload_len),
        ) {
            Err(())
        } else {
            Ok(Some(payload_len))
        }
    }
}

fn write_u32_le(block: &mut [u8; FLASH_BLOCK_SIZE], offset: usize, value: u32)
    requires
        offset + 4 <= FLASH_BLOCK_SIZE,
    ensures
        forall|i: int|
            0 <= i < FLASH_BLOCK_SIZE && !(offset <= i < offset + 4) ==> #[trigger] final(block)@[i]
                == old(block)@[i],
        final(block)@.subrange(offset as int, offset + 4) == le_bytes_u32(value),
{
    let b0 = (value & 0xff) as u8;
    let b1 = ((value >> 8) & 0xff) as u8;
    let b2 = ((value >> 16) & 0xff) as u8;
    let b3 = (value >> 24) as u8;
    proof {
        crate::bits::lemma_u32_to_le_bytes(value);
    }
    block[offset] = b0;
    block[offset + 1] = b1;
    block[offset + 2] = b2;
    block[offset + 3] = b3;
    assert(block@.subrange(offset as int, offset + 4) =~= le_bytes_u32(value));
}

fn read_u32_le(block: &[u8; FLASH_BLOCK_SIZE], offset: usize) -> (value: u32)
    requires
        offset + 4 <= FLASH_BLOCK_SIZE,
    ensures
        value == le_u32_in(block@, offset as int),
{
    let b0 = block[offset];
    let b1 = block[offset + 1];
    let b2 = block[offset + 2];
    let b3 = block[offset + 3];
    let value = (b0 as u32) | ((b1 as u32) << 8) | ((b2 as u32) << 16) | ((b3 as u32) << 24);
    proof {
        crate::bits::lemma_u32_from_le_bytes(b0, b1, b2, b3);
    }
    value
}

proof fn lemma_le_u32_round_trip(value: u32)
    ensures
        le_u32_in(le_bytes_u32(value), 0) == value,
{
    assert(value % 0x100 + 0x100 * ((value / 0x100) % 0x100) + 0x1_0000 * ((value / 0x1_0000)
        % 0x100) + 0x100_0000 * (value / 0x100_0000) == value) by (bit_vector);
}

proof fn lemma_le_u16_round_trip(value: u16)
    ensures
        le_u16_in(le_bytes_u16(value), 0) == value,
{
    assert(value % 0x100 + 0x100 * (value / 0x100) == value) by (bit_vector);
}

/// Lays out the block that stores `payload` for a type with hash
/// `type_hash`.
pub fn encode_block(type_hash: u32, payload: &[u8]) -> (block: [u8; FLASH_BLOCK_SIZE])
    requires
        payload@.len() <= MAX_PAYLOAD_SIZE,
    ensures
        block@ == block_bytes(type_hash, payload@),
{
    let payload_len = payload.len();
    let ghost body = block_body(type_hash, payload@);
    let mut block_bytes_out = [0xFFu8; FLASH_BLOCK_SIZE];
    write_u32_le(&mut block_bytes_out, 0, MAGIC);
    write_u32_le(&mut block_bytes_out, 4, type_hash);
    let len_u16 = payload_len as u16;
    let low = (len_u16 & 0xff) as u8;
    let high = (len_u16 >> 8) as u8;
    proof {
        crate::bits::lemma_u16_to_le_bytes(len_u16);
    }
    block_bytes_out[8] = low;
    block_bytes_out[9] = high;
    let mut index = 0usize;
    while index < payload_len
        invariant
            payload_len == payload@.len(),
            payload_len <= MAX_PAYLOAD_SIZE,
            index <= payload_len,
            body == block_body(type_hash, payload@),
            body.len() == HEADER_SIZE + payload_len,
            forall|i: int|
                0 <= i < HEADER_SIZE + index ==> #[trigger] block_bytes_out@[i] == body[i],
            forall|i: int|
                HEADER_SIZE + index <= i < FLASH_BLOCK_SIZE ==> #[trigger] block_bytes_out@[i]
                    == 0xffu8,
        decreases payload_len - index,
    {
        block_bytes_out[HEADER_SIZE + index] = payload[index];
        index += 1;
    }
    let mut body_bytes: Vec<u8> = Vec::new();
    let mut position = 0usize;
    while position < HEADER_SIZE + payload_len
        invariant
            position <= HEADER_SIZE + payload_len,
            payload_len <= MAX_PAYLOAD_SIZE,
            body_bytes@ == block_bytes_out@.subrange(0, position as int),
        decreases HEADER_SIZE + payload_len - position,
    {
        body_bytes.push(block_bytes_out[position]);
        position += 1;
    }
    proof {
        assert(body_bytes@ =~= body);
    }
    let crc_offset = HEADER_SIZE + payload_len;
    let crc = compute_crc(body_bytes.as_slice());
    let ghost before_crc = block_bytes_out@;
    write_u32_le(&mut block_bytes_out, crc_offset, crc);
    proof {
        assert(block_bytes_out@ =~= block_bytes(type_hash, payload@)) by {
            let expected = block_bytes(type_hash, payload@);
            assert forall|i: int| 0 <= i < FLASH_BLOCK_SIZE implies #[trigger] block_bytes_out@[i]
                == expected[i] by {
                if i < crc_offset {
                    assert(block_bytes_out@[i] == before_crc[i]);
                } else if i < crc_offset + 4 {
                    assert(block_bytes_out@[i] == block_bytes_out@.subrange(
                        crc_offset as int,
                        crc_offset + 4,
                    )[i - crc_offset]);
                }
            }
        }
    }
    block_bytes_out
}

/// Checks a block read back for a type with hash `type_hash` (see
/// [`block_check`]): `Ok(Some(len))` when the block holds a payload of
/// `len` bytes after the header.
pub fn check_block<E>(block: &[u8; FLASH_BLOCK_SIZE], type_hash: u32) -> (checked: Result<
    Option<usize>,
    FlashBlockError<E>,
>)
    ensures
        block_check(block@, type_hash) matches Ok(None) ==> checked matches Ok(None),
        block_check(block@, type_hash) matches Ok(Some(len)) ==> checked matches Ok(Some(l))
            && l == len,
        block_check(block@, type_hash) is Err ==> checked matches Err(
            FlashBlockError::StorageCorrupted,
        ),
{
    let magic = read_u32_le(block, 0);
    if magic != MAGIC {
        return Ok(None);
    }
    let stored_type_hash = read_u32_le(block, 4);
    if stored_type_hash != type_hash {
        return Ok(None);
    }
    let payload_len = block[8] as usize + 0x100 * block[9] as usize;
    if payload_len > MAX_PAYLOAD_SIZE {
        return Err(FlashBlockError::StorageCorrupted);
    }
    let crc_offset = HEADER_SIZE + payload_len;
    let stored_crc = read_u32_le(block, crc_offset);
    let mut body_bytes: Vec<u8> = Vec::new();
    let mut position = 0usize;
    while position < crc_offset
        invariant
            position <= crc_offset,
            crc_offset <= FLASH_BLOCK_SIZE - CRC_SIZE,
            body_bytes@ == block@.subrange(0, position as int),
        decreases crc_offset - position,
    {
        body_bytes.push(block[position]);
        position += 1;
    }
    if stored_crc != compute_crc(body_bytes.as_slice()) {
        return Err(FlashBlockError::StorageCorrupted);
    }
    Ok(Some(payload_len))
}

/// A block written for a type reads back as that payload: the check
/// succeeds with the payload's length and the payload sits right after the
/// header. Reading it for another type finds nothing, and so does reading an
/// erased block.
pub proof fn law_flash_block_round_trip(type_hash: u32, other_type_hash: u32, payload: Seq<u8>)
    requires
        payload.len() <= MAX_PAYLOAD_SIZE,
        other_type_hash != type_hash,
    ensures
        block_check(block_bytes(type_hash, payload), type_hash) == Ok::<Option<int>, ()>(
            Some(payload.len() as int),
        ),
        block_bytes(type_hash, payload).subrange(
            HEADER_SIZE as int,
            HEADER_SIZE + payload.len(),
        ) == payload,
        block_check(block_bytes(type_hash, payload), other_type_hash) == Ok::<Option<int>, ()>(
            None,
        ),
        block_check(Seq::new(FLASH_BLOCK_SIZE as nat, |i: int| 0xffu8), type_hash) == Ok::<
            Option<int>,
            (),
        >(None),
{
    let body = block_body(type_hash, payload);
    let block = block_bytes(type_hash, payload);
    let len = payload.len();
    lemma_le_u32_round_trip(MAGIC);
    lemma_le_u32_round_trip(type_hash);
    lemma_le_u16_round_trip(len as u16);
    lemma_le_u32_round_trip(crc32(body));
    assert(le_u32_in(block, 0) == le_u32_in(le_bytes_u32(MAGIC), 0));
    assert(le_u32_in(block, 4) == le_u32_in(le_bytes_u32(type_hash), 0));
    assert(le_u16_in(block, 8) == le_u16_in(le_bytes_u16(len as u16), 0));
    assert(block.subrange(0, HEADER_SIZE + len) =~= body);
    assert(le_u32_in(block, HEADER_SIZE + len) == le_u32_in(le_bytes_u32(crc32(body)), 0));
    assert(block.subrange(HEADER_SIZE as int, HEADER_SIZE + len) =~= payload);
    let erased = Seq::new(FLASH_BLOCK_SIZE as nat, |i: int| 0xffu8);
    assert(le_u32_in(erased, 0) == 0xffff_ffff);
}

} // verus!

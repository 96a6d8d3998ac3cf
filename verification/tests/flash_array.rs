use device_envoy_core::flash_array::{
    FLASH_BLOCK_SIZE, FlashBlockError, HEADER_SIZE, MAX_PAYLOAD_SIZE, check_block,
    compute_crc, compute_type_hash, encode_block, fnv1a_hash,
};

type WifiPersistedState<'a> = (&'a str, &'a str, i32);

fn save(kind_name: &str, payload: &[u8]) -> [u8; FLASH_BLOCK_SIZE] {
    encode_block(compute_type_hash(kind_name), payload)
}

fn load<'a>(
    kind_name: &str,
    block: &'a [u8; FLASH_BLOCK_SIZE],
) -> Result<Option<&'a [u8]>, FlashBlockError<()>> {
    match check_block::<()>(block, compute_type_hash(kind_name))? {
        Some(len) => Ok(Some(&block[HEADER_SIZE..HEADER_SIZE + len])),
        None => Ok(None),
    }
}

#[test]
fn save_load_clear_round_trip() {
    let state: WifiPersistedState = ("demo-net", "password123", -300);
    let mut buffer = [0u8; MAX_PAYLOAD_SIZE];
    let payload = postcard::to_slice(&state, &mut buffer).expect("save succeeds");
    let block = save("WifiPersistedState", payload);
    let loaded_bytes = load("WifiPersistedState", &block)
        .expect("load succeeds")
        .expect("value exists");
    let loaded: WifiPersistedState = postcard::from_bytes(loaded_bytes).expect("decodes");
    assert_eq!(loaded, state);

    let cleared_block = [0xFFu8; FLASH_BLOCK_SIZE];
    let cleared = load("WifiPersistedState", &cleared_block).expect("load succeeds");
    assert!(cleared.is_none());
}

#[test]
fn type_mismatch_returns_none() {
    let other: (i32,) = (60,);
    let mut buffer = [0u8; MAX_PAYLOAD_SIZE];
    let payload = postcard::to_slice(&other, &mut buffer).expect("save succeeds");
    let block = save("OtherState", payload);
    let result = load("WifiPersistedState", &block).expect("load succeeds");
    assert!(result.is_none());
}

#[test]
fn corrupted_crc_returns_error() {
    let state: WifiPersistedState = ("", "", 0);
    let mut buffer = [0u8; MAX_PAYLOAD_SIZE];
    let payload = postcard::to_slice(&state, &mut buffer).expect("save succeeds");
    let mut block = save("WifiPersistedState", payload);
    block[HEADER_SIZE + 1] ^= 0x5A;
    let error = load("WifiPersistedState", &block).expect_err("crc mismatch should fail");
    assert!(matches!(error, FlashBlockError::<()>::StorageCorrupted));
}

#[test]
fn block_layout_has_header_payload_crc_and_erased_tail() {
    let block = encode_block(0x1234_5678, &[9, 8, 7]);
    assert_eq!(&block[0..4], &0x424C_4B53u32.to_le_bytes());
    assert_eq!(&block[4..8], &0x1234_5678u32.to_le_bytes());
    assert_eq!(&block[8..10], &3u16.to_le_bytes());
    assert_eq!(&block[10..13], &[9, 8, 7]);
    assert_eq!(&block[13..17], &crc32fast::hash(&block[..13]).to_le_bytes());
    assert!(block[17..].iter().all(|byte| *byte == 0xFF));
}

#[test]
fn oversized_length_is_corrupted() {
    let mut block = encode_block(7, &[1, 2, 3]);
    block[8] = 0xFF;
    block[9] = 0xFF;
    assert!(matches!(check_block::<()>(&block, 7), Err(FlashBlockError::StorageCorrupted)));
}

#[test]
fn fnv1a_matches_reference_values() {
    assert_eq!(fnv1a_hash(b""), 0x811c_9dc5);
    assert_eq!(fnv1a_hash(b"a"), 0xe40c_292c);
    assert_eq!(compute_type_hash("foobar"), 0xbf9c_f968);
}

#[test]
fn crc_is_the_standard_crc32() {
    assert_eq!(compute_crc(b"123456789"), 0xCBF4_3926);
    assert_eq!(compute_crc(b""), 0);
}

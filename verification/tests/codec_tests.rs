use avail_light::codec::{decode_finality_sync_checkpoint, encode_finality_sync_checkpoint};
use avail_light::types::{Authority, FinalitySyncCheckpoint};

fn codec_checkpoint() -> FinalitySyncCheckpoint {
    FinalitySyncCheckpoint {
        set_id: 5,
        block_number: 100,
        authorities: vec![
            Authority { public_key: vec![1u8; 32], weight: 10 },
            Authority { public_key: vec![2u8; 32], weight: 3 },
        ],
    }
}

#[test]
fn encoding_layout_is_fixed() {
    let bytes = encode_finality_sync_checkpoint(&codec_checkpoint());
    assert_eq!(bytes.len(), 8 + 4 + 8 + 2 * 40);
    // set id, big endian
    assert_eq!(&bytes[0..8], &[0, 0, 0, 0, 0, 0, 0, 5]);
    // block number, big endian
    assert_eq!(&bytes[8..12], &[0, 0, 0, 100]);
    // authority count, big endian
    assert_eq!(&bytes[12..20], &[0, 0, 0, 0, 0, 0, 0, 2]);
    // first record: key then weight
    assert_eq!(&bytes[20..52], &[1u8; 32]);
    assert_eq!(&bytes[52..60], &[0, 0, 0, 0, 0, 0, 0, 10]);
    // second record
    assert_eq!(&bytes[60..92], &[2u8; 32]);
    assert_eq!(&bytes[92..100], &[0, 0, 0, 0, 0, 0, 0, 3]);
}

#[test]
fn decode_returns_what_was_encoded() {
    let original = codec_checkpoint();
    let bytes = encode_finality_sync_checkpoint(&original);
    let decoded = decode_finality_sync_checkpoint(&bytes).unwrap();
    assert_eq!(decoded, original);
}

#[test]
fn truncated_bytes_are_rejected() {
    let bytes = encode_finality_sync_checkpoint(&codec_checkpoint());
    assert!(decode_finality_sync_checkpoint(&bytes[..19].to_vec()).is_none());
    assert!(decode_finality_sync_checkpoint(&bytes[..99].to_vec()).is_none());
    assert!(decode_finality_sync_checkpoint(&Vec::new()).is_none());
}

#[test]
fn wrong_count_is_rejected() {
    let mut bytes = encode_finality_sync_checkpoint(&codec_checkpoint());
    bytes[19] = 3;
    assert!(decode_finality_sync_checkpoint(&bytes).is_none());
}

#[test]
fn zero_weight_is_rejected() {
    let mut bytes = encode_finality_sync_checkpoint(&codec_checkpoint());
    for i in 52..60 {
        bytes[i] = 0;
    }
    assert!(decode_finality_sync_checkpoint(&bytes).is_none());
}

#[test]
fn empty_authority_set_is_rejected() {
    let mut bytes = vec![0u8; 20];
    bytes[7] = 1;
    assert!(decode_finality_sync_checkpoint(&bytes).is_none());
}

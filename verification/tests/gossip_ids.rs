use flovenet::daemon::all_topic_names;
use flovenet::gossip::{message_id, xxh3_64, TOPIC_SLOTS_ANNOUNCE, TOPIC_SOCIAL_FOLLOW};

#[test]
fn hash_of_nothing_is_zero() {
    assert_eq!(xxh3_64(&[]), 0);
}

#[test]
fn hash_values() {
    assert_eq!(xxh3_64(b"hello"), 8515536583639009752);
    assert_eq!(xxh3_64(b"hello world, gossip"), 833032320592716115);
}

#[test]
fn hash_pads_short_chunk_with_zeros() {
    assert_eq!(xxh3_64(b"hello"), xxh3_64(b"hello\0\0\0"));
    assert_ne!(xxh3_64(b"hello"), xxh3_64(b"hello\0\0\0\0"));
}

#[test]
fn message_id_is_le_bytes_of_hash() {
    assert_eq!(message_id(b"hello"), vec![216, 137, 165, 211, 103, 67, 45, 118]);
    assert_eq!(message_id(b"hello"), xxh3_64(b"hello").to_le_bytes().to_vec());
}

#[test]
fn message_id_uses_first_64_bytes() {
    let data: Vec<u8> = (0..100u8).collect();
    let mut other = data.clone();
    other[80] = 7;
    other.truncate(90);
    assert_eq!(message_id(&data), message_id(&other));
    assert_eq!(message_id(&data), 4608903324858538048u64.to_le_bytes().to_vec());
    assert_ne!(message_id(&data[..63]), message_id(&data));
}

#[test]
fn topics_in_subscription_order() {
    let names = all_topic_names();
    assert_eq!(
        names,
        vec![
            "slots/announce",
            "node/status",
            "reputation/score",
            "trust/edge",
            "social/post",
            "social/profile",
            "social/follow"
        ]
    );
    assert_eq!(names[0], TOPIC_SLOTS_ANNOUNCE);
    assert_eq!(names[6], TOPIC_SOCIAL_FOLLOW);
}

#[test]
fn zero_padding_within_last_chunk_keeps_hash() {
    let data = b"hello".to_vec();
    let mut padded = data.clone();
    padded.extend_from_slice(&[0, 0, 0]);
    assert_eq!(flovenet::gossip::xxh3_64(&padded), flovenet::gossip::xxh3_64(&data));
    for n in [0usize, 1, 8, 17] {
        assert_eq!(flovenet::gossip::xxh3_64(&vec![0u8; n]), 0);
    }
}

use std::collections::HashSet;

use bitstask::naming::{
    channel_name_of, generate_channel_name, job_id_from_hex, job_id_to_hex, CHANNEL_NAME_LEN,
};
use bitstask::protocol::JobId;

#[test]
fn names_are_32_lowercase_hex_characters() {
    let name = channel_name_of(0x2a);
    assert_eq!(name.len(), CHANNEL_NAME_LEN);
    assert_eq!(name, b"0000000000000000000000000000002a".to_vec());

    let name = channel_name_of(u128::MAX);
    assert_eq!(name, b"ffffffffffffffffffffffffffffffff".to_vec());

    let name = channel_name_of(0x0123_4567_89ab_cdef_0011_2233_4455_6677);
    assert_eq!(name, b"0123456789abcdef0011223344556677".to_vec());
}

#[test]
fn ten_thousand_generated_names_have_no_collisions() {
    let mut seen: HashSet<Vec<u8>> = HashSet::new();
    for _ in 0..10_000 {
        let name = generate_channel_name();
        assert_eq!(name.len(), CHANNEL_NAME_LEN);
        for c in &name {
            assert!(c.is_ascii_digit() || (b'a'..=b'f').contains(c));
        }
        assert!(seen.insert(name), "generated channel names collided");
    }
}

#[test]
fn job_id_hex_round_trip() {
    let id = JobId {
        hi: 0x0123_4567_89ab_cdef,
        lo: 0xfedc_ba98_7654_3210,
    };
    let hex = job_id_to_hex(&id);
    assert_eq!(hex, b"0123456789abcdeffedcba9876543210".to_vec());
    assert_eq!(job_id_from_hex(&hex), Some(id));

    let zero = JobId { hi: 0, lo: 0 };
    assert_eq!(job_id_from_hex(&job_id_to_hex(&zero)), Some(zero));
}

#[test]
fn job_id_from_hex_accepts_upper_case() {
    let id = job_id_from_hex(b"0123456789ABCDEFFEDCBA9876543210").unwrap();
    assert_eq!(
        id,
        JobId {
            hi: 0x0123_4567_89ab_cdef,
            lo: 0xfedc_ba98_7654_3210,
        }
    );
}

#[test]
fn job_id_from_hex_rejects_bad_input() {
    assert_eq!(job_id_from_hex(b""), None);
    assert_eq!(job_id_from_hex(b"0123"), None); // too short
    assert_eq!(
        job_id_from_hex(b"0123456789abcdeffedcba98765432100"),
        None
    ); // too long
    assert_eq!(job_id_from_hex(b"0123456789abcdeffedcba987654321g"), None); // no hex digit
}

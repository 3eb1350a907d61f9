use tau_runtime_core::ids::{now_utc_millis, ulid, uuid_v4};

#[test]
fn uuid_v4_sets_version_and_variant() {
    let s = uuid_v4([0xffu8; 16]);
    assert_eq!(s.len(), 36);
    assert_eq!(&s[14..15], "4");
    assert_eq!(s, "ffffffff-ffff-4fff-bfff-ffffffffffff");
    assert_eq!(uuid_v4([0u8; 16]), "00000000-0000-4000-8000-000000000000");
}

#[test]
fn ulid_is_26_crockford_chars() {
    let id = ulid(1_000, [7u8; 10]);
    assert_eq!(id.len(), 26);
    assert_eq!(ulid(0, [0u8; 10]), "00000000000000000000000000");
    assert_eq!(ulid(-5, [0u8; 10]), "00000000000000000000000000");
    assert_eq!(ulid(1, [0u8; 10]), "00000000010000000000000000");
}

#[test]
fn timestamps_outside_chrono_fall_back_to_epoch() {
    assert_eq!(now_utc_millis(1_700_000_000_000), 1_700_000_000_000);
    assert_eq!(now_utc_millis(i64::MAX), 0);
}

#[test]
fn clock_readings_at_the_edges_of_the_calendar() {
    assert_eq!(now_utc_millis(8_210_266_876_799_999), 8_210_266_876_799_999);
    assert_eq!(now_utc_millis(8_210_266_876_800_000), 0);
    assert_eq!(now_utc_millis(-8_334_601_228_800_000), -8_334_601_228_800_000);
    assert_eq!(now_utc_millis(-8_334_601_228_800_001), 0);
    assert_eq!(now_utc_millis(-1), -1);
}

use raftify::key_string::KeyString;
use std::cmp::Ordering;
use raftify::deserializer::{format_bytes, BincodeDeserializer};
use raftify::keys::{
    decimal_string, entry_key_string, format_entry_key_string, get_data_mdb_path,
    get_storage_path, pad_zeros, parse_u64,
};

#[test]
fn entry_keys_are_ten_digits() {
    assert_eq!(format_entry_key_string("0"), "0000000000");
    assert_eq!(format_entry_key_string("3"), "0000000003");
    assert_eq!(format_entry_key_string("1234567890"), "1234567890");
    assert_eq!(format_entry_key_string("+42"), "0000000042");
    assert_eq!(format_entry_key_string("007"), "0000000007");
    assert_eq!(entry_key_string(12345), "0000012345");
}

#[test]
fn long_entry_keys_are_not_cut() {
    assert_eq!(format_entry_key_string("12345678901"), "12345678901");
    assert_eq!(entry_key_string(u64::MAX), "18446744073709551615");
}

#[test]
fn entry_keys_sort_like_indexes() {
    let mut last = entry_key_string(0);
    for i in [1u64, 2, 9, 10, 11, 99, 100, 1000, 9999999999] {
        let k = entry_key_string(i);
        assert!(last < k, "{} < {}", last, k);
        last = k;
    }
}

#[test]
fn entry_keys_read_back() {
    for i in [0u64, 1, 77, 4096, 9999999999, u64::MAX] {
        assert_eq!(parse_u64(&entry_key_string(i)), Some(i));
    }
}

#[test]
fn parse_u64_follows_from_str() {
    for s in ["", "+", "-1", "12a", " 1", "18446744073709551616", "99999999999999999999", "0", "+0", "18446744073709551615", "00012"] {
        assert_eq!(parse_u64(s), s.parse::<u64>().ok(), "{:?}", s);
    }
}

#[test]
fn decimal_and_padding() {
    assert_eq!(decimal_string(0), "0");
    assert_eq!(decimal_string(907), "907");
    assert_eq!(pad_zeros("12", 5), "00012");
    assert_eq!(pad_zeros("123456", 5), "123456");
}

#[test]
fn storage_paths() {
    assert_eq!(get_storage_path("./logs", 1), "./logs/node-1");
    assert_eq!(get_storage_path("/tmp/raft", 42), "/tmp/raft/node-42");
    assert_eq!(get_data_mdb_path("./logs", 3), "./logs/node-3/data.mdb");
}

#[test]
fn bytes_shown_as_lists() {
    assert_eq!(format_bytes(&[]), "[]");
    assert_eq!(format_bytes(&[7]), "[7]");
    assert_eq!(format_bytes(&[1, 2, 255]), "[1, 2, 255]");
    let v: Vec<u8> = vec![0, 10, 200];
    assert_eq!(format_bytes(&v), format!("{:?}", &v[..]));
    let d = BincodeDeserializer;
    assert_eq!(d.entry_data_deserialize(&[3, 4]), "[3, 4]");
    assert_eq!(d.entry_context_deserialize(&[]), "[]");
    assert_eq!(d.snapshot_data_deserializer(&[9]), "[9]");
    assert_eq!(d.message_context_deserializer(&[1, 1]), "[1, 1]");
    assert_eq!(d.confchange_context_deserialize(&[5]), "[5]");
    assert_eq!(d.confchangev2_context_deserialize(&[6]), "[6]");
}


#[test]
fn key_strings_order_by_number() {
    assert_eq!(KeyString::from(0).0, "0");
    assert_eq!(KeyString::from(120).0, "120");
    let nine = KeyString::from(9);
    let ten = KeyString::from(10);
    assert_eq!(nine.cmp(&ten), Ordering::Less);
    assert_eq!(ten.cmp(&nine), Ordering::Greater);
    assert_eq!(ten.cmp(&KeyString("+10".to_string())), Ordering::Equal);
    assert_eq!(nine.partial_cmp(&ten), Some(Ordering::Less));
}

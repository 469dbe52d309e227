use whitenoise_core::encoding::{
    group_id_from_string, group_id_to_string, hex_pubkey_from_npub, npub_from_hex_pubkey, GroupId,
};
use whitenoise_core::error::ApiError;
use whitenoise_core::metadata::{CustomValue, FlutterMetadata, Metadata, StringField};

#[test]
fn group_id_renders_lowercase_hex() {
    let gid = GroupId { bytes: vec![0xde, 0xad, 0xbe, 0xef, 0x00, 0x01] };
    assert_eq!(group_id_to_string(&gid), "deadbeef0001");
}

#[test]
fn group_id_round_trip() {
    let gid = GroupId { bytes: vec![1, 2, 3, 255, 16, 0] };
    let s = group_id_to_string(&gid);
    let back = group_id_from_string(&s).unwrap();
    assert_eq!(back.bytes, gid.bytes);
}

#[test]
fn group_id_accepts_uppercase_digits() {
    let gid = group_id_from_string("DEADBEEF").unwrap();
    assert_eq!(gid.bytes, vec![0xde, 0xad, 0xbe, 0xef]);
}

#[test]
fn group_id_rejects_odd_length() {
    let e = group_id_from_string("abc").unwrap_err();
    assert_eq!(e.error_type(), "NostrHex");
}

#[test]
fn group_id_rejects_non_hex() {
    let e = group_id_from_string("zz").unwrap_err();
    assert_eq!(e.error_type(), "NostrHex");
}

#[test]
fn npub_round_trip() {
    let hex_key = "3bf0c63fcb93463407af97a5e5ee64fa883d107ef9e558472c4eb9aaaefa459d";
    let npub = npub_from_hex_pubkey(hex_key).unwrap();
    assert!(npub.starts_with("npub1"));
    let back = hex_pubkey_from_npub(&npub).unwrap();
    assert_eq!(back, hex_key);
}

#[test]
fn npub_rejects_malformed_keys() {
    assert!(matches!(npub_from_hex_pubkey("abcd"), Err(ApiError::InvalidKey { .. })));
    assert!(matches!(npub_from_hex_pubkey("zz"), Err(ApiError::InvalidKey { .. })));
    assert!(matches!(hex_pubkey_from_npub("npub1notbech32"), Err(ApiError::InvalidKey { .. })));
}

#[test]
fn error_types_and_messages() {
    let cases: Vec<(ApiError, &str)> = vec![
        (ApiError::Whitenoise { message: "a".to_string() }, "Whitenoise"),
        (ApiError::InvalidKey { message: "b".to_string() }, "InvalidKey"),
        (ApiError::NostrUrl { message: "c".to_string() }, "NostrUrl"),
        (ApiError::NostrTag { message: "d".to_string() }, "NostrTag"),
        (ApiError::NostrEvent { message: "e".to_string() }, "NostrEvent"),
        (ApiError::NostrParse { message: "f".to_string() }, "NostrParse"),
        (ApiError::NostrHex { message: "g".to_string() }, "NostrHex"),
        (ApiError::Other { message: "h".to_string() }, "Other"),
    ];
    let expected_messages = ["a", "b", "c", "d", "e", "f", "g", "h"];
    for (i, (err, ty)) in cases.iter().enumerate() {
        assert_eq!(err.error_type(), *ty);
        assert_eq!(err.message_text(), expected_messages[i]);
    }
}

fn flat(fields: Vec<(&str, &str)>) -> FlutterMetadata {
    FlutterMetadata {
        name: Some("n".to_string()),
        display_name: None,
        about: None,
        picture: None,
        banner: None,
        website: None,
        nip05: None,
        lud06: None,
        lud16: None,
        custom: fields
            .into_iter()
            .map(|(k, v)| StringField { key: k.to_string(), value: v.to_string() })
            .collect(),
    }
}

#[test]
fn metadata_lift_detects_json() {
    let m = Metadata::from_flutter(&flat(vec![("a", "[1,2]"), ("b", "plain text"), ("c", "{\"x\":1}")]));
    assert!(matches!(&m.custom[0].value, CustomValue::Json(s) if s == "[1,2]"));
    assert!(matches!(&m.custom[1].value, CustomValue::Text(s) if s == "plain text"));
    assert!(matches!(&m.custom[2].value, CustomValue::Json(s) if s == "{\"x\":1}"));
}

#[test]
fn metadata_lift_falls_back_on_malformed_json() {
    let m = Metadata::from_flutter(&flat(vec![("a", "{oops")]));
    assert!(matches!(&m.custom[0].value, CustomValue::Text(s) if s == "{oops"));
}

#[test]
fn metadata_flattens_back() {
    let m = Metadata::from_flutter(&flat(vec![("a", "123"), ("b", "hi")]));
    let f = FlutterMetadata::from_metadata(&m);
    assert_eq!(f.name, Some("n".to_string()));
    assert_eq!(f.custom.len(), 2);
    assert_eq!(f.custom[0].key, "a");
    assert_eq!(f.custom[0].value, "123");
    assert_eq!(f.custom[1].value, "hi");
}

use nostr_bridge::config::EncryptionType;
use nostr_bridge::dispatch::{
    build_event, DispatchError, EventTag, OutboundEvent, Recipient, KIND_ENCRYPTED_DIRECT_MESSAGE,
    KIND_GROUP_CHAT_MESSAGE, KIND_TEXT_NOTE,
};

const ID_HEX: &str = "3bf0c63fcb93463407af97a5e5ee64fa883d107ef9e558472c4eb9aaaefa459d";
const ID_BYTES: [u8; 32] = [
    0x3b, 0xf0, 0xc6, 0x3f, 0xcb, 0x93, 0x46, 0x34, 0x07, 0xaf, 0x97, 0xa5, 0xe5, 0xee, 0x64, 0xfa,
    0x88, 0x3d, 0x10, 0x7e, 0xf9, 0xe5, 0x58, 0x47, 0x2c, 0x4e, 0xb9, 0xaa, 0xae, 0xfa, 0x45, 0x9d,
];
const NPUB: &str = "npub180cvv07tjdrrgpa0j7j7tmnyl2yr6yr7l8j4s3evf6u64th6gkwsyjh6w6";

#[test]
fn public_event_needs_no_recipient() {
    let event = build_event(EncryptionType::Public, "hello", None, None).unwrap();
    assert_eq!(
        event,
        OutboundEvent {
            kind: KIND_TEXT_NOTE,
            payload_text: "📱 Telegram-Weiterleitung:\nhello".to_string(),
            tags: vec![],
            addressing_mode: EncryptionType::Public,
            recipient: None,
        }
    );
    assert!(event.payload_text.contains("hello"));
    assert_eq!(event.kind, 1);
}

#[test]
fn public_event_ignores_recipient_and_group() {
    let to = Recipient { key: [7u8; 32] };
    let plain = build_event(EncryptionType::Public, "hello", None, None).unwrap();
    let extra = build_event(EncryptionType::Public, "hello", Some(&to), Some("junk")).unwrap();
    assert_eq!(plain, extra);
}

#[test]
fn direct_encrypted_without_recipient_is_an_error() {
    assert_eq!(
        build_event(EncryptionType::Nip04, "hello", None, None),
        Err(DispatchError::MissingRecipient(EncryptionType::Nip04))
    );
    assert_eq!(
        build_event(EncryptionType::Nip17, "hello", None, Some(ID_HEX)),
        Err(DispatchError::MissingRecipient(EncryptionType::Nip17))
    );
}

#[test]
fn encrypted_events_carry_recipient_and_plaintext() {
    let to = Recipient { key: ID_BYTES };
    for mode in [EncryptionType::Nip04, EncryptionType::Nip17] {
        let event = build_event(mode, "hello", Some(&to), None).unwrap();
        assert_eq!(
            event,
            OutboundEvent {
                kind: KIND_ENCRYPTED_DIRECT_MESSAGE,
                payload_text: "hello".to_string(),
                tags: vec![],
                addressing_mode: mode,
                recipient: Some(to),
            }
        );
        assert_eq!(event.kind, 4);
    }
}

#[test]
fn group_event_has_reference_and_marker() {
    let event = build_event(EncryptionType::Group, "hello", None, Some(ID_HEX)).unwrap();
    assert_eq!(
        event,
        OutboundEvent {
            kind: KIND_GROUP_CHAT_MESSAGE,
            payload_text: "hello".to_string(),
            tags: vec![
                EventTag::Event(ID_BYTES),
                EventTag::Custom { name: "h".to_string(), values: vec![ID_HEX.to_string()] },
            ],
            addressing_mode: EncryptionType::Group,
            recipient: None,
        }
    );
    assert_eq!(event.kind, 9);
}

#[test]
fn group_marker_is_lowercase() {
    let upper = ID_HEX.to_uppercase();
    let event = build_event(EncryptionType::Group, "hello", None, Some(&upper)).unwrap();
    assert_eq!(
        event.tags,
        vec![
            EventTag::Event(ID_BYTES),
            EventTag::Custom { name: "h".to_string(), values: vec![ID_HEX.to_string()] },
        ]
    );
}

#[test]
fn group_event_all_byte_values() {
    let hex = "000102030405060708090a0b0c0d0e0ff0f1f2f3f4f5f6f7f8f9fafbfcfdfeff";
    let event = build_event(EncryptionType::Group, "x", None, Some(hex)).unwrap();
    let mut bytes = [0u8; 32];
    for i in 0..16 {
        bytes[i] = i as u8;
        bytes[16 + i] = 0xf0 + i as u8;
    }
    assert_eq!(event.tags[0], EventTag::Event(bytes));
    assert_eq!(
        event.tags[1],
        EventTag::Custom { name: "h".to_string(), values: vec![hex.to_string()] }
    );
}

#[test]
fn group_without_event_id_is_an_error() {
    assert_eq!(
        build_event(EncryptionType::Group, "hello", None, None),
        Err(DispatchError::MissingGroupEventId)
    );
}

#[test]
fn malformed_group_event_id_is_an_error() {
    let short = &ID_HEX[..62];
    let odd = &ID_HEX[..63];
    let long = format!("{}00", ID_HEX);
    let not_hex = format!("{}zz", &ID_HEX[..62]);
    let wide = format!("{}é", &ID_HEX[..63]);
    for bad in ["", "abc", short, odd, &long, &not_hex, &wide, NPUB] {
        match build_event(EncryptionType::Group, "hello", None, Some(bad)) {
            Err(DispatchError::MalformedGroupEventId(reason)) => assert!(!reason.is_empty()),
            other => panic!("{:?} gave {:?}", bad, other),
        }
    }
}

#[test]
fn recipient_from_bech32_address() {
    assert_eq!(Recipient::from_bech32(NPUB), Ok(Recipient { key: ID_BYTES }));
}

#[test]
fn recipient_from_bad_address() {
    let note = "note180cvv07tjdrrgpa0j7j7tmnyl2yr6yr7l8j4s3evf6u64th6gkws4c58hj";
    let damaged = "npub180cvv07tjdrrgpa0j7j7tmnyl2yr6yr7l8j4s3evf6u64th6gkwsyjh6w7";
    for bad in ["", "npub1", ID_HEX, note, damaged] {
        assert!(Recipient::from_bech32(bad).is_err(), "{:?}", bad);
    }
}

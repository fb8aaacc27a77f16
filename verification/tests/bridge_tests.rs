use nostr_bridge::bridge::{
    decide, handle_message, recipient_address, resolve_recipient, Action, BridgeError,
    IncomingMessage,
};
use nostr_bridge::config::{Config, ConfigError, EncryptionType};
use nostr_bridge::vars::EnvVars;
use nostr_bridge::dispatch::{DispatchError, EventTag, OutboundEvent, Recipient};
use nostr_bridge::format::TimeText;

const ID_HEX: &str = "3bf0c63fcb93463407af97a5e5ee64fa883d107ef9e558472c4eb9aaaefa459d";
const NPUB: &str = "npub180cvv07tjdrrgpa0j7j7tmnyl2yr6yr7l8j4s3evf6u64th6gkwsyjh6w6";

fn config(mode: EncryptionType) -> Config {
    Config {
        telegram_bot_token: "t".to_string(),
        telegram_group_id: 42,
        nostr_private_key: "k".to_string(),
        nostr_public_key: None,
        nostr_relays: vec!["r1".to_string()],
        encryption_type: mode,
        nostr_group_event_id: None,
        nostr_group_relay: None,
    }
}

fn message(chat_id: i64, text: Option<&str>) -> IncomingMessage {
    IncomingMessage {
        chat_id,
        sender_display_name: Some("Alice".to_string()),
        text: text.map(|t| t.to_string()),
        timestamp: 1700000000,
    }
}

fn count_sends(actions: &[Action]) -> usize {
    actions.iter().filter(|a| matches!(a, Action::Send(_))).count()
}

#[test]
fn end_to_end_public_message_is_sent_once() {
    let mut vars = EnvVars::new();
    vars.set("TELEGRAM_BOT_TOKEN", "t");
    vars.set("TELEGRAM_GROUP_ID", "42");
    vars.set("NOSTR_PRIVATE_KEY", "k");
    vars.set("NOSTR_RELAYS", "r1");
    vars.set("ENCRYPTION_TYPE", "public");
    let config = Config::from_env(&vars).unwrap();
    let recipient = resolve_recipient(&config).unwrap();
    assert_eq!(recipient, None);
    let actions = vec![handle_message(&config, recipient.as_ref(), &message(42, Some("hi")))];
    assert_eq!(count_sends(&actions), 1);
    assert_eq!(
        actions[0],
        Action::Send(OutboundEvent {
            kind: 1,
            payload_text: "📱 Telegram-Weiterleitung:\nVon: Alice (22:13)\n\nhi".to_string(),
            tags: vec![],
            addressing_mode: EncryptionType::Public,
            recipient: None,
        })
    );
}

#[test]
fn end_to_end_other_chat_is_not_sent() {
    let config = config(EncryptionType::Public);
    let actions = vec![handle_message(&config, None, &message(99, Some("hi")))];
    assert_eq!(count_sends(&actions), 0);
    assert_eq!(actions[0], Action::Ignore);
}

#[test]
fn other_chat_is_ignored_in_every_mode() {
    let to = Recipient { key: [1u8; 32] };
    for mode in [
        EncryptionType::Nip04,
        EncryptionType::Nip17,
        EncryptionType::Public,
        EncryptionType::Group,
    ] {
        let mut c = config(mode);
        c.nostr_group_event_id = Some(ID_HEX.to_string());
        for chat in [0, -42, 41, 43, i64::MIN, i64::MAX] {
            assert_eq!(handle_message(&c, Some(&to), &message(chat, Some("hi"))), Action::Ignore);
            assert_eq!(handle_message(&c, None, &message(chat, None)), Action::Ignore);
        }
    }
}

#[test]
fn message_without_text_is_skipped() {
    let c = config(EncryptionType::Public);
    assert_eq!(handle_message(&c, None, &message(42, None)), Action::Skip);
}

#[test]
fn empty_text_is_still_a_text() {
    let c = config(EncryptionType::Public);
    assert_eq!(
        handle_message(&c, None, &message(42, Some(""))),
        Action::Send(OutboundEvent {
            kind: 1,
            payload_text: "📱 Telegram-Weiterleitung:\nVon: Alice (22:13)\n\n".to_string(),
            tags: vec![],
            addressing_mode: EncryptionType::Public,
            recipient: None,
        })
    );
}

#[test]
fn unknown_sender_gets_the_placeholder() {
    let c = config(EncryptionType::Public);
    let mut m = message(42, Some("hi"));
    m.sender_display_name = None;
    match handle_message(&c, None, &m) {
        Action::Send(event) => assert_eq!(
            event.payload_text,
            "📱 Telegram-Weiterleitung:\nVon: Unbekannt (22:13)\n\nhi"
        ),
        other => panic!("{:?}", other),
    }
}

#[test]
fn encrypted_message_is_addressed_to_the_recipient() {
    let to = Recipient { key: [9u8; 32] };
    let c = config(EncryptionType::Nip04);
    assert_eq!(
        handle_message(&c, Some(&to), &message(42, Some("hi"))),
        Action::Send(OutboundEvent {
            kind: 4,
            payload_text: "📱 Telegram-Nachricht\n👤 Von: Alice\n📅 Zeit: 2023-11-14 22:13:20\n\nhi"
                .to_string(),
            tags: vec![],
            addressing_mode: EncryptionType::Nip04,
            recipient: Some(to),
        })
    );
}

#[test]
fn encrypted_message_without_recipient_is_rejected() {
    let c = config(EncryptionType::Nip17);
    assert_eq!(
        handle_message(&c, None, &message(42, Some("hi"))),
        Action::Reject(DispatchError::MissingRecipient(EncryptionType::Nip17))
    );
}

#[test]
fn group_message_is_tagged() {
    let mut c = config(EncryptionType::Group);
    c.nostr_group_event_id = Some(ID_HEX.to_string());
    match handle_message(&c, None, &message(42, Some("hi"))) {
        Action::Send(event) => {
            assert_eq!(event.kind, 9);
            assert_eq!(
                event.payload_text,
                "📱 Telegram → Nostr Gruppe\n👤 Von: Alice (22:13)\n\nhi"
            );
            assert_eq!(event.tags.len(), 2);
            assert_eq!(
                event.tags[1],
                EventTag::Custom { name: "h".to_string(), values: vec![ID_HEX.to_string()] }
            );
        }
        other => panic!("{:?}", other),
    }
}

#[test]
fn group_message_with_bad_id_is_rejected() {
    let mut c = config(EncryptionType::Group);
    assert_eq!(
        handle_message(&c, None, &message(42, Some("hi"))),
        Action::Reject(DispatchError::MissingGroupEventId)
    );
    c.nostr_group_event_id = Some("xyz".to_string());
    assert!(matches!(
        handle_message(&c, None, &message(42, Some("hi"))),
        Action::Reject(DispatchError::MalformedGroupEventId(_))
    ));
}

#[test]
fn decide_uses_the_given_time() {
    let c = config(EncryptionType::Public);
    let time = TimeText { full: "F".to_string(), short: "S".to_string() };
    assert_eq!(
        decide(&c, None, &message(42, Some("hi")), &time),
        Action::Send(OutboundEvent {
            kind: 1,
            payload_text: "📱 Telegram-Weiterleitung:\nVon: Alice (S)\n\nhi".to_string(),
            tags: vec![],
            addressing_mode: EncryptionType::Public,
            recipient: None,
        })
    );
    assert_eq!(decide(&c, None, &message(7, Some("hi")), &time), Action::Ignore);
    assert_eq!(decide(&c, None, &message(42, None), &time), Action::Skip);
}

#[test]
fn out_of_range_time_does_not_stop_the_message() {
    let c = config(EncryptionType::Public);
    let mut m = message(42, Some("hi"));
    m.timestamp = i64::MAX;
    match handle_message(&c, None, &m) {
        Action::Send(event) => {
            assert!(event.payload_text.starts_with("📱 Telegram-Weiterleitung:\nVon: Alice ("));
            assert!(event.payload_text.ends_with(")\n\nhi"));
        }
        other => panic!("{:?}", other),
    }
}

#[test]
fn recipient_is_resolved_only_for_encrypted_modes() {
    let mut c = config(EncryptionType::Public);
    c.nostr_public_key = Some("not an address".to_string());
    assert_eq!(recipient_address(&c), Ok(None));
    assert_eq!(resolve_recipient(&c), Ok(None));
    c.encryption_type = EncryptionType::Group;
    assert_eq!(resolve_recipient(&c), Ok(None));
    c.encryption_type = EncryptionType::Nip04;
    assert_eq!(recipient_address(&c), Ok(Some("not an address")));
    assert!(matches!(resolve_recipient(&c), Err(BridgeError::KeyParsing(_))));
    c.nostr_public_key = Some(NPUB.to_string());
    let key = resolve_recipient(&c).unwrap().unwrap().key;
    assert_eq!(key[0], 0x3b);
    assert_eq!(key[31], 0x9d);
}

#[test]
fn encrypted_mode_without_address_is_a_config_error() {
    let c = config(EncryptionType::Nip17);
    let expected = ConfigError::InvalidValue {
        var: "NOSTR_PUBLIC_KEY".to_string(),
        msg: "Empfänger-Pubkey für verschlüsselte Modi erforderlich".to_string(),
    };
    assert_eq!(recipient_address(&c), Err(expected.clone()));
    assert_eq!(resolve_recipient(&c), Err(BridgeError::Config(expected)));
}

#[test]
fn dispatch_errors_become_bridge_errors() {
    assert_eq!(
        BridgeError::from_dispatch(DispatchError::MissingRecipient(EncryptionType::Nip04)),
        BridgeError::Config(ConfigError::InvalidValue {
            var: "NOSTR_PUBLIC_KEY".to_string(),
            msg: "Empfänger-Pubkey für NIP-04 erforderlich".to_string(),
        })
    );
    assert_eq!(
        BridgeError::from_dispatch(DispatchError::MissingRecipient(EncryptionType::Nip17)),
        BridgeError::Config(ConfigError::InvalidValue {
            var: "NOSTR_PUBLIC_KEY".to_string(),
            msg: "Empfänger-Pubkey für NIP-17 erforderlich".to_string(),
        })
    );
    assert_eq!(
        BridgeError::from_dispatch(DispatchError::MissingGroupEventId),
        BridgeError::Config(ConfigError::InvalidValue {
            var: "NOSTR_GROUP_EVENT_ID".to_string(),
            msg: "Gruppen-Event-ID fehlt".to_string(),
        })
    );
    assert_eq!(
        BridgeError::from_dispatch(DispatchError::MalformedGroupEventId("Invalid length".to_string())),
        BridgeError::EventBuild("Invalid length".to_string())
    );
}

#[test]
fn bridge_error_messages() {
    assert_eq!(
        BridgeError::from(ConfigError::MissingEnvVar("NOSTR_RELAYS".to_string())).message(),
        "Konfigurationsfehler: Umgebungsvariable 'NOSTR_RELAYS' fehlt"
    );
    assert_eq!(BridgeError::Nostr("timeout".to_string()).message(), "Nostr-Fehler: timeout");
    assert_eq!(
        BridgeError::KeyParsing("bad checksum".to_string()).message(),
        "Schlüssel-Parsing-Fehler: bad checksum"
    );
    assert_eq!(
        BridgeError::EventBuild("Invalid length".to_string()).message(),
        "Event-Build-Fehler: Invalid length"
    );
}

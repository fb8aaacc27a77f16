use nostr_bridge::config::{Config, EncryptionType};
use nostr_bridge::relay::{connect_all, endpoints_to_connect, ConnectionSet, Endpoint};

fn config(mode: EncryptionType, relays: &[&str], group_relay: Option<&str>) -> Config {
    Config {
        telegram_bot_token: "t".to_string(),
        telegram_group_id: 42,
        nostr_private_key: "k".to_string(),
        nostr_public_key: None,
        nostr_relays: relays.iter().map(|r| r.to_string()).collect(),
        encryption_type: mode,
        nostr_group_event_id: None,
        nostr_group_relay: group_relay.map(|r| r.to_string()),
    }
}

#[test]
fn unreachable_endpoint_stays_in_the_set() {
    let endpoints = vec!["wss://down".to_string(), "wss://up".to_string()];
    let set = connect_all(&vec![
        ("wss://down".to_string(), Some("connection refused".to_string())),
        ("wss://up".to_string(), None),
    ]);
    assert_eq!(
        set.endpoints,
        vec![
            Endpoint { url: "wss://down".to_string(), failure: Some("connection refused".to_string()) },
            Endpoint { url: "wss://up".to_string(), failure: None },
        ]
    );
    assert_eq!(set.len(), 2);
    assert_eq!(set.connected_count(), 1);
    assert_eq!(set.send_targets(), endpoints);
}

#[test]
fn connected_count_leaves_out_failures() {
    let endpoints: Vec<String> = (0..5).map(|i| format!("wss://relay{}", i)).collect();
    let with = |failures: Vec<Option<String>>| -> Vec<(String, Option<String>)> {
        endpoints.iter().cloned().zip(failures).collect()
    };
    let all_up = connect_all(&with(vec![None; 5]));
    assert_eq!(all_up.connected_count(), 5);
    let all_down = connect_all(&with(vec![Some("no route".to_string()); 5]));
    assert_eq!(all_down.connected_count(), 0);
    assert_eq!(all_down.len(), 5);
    assert_eq!(all_down.send_targets(), endpoints);
    let mixed = connect_all(&with(vec![
        None,
        Some("x".to_string()),
        None,
        Some("y".to_string()),
        None,
    ]));
    assert_eq!(mixed.connected_count(), 3);
}

#[test]
fn empty_set() {
    let set = ConnectionSet::new();
    assert_eq!(set.len(), 0);
    assert_eq!(set.connected_count(), 0);
    assert_eq!(set.send_targets(), Vec::<String>::new());
    assert_eq!(connect_all(&vec![]), set);
}

#[test]
fn record_appends_in_order() {
    let mut set = ConnectionSet::new();
    set.record("wss://a", None);
    set.record("wss://b", Some("timeout".to_string()));
    set.record("wss://a", None);
    assert_eq!(set.len(), 3);
    assert_eq!(set.connected_count(), 2);
    assert_eq!(
        set.send_targets(),
        vec!["wss://a".to_string(), "wss://b".to_string(), "wss://a".to_string()]
    );
    assert_eq!(set.endpoints[1].failure, Some("timeout".to_string()));
}

#[test]
fn group_mode_connects_to_the_group_relay_last() {
    assert_eq!(
        endpoints_to_connect(&config(
            EncryptionType::Group,
            &["wss://one", "wss://two"],
            Some("wss://group")
        )),
        vec!["wss://one".to_string(), "wss://two".to_string(), "wss://group".to_string()]
    );
    assert_eq!(
        endpoints_to_connect(&config(EncryptionType::Group, &[], Some("wss://group"))),
        vec!["wss://group".to_string()]
    );
    assert_eq!(
        endpoints_to_connect(&config(EncryptionType::Group, &["wss://one"], Some("wss://one"))),
        vec!["wss://one".to_string(), "wss://one".to_string()]
    );
}

#[test]
fn public_mode_ignores_the_group_relay() {
    assert_eq!(
        endpoints_to_connect(&config(
            EncryptionType::Public,
            &["wss://one", "wss://two"],
            Some("wss://group")
        )),
        vec!["wss://one".to_string(), "wss://two".to_string()]
    );
    assert_eq!(
        endpoints_to_connect(&config(EncryptionType::Public, &["wss://one"], None)),
        vec!["wss://one".to_string()]
    );
    assert_eq!(
        endpoints_to_connect(&config(EncryptionType::Public, &[], Some("wss://group"))),
        Vec::<String>::new()
    );
}

#[test]
fn encrypted_modes_connect_to_a_group_relay_that_is_set() {
    for mode in [EncryptionType::Nip04, EncryptionType::Nip17] {
        assert_eq!(
            endpoints_to_connect(&config(mode, &["wss://one"], Some("wss://group"))),
            vec!["wss://one".to_string(), "wss://group".to_string()]
        );
        assert_eq!(
            endpoints_to_connect(&config(mode, &["wss://one", "wss://two"], None)),
            vec!["wss://one".to_string(), "wss://two".to_string()]
        );
    }
}

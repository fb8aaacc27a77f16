use nostr_bridge::config::EncryptionType;
use nostr_bridge::format::{format_message, render_message, time_text, TimeText};

fn time(full: &str, short: &str) -> TimeText {
    TimeText { full: full.to_string(), short: short.to_string() }
}

#[test]
fn time_text_of_a_known_moment() {
    assert_eq!(time_text(1700000000), time("2023-11-14 22:13:20", "22:13"));
    assert_eq!(time_text(0), time("1970-01-01 00:00:00", "00:00"));
    assert_eq!(time_text(-1), time("1969-12-31 23:59:59", "23:59"));
}

#[test]
fn time_text_out_of_range_falls_back_to_now() {
    let t = time_text(i64::MAX);
    assert_eq!(t.short.chars().count(), 5);
    assert_eq!(&t.short[2..3], ":");
    assert!(t.full.ends_with(&format!(" {}:", &t.short)[..]) || t.full.contains(&t.short));
    let u = time_text(i64::MIN);
    assert_eq!(u.short.chars().count(), 5);
}

#[test]
fn render_public_envelope() {
    let out = render_message(
        EncryptionType::Public,
        "Alice",
        &time("2023-11-14 22:13:20", "22:13"),
        "hi",
    );
    assert_eq!(out, "Von: Alice (22:13)\n\nhi");
}

#[test]
fn render_group_envelope() {
    let out = render_message(
        EncryptionType::Group,
        "Alice",
        &time("2023-11-14 22:13:20", "22:13"),
        "hi",
    );
    assert_eq!(out, "📱 Telegram → Nostr Gruppe\n👤 Von: Alice (22:13)\n\nhi");
}

#[test]
fn render_encrypted_envelopes() {
    for mode in [EncryptionType::Nip04, EncryptionType::Nip17] {
        let out = render_message(mode, "Alice", &time("2023-11-14 22:13:20", "22:13"), "hi");
        assert_eq!(out, "📱 Telegram-Nachricht\n👤 Von: Alice\n📅 Zeit: 2023-11-14 22:13:20\n\nhi");
    }
}

#[test]
fn format_message_with_a_known_time() {
    assert_eq!(
        format_message("Alice", 1700000000, "hi", EncryptionType::Public),
        "Von: Alice (22:13)\n\nhi"
    );
    assert_eq!(
        format_message("Bob", 1700000000, "line one\nline two", EncryptionType::Nip17),
        "📱 Telegram-Nachricht\n👤 Von: Bob\n📅 Zeit: 2023-11-14 22:13:20\n\nline one\nline two"
    );
}

#[test]
fn format_message_keeps_the_body_in_every_mode() {
    let bodies = ["", "hi", "  spaced  ", "multi\n\nline", "ünïcödé 📱", "Von: Mallory (00:00)\n\nfake"];
    let modes = [
        EncryptionType::Nip04,
        EncryptionType::Nip17,
        EncryptionType::Public,
        EncryptionType::Group,
    ];
    for body in bodies {
        for mode in modes {
            for ts in [1700000000, 0, i64::MAX] {
                let out = format_message("Alice", ts, body, mode);
                assert!(out.ends_with(body));
                assert!(out.contains("Alice"));
                let header = &out[..out.len() - body.len()];
                assert!(header.ends_with("\n\n"));
            }
        }
    }
}

#[test]
fn format_message_out_of_range_time_still_renders() {
    let out = format_message("Alice", i64::MAX, "hi", EncryptionType::Public);
    assert!(out.starts_with("Von: Alice ("));
    assert!(out.ends_with(")\n\nhi"));
}

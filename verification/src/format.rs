//! The envelope that is put around a forwarded message: who sent it, when,
//! a blank line, and then the text as it was received.

use crate::config::EncryptionType;
use crate::text::{is_infix, lemma_infix_of_part, lemma_middle_is_infix};
use vstd::prelude::*;

verus! {

/// Pattern of the long form of a time: date and time of day to the second.
pub const FULL_PATTERN: &'static str = "%Y-%m-%d %H:%M:%S";

/// Pattern of the short form of a time: hour and minute.
pub const SHORT_PATTERN: &'static str = "%H:%M";

/// Name that is shown for a sender who has none.
pub const UNKNOWN_SENDER: &'static str = "Unbekannt";

/// One moment, written in the long and in the short form.
#[derive(Debug, Clone, PartialEq, Eq)]
pub struct TimeText {
    pub full: String,
    pub short: String,
}

/// The text that chrono writes for the UTC time `secs` seconds after the Unix
/// epoch under a strftime pattern, or `None` where chrono cannot represent
/// that time.
pub uninterp spec fn utc_formatted(secs: int, pattern: Seq<char>) -> Option<Seq<char>>;

/// The two forms of the UTC time `secs`, where chrono can represent it.
pub open spec fn utc_time_text(secs: int) -> Option<(Seq<char>, Seq<char>)> {
    match (utc_formatted(secs, FULL_PATTERN@), utc_formatted(secs, SHORT_PATTERN@)) {
        (Some(full), Some(short)) => Some((full, short)),
        _ => None,
    }
}

/// Calls `chrono::DateTime::from_timestamp` with no nanoseconds and, where
/// that gives a time, `DateTime::format` on it. Assumed of the two: whether
/// there is a text, and the text, depend on `secs` and `pattern` alone, since
/// the time is in UTC and no locale takes part. The calendar is not written
/// out here; [`utc_formatted`] is the name of what it gives. The patterns are
/// limited to the two that the envelope uses, both of which chrono accepts.
#[verifier::external_body]
fn format_utc(secs: i64, pattern: &str) -> (r: Option<String>)
    requires
        pattern@ == FULL_PATTERN@ || pattern@ == SHORT_PATTERN@,
    ensures
        r is Some == utc_formatted(secs as int, pattern@) is Some,
        r is Some ==> r->Some_0@ == utc_formatted(secs as int, pattern@)->Some_0,
{
    match chrono::DateTime::from_timestamp(secs, 0) {
        Some(moment) => Some(moment.format(pattern).to_string()),
        None => None,
    }
}

/// Calls `chrono::Utc::now` and writes that one moment with `DateTime::format`
/// under both patterns. Nothing is assumed of the texts: they depend on the
/// clock.
#[verifier::external_body]
fn format_now(full_pattern: &str, short_pattern: &str) -> (r: TimeText)
    requires
        full_pattern@ == FULL_PATTERN@,
        short_pattern@ == SHORT_PATTERN@,
{
    let now = chrono::Utc::now();
    TimeText {
        full: now.format(full_pattern).to_string(),
        short: now.format(short_pattern).to_string(),
    }
}

/// The lines in front of the blank line.
pub open spec fn header(
    mode: EncryptionType,
    sender: Seq<char>,
    full: Seq<char>,
    short: Seq<char>,
) -> Seq<char> {
    match mode {
        EncryptionType::Public => "Von: "@ + sender + " ("@ + short + ")"@,
        EncryptionType::Group => "📱 Telegram → Nostr Gruppe\n👤 Von: "@ + sender + " ("@ + short
            + ")"@,
        _ => "📱 Telegram-Nachricht\n👤 Von: "@ + sender + "\n📅 Zeit: "@ + full,
    }
}

/// The form of the time that a mode shows: the short one in the public and
/// the group mode, the long one in the encrypted modes.
pub open spec fn shown_time(mode: EncryptionType, full: Seq<char>, short: Seq<char>) -> Seq<char> {
    if mode.encrypts() {
        full
    } else {
        short
    }
}

/// The whole envelope: header, blank line, body.
pub open spec fn rendered(
    mode: EncryptionType,
    sender: Seq<char>,
    full: Seq<char>,
    short: Seq<char>,
    body: Seq<char>,
) -> Seq<char> {
    header(mode, sender, full, short) + "\n\n"@ + body
}

/// Every envelope shows the sender and the time in its header and is the
/// header, one blank line and the body, which it holds unchanged.
pub proof fn lemma_envelope_structure(
    mode: EncryptionType,
    sender: Seq<char>,
    full: Seq<char>,
    short: Seq<char>,
    body: Seq<char>,
)
    ensures
        is_infix(sender, header(mode, sender, full, short)),
        is_infix(shown_time(mode, full, short), header(mode, sender, full, short)),
        is_infix(body, rendered(mode, sender, full, short, body)),
        is_infix(sender, rendered(mode, sender, full, short, body)),
        is_infix(shown_time(mode, full, short), rendered(mode, sender, full, short, body)),
        rendered(mode, sender, full, short, body).len() >= body.len() + 2,
        rendered(mode, sender, full, short, body).skip(
            rendered(mode, sender, full, short, body).len() - body.len(),
        ) == body,
{
    let empty = Seq::<char>::empty();
    let head = header(mode, sender, full, short);
    let whole = rendered(mode, sender, full, short, body);
    let blank = "\n\n"@;
    reveal_strlit("\n\n");
    match mode {
        EncryptionType::Public => {
            let a = "Von: "@;
            let b = " ("@;
            let c = ")"@;
            lemma_middle_is_infix(a, sender, b + short + c);
            assert(a + sender + (b + short + c) =~= head);
            lemma_middle_is_infix(a + sender + b, short, c);
        },
        EncryptionType::Group => {
            let a = "📱 Telegram → Nostr Gruppe\n👤 Von: "@;
            let b = " ("@;
            let c = ")"@;
            lemma_middle_is_infix(a, sender, b + short + c);
            assert(a + sender + (b + short + c) =~= head);
            lemma_middle_is_infix(a + sender + b, short, c);
        },
        _ => {
            let a = "📱 Telegram-Nachricht\n👤 Von: "@;
            let b = "\n📅 Zeit: "@;
            lemma_middle_is_infix(a, sender, b + full);
            assert(a + sender + (b + full) =~= head);
            lemma_middle_is_infix(a + sender + b, full, empty);
            assert(a + sender + b + full + empty =~= head);
        },
    }
    lemma_middle_is_infix(head + blank, body, empty);
    assert(head + blank + body + empty =~= whole);
    lemma_infix_of_part(sender, empty, head, blank + body);
    lemma_infix_of_part(shown_time(mode, full, short), empty, head, blank + body);
    assert(empty + head + (blank + body) =~= whole);
    assert(whole.skip(whole.len() - body.len()) =~= body);
}

/// Puts the envelope around `body`, with the time given in both forms.
pub fn render_message(mode: EncryptionType, sender: &str, time: &TimeText, body: &str) -> (r:
    String)
    ensures
        r@ == rendered(mode, sender@, time.full@, time.short@, body@),
{
    let mut out = String::new();
    match mode {
        EncryptionType::Public => {
            out.append("Von: ");
            out.append(sender);
            out.append(" (");
            out.append(time.short.as_str());
            out.append(")");
        },
        EncryptionType::Group => {
            out.append("📱 Telegram → Nostr Gruppe\n👤 Von: ");
            out.append(sender);
            out.append(" (");
            out.append(time.short.as_str());
            out.append(")");
        },
        _ => {
            out.append("📱 Telegram-Nachricht\n👤 Von: ");
            out.append(sender);
            out.append("\n📅 Zeit: ");
            out.append(time.full.as_str());
        },
    }
    assert(out@ =~= header(mode, sender@, time.full@, time.short@));
    out.append("\n\n");
    out.append(body);
    out
}

/// The two forms of the time `secs` seconds after the Unix epoch, in UTC; of
/// the present moment where that time cannot be represented.
pub fn time_text(secs: i64) -> (r: TimeText)
    ensures
        utc_time_text(secs as int) matches Some(t) ==> r.full@ == t.0 && r.short@ == t.1,
{
    match format_utc(secs, FULL_PATTERN) {
        Some(full) => match format_utc(secs, SHORT_PATTERN) {
            Some(short) => TimeText { full, short },
            None => format_now(FULL_PATTERN, SHORT_PATTERN),
        },
        None => format_now(FULL_PATTERN, SHORT_PATTERN),
    }
}

/// Renders a received message for forwarding. Where the time can be
/// represented the result is the envelope with that time; otherwise it is the
/// envelope with the time at which the call was made. Either way the body
/// occurs in it unchanged.
pub fn format_message(sender: &str, timestamp: i64, body: &str, mode: EncryptionType) -> (r: String)
    ensures
        match utc_time_text(timestamp as int) {
            Some(t) => r@ == rendered(mode, sender@, t.0, t.1, body@),
            None => exists|full: Seq<char>, short: Seq<char>|
                r@ == #[trigger] rendered(mode, sender@, full, short, body@),
        },
        is_infix(body@, r@),
        is_infix(sender@, r@),
{
    let time = time_text(timestamp);
    let r = render_message(mode, sender, &time, body);
    proof {
        lemma_envelope_structure(mode, sender@, time.full@, time.short@, body@);
    }
    r
}

} // verus!

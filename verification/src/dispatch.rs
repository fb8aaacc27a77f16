//! From a delivery mode and a rendered message to the event that is to be
//! published: its kind, its content, its tags and whom it is addressed to.

use crate::config::EncryptionType;
use crate::text::{is_infix, lemma_middle_is_infix, optional_text};
use nostr_sdk::FromBech32;
use vstd::prelude::*;

verus! {

/// Line that a public note starts with.
pub const PUBLIC_BANNER: &'static str = "📱 Telegram-Weiterleitung:\n";

/// Name of the tag that marks the group of a group message.
pub const GROUP_MARKER: &'static str = "h";

/// Kind of a plain text note.
pub const KIND_TEXT_NOTE: u16 = 1;

/// Kind of an encrypted direct message.
pub const KIND_ENCRYPTED_DIRECT_MESSAGE: u16 = 4;

/// Kind of a chat message in a group.
pub const KIND_GROUP_CHAT_MESSAGE: u16 = 9;

/// A hexadecimal digit of either case.
pub open spec fn is_hex_digit(c: char) -> bool {
    ||| '0' <= c <= '9'
    ||| 'a' <= c <= 'f'
    ||| 'A' <= c <= 'F'
}

/// The number that a hexadecimal digit stands for.
pub open spec fn hex_digit_value(c: char) -> int {
    if '0' <= c <= '9' {
        (c as u32) - ('0' as u32)
    } else if 'a' <= c <= 'f' {
        (c as u32) - ('a' as u32) + 10
    } else {
        (c as u32) - ('A' as u32) + 10
    }
}

/// An event id in text form: 64 hexadecimal digits.
pub open spec fn is_event_id_hex(s: Seq<char>) -> bool {
    &&& s.len() == 64
    &&& forall|i: int| 0 <= i < s.len() ==> is_hex_digit(#[trigger] s[i])
}

/// The bytes that a sequence of hexadecimal digits writes, two digits to the
/// byte, the high one first.
pub open spec fn hex_bytes(s: Seq<char>) -> Seq<u8> {
    Seq::new(
        s.len() / 2,
        |i: int| (16 * hex_digit_value(s[2 * i]) + hex_digit_value(s[2 * i + 1])) as u8,
    )
}

/// The lowercase hexadecimal digit for a number below 16.
pub open spec fn hex_char(n: int) -> char {
    "0123456789abcdef"@[n]
}

/// Bytes in lowercase hexadecimal, two digits to the byte, the high one first.
pub open spec fn hex_text(bytes: Seq<u8>) -> Seq<char> {
    Seq::new(
        2 * bytes.len(),
        |i: int|
            if i % 2 == 0 {
                hex_char(bytes[i / 2] as int / 16)
            } else {
                hex_char(bytes[i / 2] as int % 16)
            },
    )
}

/// nostr's error type for events. Its values are only handed on.
#[verifier::external_type_specification]
#[verifier::external_body]
pub struct ExEventError(nostr_sdk::nostr::event::Error);

/// Calls `nostr_sdk::EventId::from_hex` and hands out the id's 32 bytes.
/// Assumed of that function: it accepts exactly the texts of 64 hexadecimal
/// digits, of either case, and the id holds the bytes that they write.
#[verifier::external_body]
fn parse_event_id(hex: &str) -> (r: Result<[u8; 32], nostr_sdk::nostr::event::Error>)
    ensures
        r is Ok == is_event_id_hex(hex@),
        r is Ok ==> r->Ok_0@ == hex_bytes(hex@),
{
    match nostr_sdk::EventId::from_hex(hex) {
        Ok(id) => Ok(id.to_bytes()),
        Err(e) => Err(e),
    }
}

/// Calls `to_string` on nostr's event error, which writes its message.
/// Nothing is assumed of the text.
#[verifier::external_body]
fn event_error_text(e: &nostr_sdk::nostr::event::Error) -> (r: String) {
    e.to_string()
}

/// Calls `hex::encode`. Assumed of that function: it writes each byte as two
/// lowercase hexadecimal digits, the high one first.
#[verifier::external_body]
fn hex_encode(bytes: &[u8]) -> (r: String)
    ensures
        r@ == hex_text(bytes@),
{
    hex::encode(bytes)
}

/// nostr's error type for bech32 entities. Its values are only handed on.
#[verifier::external_type_specification]
#[verifier::external_body]
pub struct ExAddressError(nostr_sdk::nostr::nips::nip19::Error);

/// What nostr reads from a bech32 address of a public key: the key's 32
/// bytes, or `None` where it does not accept the address.
pub uninterp spec fn npub_key(address: Seq<char>) -> Option<Seq<u8>>;

/// Calls `nostr_sdk::PublicKey::from_bech32` and hands out the key's 32
/// bytes. Assumed of that function: whether it accepts an address, and the key
/// that it reads, depend on the address alone. The rules of bech32 are not
/// written out here; [`npub_key`] is the name of what they give.
#[verifier::external_body]
fn decode_npub(address: &str) -> (r: Result<[u8; 32], nostr_sdk::nostr::nips::nip19::Error>)
    ensures
        r is Ok == npub_key(address@) is Some,
        r is Ok ==> r->Ok_0@ == npub_key(address@)->Some_0,
{
    match nostr_sdk::PublicKey::from_bech32(address) {
        Ok(key) => Ok(key.to_bytes()),
        Err(e) => Err(e),
    }
}

/// Calls `to_string` on nostr's bech32 error, which writes its message.
/// Nothing is assumed of the text.
#[verifier::external_body]
fn address_error_text(e: &nostr_sdk::nostr::nips::nip19::Error) -> (r: String) {
    e.to_string()
}

/// The public key that an encrypted message is addressed to.
#[derive(Debug, Clone, Copy, PartialEq, Eq)]
pub struct Recipient {
    pub key: [u8; 32],
}

impl Recipient {
    /// Reads a recipient from its bech32 address. The error is the reason
    /// that the decoder gives.
    pub fn from_bech32(address: &str) -> (r: Result<Recipient, String>)
        ensures
            match npub_key(address@) {
                Some(key) => r is Ok && r->Ok_0.key@ == key,
                None => r is Err,
            },
    {
        match decode_npub(address) {
            Ok(key) => Ok(Recipient { key }),
            Err(e) => Err(address_error_text(&e)),
        }
    }
}

/// One tag of an event.
#[derive(Debug, Clone, PartialEq, Eq)]
pub enum EventTag {
    /// Reference to the event with the given id.
    Event([u8; 32]),
    /// A tag outside the standard set: its name, then its values.
    Custom { name: String, values: Vec<String> },
}

/// What an [`EventTag`] holds, as plain sequences.
pub enum EventTagView {
    Event(Seq<u8>),
    Custom { name: Seq<char>, values: Seq<Seq<char>> },
}

impl View for EventTag {
    type V = EventTagView;

    open spec fn view(&self) -> EventTagView {
        match self {
            EventTag::Event(id) => EventTagView::Event(id@),
            EventTag::Custom { name, values } => EventTagView::Custom {
                name: name@,
                values: values@.map_values(|v: String| v@),
            },
        }
    }
}

/// An event that is ready to be signed and published.
#[derive(Debug, Clone, PartialEq, Eq)]
pub struct OutboundEvent {
    /// The event's kind number.
    pub kind: u16,
    /// The content; in the encrypted modes it is still in the clear.
    pub payload_text: String,
    /// The tags that the mode asks for, in order.
    pub tags: Vec<EventTag>,
    /// The mode, which decides how the content is protected.
    pub addressing_mode: EncryptionType,
    /// Whom the content is encrypted to, in the encrypted modes.
    pub recipient: Option<Recipient>,
}

/// What an [`OutboundEvent`] holds, as plain sequences.
pub struct OutboundEventView {
    pub kind: u16,
    pub payload_text: Seq<char>,
    pub tags: Seq<EventTagView>,
    pub addressing_mode: EncryptionType,
    pub recipient: Option<Seq<u8>>,
}

/// The key of an optional recipient.
pub open spec fn key_of(recipient: Option<Recipient>) -> Option<Seq<u8>> {
    match recipient {
        Some(r) => Some(r.key@),
        None => None,
    }
}

/// The key of an optional recipient that is held by reference.
pub open spec fn recipient_key(recipient: Option<&Recipient>) -> Option<Seq<u8>> {
    match recipient {
        Some(to) => Some(to.key@),
        None => None,
    }
}

impl View for OutboundEvent {
    type V = OutboundEventView;

    open spec fn view(&self) -> OutboundEventView {
        OutboundEventView {
            kind: self.kind,
            payload_text: self.payload_text@,
            tags: self.tags@.map_values(|t: EventTag| t@),
            addressing_mode: self.addressing_mode,
            recipient: key_of(self.recipient),
        }
    }
}

/// Why no event could be built for a message.
#[derive(Debug, Clone, PartialEq, Eq)]
pub enum DispatchError {
    /// The mode encrypts, and no recipient is known.
    MissingRecipient(EncryptionType),
    /// The group mode was asked for without the id of the group's event.
    MissingGroupEventId,
    /// The id of the group's event is no event id; the text says why.
    MalformedGroupEventId(String),
}

/// The failures of dispatch, without the explanatory text.
pub enum DispatchFailure {
    MissingRecipient(EncryptionType),
    MissingGroupEventId,
    MalformedGroupEventId,
}

impl DispatchError {
    /// Which failure the error reports.
    pub open spec fn failure(&self) -> DispatchFailure {
        match self {
            DispatchError::MissingRecipient(mode) => DispatchFailure::MissingRecipient(*mode),
            DispatchError::MissingGroupEventId => DispatchFailure::MissingGroupEventId,
            DispatchError::MalformedGroupEventId(_) => DispatchFailure::MalformedGroupEventId,
        }
    }
}

/// The two tags of a group message: the reference to the group's event, and
/// the group marker with the same id in lowercase hexadecimal.
pub open spec fn group_tags(id: Seq<u8>) -> Seq<EventTagView> {
    seq![
        EventTagView::Event(id),
        EventTagView::Custom { name: GROUP_MARKER@, values: seq![hex_text(id)] },
    ]
}

/// The event for a message, by mode, or the reason why there is none.
///
/// - The encrypted modes need a recipient. The event is an encrypted direct
///   message that carries the text and the recipient; the private mode uses
///   the mechanism of the direct mode.
/// - The public mode needs nothing. The event is a text note whose content is
///   the banner and then the text.
/// - The group mode needs the id of the group's event, as 64 hexadecimal
///   digits. The event is a group chat message that carries the text and the
///   two group tags.
pub open spec fn dispatched(
    mode: EncryptionType,
    plaintext: Seq<char>,
    recipient: Option<Seq<u8>>,
    group_event_id: Option<Seq<char>>,
) -> Result<OutboundEventView, DispatchFailure> {
    match mode {
        EncryptionType::Nip04 | EncryptionType::Nip17 => match recipient {
            Some(key) => Ok(
                OutboundEventView {
                    kind: KIND_ENCRYPTED_DIRECT_MESSAGE,
                    payload_text: plaintext,
                    tags: Seq::empty(),
                    addressing_mode: mode,
                    recipient: Some(key),
                },
            ),
            None => Err(DispatchFailure::MissingRecipient(mode)),
        },
        EncryptionType::Public => Ok(
            OutboundEventView {
                kind: KIND_TEXT_NOTE,
                payload_text: PUBLIC_BANNER@ + plaintext,
                tags: Seq::empty(),
                addressing_mode: mode,
                recipient: None,
            },
        ),
        EncryptionType::Group => match group_event_id {
            None => Err(DispatchFailure::MissingGroupEventId),
            Some(id) => if is_event_id_hex(id) {
                Ok(
                    OutboundEventView {
                        kind: KIND_GROUP_CHAT_MESSAGE,
                        payload_text: plaintext,
                        tags: group_tags(hex_bytes(id)),
                        addressing_mode: mode,
                        recipient: None,
                    },
                )
            } else {
                Err(DispatchFailure::MalformedGroupEventId)
            },
        },
    }
}

/// Builds the event for a message that was rendered before. Nothing is sent.
pub fn build_event(
    mode: EncryptionType,
    plaintext: &str,
    recipient: Option<&Recipient>,
    group_event_id: Option<&str>,
) -> (r: Result<OutboundEvent, DispatchError>)
    ensures
        match dispatched(mode, plaintext@, recipient_key(recipient), optional_text(group_event_id)) {
            Ok(event) => r is Ok && r->Ok_0@ == event,
            Err(failure) => r is Err && r->Err_0.failure() == failure,
        },
{
    match mode {
        EncryptionType::Nip04 | EncryptionType::Nip17 => match recipient {
            Some(to) => {
                let event = OutboundEvent {
                    kind: KIND_ENCRYPTED_DIRECT_MESSAGE,
                    payload_text: plaintext.to_owned(),
                    tags: Vec::new(),
                    addressing_mode: mode,
                    recipient: Some(*to),
                };
                assert(event@.tags =~= Seq::empty());
                Ok(event)
            },
            None => Err(DispatchError::MissingRecipient(mode)),
        },
        EncryptionType::Public => {
            let mut payload_text = PUBLIC_BANNER.to_owned();
            payload_text.append(plaintext);
            let event = OutboundEvent {
                kind: KIND_TEXT_NOTE,
                payload_text,
                tags: Vec::new(),
                addressing_mode: mode,
                recipient: None,
            };
            assert(event@.tags =~= Seq::empty());
            Ok(event)
        },
        EncryptionType::Group => match group_event_id {
            None => Err(DispatchError::MissingGroupEventId),
            Some(id_text) => match parse_event_id(id_text) {
                Err(e) => Err(DispatchError::MalformedGroupEventId(event_error_text(&e))),
                Ok(id) => {
                    let marker = hex_encode(id.as_slice());
                    let mut values: Vec<String> = Vec::new();
                    values.push(marker);
                    let mut tags: Vec<EventTag> = Vec::new();
                    tags.push(EventTag::Event(id));
                    tags.push(EventTag::Custom { name: GROUP_MARKER.to_owned(), values });
                    let event = OutboundEvent {
                        kind: KIND_GROUP_CHAT_MESSAGE,
                        payload_text: plaintext.to_owned(),
                        tags,
                        addressing_mode: mode,
                        recipient: None,
                    };
                    proof {
                        assert(values@.map_values(|v: String| v@) =~= seq![hex_text(id@)]);
                        assert(event@.tags =~= group_tags(id@));
                    }
                    Ok(event)
                },
            },
        },
    }
}

/// The precondition of each mode: a recipient for the encrypted modes, a
/// well-formed event id for the group mode, nothing for the public mode.
pub open spec fn dispatchable(
    mode: EncryptionType,
    recipient: Option<Seq<u8>>,
    group_event_id: Option<Seq<char>>,
) -> bool {
    match mode {
        EncryptionType::Nip04 | EncryptionType::Nip17 => recipient is Some,
        EncryptionType::Public => true,
        EncryptionType::Group => group_event_id is Some && is_event_id_hex(group_event_id->Some_0),
    }
}

/// An event is built exactly when the mode's precondition holds. It then
/// carries the mode, and its content holds the message unchanged.
pub proof fn lemma_dispatch_total(
    mode: EncryptionType,
    plaintext: Seq<char>,
    recipient: Option<Seq<u8>>,
    group_event_id: Option<Seq<char>>,
)
    ensures
        dispatched(mode, plaintext, recipient, group_event_id) is Ok <==> dispatchable(
            mode,
            recipient,
            group_event_id,
        ),
        dispatched(mode, plaintext, recipient, group_event_id) matches Ok(event) ==> {
            &&& event.addressing_mode == mode
            &&& is_infix(plaintext, event.payload_text)
            &&& mode != EncryptionType::Public ==> event.payload_text == plaintext
            &&& event.recipient is Some <==> mode.encrypts()
        },
{
    let none = Seq::<char>::empty();
    lemma_middle_is_infix(none, plaintext, none);
    assert(none + plaintext + none =~= plaintext);
    lemma_middle_is_infix(PUBLIC_BANNER@, plaintext, none);
    assert(PUBLIC_BANNER@ + plaintext + none =~= PUBLIC_BANNER@ + plaintext);
}

/// The public mode asks for no recipient and no group: whatever is given, the
/// event is a text note without tags whose content is the banner and then the
/// message, unchanged.
pub proof fn lemma_public_needs_nothing(
    plaintext: Seq<char>,
    recipient: Option<Seq<u8>>,
    group_event_id: Option<Seq<char>>,
)
    ensures
        dispatched(EncryptionType::Public, plaintext, recipient, group_event_id) == dispatched(
            EncryptionType::Public,
            plaintext,
            None,
            None,
        ),
        dispatched(EncryptionType::Public, plaintext, recipient, group_event_id) matches Ok(event)
            && {
            &&& event.payload_text == PUBLIC_BANNER@ + plaintext
            &&& event.payload_text.len() > plaintext.len()
            &&& is_infix(PUBLIC_BANNER@, event.payload_text)
            &&& is_infix(plaintext, event.payload_text)
            &&& event.tags.len() == 0
            &&& event.recipient is None
        },
{
    let none = Seq::<char>::empty();
    reveal_strlit("📱 Telegram-Weiterleitung:\n");
    lemma_middle_is_infix(PUBLIC_BANNER@, plaintext, none);
    assert(PUBLIC_BANNER@ + plaintext + none =~= PUBLIC_BANNER@ + plaintext);
    lemma_middle_is_infix(none, PUBLIC_BANNER@, plaintext);
    assert(none + PUBLIC_BANNER@ + plaintext =~= PUBLIC_BANNER@ + plaintext);
}

/// An encrypted mode without a recipient gives the error that names the mode,
/// and never an event.
pub proof fn lemma_encrypted_needs_recipient(
    mode: EncryptionType,
    plaintext: Seq<char>,
    group_event_id: Option<Seq<char>>,
)
    requires
        mode.encrypts(),
    ensures
        dispatched(mode, plaintext, None, group_event_id) == Err::<
            OutboundEventView,
            DispatchFailure,
        >(DispatchFailure::MissingRecipient(mode)),
{
}

/// A hexadecimal digit in lowercase.
pub open spec fn lower_hex_digit(c: char) -> char {
    if 'A' <= c <= 'F' {
        hex_char(hex_digit_value(c))
    } else {
        c
    }
}

/// The group marker of a group message is the event id as it was given, in
/// lowercase.
pub proof fn lemma_group_marker_is_id(id: Seq<char>)
    requires
        is_event_id_hex(id),
    ensures
        hex_text(hex_bytes(id)) == id.map_values(|c: char| lower_hex_digit(c)),
{
    reveal_strlit("0123456789abcdef");
    let bytes = hex_bytes(id);
    let text = hex_text(bytes);
    let lower = id.map_values(|c: char| lower_hex_digit(c));
    assert(text.len() == lower.len());
    assert forall|i: int| 0 <= i < text.len() implies text[i] == lower[i] by {
        let k = i / 2;
        let hi = hex_digit_value(id[2 * k]);
        let lo = hex_digit_value(id[2 * k + 1]);
        assert(is_hex_digit(id[2 * k]) && is_hex_digit(id[2 * k + 1]));
        assert(0 <= hi < 16 && 0 <= lo < 16);
        assert(bytes[k] == 16 * hi + lo);
        assert((16 * hi + lo) / 16 == hi && (16 * hi + lo) % 16 == lo);
        lemma_hex_char_inverts(id[i]);
    }
    assert(text =~= lower);
}

/// Writing the value of a hexadecimal digit as a digit gives the digit back,
/// in lowercase.
pub proof fn lemma_hex_char_inverts(c: char)
    requires
        is_hex_digit(c),
    ensures
        hex_char(hex_digit_value(c)) == lower_hex_digit(c),
{
    reveal_strlit("0123456789abcdef");
}

} // verus!

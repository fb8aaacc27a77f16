//! What the bridge does with one received message, and what it needs before
//! the first: the decisions, without the sending.

use crate::config::{
    error_message, Config, ConfigError, ConfigErrorView, ConfigView, EncryptionType,
    NOSTR_GROUP_EVENT_ID, NOSTR_PUBLIC_KEY,
};
use crate::dispatch::{
    build_event, dispatched, lemma_dispatch_total, npub_key, recipient_key, DispatchError,
    DispatchFailure, OutboundEvent, OutboundEventView, Recipient,
};
use crate::format::{
    lemma_envelope_structure, render_message, rendered, time_text, utc_time_text, TimeText,
    UNKNOWN_SENDER,
};
use crate::text::{is_infix, lemma_infix_transitive, text_of};
use vstd::prelude::*;

verus! {

/// Anything that stops the bridge or one of its messages.
#[derive(Debug, Clone, PartialEq, Eq)]
pub enum BridgeError {
    /// The configuration cannot be used.
    Config(ConfigError),
    /// The relays did not take an event; the text is the transport's reason.
    Nostr(String),
    /// A key could not be read; the text is the decoder's reason.
    KeyParsing(String),
    /// An event could not be built; the text says why.
    EventBuild(String),
}

/// What a [`BridgeError`] says, as plain sequences.
pub enum BridgeErrorView {
    Config(ConfigErrorView),
    Nostr(Seq<char>),
    KeyParsing(Seq<char>),
    EventBuild(Seq<char>),
}

impl View for BridgeError {
    type V = BridgeErrorView;

    open spec fn view(&self) -> BridgeErrorView {
        match self {
            BridgeError::Config(e) => BridgeErrorView::Config(e@),
            BridgeError::Nostr(text) => BridgeErrorView::Nostr(text@),
            BridgeError::KeyParsing(text) => BridgeErrorView::KeyParsing(text@),
            BridgeError::EventBuild(text) => BridgeErrorView::EventBuild(text@),
        }
    }
}

impl From<ConfigError> for BridgeError {
    fn from(e: ConfigError) -> (r: BridgeError) {
        BridgeError::Config(e)
    }
}

impl vstd::std_specs::convert::FromSpecImpl<ConfigError> for BridgeError {
    open spec fn obeys_from_spec() -> bool {
        true
    }

    open spec fn from_spec(e: ConfigError) -> BridgeError {
        BridgeError::Config(e)
    }
}

/// The sentence that reports a bridge error.
pub open spec fn bridge_error_message(e: BridgeErrorView) -> Seq<char> {
    match e {
        BridgeErrorView::Config(inner) => "Konfigurationsfehler: "@ + error_message(inner),
        BridgeErrorView::Nostr(text) => "Nostr-Fehler: "@ + text,
        BridgeErrorView::KeyParsing(text) => "Schlüssel-Parsing-Fehler: "@ + text,
        BridgeErrorView::EventBuild(text) => "Event-Build-Fehler: "@ + text,
    }
}

/// The configuration error that stands for a mode without its recipient.
pub open spec fn missing_recipient_error(mode: EncryptionType) -> ConfigErrorView {
    ConfigErrorView::InvalidValue {
        var: NOSTR_PUBLIC_KEY@,
        msg: match mode {
            EncryptionType::Nip04 => "Empfänger-Pubkey für NIP-04 erforderlich"@,
            EncryptionType::Nip17 => "Empfänger-Pubkey für NIP-17 erforderlich"@,
            _ => "Empfänger-Pubkey für verschlüsselte Modi erforderlich"@,
        },
    }
}

/// The configuration error that stands for a group mode without its event.
pub open spec fn missing_group_event_error() -> ConfigErrorView {
    ConfigErrorView::InvalidValue { var: NOSTR_GROUP_EVENT_ID@, msg: "Gruppen-Event-ID fehlt"@ }
}

impl BridgeError {
    /// The sentence that reports the error.
    pub fn message(&self) -> (r: String)
        ensures
            r@ == bridge_error_message(self@),
    {
        match self {
            BridgeError::Config(inner) => {
                let mut out = "Konfigurationsfehler: ".to_owned();
                let detail = inner.message();
                out.append(detail.as_str());
                out
            },
            BridgeError::Nostr(text) => {
                let mut out = "Nostr-Fehler: ".to_owned();
                out.append(text.as_str());
                out
            },
            BridgeError::KeyParsing(text) => {
                let mut out = "Schlüssel-Parsing-Fehler: ".to_owned();
                out.append(text.as_str());
                out
            },
            BridgeError::EventBuild(text) => {
                let mut out = "Event-Build-Fehler: ".to_owned();
                out.append(text.as_str());
                out
            },
        }
    }

    /// The bridge error that stands for a failure to build an event: a
    /// missing recipient or group event is a fault of the configuration, a
    /// malformed event id is a build error with the parser's reason.
    pub fn from_dispatch(e: DispatchError) -> (r: BridgeError)
        ensures
            match e {
                DispatchError::MissingRecipient(mode) => r@ == BridgeErrorView::Config(
                    missing_recipient_error(mode),
                ),
                DispatchError::MissingGroupEventId => r@ == BridgeErrorView::Config(
                    missing_group_event_error(),
                ),
                DispatchError::MalformedGroupEventId(reason) => r@ == BridgeErrorView::EventBuild(
                    reason@,
                ),
            },
    {
        match e {
            DispatchError::MissingRecipient(mode) => {
                let msg = match mode {
                    EncryptionType::Nip04 => "Empfänger-Pubkey für NIP-04 erforderlich",
                    EncryptionType::Nip17 => "Empfänger-Pubkey für NIP-17 erforderlich",
                    _ => "Empfänger-Pubkey für verschlüsselte Modi erforderlich",
                };
                BridgeError::Config(
                    ConfigError::InvalidValue { var: NOSTR_PUBLIC_KEY.to_owned(), msg: msg.to_owned() },
                )
            },
            DispatchError::MissingGroupEventId => BridgeError::Config(
                ConfigError::InvalidValue {
                    var: NOSTR_GROUP_EVENT_ID.to_owned(),
                    msg: "Gruppen-Event-ID fehlt".to_owned(),
                },
            ),
            DispatchError::MalformedGroupEventId(reason) => BridgeError::EventBuild(reason),
        }
    }
}

/// The address of the recipient that a configuration asks for: none outside
/// the encrypted modes, and an error where an encrypted mode has none.
pub open spec fn recipient_address_of(config: ConfigView) -> Result<
    Option<Seq<char>>,
    ConfigErrorView,
> {
    if !config.encryption_type.encrypts() {
        Ok(None)
    } else {
        match config.nostr_public_key {
            Some(address) => Ok(Some(address)),
            None => Err(missing_recipient_error(EncryptionType::Public)),
        }
    }
}

/// The address of the recipient that the configured mode needs, if it needs
/// one.
pub fn recipient_address(config: &Config) -> (r: Result<Option<&str>, ConfigError>)
    ensures
        match recipient_address_of(config@) {
            Ok(Some(address)) => r matches Ok(Some(found)) && found@ == address,
            Ok(None) => r matches Ok(None),
            Err(e) => r is Err && r->Err_0@ == e,
        },
{
    if !config.needs_encryption() {
        return Ok(None);
    }
    match &config.nostr_public_key {
        Some(address) => Ok(Some(address.as_str())),
        None => Err(
            ConfigError::InvalidValue {
                var: NOSTR_PUBLIC_KEY.to_owned(),
                msg: "Empfänger-Pubkey für verschlüsselte Modi erforderlich".to_owned(),
            },
        ),
    }
}

/// The recipient of the configured mode, decoded from its address. A mode
/// that does not encrypt has none, and its address is not looked at.
pub fn resolve_recipient(config: &Config) -> (r: Result<Option<Recipient>, BridgeError>)
    ensures
        match recipient_address_of(config@) {
            Ok(Some(address)) => match npub_key(address) {
                Some(key) => r matches Ok(Some(to)) && to.key@ == key,
                None => r matches Err(BridgeError::KeyParsing(_)),
            },
            Ok(None) => r matches Ok(None),
            Err(e) => r is Err && r->Err_0@ == BridgeErrorView::Config(e),
        },
{
    match recipient_address(config) {
        Err(e) => Err(BridgeError::from(e)),
        Ok(None) => Ok(None),
        Ok(Some(address)) => match Recipient::from_bech32(address) {
            Ok(to) => Ok(Some(to)),
            Err(reason) => Err(BridgeError::KeyParsing(reason)),
        },
    }
}

/// One message as the chat delivers it.
#[derive(Debug, Clone, PartialEq, Eq)]
pub struct IncomingMessage {
    /// Id of the chat that the message was posted in.
    pub chat_id: i64,
    /// Name of the sender as the chat shows it, where it is known.
    pub sender_display_name: Option<String>,
    /// The text; `None` for a message that carries none.
    pub text: Option<String>,
    /// When it was posted, in seconds since the Unix epoch.
    pub timestamp: i64,
}

/// What an [`IncomingMessage`] holds, as plain sequences.
pub struct IncomingMessageView {
    pub chat_id: i64,
    pub sender_display_name: Option<Seq<char>>,
    pub text: Option<Seq<char>>,
    pub timestamp: i64,
}

impl View for IncomingMessage {
    type V = IncomingMessageView;

    open spec fn view(&self) -> IncomingMessageView {
        IncomingMessageView {
            chat_id: self.chat_id,
            sender_display_name: text_of(self.sender_display_name),
            text: text_of(self.text),
            timestamp: self.timestamp,
        }
    }
}

/// What is to be done with a received message.
#[derive(Debug, Clone, PartialEq, Eq)]
pub enum Action {
    /// It was posted in another chat: nothing is done.
    Ignore,
    /// It carries no text: nothing is done.
    Skip,
    /// This event is to be published, once.
    Send(OutboundEvent),
    /// No event could be built: the error is reported and the message dropped.
    Reject(DispatchError),
}

/// What an [`Action`] asks for, as plain sequences.
pub enum Decision {
    Ignore,
    Skip,
    Send(OutboundEventView),
    Reject(DispatchFailure),
}

impl Action {
    /// What the action asks for.
    pub open spec fn decision(&self) -> Decision {
        match self {
            Action::Ignore => Decision::Ignore,
            Action::Skip => Decision::Skip,
            Action::Send(event) => Decision::Send(event@),
            Action::Reject(e) => Decision::Reject(e.failure()),
        }
    }
}

/// The name under which a sender is shown.
pub open spec fn shown_sender(name: Option<Seq<char>>) -> Seq<char> {
    match name {
        Some(n) => n,
        None => UNKNOWN_SENDER@,
    }
}

/// What is done with a message, given the two written forms of its time: a
/// message of another chat is ignored, one without text is skipped, any other
/// is rendered and handed to dispatch in the configured mode.
pub open spec fn decided(
    config: ConfigView,
    recipient: Option<Seq<u8>>,
    message: IncomingMessageView,
    full: Seq<char>,
    short: Seq<char>,
) -> Decision {
    if message.chat_id != config.telegram_group_id {
        Decision::Ignore
    } else {
        match message.text {
            None => Decision::Skip,
            Some(body) => {
                let text = rendered(
                    config.encryption_type,
                    shown_sender(message.sender_display_name),
                    full,
                    short,
                    body,
                );
                match dispatched(
                    config.encryption_type,
                    text,
                    recipient,
                    config.nostr_group_event_id,
                ) {
                    Ok(event) => Decision::Send(event),
                    Err(failure) => Decision::Reject(failure),
                }
            },
        }
    }
}

/// Decides what to do with a message whose time is already written out.
pub fn decide(
    config: &Config,
    recipient: Option<&Recipient>,
    message: &IncomingMessage,
    time: &TimeText,
) -> (r: Action)
    ensures
        r.decision() == decided(
            config@,
            recipient_key(recipient),
            message@,
            time.full@,
            time.short@,
        ),
{
    if message.chat_id != config.telegram_group_id {
        return Action::Ignore;
    }
    let body = match &message.text {
        Some(body) => body.as_str(),
        None => { return Action::Skip; },
    };
    let sender = match &message.sender_display_name {
        Some(name) => name.as_str(),
        None => UNKNOWN_SENDER,
    };
    let text = render_message(config.encryption_type, sender, time, body);
    match build_event(config.encryption_type, text.as_str(), recipient, config.get_group_event_id()) {
        Ok(event) => Action::Send(event),
        Err(e) => Action::Reject(e),
    }
}

/// Decides what to do with a received message. The time shown is the
/// message's own where it can be represented, and else the time of the call.
/// A message of another chat, or one without text, never leads to an event.
pub fn handle_message(config: &Config, recipient: Option<&Recipient>, message: &IncomingMessage) -> (r:
    Action)
    ensures
        match utc_time_text(message.timestamp as int) {
            Some(t) => r.decision() == decided(
                config@,
                recipient_key(recipient),
                message@,
                t.0,
                t.1,
            ),
            None => exists|full: Seq<char>, short: Seq<char>|
                r.decision() == #[trigger] decided(
                    config@,
                    recipient_key(recipient),
                    message@,
                    full,
                    short,
                ),
        },
        message.chat_id != config.telegram_group_id ==> r is Ignore,
        message.chat_id == config.telegram_group_id && message.text is None ==> r is Skip,
        r is Send ==> message.chat_id == config.telegram_group_id && message.text is Some
            && is_infix(message.text->Some_0@, (r->Send_0).payload_text@),
{
    if message.chat_id != config.telegram_group_id {
        return Action::Ignore;
    }
    if message.text.is_none() {
        return Action::Skip;
    }
    let time = time_text(message.timestamp);
    let r = decide(config, recipient, message, &time);
    proof {
        lemma_decision(
            config@,
            recipient_key(recipient),
            message@,
            time.full@,
            time.short@,
        );
    }
    r
}

/// Only a message of the configured chat that carries a text leads to an
/// event or to a dispatch error; the event then holds that text unchanged.
pub proof fn lemma_decision(
    config: ConfigView,
    recipient: Option<Seq<u8>>,
    message: IncomingMessageView,
    full: Seq<char>,
    short: Seq<char>,
)
    ensures
        message.chat_id != config.telegram_group_id ==> decided(
            config,
            recipient,
            message,
            full,
            short,
        ) == Decision::Ignore,
        message.chat_id == config.telegram_group_id && message.text is None ==> decided(
            config,
            recipient,
            message,
            full,
            short,
        ) == Decision::Skip,
        decided(config, recipient, message, full, short) is Send || decided(
            config,
            recipient,
            message,
            full,
            short,
        ) is Reject ==> message.chat_id == config.telegram_group_id && message.text is Some,
        decided(config, recipient, message, full, short) matches Decision::Send(event)
            ==> event.addressing_mode == config.encryption_type && is_infix(
            message.text->Some_0,
            event.payload_text,
        ),
{
    if message.chat_id == config.telegram_group_id && message.text is Some {
        let body = message.text->Some_0;
        let sender = shown_sender(message.sender_display_name);
        let mode = config.encryption_type;
        let text = rendered(mode, sender, full, short, body);
        lemma_envelope_structure(mode, sender, full, short, body);
        lemma_dispatch_total(mode, text, recipient, config.nostr_group_event_id);
        if decided(config, recipient, message, full, short) is Send {
            let event = decided(config, recipient, message, full, short)->Send_0;
            lemma_infix_transitive(body, text, event.payload_text);
        }
    }
}

} // verus!

//! The bridge's configuration: the variables it is read from, the rules that
//! a usable configuration meets, and the errors that say which rule failed.

use crate::text::{
    list_entries, optional_text, parse_i64, parse_i64_spec, same_text, split_list, text_of, texts,
};
use crate::vars::EnvVars;
use vstd::prelude::*;
use vstd::utf8::is_ascii_chars;

verus! {

/// Name of the variable that holds the Telegram bot token.
pub const TELEGRAM_BOT_TOKEN: &'static str = "TELEGRAM_BOT_TOKEN";

/// Name of the variable that holds the id of the one chat that is forwarded.
pub const TELEGRAM_GROUP_ID: &'static str = "TELEGRAM_GROUP_ID";

/// Name of the variable that holds the sender's secret key.
pub const NOSTR_PRIVATE_KEY: &'static str = "NOSTR_PRIVATE_KEY";

/// Name of the variable that holds the recipient's public key.
pub const NOSTR_PUBLIC_KEY: &'static str = "NOSTR_PUBLIC_KEY";

/// Name of the variable that holds the comma-separated relay list.
pub const NOSTR_RELAYS: &'static str = "NOSTR_RELAYS";

/// Name of the variable that selects the delivery mode.
pub const ENCRYPTION_TYPE: &'static str = "ENCRYPTION_TYPE";

/// Name of the variable that holds the id of the group's root event.
pub const NOSTR_GROUP_EVENT_ID: &'static str = "NOSTR_GROUP_EVENT_ID";

/// Name of the variable that holds the group's relay.
pub const NOSTR_GROUP_RELAY: &'static str = "NOSTR_GROUP_RELAY";

/// Why a configuration could not be built.
#[derive(Debug, Clone, PartialEq, Eq)]
pub enum ConfigError {
    /// A required variable is not set.
    MissingEnvVar(String),
    /// A variable is set, but its value cannot be used.
    InvalidValue { var: String, msg: String },
}

/// What a [`ConfigError`] says, as plain sequences.
pub enum ConfigErrorView {
    MissingEnvVar(Seq<char>),
    InvalidValue { var: Seq<char>, msg: Seq<char> },
}

impl View for ConfigError {
    type V = ConfigErrorView;

    open spec fn view(&self) -> ConfigErrorView {
        match self {
            ConfigError::MissingEnvVar(name) => ConfigErrorView::MissingEnvVar(name@),
            ConfigError::InvalidValue { var, msg } => ConfigErrorView::InvalidValue {
                var: var@,
                msg: msg@,
            },
        }
    }
}

/// The sentence that reports an error.
pub open spec fn error_message(e: ConfigErrorView) -> Seq<char> {
    match e {
        ConfigErrorView::MissingEnvVar(name) => "Umgebungsvariable '"@ + name + "' fehlt"@,
        ConfigErrorView::InvalidValue { var, msg } => "Ungültiger Wert für '"@ + var + "': "@ + msg,
    }
}

impl ConfigError {
    /// The sentence that reports the error.
    pub fn message(&self) -> (r: String)
        ensures
            r@ == error_message(self@),
    {
        match self {
            ConfigError::MissingEnvVar(name) => {
                let mut out = "Umgebungsvariable '".to_owned();
                out.append(name.as_str());
                out.append("' fehlt");
                out
            },
            ConfigError::InvalidValue { var, msg } => {
                let mut out = "Ungültiger Wert für '".to_owned();
                out.append(var.as_str());
                out.append("': ");
                out.append(msg.as_str());
                out
            },
        }
    }
}

/// How an outgoing message is addressed and protected.
#[derive(Debug, Clone, Copy, PartialEq, Eq, Structural)]
pub enum EncryptionType {
    /// Encrypted direct message to one recipient.
    Nip04,
    /// Private message to one recipient.
    Nip17,
    /// Plain public note.
    Public,
    /// Message addressed to a group.
    Group,
}

/// The lowercase form that Unicode gives a string, as `str::to_lowercase`
/// returns it.
pub uninterp spec fn unicode_lowercase(s: Seq<char>) -> Seq<char>;

/// The lowercase form of an ASCII character: a capital letter from `A` to `Z`
/// becomes the small letter, any other character stays as it is.
pub open spec fn ascii_lowercase_char(c: char) -> char {
    if 'A' <= c <= 'Z' {
        ((c as u32) + 32) as char
    } else {
        c
    }
}

/// A text with each of its characters in ASCII lowercase.
pub open spec fn ascii_lowercase(s: Seq<char>) -> Seq<char> {
    s.map_values(|c: char| ascii_lowercase_char(c))
}

/// The lowercase form of a text. For a text in ASCII it is the ASCII
/// lowercase; beyond ASCII, Unicode's tables decide.
pub open spec fn lowercase(s: Seq<char>) -> Seq<char> {
    if is_ascii_chars(s) {
        ascii_lowercase(s)
    } else {
        unicode_lowercase(s)
    }
}

/// Calls `str::to_lowercase`. Assumed of that function: its result depends on
/// the string alone, and in a string of ASCII characters it turns the letters
/// `A` to `Z` into `a` to `z` and leaves every other character as it is.
/// Unicode's case tables are not written out here; [`unicode_lowercase`] is
/// the name of what they give.
#[verifier::external_body]
fn to_lowercase(s: &str) -> (r: String)
    ensures
        r@ == unicode_lowercase(s@),
        is_ascii_chars(s@) ==> r@ == ascii_lowercase(s@),
{
    s.to_lowercase()
}

/// The mode that a lowercase token names.
pub open spec fn mode_of_token(token: Seq<char>) -> Option<EncryptionType> {
    if token == "nip04"@ {
        Some(EncryptionType::Nip04)
    } else if token == "nip17"@ {
        Some(EncryptionType::Nip17)
    } else if token == "public"@ {
        Some(EncryptionType::Public)
    } else if token == "group"@ {
        Some(EncryptionType::Group)
    } else {
        None
    }
}

/// The error for a mode token that names no mode.
pub open spec fn unknown_mode_error() -> ConfigErrorView {
    ConfigErrorView::InvalidValue {
        var: ENCRYPTION_TYPE@,
        msg: "Muss 'nip04', 'nip17', 'public' oder 'group' sein"@,
    }
}

/// The mode that a token names once it is put in lowercase.
pub open spec fn mode_of_text(s: Seq<char>) -> Result<EncryptionType, ConfigErrorView> {
    match mode_of_token(lowercase(s)) {
        Some(mode) => Ok(mode),
        None => Err(unknown_mode_error()),
    }
}

impl EncryptionType {
    /// Whether the mode encrypts the payload to a recipient.
    pub open spec fn encrypts(self) -> bool {
        self == EncryptionType::Nip04 || self == EncryptionType::Nip17
    }

    /// The mode that `token` names, letter for letter.
    pub fn from_token(token: &str) -> (r: Option<EncryptionType>)
        ensures
            r == mode_of_token(token@),
    {
        if same_text(token, "nip04") {
            Some(EncryptionType::Nip04)
        } else if same_text(token, "nip17") {
            Some(EncryptionType::Nip17)
        } else if same_text(token, "public") {
            Some(EncryptionType::Public)
        } else if same_text(token, "group") {
            Some(EncryptionType::Group)
        } else {
            None
        }
    }

    /// The mode that `s` names, whatever the case of its letters.
    pub fn from_str(s: &str) -> (r: Result<EncryptionType, ConfigError>)
        ensures
            match mode_of_text(s@) {
                Ok(mode) => r == Ok::<EncryptionType, ConfigError>(mode),
                Err(e) => r is Err && r->Err_0@ == e,
            },
    {
        let lowered = to_lowercase(s);
        match EncryptionType::from_token(lowered.as_str()) {
            Some(mode) => Ok(mode),
            None => Err(
                ConfigError::InvalidValue {
                    var: ENCRYPTION_TYPE.to_owned(),
                    msg: "Muss 'nip04', 'nip17', 'public' oder 'group' sein".to_owned(),
                },
            ),
        }
    }
}

/// The bridge's configuration. It is built once and only read afterwards.
#[derive(Debug, Clone, PartialEq, Eq)]
pub struct Config {
    /// Token of the Telegram bot.
    pub telegram_bot_token: String,
    /// Id of the one chat whose messages are forwarded.
    pub telegram_group_id: i64,
    /// Secret key of the sending identity.
    pub nostr_private_key: String,
    /// Public key of the recipient; the encrypted modes need it.
    pub nostr_public_key: Option<String>,
    /// The relays, in the order in which they were listed.
    pub nostr_relays: Vec<String>,
    /// The delivery mode.
    pub encryption_type: EncryptionType,
    /// Id of the group's root event; the group mode needs it.
    pub nostr_group_event_id: Option<String>,
    /// Relay of the group; the group mode needs it.
    pub nostr_group_relay: Option<String>,
}

/// What a [`Config`] holds, as plain sequences.
pub struct ConfigView {
    pub telegram_bot_token: Seq<char>,
    pub telegram_group_id: i64,
    pub nostr_private_key: Seq<char>,
    pub nostr_public_key: Option<Seq<char>>,
    pub nostr_relays: Seq<Seq<char>>,
    pub encryption_type: EncryptionType,
    pub nostr_group_event_id: Option<Seq<char>>,
    pub nostr_group_relay: Option<Seq<char>>,
}

/// What a map holds under a name, if anything.
pub open spec fn lookup(vars: Map<Seq<char>, Seq<char>>, name: Seq<char>) -> Option<Seq<char>> {
    if vars.contains_key(name) {
        Some(vars[name])
    } else {
        None
    }
}

impl View for Config {
    type V = ConfigView;

    open spec fn view(&self) -> ConfigView {
        ConfigView {
            telegram_bot_token: self.telegram_bot_token@,
            telegram_group_id: self.telegram_group_id,
            nostr_private_key: self.nostr_private_key@,
            nostr_public_key: text_of(self.nostr_public_key),
            nostr_relays: texts(self.nostr_relays@),
            encryption_type: self.encryption_type,
            nostr_group_event_id: text_of(self.nostr_group_event_id),
            nostr_group_relay: text_of(self.nostr_group_relay),
        }
    }
}

impl ConfigView {
    /// The rules that tie the fields of a configuration together.
    pub open spec fn well_formed(self) -> bool {
        &&& usable_relays(self.nostr_relays)
        &&& self.encryption_type.encrypts() ==> self.nostr_public_key is Some
        &&& self.encryption_type == EncryptionType::Group ==> self.nostr_group_event_id is Some
            && self.nostr_group_relay is Some
    }
}

/// A relay list is usable when it names at least one relay and none of its
/// entries is empty.
pub open spec fn usable_relays(relays: Seq<Seq<char>>) -> bool {
    &&& relays.len() >= 1
    &&& forall|i: int| 0 <= i < relays.len() ==> (#[trigger] relays[i]).len() > 0
}

/// The mode that a set of variables selects: the private mode where none is
/// named.
pub open spec fn selected_mode(vars: Map<Seq<char>, Seq<char>>) -> Result<
    EncryptionType,
    ConfigErrorView,
> {
    if vars.contains_key(ENCRYPTION_TYPE@) {
        mode_of_text(vars[ENCRYPTION_TYPE@])
    } else {
        Ok(EncryptionType::Nip17)
    }
}

/// The error for a chat id that is no 64-bit integer.
pub open spec fn bad_group_id_error() -> ConfigErrorView {
    ConfigErrorView::InvalidValue {
        var: TELEGRAM_GROUP_ID@,
        msg: "Muss eine gültige Zahl sein"@,
    }
}

/// The error for a relay list that names no relay, or an empty one.
pub open spec fn bad_relays_error() -> ConfigErrorView {
    ConfigErrorView::InvalidValue {
        var: NOSTR_RELAYS@,
        msg: "Mindestens ein Relay muss angegeben werden"@,
    }
}

/// The error for a group mode without the id of the group's event.
pub open spec fn no_group_event_error() -> ConfigErrorView {
    ConfigErrorView::InvalidValue {
        var: NOSTR_GROUP_EVENT_ID@,
        msg: "Für ENCRYPTION_TYPE=group muss NOSTR_GROUP_EVENT_ID gesetzt sein"@,
    }
}

/// The error for a group mode without the group's relay.
pub open spec fn no_group_relay_error() -> ConfigErrorView {
    ConfigErrorView::InvalidValue {
        var: NOSTR_GROUP_RELAY@,
        msg: "Für ENCRYPTION_TYPE=group muss NOSTR_GROUP_RELAY gesetzt sein"@,
    }
}

/// The unconditional checks, in their order: the four variables that every
/// mode needs are set, the chat id is an integer, the mode is known. The
/// result is the first failure.
pub open spec fn basic_failure(vars: Map<Seq<char>, Seq<char>>) -> Option<ConfigErrorView> {
    if !vars.contains_key(TELEGRAM_BOT_TOKEN@) {
        Some(ConfigErrorView::MissingEnvVar(TELEGRAM_BOT_TOKEN@))
    } else if !vars.contains_key(TELEGRAM_GROUP_ID@) {
        Some(ConfigErrorView::MissingEnvVar(TELEGRAM_GROUP_ID@))
    } else if !vars.contains_key(NOSTR_PRIVATE_KEY@) {
        Some(ConfigErrorView::MissingEnvVar(NOSTR_PRIVATE_KEY@))
    } else if !vars.contains_key(NOSTR_RELAYS@) {
        Some(ConfigErrorView::MissingEnvVar(NOSTR_RELAYS@))
    } else if parse_i64_spec(vars[TELEGRAM_GROUP_ID@]) is None {
        Some(bad_group_id_error())
    } else {
        match selected_mode(vars) {
            Err(e) => Some(e),
            Ok(_) => None,
        }
    }
}

/// The checks that depend on the mode, in their order: the relay list is
/// usable, an encrypted mode has its recipient, the group mode has its event
/// id and then its relay. The result is the first failure.
pub open spec fn mode_failure(vars: Map<Seq<char>, Seq<char>>, mode: EncryptionType) -> Option<
    ConfigErrorView,
> {
    if !usable_relays(list_entries(vars[NOSTR_RELAYS@])) {
        Some(bad_relays_error())
    } else if mode.encrypts() && !vars.contains_key(NOSTR_PUBLIC_KEY@) {
        Some(ConfigErrorView::MissingEnvVar(NOSTR_PUBLIC_KEY@))
    } else if mode == EncryptionType::Group && !vars.contains_key(NOSTR_GROUP_EVENT_ID@) {
        Some(no_group_event_error())
    } else if mode == EncryptionType::Group && !vars.contains_key(NOSTR_GROUP_RELAY@) {
        Some(no_group_relay_error())
    } else {
        None
    }
}

/// The configuration that a set of variables gives, or the first rule that it
/// breaks.
pub open spec fn validated(vars: Map<Seq<char>, Seq<char>>) -> Result<ConfigView, ConfigErrorView> {
    match basic_failure(vars) {
        Some(e) => Err(e),
        None => {
            let mode = selected_mode(vars)->Ok_0;
            match mode_failure(vars, mode) {
                Some(e) => Err(e),
                None => Ok(
                    ConfigView {
                        telegram_bot_token: vars[TELEGRAM_BOT_TOKEN@],
                        telegram_group_id: parse_i64_spec(vars[TELEGRAM_GROUP_ID@])->Some_0,
                        nostr_private_key: vars[NOSTR_PRIVATE_KEY@],
                        nostr_public_key: lookup(vars, NOSTR_PUBLIC_KEY@),
                        nostr_relays: list_entries(vars[NOSTR_RELAYS@]),
                        encryption_type: mode,
                        nostr_group_event_id: lookup(vars, NOSTR_GROUP_EVENT_ID@),
                        nostr_group_relay: lookup(vars, NOSTR_GROUP_RELAY@),
                    },
                ),
            }
        },
    }
}

/// Whether every entry of a relay list holds at least one character.
pub fn relays_usable(relays: &Vec<String>) -> (b: bool)
    ensures
        b == usable_relays(texts(relays@)),
{
    if relays.len() == 0 {
        return false;
    }
    let mut i: usize = 0;
    while i < relays.len()
        invariant
            i <= relays.len(),
            forall|j: int| 0 <= j < i ==> (#[trigger] texts(relays@)[j]).len() > 0,
        decreases relays.len() - i,
    {
        if relays[i].as_str().is_empty() {
            assert(texts(relays@)[i as int].len() == 0);
            return false;
        }
        i = i + 1;
    }
    true
}

/// An owned copy of an optional text.
fn owned(o: Option<&str>) -> (r: Option<String>)
    ensures
        r is Some == o is Some,
        o is Some ==> r->Some_0@ == o->Some_0@,
{
    match o {
        Some(s) => Some(s.to_owned()),
        None => None,
    }
}

impl Config {
    /// Whether the fields meet the rules that tie them together.
    pub open spec fn well_formed(&self) -> bool {
        self@.well_formed()
    }

    /// Builds the configuration from a set of variables, or says which rule
    /// the set breaks first.
    pub fn from_env(vars: &EnvVars) -> (r: Result<Config, ConfigError>)
        ensures
            match validated(vars@) {
                Ok(c) => r is Ok && r->Ok_0@ == c && r->Ok_0.well_formed(),
                Err(e) => r is Err && r->Err_0@ == e,
            },
    {
        let telegram_bot_token = match vars.get(TELEGRAM_BOT_TOKEN) {
            Some(v) => v.to_owned(),
            None => { return Err(ConfigError::MissingEnvVar(TELEGRAM_BOT_TOKEN.to_owned())); },
        };
        let group_id_text = match vars.get(TELEGRAM_GROUP_ID) {
            Some(v) => v,
            None => { return Err(ConfigError::MissingEnvVar(TELEGRAM_GROUP_ID.to_owned())); },
        };
        let nostr_private_key = match vars.get(NOSTR_PRIVATE_KEY) {
            Some(v) => v.to_owned(),
            None => { return Err(ConfigError::MissingEnvVar(NOSTR_PRIVATE_KEY.to_owned())); },
        };
        let relays_text = match vars.get(NOSTR_RELAYS) {
            Some(v) => v,
            None => { return Err(ConfigError::MissingEnvVar(NOSTR_RELAYS.to_owned())); },
        };
        let telegram_group_id = match parse_i64(group_id_text) {
            Some(id) => id,
            None => {
                return Err(
                    ConfigError::InvalidValue {
                        var: TELEGRAM_GROUP_ID.to_owned(),
                        msg: "Muss eine gültige Zahl sein".to_owned(),
                    },
                );
            },
        };
        let encryption_type = match vars.get(ENCRYPTION_TYPE) {
            Some(token) => match EncryptionType::from_str(token) {
                Ok(mode) => mode,
                Err(e) => { return Err(e); },
            },
            None => EncryptionType::Nip17,
        };
        let nostr_relays = split_list(relays_text);
        if !relays_usable(&nostr_relays) {
            return Err(
                ConfigError::InvalidValue {
                    var: NOSTR_RELAYS.to_owned(),
                    msg: "Mindestens ein Relay muss angegeben werden".to_owned(),
                },
            );
        }
        let nostr_public_key = owned(vars.get(NOSTR_PUBLIC_KEY));
        let encrypts = match encryption_type {
            EncryptionType::Nip04 | EncryptionType::Nip17 => true,
            _ => false,
        };
        if encrypts && nostr_public_key.is_none() {
            return Err(ConfigError::MissingEnvVar(NOSTR_PUBLIC_KEY.to_owned()));
        }
        let nostr_group_event_id = owned(vars.get(NOSTR_GROUP_EVENT_ID));
        let nostr_group_relay = owned(vars.get(NOSTR_GROUP_RELAY));
        if encryption_type == EncryptionType::Group {
            if nostr_group_event_id.is_none() {
                return Err(
                    ConfigError::InvalidValue {
                        var: NOSTR_GROUP_EVENT_ID.to_owned(),
                        msg: "Für ENCRYPTION_TYPE=group muss NOSTR_GROUP_EVENT_ID gesetzt sein".to_owned(),
                    },
                );
            }
            if nostr_group_relay.is_none() {
                return Err(
                    ConfigError::InvalidValue {
                        var: NOSTR_GROUP_RELAY.to_owned(),
                        msg: "Für ENCRYPTION_TYPE=group muss NOSTR_GROUP_RELAY gesetzt sein".to_owned(),
                    },
                );
            }
        }
        Ok(
            Config {
                telegram_bot_token,
                telegram_group_id,
                nostr_private_key,
                nostr_public_key,
                nostr_relays,
                encryption_type,
                nostr_group_event_id,
                nostr_group_relay,
            },
        )
    }

    /// Id of the group's root event, if one is configured.
    pub fn get_group_event_id(&self) -> (r: Option<&str>)
        ensures
            optional_text(r) == self@.nostr_group_event_id,
    {
        match &self.nostr_group_event_id {
            Some(s) => Some(s.as_str()),
            None => None,
        }
    }

    /// Relay of the group, if one is configured.
    pub fn get_group_relay(&self) -> (r: Option<&str>)
        ensures
            optional_text(r) == self@.nostr_group_relay,
    {
        match &self.nostr_group_relay {
            Some(s) => Some(s.as_str()),
            None => None,
        }
    }

    /// Whether the configured mode encrypts to a recipient.
    pub fn needs_encryption(&self) -> (b: bool)
        ensures
            b == self.encryption_type.encrypts(),
    {
        match self.encryption_type {
            EncryptionType::Nip04 | EncryptionType::Nip17 => true,
            _ => false,
        }
    }
}

/// A set of variables is complete when it holds, in usable form, everything
/// that its mode needs.
pub open spec fn complete(vars: Map<Seq<char>, Seq<char>>) -> bool {
    &&& vars.contains_key(TELEGRAM_BOT_TOKEN@)
    &&& vars.contains_key(TELEGRAM_GROUP_ID@)
    &&& vars.contains_key(NOSTR_PRIVATE_KEY@)
    &&& vars.contains_key(NOSTR_RELAYS@)
    &&& parse_i64_spec(vars[TELEGRAM_GROUP_ID@]) is Some
    &&& selected_mode(vars) is Ok
    &&& usable_relays(list_entries(vars[NOSTR_RELAYS@]))
    &&& forall|name: Seq<char>| #[trigger]
        mode_requires(selected_mode(vars)->Ok_0, name) ==> vars.contains_key(name)
}

/// Whether a mode needs the variable `name` beyond the four that every mode
/// needs.
pub open spec fn mode_requires(mode: EncryptionType, name: Seq<char>) -> bool {
    ||| mode.encrypts() && name == NOSTR_PUBLIC_KEY@
    ||| mode == EncryptionType::Group && name == NOSTR_GROUP_EVENT_ID@
    ||| mode == EncryptionType::Group && name == NOSTR_GROUP_RELAY@
}

/// Whether a configuration in `mode` cannot do without the variable `name`.
pub open spec fn required(mode: EncryptionType, name: Seq<char>) -> bool {
    ||| name == TELEGRAM_BOT_TOKEN@
    ||| name == TELEGRAM_GROUP_ID@
    ||| name == NOSTR_PRIVATE_KEY@
    ||| name == NOSTR_RELAYS@
    ||| mode_requires(mode, name)
}

/// The error that reports a required variable as not set. The two variables
/// of the group mode are reported as invalid, the others as missing.
pub open spec fn omission_error(name: Seq<char>) -> ConfigErrorView {
    if name == NOSTR_GROUP_EVENT_ID@ {
        no_group_event_error()
    } else if name == NOSTR_GROUP_RELAY@ {
        no_group_relay_error()
    } else {
        ConfigErrorView::MissingEnvVar(name)
    }
}

/// A text in ASCII that holds no capital letter is its own lowercase form.
pub proof fn lemma_lowercase_of_small_text(s: Seq<char>)
    requires
        is_ascii_chars(s),
        forall|i: int| 0 <= i < s.len() ==> !('A' <= #[trigger] s[i] <= 'Z'),
    ensures
        lowercase(s) == s,
{
    assert(ascii_lowercase(s) =~= s);
}

/// The lowercase form of a text in ASCII has the length of the text, and a
/// mode token is recognized in it whatever the case of its letters: the text
/// names a mode exactly when its ASCII lowercase is that mode's token.
pub proof fn lemma_mode_of_ascii_text(s: Seq<char>)
    requires
        is_ascii_chars(s),
    ensures
        lowercase(s).len() == s.len(),
        mode_of_text(s) is Ok <==> mode_of_token(ascii_lowercase(s)) is Some,
        mode_of_text(s) matches Ok(mode) ==> mode_of_token(ascii_lowercase(s)) == Some(mode),
{
}

/// What tells the eight variable names apart: their lengths, and a letter
/// where two are equally long.
proof fn lemma_names_differ()
    ensures
        TELEGRAM_BOT_TOKEN@.len() == 18,
        TELEGRAM_GROUP_ID@.len() == 17 && TELEGRAM_GROUP_ID@[0] == 'T',
        NOSTR_PRIVATE_KEY@.len() == 17 && NOSTR_PRIVATE_KEY@[0] == 'N' && NOSTR_PRIVATE_KEY@[6]
            == 'P',
        NOSTR_PUBLIC_KEY@.len() == 16,
        NOSTR_RELAYS@.len() == 12,
        ENCRYPTION_TYPE@.len() == 15,
        NOSTR_GROUP_EVENT_ID@.len() == 20,
        NOSTR_GROUP_RELAY@.len() == 17 && NOSTR_GROUP_RELAY@[0] == 'N' && NOSTR_GROUP_RELAY@[6]
            == 'G',
{
    reveal_strlit("TELEGRAM_BOT_TOKEN");
    reveal_strlit("TELEGRAM_GROUP_ID");
    reveal_strlit("NOSTR_PRIVATE_KEY");
    reveal_strlit("NOSTR_PUBLIC_KEY");
    reveal_strlit("NOSTR_RELAYS");
    reveal_strlit("ENCRYPTION_TYPE");
    reveal_strlit("NOSTR_GROUP_EVENT_ID");
    reveal_strlit("NOSTR_GROUP_RELAY");
}

/// A set of variables gives a configuration exactly when it is complete, and
/// the configuration then meets the rules that tie its fields together.
pub proof fn lemma_accepted_iff_complete(vars: Map<Seq<char>, Seq<char>>)
    ensures
        validated(vars) is Ok <==> complete(vars),
        validated(vars) is Ok ==> validated(vars)->Ok_0.well_formed(),
        validated(vars) is Ok ==> validated(vars)->Ok_0.encryption_type == selected_mode(
            vars,
        )->Ok_0,
{
    lemma_names_differ();
    if validated(vars) is Ok {
        let mode = selected_mode(vars)->Ok_0;
        assert forall|name: Seq<char>| #[trigger] mode_requires(mode, name) implies vars.contains_key(
            name,
        ) by {}
    }
    if complete(vars) {
        let mode = selected_mode(vars)->Ok_0;
        assert(mode_requires(mode, NOSTR_PUBLIC_KEY@) ==> vars.contains_key(NOSTR_PUBLIC_KEY@));
        assert(mode_requires(mode, NOSTR_GROUP_EVENT_ID@) ==> vars.contains_key(
            NOSTR_GROUP_EVENT_ID@,
        ));
        assert(mode_requires(mode, NOSTR_GROUP_RELAY@) ==> vars.contains_key(NOSTR_GROUP_RELAY@));
    }
}

/// Taking one required variable out of a complete set gives the error that
/// reports that variable, whatever the mode.
pub proof fn lemma_omitted_variable_reported(vars: Map<Seq<char>, Seq<char>>, name: Seq<char>)
    requires
        complete(vars),
        required(selected_mode(vars)->Ok_0, name),
    ensures
        validated(vars.remove(name)) == Err::<ConfigView, ConfigErrorView>(omission_error(name)),
{
    lemma_names_differ();
    let mode = selected_mode(vars)->Ok_0;
    let less = vars.remove(name);
    assert(name != ENCRYPTION_TYPE@);
    assert(selected_mode(less) == selected_mode(vars));
    assert(mode_requires(mode, NOSTR_PUBLIC_KEY@) ==> vars.contains_key(NOSTR_PUBLIC_KEY@));
    assert(mode_requires(mode, NOSTR_GROUP_EVENT_ID@) ==> vars.contains_key(NOSTR_GROUP_EVENT_ID@));
    assert(mode_requires(mode, NOSTR_GROUP_RELAY@) ==> vars.contains_key(NOSTR_GROUP_RELAY@));
    if name == TELEGRAM_BOT_TOKEN@ {
    } else if name == TELEGRAM_GROUP_ID@ {
    } else if name == NOSTR_PRIVATE_KEY@ {
    } else if name == NOSTR_RELAYS@ {
    } else {
        assert(basic_failure(less) is None);
    }
}

/// In the group mode a set of variables that passes every other check is
/// rejected where the group's event id is not set, and where the group's relay
/// is not set.
pub proof fn lemma_group_mode_needs_both(vars: Map<Seq<char>, Seq<char>>)
    requires
        basic_failure(vars) is None,
        selected_mode(vars) == Ok::<EncryptionType, ConfigErrorView>(EncryptionType::Group),
        usable_relays(list_entries(vars[NOSTR_RELAYS@])),
    ensures
        !vars.contains_key(NOSTR_GROUP_EVENT_ID@) ==> validated(vars) == Err::<
            ConfigView,
            ConfigErrorView,
        >(no_group_event_error()),
        vars.contains_key(NOSTR_GROUP_EVENT_ID@) && !vars.contains_key(NOSTR_GROUP_RELAY@)
            ==> validated(vars) == Err::<ConfigView, ConfigErrorView>(no_group_relay_error()),
        validated(vars) is Ok <==> vars.contains_key(NOSTR_GROUP_EVENT_ID@) && vars.contains_key(
            NOSTR_GROUP_RELAY@,
        ),
{
}

} // verus!

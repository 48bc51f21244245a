//! The session engine's decisions: the connection state machine, and the
//! framing of outbound envelopes `{"type": ..., "event_id": ..., ...fields}`
//! as wire text. Opening the transport and writing to it happen outside.

use vstd::prelude::*;

verus! {

#[verifier::external_type_specification]
#[verifier::external_body]
pub struct ExParseError(url::ParseError);

#[verifier::external_type_specification]
#[verifier::external_body]
#[verifier::reject_recursive_types(K)]
#[verifier::reject_recursive_types(V)]
pub struct ExMap<K, V>(serde_json::Map<K, V>);

/// Address of the realtime endpoint used when none is given.
pub const DEFAULT_URL: &'static str = "wss://api.openai.com/v1/realtime";

/// Model requested when the caller names none.
pub const DEFAULT_MODEL: &'static str = "gpt-4o-realtime-preview-2024-10-01";

/// The address `base` with the query pair `key=value` appended, or `None`
/// where `base` is no absolute URL.
pub uninterp spec fn with_query_pair(base: Seq<char>, key: Seq<char>, value: Seq<char>) -> Option<Seq<char>>;

/// Lengths for which the address stays below `u32::MAX` bytes: a character
/// takes at most 4 bytes, and percent-encoding (of the base's path or of the
/// form-encoded pair) writes at most 3 bytes per byte.
pub open spec fn address_fits(base: Seq<char>, key: Seq<char>, value: Seq<char>) -> bool {
    12 * (base.len() + key.len() + value.len()) + 16 <= u32::MAX
}

/// Relies on url's `Url::parse` and `form_urlencoded::Serializer::append_pair`
/// (through `Url::query_pairs_mut`): the address with the pair appended to
/// its query, depending on the three texts alone. Dropping the query
/// serializer panics only past `u32::MAX` bytes, which `requires` rules out.
#[verifier::external_body]
fn address_with_pair(base: &str, key: &str, value: &str) -> (r: Result<String, url::ParseError>)
    requires
        address_fits(base@, key@, value@),
    ensures
        match r {
            Ok(a) => with_query_pair(base@, key@, value@) == Some(a@),
            Err(_) => with_query_pair(base@, key@, value@) is None,
        },
{
    let mut url = url::Url::parse(base)?;
    url.query_pairs_mut().append_pair(key, value);
    Ok(String::from(url))
}

pub open spec fn is_hex_or_hyphen(c: char) -> bool {
    ('0' <= c && c <= '9') || ('a' <= c && c <= 'f') || c == '-'
}

/// Relies on uuid's `Uuid::new_v4` and its `Display`: a random identifier
/// written as 36 lower-case hex digits and hyphens.
#[verifier::external_body]
fn fresh_event_id() -> (r: String)
    ensures
        r@.len() == 36,
        forall|i: int| 0 <= i < r@.len() ==> is_hex_or_hyphen(#[trigger] r@[i]),
{
    uuid::Uuid::new_v4().to_string()
}

pub open spec fn hex_digit(d: nat) -> char {
    if d < 10 {
        ('0' as nat + d) as char
    } else {
        ('a' as nat + (d - 10)) as char
    }
}

/// How serde_json writes one character inside a string literal: quote and
/// backslash are escaped, backspace, tab, line feed, form feed and carriage
/// return get their short escapes, other control characters below 0x20 get
/// `\u00XX` with lower-case hex digits, and every other character stands
/// for itself.
pub open spec fn escaped_char(c: char) -> Seq<char> {
    let n = c as u32;
    if c == '"' {
        seq!['\\', '"']
    } else if c == '\\' {
        seq!['\\', '\\']
    } else if n == 8 {
        seq!['\\', 'b']
    } else if n == 9 {
        seq!['\\', 't']
    } else if n == 10 {
        seq!['\\', 'n']
    } else if n == 12 {
        seq!['\\', 'f']
    } else if n == 13 {
        seq!['\\', 'r']
    } else if n < 32 {
        seq!['\\', 'u', '0', '0', hex_digit((n / 16) as nat), hex_digit((n % 16) as nat)]
    } else {
        seq![c]
    }
}

/// The escaped characters of `s`, in order.
pub open spec fn escaped(s: Seq<char>) -> Seq<char>
    decreases s.len(),
{
    if s.len() == 0 {
        Seq::empty()
    } else {
        escaped(s.drop_last()) + escaped_char(s.last())
    }
}

/// The JSON string literal that serde_json writes for `s`.
pub open spec fn json_quoted(s: Seq<char>) -> Seq<char> {
    seq!['"'] + escaped(s) + seq!['"']
}

/// The compact JSON text that serde_json writes for an object.
pub uninterp spec fn object_json(m: serde_json::Map<String, serde_json::Value>) -> Seq<char>;

/// Relies on serde_json's `to_string` for a `str` (`format_escaped_str` and
/// its `ESCAPE` table): the string between quotes, escaped character by
/// character. Serializing a string cannot fail.
#[verifier::external_body]
fn json_string(s: &str) -> (r: String)
    ensures
        r@ == json_quoted(s@),
{
    serde_json::to_string(s).expect("a string always serializes")
}

/// Relies on serde_json's `to_string` for a `Map<String, Value>`: compact
/// object text, written between `{` and `}` by its formatter. Serializing a
/// map with string keys cannot fail.
#[verifier::external_body]
fn json_object(m: &serde_json::Map<String, serde_json::Value>) -> (r: String)
    ensures
        r@ == object_json(*m),
        r@.len() >= 2,
        r@[0] == '{',
        r@[r@.len() - 1] == '}',
{
    serde_json::to_string(m).expect("a map with string keys always serializes")
}

/// Where the connection stands.
#[derive(Debug, Clone, Copy, PartialEq, Eq, Structural)]
pub enum ConnectionState {
    Disconnected,
    Connecting,
    Connected,
}

/// Why a session operation was refused.
#[derive(Debug, Clone, Copy, PartialEq, Eq, Structural)]
pub enum SessionError {
    /// `connect` while a connection is open or being opened.
    AlreadyConnected,
    /// `send` or `disconnect` while not connected.
    NotConnected,
    /// The endpoint address is no absolute URL, or would be too long.
    InvalidAddress,
}

/// What stands between the braces of object text.
pub open spec fn object_members(text: Seq<char>) -> Seq<char> {
    text.subrange(1, text.len() - 1)
}

/// The members an envelope carries for optional object data.
pub open spec fn data_members(data: Option<serde_json::Map<String, serde_json::Value>>) -> Seq<char> {
    match data {
        Some(m) => object_members(object_json(m)),
        None => Seq::empty(),
    }
}

/// Wire text of an envelope: type and id first, then the members of the data.
pub open spec fn envelope_text(event_type: Seq<char>, event_id: Seq<char>, members: Seq<char>) -> Seq<char> {
    "{\"type\":"@ + json_quoted(event_type) + ",\"event_id\":"@ + json_quoted(event_id) + (if members.len() == 0 {
        Seq::empty()
    } else {
        ","@ + members
    }) + "}"@
}

/// Writes the wire text of an envelope.
pub fn frame_envelope(event_type: &str, event_id: &str, members: &str) -> (r: String)
    ensures
        r@ == envelope_text(event_type@, event_id@, members@),
{
    let mut text = String::new();
    text.append("{\"type\":");
    text.append(json_string(event_type).as_str());
    text.append(",\"event_id\":");
    text.append(json_string(event_id).as_str());
    if members.unicode_len() != 0 {
        text.append(",");
        text.append(members);
    }
    text.append("}");
    assert(text@ =~= envelope_text(event_type@, event_id@, members@));
    text
}

/// The members of an object's JSON text.
fn members_of(m: &serde_json::Map<String, serde_json::Value>) -> (r: String)
    ensures
        r@ == object_members(object_json(*m)),
{
    let text = json_object(m);
    let n = text.as_str().unicode_len();
    text.as_str().substring_char(1, n - 1).to_owned()
}

/// An outbound envelope ready for the send lane.
pub struct Envelope {
    pub event_type: String,
    pub event_id: String,
    /// The wire text.
    pub text: String,
}

/// What holds of every envelope framed for `event_type` with data members
/// `members`, whatever identifier was drawn for it.
pub open spec fn frames(env: Envelope, event_type: Seq<char>, members: Seq<char>) -> bool {
    &&& env.event_type@ == event_type
    &&& env.event_id@.len() == 36
    &&& forall|i: int| 0 <= i < env.event_id@.len() ==> is_hex_or_hyphen(#[trigger] env.event_id@[i])
    &&& env.text@ == envelope_text(event_type, env.event_id@, members)
}

/// The members an `input_audio_buffer.append` envelope carries.
pub open spec fn audio_members(audio: Seq<char>) -> Seq<char> {
    "\"audio\":"@ + json_quoted(audio)
}

/// The members a `session.update` envelope carries.
pub open spec fn session_members(config: serde_json::Map<String, serde_json::Value>) -> Seq<char> {
    "\"session\":"@ + object_json(config)
}

/// The logical session: the endpoint and where the connection stands.
pub struct Session {
    url: String,
    state: ConnectionState,
}

impl Session {
    pub closed spec fn url_spec(&self) -> Seq<char> {
        self.url@
    }

    pub closed spec fn state_spec(&self) -> ConnectionState {
        self.state
    }

    /// A disconnected session for `url`, or for the default endpoint.
    pub fn new(url: Option<&str>) -> (r: Session)
        ensures
            r.state_spec() == ConnectionState::Disconnected,
            r.url_spec() == match url {
                Some(u) => u@,
                None => DEFAULT_URL@,
            },
    {
        let url = match url {
            Some(u) => u.to_owned(),
            None => DEFAULT_URL.to_owned(),
        };
        Session { url, state: ConnectionState::Disconnected }
    }

    pub fn state(&self) -> (r: ConnectionState)
        ensures
            r == self.state_spec(),
    {
        self.state
    }

    pub fn url(&self) -> (r: &str)
        ensures
            r@ == self.url_spec(),
    {
        self.url.as_str()
    }

    /// Starts connecting: returns the address to open, with the model
    /// selector `model=<model>` appended when a model is given. Refused while
    /// a connection is open or being opened.
    pub fn connect(&mut self, model: Option<&str>) -> (r: Result<String, SessionError>)
        ensures
            final(self).url_spec() == old(self).url_spec(),
            old(self).state_spec() != ConnectionState::Disconnected ==> r == Err::<String, SessionError>(
                SessionError::AlreadyConnected,
            ) && final(self).state_spec() == old(self).state_spec(),
            old(self).state_spec() == ConnectionState::Disconnected ==> match model {
                None => r is Ok && r->Ok_0@ == old(self).url_spec() && final(self).state_spec()
                    == ConnectionState::Connecting,
                Some(m) => if !address_fits(old(self).url_spec(), "model"@, m@) {
                    r == Err::<String, SessionError>(SessionError::InvalidAddress) && final(self).state_spec()
                        == ConnectionState::Disconnected
                } else {
                    match with_query_pair(old(self).url_spec(), "model"@, m@) {
                        Some(a) => r is Ok && r->Ok_0@ == a && final(self).state_spec()
                            == ConnectionState::Connecting,
                        None => r == Err::<String, SessionError>(SessionError::InvalidAddress)
                            && final(self).state_spec() == ConnectionState::Disconnected,
                    }
                },
            },
    {
        if self.state != ConnectionState::Disconnected {
            return Err(SessionError::AlreadyConnected);
        }
        let address = match model {
            None => self.url.clone(),
            Some(m) => {
                let base_len = self.url.as_str().unicode_len() as u128;
                let model_len = m.unicode_len() as u128;
                proof {
                    reveal_strlit("model");
                }
                if 12 * (base_len + 5 + model_len) + 16 > u32::MAX as u128 {
                    return Err(SessionError::InvalidAddress);
                }
                match address_with_pair(self.url.as_str(), "model", m) {
                    Ok(a) => a,
                    Err(_) => return Err(SessionError::InvalidAddress),
                }
            },
        };
        self.state = ConnectionState::Connecting;
        Ok(address)
    }

    /// The initial `session.update` went out on a freshly opened transport:
    /// a connecting session becomes connected. Returns whether it was
    /// connecting.
    pub fn initial_update_sent(&mut self) -> (r: bool)
        ensures
            final(self).url_spec() == old(self).url_spec(),
            r == (old(self).state_spec() == ConnectionState::Connecting),
            r ==> final(self).state_spec() == ConnectionState::Connected,
            !r ==> final(self).state_spec() == old(self).state_spec(),
    {
        if self.state == ConnectionState::Connecting {
            self.state = ConnectionState::Connected;
            true
        } else {
            false
        }
    }

    /// The transport could not be opened, the initial update could not be
    /// sent, or the connection ended: the session is disconnected.
    pub fn connection_lost(&mut self)
        ensures
            final(self).url_spec() == old(self).url_spec(),
            final(self).state_spec() == ConnectionState::Disconnected,
    {
        self.state = ConnectionState::Disconnected;
    }

    /// Ends a connected session. Refused when not connected.
    pub fn disconnect(&mut self) -> (r: Result<(), SessionError>)
        ensures
            final(self).url_spec() == old(self).url_spec(),
            old(self).state_spec() == ConnectionState::Connected ==> r is Ok && final(self).state_spec()
                == ConnectionState::Disconnected,
            old(self).state_spec() != ConnectionState::Connected ==> r == Err::<(), SessionError>(
                SessionError::NotConnected,
            ) && final(self).state_spec() == old(self).state_spec(),
    {
        if self.state == ConnectionState::Connected {
            self.state = ConnectionState::Disconnected;
            Ok(())
        } else {
            Err(SessionError::NotConnected)
        }
    }

    /// Frames an envelope of `event_type` with the given members under a
    /// fresh identifier.
    fn envelope(event_type: &str, members: &str) -> (r: Envelope)
        ensures
            frames(r, event_type@, members@),
    {
        let event_id = fresh_event_id();
        let text = frame_envelope(event_type, event_id.as_str(), members);
        Envelope { event_type: event_type.to_owned(), event_id, text }
    }

    /// Frames an envelope of `event_type` whose further fields are those of
    /// `data`. Refused only when not connected.
    pub fn send(&self, event_type: &str, data: Option<&serde_json::Map<String, serde_json::Value>>) -> (r: Result<
        Envelope,
        SessionError,
    >)
        ensures
            self.state_spec() != ConnectionState::Connected ==> r == Err::<Envelope, SessionError>(
                SessionError::NotConnected,
            ),
            self.state_spec() == ConnectionState::Connected ==> r is Ok && frames(
                r->Ok_0,
                event_type@,
                data_members(
                    match data {
                        Some(m) => Some(*m),
                        None => None,
                    },
                ),
            ),
    {
        if self.state != ConnectionState::Connected {
            return Err(SessionError::NotConnected);
        }
        match data {
            None => {
                proof {
                    reveal_strlit("");
                }
                Ok(Session::envelope(event_type, ""))
            },
            Some(m) => {
                let members = members_of(m);
                Ok(Session::envelope(event_type, members.as_str()))
            },
        }
    }

    /// Frames `response.create`: asks the server to respond.
    pub fn create_response(&self) -> (r: Result<Envelope, SessionError>)
        ensures
            self.state_spec() != ConnectionState::Connected ==> r == Err::<Envelope, SessionError>(
                SessionError::NotConnected,
            ),
            self.state_spec() == ConnectionState::Connected ==> r is Ok && frames(
                r->Ok_0,
                "response.create"@,
                Seq::empty(),
            ),
    {
        if self.state != ConnectionState::Connected {
            return Err(SessionError::NotConnected);
        }
        proof {
            reveal_strlit("");
        }
        Ok(Session::envelope("response.create", ""))
    }

    /// Frames `input_audio_buffer.commit`.
    pub fn input_audio_buffer_commit(&self) -> (r: Result<Envelope, SessionError>)
        ensures
            self.state_spec() != ConnectionState::Connected ==> r == Err::<Envelope, SessionError>(
                SessionError::NotConnected,
            ),
            self.state_spec() == ConnectionState::Connected ==> r is Ok && frames(
                r->Ok_0,
                "input_audio_buffer.commit"@,
                Seq::empty(),
            ),
    {
        if self.state != ConnectionState::Connected {
            return Err(SessionError::NotConnected);
        }
        proof {
            reveal_strlit("");
        }
        Ok(Session::envelope("input_audio_buffer.commit", ""))
    }

    /// Frames `input_audio_buffer.append` carrying base64 audio text.
    pub fn input_audio_buffer_append(&self, base64_audio_data: &str) -> (r: Result<Envelope, SessionError>)
        ensures
            self.state_spec() != ConnectionState::Connected ==> r == Err::<Envelope, SessionError>(
                SessionError::NotConnected,
            ),
            self.state_spec() == ConnectionState::Connected ==> r is Ok && frames(
                r->Ok_0,
                "input_audio_buffer.append"@,
                audio_members(base64_audio_data@),
            ),
    {
        if self.state != ConnectionState::Connected {
            return Err(SessionError::NotConnected);
        }
        let mut members = String::new();
        members.append("\"audio\":");
        members.append(json_string(base64_audio_data).as_str());
        proof {
            assert(members@ =~= audio_members(base64_audio_data@));
            reveal_strlit("\"audio\":");
        }
        Ok(Session::envelope("input_audio_buffer.append", members.as_str()))
    }

    /// Frames `session.update` carrying the session configuration. Allowed
    /// while connecting, where it is the initial update, and once connected.
    pub fn update_session(&self, config: &serde_json::Map<String, serde_json::Value>) -> (r: Result<
        Envelope,
        SessionError,
    >)
        ensures
            self.state_spec() == ConnectionState::Disconnected ==> r == Err::<Envelope, SessionError>(
                SessionError::NotConnected,
            ),
            self.state_spec() != ConnectionState::Disconnected ==> r is Ok && frames(
                r->Ok_0,
                "session.update"@,
                session_members(*config),
            ),
    {
        if self.state == ConnectionState::Disconnected {
            return Err(SessionError::NotConnected);
        }
        let mut members = String::new();
        members.append("\"session\":");
        members.append(json_object(config).as_str());
        proof {
            assert(members@ =~= session_members(*config));
            reveal_strlit("\"session\":");
        }
        Ok(Session::envelope("session.update", members.as_str()))
    }
}

} // verus!

//! Inbound and outbound events: the records shown to display consumers, the
//! closed decoding of server messages into typed events, and how each typed
//! event reaches the conversation model and the playback loop.

use vstd::prelude::*;

use crate::conversation::{
    content_type_of, content_views, role_of, same_text, status_of, text_view, well_formed,
    insert_after, with_delta, with_final_transcript, with_status, ContentView, ConversationItem,
    ConversationItemContent, ConversationItemStatus, ConversationTracker, ItemError, ItemView,
    TrackerView,
};
use crate::pcm::{convert_audio_from_server, from_server_result, AudioError};
use crate::playback::PlaybackCommand;

verus! {

#[verifier::external_type_specification]
#[verifier::external_body]
pub struct ExValue(serde_json::Value);

/// Which side produced an event.
#[derive(Debug, Clone, Copy, PartialEq, Eq, Structural)]
pub enum Source {
    Server,
    Client,
}

/// An event as display consumers see it: its type, its origin and its
/// whole JSON payload.
pub struct Event {
    pub event_type: String,
    pub source: Source,
    pub data: serde_json::Value,
}

/// Type recorded for a server message that carries no `type` string.
pub open spec fn unknown_type() -> Seq<char> {
    "unknown"@
}

impl Event {
    /// A server event; a message without a type string is recorded as `unknown`.
    pub fn from_server(event_type: Option<String>, data: serde_json::Value) -> (r: Event)
        ensures
            r.source == Source::Server,
            r.data == data,
            r.event_type@ == match event_type {
                Some(t) => t@,
                None => unknown_type(),
            },
    {
        let event_type = match event_type {
            Some(t) => t,
            None => "unknown".to_owned(),
        };
        Event { event_type, source: Source::Server, data }
    }

    /// An event this client sent.
    pub fn from_client(event_type: &str, data: serde_json::Value) -> (r: Event)
        ensures
            r.source == Source::Client,
            r.data == data,
            r.event_type@ == event_type@,
    {
        Event { event_type: event_type.to_owned(), source: Source::Client, data }
    }
}

/// The server message types this client acts on.
#[derive(Debug, Clone, Copy, PartialEq, Eq, Structural)]
pub enum EventKind {
    ItemCreated,
    TranscriptDelta,
    TranscriptDone,
    SpeechStarted,
    AudioDelta,
    Error,
    Other,
}

pub open spec fn kind_of(t: Seq<char>) -> EventKind {
    if t == "conversation.item.created"@ {
        EventKind::ItemCreated
    } else if t == "response.audio_transcript.delta"@ {
        EventKind::TranscriptDelta
    } else if t == "response.audio_transcript.done"@ || t
        == "conversation.item.input_audio_transcription.completed"@ {
        EventKind::TranscriptDone
    } else if t == "input_audio_buffer.speech_started"@ {
        EventKind::SpeechStarted
    } else if t == "response.audio.delta"@ {
        EventKind::AudioDelta
    } else if t == "error"@ {
        EventKind::Error
    } else {
        EventKind::Other
    }
}

/// Sorts a server message type into the kinds this client acts on.
pub fn classify(event_type: &str) -> (r: EventKind)
    ensures
        r == kind_of(event_type@),
{
    if same_text(event_type, "conversation.item.created") {
        EventKind::ItemCreated
    } else if same_text(event_type, "response.audio_transcript.delta") {
        EventKind::TranscriptDelta
    } else if same_text(event_type, "response.audio_transcript.done") || same_text(
        event_type,
        "conversation.item.input_audio_transcription.completed",
    ) {
        EventKind::TranscriptDone
    } else if same_text(event_type, "input_audio_buffer.speech_started") {
        EventKind::SpeechStarted
    } else if same_text(event_type, "response.audio.delta") {
        EventKind::AudioDelta
    } else if same_text(event_type, "error") {
        EventKind::Error
    } else {
        EventKind::Other
    }
}

/// A content part as it arrives, fields not yet checked.
pub struct RawContent {
    pub content_type: String,
    pub text: Option<String>,
    pub audio: Option<String>,
    pub transcript: Option<String>,
}

/// An item as it arrives, fields not yet checked.
pub struct RawItem {
    pub id: String,
    pub role: String,
    pub status: String,
    pub content: Vec<RawContent>,
}

/// The fields of a server message that this client reads; absent ones are `None`.
pub struct RawEvent {
    pub event_type: String,
    pub item: Option<RawItem>,
    /// For a created item: the id of the item it follows, if the server names one.
    pub previous_item_id: Option<String>,
    pub item_id: Option<String>,
    pub content_index: Option<u64>,
    pub delta: Option<String>,
    pub transcript: Option<String>,
}

/// Why a server message could not be decoded. The message is dropped; the
/// stream goes on.
#[derive(Debug, Clone, Copy, PartialEq, Eq, Structural)]
pub enum ProtocolError {
    /// A field the message type needs is absent.
    MissingField,
    /// The item carried by the message is malformed.
    BadItem(ItemError),
    /// A content index does not fit in memory indices.
    IndexTooLarge,
}

/// A decoded server message.
pub enum ServerEvent {
    ItemCreated { item: ConversationItem, previous_item_id: Option<String> },
    TranscriptDelta { item_id: String, content_index: usize, delta: String },
    TranscriptDone { item_id: String, content_index: usize, transcript: String },
    SpeechStarted,
    AudioDelta { audio: String },
    Error,
    Ignored,
}

/// Mathematical view of a decoded server message.
pub ghost enum EventView {
    ItemCreated(ItemView, Option<Seq<char>>),
    TranscriptDelta(Seq<char>, nat, Seq<char>),
    TranscriptDone(Seq<char>, nat, Seq<char>),
    SpeechStarted,
    AudioDelta(Seq<char>),
    Error,
    Ignored,
}

impl View for ServerEvent {
    type V = EventView;

    open spec fn view(&self) -> EventView {
        match self {
            ServerEvent::ItemCreated { item, previous_item_id } => EventView::ItemCreated(
                item@,
                text_view(*previous_item_id),
            ),
            ServerEvent::TranscriptDelta { item_id, content_index, delta } => EventView::TranscriptDelta(
                item_id@,
                *content_index as nat,
                delta@,
            ),
            ServerEvent::TranscriptDone { item_id, content_index, transcript } => EventView::TranscriptDone(
                item_id@,
                *content_index as nat,
                transcript@,
            ),
            ServerEvent::SpeechStarted => EventView::SpeechStarted,
            ServerEvent::AudioDelta { audio } => EventView::AudioDelta(audio@),
            ServerEvent::Error => EventView::Error,
            ServerEvent::Ignored => EventView::Ignored,
        }
    }
}

pub open spec fn raw_content_view(c: RawContent) -> ContentView {
    ContentView {
        kind: content_type_of(c.content_type@)->Some_0,
        text: text_view(c.text),
        audio: text_view(c.audio),
        transcript: text_view(c.transcript),
    }
}

pub open spec fn all_types_known(c: Seq<RawContent>) -> bool {
    forall|i: int| 0 <= i < c.len() ==> (#[trigger] content_type_of(c[i].content_type@)) is Some
}

pub open spec fn raw_contents_view(c: Seq<RawContent>) -> Seq<ContentView> {
    c.map_values(|p: RawContent| raw_content_view(p))
}

pub open spec fn decode_item(it: RawItem) -> Result<ItemView, ItemError> {
    if !all_types_known(it.content@) {
        Err(ItemError::UnknownContentType)
    } else {
        match (role_of(it.role@), status_of(it.status@)) {
            (None, _) => Err(ItemError::UnknownRole),
            (Some(_), None) => Err(ItemError::UnknownStatus),
            (Some(role), Some(status)) => Ok(
                ItemView { id: it.id@, role, status, content: raw_contents_view(it.content@) },
            ),
        }
    }
}

/// The typed event a server message decodes to, or why it is dropped.
pub open spec fn decode_spec(raw: RawEvent) -> Result<EventView, ProtocolError> {
    match kind_of(raw.event_type@) {
        EventKind::ItemCreated => match raw.item {
            None => Err(ProtocolError::MissingField),
            Some(it) => match decode_item(it) {
                Ok(v) => Ok(EventView::ItemCreated(v, text_view(raw.previous_item_id))),
                Err(e) => Err(ProtocolError::BadItem(e)),
            },
        },
        EventKind::TranscriptDelta => match (raw.item_id, raw.content_index, raw.delta) {
            (Some(id), Some(ix), Some(d)) => if ix > usize::MAX {
                Err(ProtocolError::IndexTooLarge)
            } else {
                Ok(EventView::TranscriptDelta(id@, ix as nat, d@))
            },
            _ => Err(ProtocolError::MissingField),
        },
        EventKind::TranscriptDone => match (raw.item_id, raw.content_index, raw.transcript) {
            (Some(id), Some(ix), Some(t)) => if ix > usize::MAX {
                Err(ProtocolError::IndexTooLarge)
            } else {
                Ok(EventView::TranscriptDone(id@, ix as nat, t@))
            },
            _ => Err(ProtocolError::MissingField),
        },
        EventKind::SpeechStarted => Ok(EventView::SpeechStarted),
        EventKind::AudioDelta => match raw.delta {
            Some(d) => Ok(EventView::AudioDelta(d@)),
            None => Err(ProtocolError::MissingField),
        },
        EventKind::Error => Ok(EventView::Error),
        EventKind::Other => Ok(EventView::Ignored),
    }
}

fn copy_text(s: &Option<String>) -> (r: Option<String>)
    ensures
        text_view(r) == text_view(*s),
{
    match s {
        Some(t) => Some(t.clone()),
        None => None,
    }
}

/// Builds the content parts of an item; the first part of unknown type
/// rejects the whole item.
fn decode_contents(parts: &Vec<RawContent>) -> (r: Result<Vec<ConversationItemContent>, ItemError>)
    ensures
        all_types_known(parts@) ==> r is Ok && content_views(r->Ok_0@) == raw_contents_view(parts@),
        !all_types_known(parts@) ==> r == Err::<Vec<ConversationItemContent>, ItemError>(
            ItemError::UnknownContentType,
        ),
{
    let mut out: Vec<ConversationItemContent> = Vec::new();
    let mut i: usize = 0;
    while i < parts.len()
        invariant
            i <= parts@.len(),
            out@.len() == i,
            forall|j: int| 0 <= j < i ==> (#[trigger] content_type_of(parts@[j].content_type@)) is Some,
            forall|j: int| 0 <= j < i ==> (#[trigger] out@[j])@ == raw_content_view(parts@[j]),
        decreases parts@.len() - i,
    {
        let p = &parts[i];
        match ConversationItemContent::new(p.content_type.clone(), copy_text(&p.text), copy_text(&p.audio), copy_text(&p.transcript)) {
            Ok(c) => out.push(c),
            Err(e) => {
                proof {
                    assert(!all_types_known(parts@));
                }
                return Err(e);
            },
        }
        i = i + 1;
    }
    proof {
        assert(content_views(out@) =~= raw_contents_view(parts@));
    }
    Ok(out)
}

/// Decodes the fields of a server message into a typed event. Unknown types
/// decode to `Ignored`; a missing or malformed field drops the message.
pub fn decode_event(raw: &RawEvent) -> (r: Result<ServerEvent, ProtocolError>)
    ensures
        match decode_spec(*raw) {
            Ok(v) => r is Ok && r->Ok_0@ == v,
            Err(e) => r == Err::<ServerEvent, ProtocolError>(e),
        },
{
    match classify(raw.event_type.as_str()) {
        EventKind::ItemCreated => match &raw.item {
            None => Err(ProtocolError::MissingField),
            Some(it) => {
                let content = match decode_contents(&it.content) {
                    Ok(c) => c,
                    Err(e) => return Err(ProtocolError::BadItem(e)),
                };
                match ConversationItem::new(it.id.clone(), it.role.clone(), it.status.clone(), content) {
                    Ok(item) => Ok(
                        ServerEvent::ItemCreated { item, previous_item_id: copy_text(&raw.previous_item_id) },
                    ),
                    Err(e) => Err(ProtocolError::BadItem(e)),
                }
            },
        },
        EventKind::TranscriptDelta => match (&raw.item_id, raw.content_index, &raw.delta) {
            (Some(id), Some(ix), Some(d)) => {
                if ix > usize::MAX as u64 {
                    Err(ProtocolError::IndexTooLarge)
                } else {
                    Ok(ServerEvent::TranscriptDelta { item_id: id.clone(), content_index: ix as usize, delta: d.clone() })
                }
            },
            _ => Err(ProtocolError::MissingField),
        },
        EventKind::TranscriptDone => match (&raw.item_id, raw.content_index, &raw.transcript) {
            (Some(id), Some(ix), Some(t)) => {
                if ix > usize::MAX as u64 {
                    Err(ProtocolError::IndexTooLarge)
                } else {
                    Ok(
                        ServerEvent::TranscriptDone {
                            item_id: id.clone(),
                            content_index: ix as usize,
                            transcript: t.clone(),
                        },
                    )
                }
            },
            _ => Err(ProtocolError::MissingField),
        },
        EventKind::SpeechStarted => Ok(ServerEvent::SpeechStarted),
        EventKind::AudioDelta => match &raw.delta {
            Some(d) => Ok(ServerEvent::AudioDelta { audio: d.clone() }),
            None => Err(ProtocolError::MissingField),
        },
        EventKind::Error => Ok(ServerEvent::Error),
        EventKind::Other => Ok(ServerEvent::Ignored),
    }
}

/// What one decoded event does to the conversation model.
pub open spec fn fold_event(v: TrackerView, e: EventView) -> TrackerView {
    match e {
        EventView::ItemCreated(it, previous) => TrackerView {
            order: insert_after(v.order, it.id, previous),
            items: v.items.insert(it.id, it),
        },
        EventView::TranscriptDelta(id, ix, d) => TrackerView {
            order: v.order,
            items: if v.items.contains_key(id) {
                v.items.insert(id, with_delta(v.items[id], ix, d))
            } else {
                v.items
            },
        },
        EventView::TranscriptDone(id, ix, t) => TrackerView {
            order: v.order,
            items: if v.items.contains_key(id) {
                v.items.insert(
                    id,
                    with_final_transcript(with_status(v.items[id], ConversationItemStatus::Completed), ix, t),
                )
            } else {
                v.items
            },
        },
        _ => v,
    }
}

impl ConversationTracker {
    /// Folds one decoded server event into the model. Events that carry no
    /// conversation content leave it unchanged.
    pub fn apply(&mut self, event: ServerEvent)
        ensures
            final(self)@ == fold_event(old(self)@, event@),
            well_formed(old(self)@) ==> well_formed(final(self)@),
    {
        let ghost e = event@;
        match event {
            ServerEvent::ItemCreated { item, previous_item_id } => {
                match previous_item_id {
                    Some(p) => self.add_item_after(item, Some(p.as_str())),
                    None => self.add_item_after(item, None),
                }
            },
            ServerEvent::TranscriptDelta { item_id, content_index, delta } => {
                self.update_item_content_transcript(item_id.as_str(), content_index, delta.as_str());
            },
            ServerEvent::TranscriptDone { item_id, content_index, transcript } => {
                self.update_item_status(item_id.as_str(), ConversationItemStatus::Completed);
                self.item_content_transcript_done(item_id.as_str(), content_index, transcript.as_str());
                proof {
                    assert(self@.items =~= fold_event(old(self)@, e).items);
                }
            },
            _ => {},
        }
    }
}

/// The playback command an event calls for: `Stop` when the user starts
/// speaking, `Play` with the converted samples of an audio delta, nothing
/// otherwise. Audio that cannot be decoded or converted is reported.
pub fn playback_command(event: &ServerEvent, output_sample_rate: u32, output_channels: u16) -> (r: Result<
    Option<PlaybackCommand>,
    AudioError,
>)
    ensures
        match event@ {
            EventView::SpeechStarted => r matches Ok(Some(PlaybackCommand::Stop)),
            EventView::AudioDelta(audio) => match from_server_result(audio, output_sample_rate, output_channels) {
                Ok(s) => r matches Ok(Some(PlaybackCommand::Play(v))) && v@ == s,
                Err(e) => r matches Err(x) && x == e,
            },
            _ => r matches Ok(None),
        },
{
    match event {
        ServerEvent::SpeechStarted => Ok(Some(PlaybackCommand::Stop)),
        ServerEvent::AudioDelta { audio } => match convert_audio_from_server(
            audio.as_str(),
            output_sample_rate,
            output_channels,
        ) {
            Ok(samples) => Ok(Some(PlaybackCommand::Play(samples))),
            Err(e) => Err(e),
        },
        _ => Ok(None),
    }
}

} // verus!

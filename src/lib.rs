//! Verified core of a real-time voice conversation client: sample-rate and
//! channel conversion, PCM16 framing, ring-buffered playback, the session
//! state machine and the conversation model folded from server events.

pub mod resample;
pub mod pcm;
pub mod ring_buffer;
pub mod playback;
pub mod conversation;
pub mod events;
pub mod session;
pub mod capture;
pub mod display;

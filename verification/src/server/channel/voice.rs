//! Provides a voice channel used for voice discussion between users.
//! The voice transport itself is an unimplemented placeholder: a voice
//! channel today is only an identifier and a label.

use vstd::prelude::*;

use crate::channel::ChannelId;
use crate::server::channel::ChannelType;

verus! {

/// An event emitted by a voice channel. No events exist yet.
pub enum VoiceChannelEvent {
    /// Placeholder until the voice transport exists; never constructed.
    Unused,
}

/// A voice channel: an identifier and a user-facing label.
pub struct VoiceChannel {
    /// Uniquely identifies the channel.
    id: ChannelId,
    /// User-facing label for the channel.
    label: String,
}

impl VoiceChannel {
    /// The channel's identifier.
    pub closed spec fn spec_id(self) -> u64 {
        self.id.0
    }

    /// The channel's user-facing label.
    pub closed spec fn spec_label(self) -> Seq<char> {
        self.label@
    }

    /// Constructs a voice channel.
    pub fn new(id: ChannelId, label: String) -> (c: Self)
        ensures
            c.spec_id() == id.0,
            c.spec_label() == label@,
    {
        VoiceChannel { id, label }
    }

    /// Returns the identifier of the channel.
    pub fn channel_id(&self) -> (r: ChannelId)
        ensures
            r.0 == self.spec_id(),
    {
        self.id
    }

    /// Returns the type of the channel.
    pub fn channel_type(&self) -> (t: ChannelType)
        ensures
            t is Voice,
    {
        ChannelType::Voice
    }

    /// Returns the user-facing label for the channel.
    pub fn get_label(&self) -> (l: &str)
        ensures
            l@ == self.spec_label(),
    {
        self.label.as_str()
    }
}

} // verus!

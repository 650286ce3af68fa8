//! The envelope that carries every message, and the description of a mode.

use crate::text_map::TextMap;
use vstd::prelude::*;

verus! {

/// The envelope of a message.
#[derive(Clone, Debug, PartialEq, Eq)]
pub struct Envelope {
    pub macp_version: String,
    pub mode: String,
    pub message_type: String,
    pub message_id: String,
    pub session_id: String,
    pub sender: String,
    /// What the sender's clock showed. It is not to be relied on.
    pub timestamp_unix_ms: i64,
    pub payload: Vec<u8>,
}

impl Default for Envelope {
    fn default() -> (r: Self)
        ensures
            r.macp_version@ == Seq::<char>::empty(),
            r.mode@ == Seq::<char>::empty(),
            r.message_type@ == Seq::<char>::empty(),
            r.message_id@ == Seq::<char>::empty(),
            r.session_id@ == Seq::<char>::empty(),
            r.sender@ == Seq::<char>::empty(),
            r.timestamp_unix_ms == 0,
            r.payload@ == Seq::<u8>::empty(),
    {
        Envelope {
            macp_version: String::new(),
            mode: String::new(),
            message_type: String::new(),
            message_id: String::new(),
            session_id: String::new(),
            sender: String::new(),
            timestamp_unix_ms: 0,
            payload: Vec::new(),
        }
    }
}

/// What a mode is and which messages it takes.
#[derive(Clone, Debug)]
pub struct ModeDescriptor {
    pub mode: String,
    pub mode_version: String,
    pub title: String,
    pub description: String,
    pub determinism_class: String,
    pub participant_model: String,
    pub message_types: Vec<String>,
    pub terminal_message_types: Vec<String>,
    pub schema_uris: TextMap<String>,
}

/// What a [`ModeDescriptor`] holds.
pub struct ModeDescriptorView {
    pub mode: Seq<char>,
    pub mode_version: Seq<char>,
    pub title: Seq<char>,
    pub description: Seq<char>,
    pub determinism_class: Seq<char>,
    pub participant_model: Seq<char>,
    pub message_types: Seq<Seq<char>>,
    pub terminal_message_types: Seq<Seq<char>>,
    pub schema_uris: Map<Seq<char>, Seq<char>>,
}

impl DeepView for ModeDescriptor {
    type V = ModeDescriptorView;

    open spec fn deep_view(&self) -> ModeDescriptorView {
        ModeDescriptorView {
            mode: self.mode@,
            mode_version: self.mode_version@,
            title: self.title@,
            description: self.description@,
            determinism_class: self.determinism_class@,
            participant_model: self.participant_model@,
            message_types: self.message_types.deep_view(),
            terminal_message_types: self.terminal_message_types.deep_view(),
            schema_uris: self.schema_uris@,
        }
    }
}

} // verus!

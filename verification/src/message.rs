//! What the bridge hands to the bus.

use vstd::prelude::*;

verus! {

/// How hard the bus is to try to deliver a message.
#[derive(Clone, Copy, Debug, PartialEq, Eq, Structural)]
pub enum Quality {
    /// Delivered at most once. Enough for readings, which are repeated with
    /// every report.
    BestEffort,
    /// Delivered at least once. Used for announcements, which are sent once.
    Durable,
}

impl Quality {
    /// The quality-of-service level of the bus that stands for this quality.
    pub open spec fn qos(self) -> int {
        match self {
            Quality::BestEffort => 0,
            Quality::Durable => 1,
        }
    }

    /// The quality-of-service level to publish with.
    pub fn level(self) -> (level: i32)
        ensures
            level == self.qos(),
    {
        match self {
            Quality::BestEffort => 0,
            Quality::Durable => 1,
        }
    }
}

/// A message for the bus.
pub struct Message {
    pub topic: String,
    pub payload: String,
    pub quality: Quality,
}

/// Mathematical value of a [`Message`].
pub struct MessageView {
    pub topic: Seq<char>,
    pub payload: Seq<char>,
    pub quality: Quality,
}

impl View for Message {
    type V = MessageView;

    open spec fn view(&self) -> MessageView {
        MessageView { topic: self.topic@, payload: self.payload@, quality: self.quality }
    }
}

} // verus!

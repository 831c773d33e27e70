//! Events: the trait a declared event record implements, and emission.
//!
//! An event carries exactly one topic — the event type's derived selector
//! in the first four bytes of a 32-byte slot, zero elsewhere — and its
//! encoded fields as payload.  Writing the log entry is the host's
//! responsibility; emission here produces the record handed to it.

use crate::generate::spec_event_topic;
use vstd::prelude::*;

verus! {

/// What emission hands to the host: the topics and the payload.
pub struct EmittedEvent {
    pub topics: Vec<[u8; 32]>,
    pub data: Vec<u8>,
}

/// A contract event: a named record with an encodable payload.
pub trait Event {
    /// The event type's name, which its topic derives from.
    spec fn spec_name(&self) -> Seq<u8>;

    /// The encoded payload.
    spec fn spec_payload(&self) -> Seq<u8>;

    /// The event's topics: exactly one, the type's derived topic.
    fn topics(&self) -> (t: Vec<[u8; 32]>)
        ensures
            t@.len() == 1,
            t@[0]@ == spec_event_topic(self.spec_name()),
    ;

    /// The encoded payload.
    fn encode_data(&self) -> (d: Vec<u8>)
        ensures
            d@ == self.spec_payload(),
    ;
}

/// Emit an event: derive its topics and payload, ready for the host's
/// log-deposit primitive.
pub fn emit<E: Event>(event: &E) -> (r: EmittedEvent)
    ensures
        r.topics@.len() == 1,
        r.topics@[0]@ == spec_event_topic(event.spec_name()),
        r.data@ == event.spec_payload(),
{
    EmittedEvent { topics: event.topics(), data: event.encode_data() }
}

} // verus!

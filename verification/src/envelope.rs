//! Envelope and metadata types that wrap events for the journal.

use vstd::prelude::*;

use crate::event::TransactionTypeEvent;
use crate::state::AccountState;

verus! {

/// An opaque token that uniquely identifies one command instance from its
/// source (for example a CSV line, a queue offset, a request id). The
/// journal treats keys as exact equality tokens; its view is the key text.
#[derive(Debug)]
pub struct DeduplicationKey(String);

impl View for DeduplicationKey {
    type V = Seq<char>;

    closed spec fn view(&self) -> Seq<char> {
        self.0@
    }
}

impl DeduplicationKey {
    /// Wrap an identifier as a deduplication key.
    pub fn new(identifier: String) -> (r: Self)
        ensures
            r@ == identifier@,
    {
        Self(identifier)
    }

    /// The key text.
    pub fn as_str(&self) -> (r: &str)
        ensures
            r@ == self@,
    {
        self.0.as_str()
    }
}

impl Clone for DeduplicationKey {
    fn clone(&self) -> (r: Self)
        ensures
            r@ == self@,
    {
        Self(self.0.clone())
    }
}

impl PartialEq for DeduplicationKey {
    fn eq(&self, other: &Self) -> (r: bool) {
        self.0 == other.0
    }
}

impl vstd::std_specs::cmp::PartialEqSpecImpl for DeduplicationKey {
    open spec fn obeys_eq_spec() -> bool {
        true
    }

    open spec fn eq_spec(&self, other: &Self) -> bool {
        self@ == other@
    }
}

/// Metadata identifying a command instance for deduplication.
#[derive(Debug)]
pub struct CommandMetadata {
    /// Opaque identifier that uniquely identifies this command instance.
    pub deduplication_key: DeduplicationKey,
}

impl Clone for CommandMetadata {
    fn clone(&self) -> (r: Self)
        ensures
            r.deduplication_key@ == self.deduplication_key@,
    {
        Self { deduplication_key: self.deduplication_key.clone() }
    }
}

/// Metadata the journal needs to construct an event envelope.
#[derive(Debug)]
pub struct EventMetadata {
    pub client_id: u16,
    pub tx_id: u32,
    pub deduplication_key: DeduplicationKey,
    /// Timestamp in milliseconds.
    pub timestamp: i64,
}

/// An event together with its ordering metadata, as persisted in the
/// journal.
#[derive(Debug)]
pub struct EventEnvelope {
    /// Global sequence number, assigned by the journal at append.
    pub sequence_nr: u64,
    /// The domain event.
    pub event: TransactionTypeEvent,
    /// When the event was processed, in milliseconds.
    pub timestamp: i64,
    /// Client the event belongs to.
    pub client_id: u16,
    /// Transaction id from the domain.
    pub tx_id: u32,
    /// Deduplication key from the command source.
    pub deduplication_key: DeduplicationKey,
}

impl EventEnvelope {
    /// Apply the wrapped event to `state`, stamping `now` as the last
    /// activity; `None` when the event's rules reject the transition.
    pub fn apply(&self, state: &AccountState, now: i64) -> (r: Option<AccountState>)
        ensures
            r == if self.event.can_apply(*state) {
                Some(self.event.applied(*state, now))
            } else {
                None::<AccountState>
            },
    {
        self.event.apply(state, now)
    }
}

impl Clone for EventEnvelope {
    fn clone(&self) -> (r: Self)
        ensures
            r.sequence_nr == self.sequence_nr,
            r.event == self.event,
            r.timestamp == self.timestamp,
            r.client_id == self.client_id,
            r.tx_id == self.tx_id,
            r.deduplication_key@ == self.deduplication_key@,
    {
        Self {
            sequence_nr: self.sequence_nr,
            event: self.event,
            timestamp: self.timestamp,
            client_id: self.client_id,
            tx_id: self.tx_id,
            deduplication_key: self.deduplication_key.clone(),
        }
    }
}

/// Whether two envelopes agree on every field, comparing deduplication
/// keys by their text. This is the equality the journal's contracts use.
pub open spec fn env_matches(a: EventEnvelope, b: EventEnvelope) -> bool {
    &&& a.sequence_nr == b.sequence_nr
    &&& a.event == b.event
    &&& a.timestamp == b.timestamp
    &&& a.client_id == b.client_id
    &&& a.tx_id == b.tx_id
    &&& a.deduplication_key@ == b.deduplication_key@
}

/// What a validated command directs the engine to do: the events to
/// persist. (Each command of this engine emits exactly one event; the list
/// form mirrors the journal's append interface.)
#[derive(Debug)]
pub struct Directive {
    /// Events to persist to the journal, without sequence numbers yet.
    pub events: Vec<TransactionTypeEvent>,
}

} // verus!

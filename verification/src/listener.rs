//! The broker listener: it takes the claims of one dapp from the stream, one
//! at a time and in order, and keeps the cursor.
//!
//! Reading the stream and running the claimer are done by the caller. The
//! listener is handed what they returned and says what follows: `received`
//! for what the stream gave, `Delivery::processed` for what the claimer gave.
//!
//! `listen` says where a listener stands after a stretch of the stream, and
//! the proof functions state what holds of every such stretch.

use vstd::prelude::*;
use crate::claim::{initial_cursor, initial_id, DAppMetadata, Event, RollupsClaim};

verus! {

/// The stream could not be reached or read. `cause` is what the transport
/// reported; it is carried along and never interpreted.
#[derive(Clone, Debug, PartialEq, Eq)]
pub struct BrokerError {
    pub cause: String,
}

/// Why the listener stopped.
#[derive(Debug)]
pub enum BrokerListenerError<E> {
    /// Reading the stream failed.
    BrokerError { source: BrokerError },
    /// The claimer failed on a claim.
    ClaimerError { source: E },
}

impl<E> BrokerListenerError<E> {
    /// The text that names the kind of the error.
    pub open spec fn message(self) -> Seq<char> {
        match self {
            BrokerListenerError::BrokerError { .. } => "broker error"@,
            BrokerListenerError::ClaimerError { .. } => "claimer error"@,
        }
    }

    pub fn to_string(&self) -> (text: String)
        ensures
            text@ == self.message(),
    {
        match self {
            BrokerListenerError::BrokerError { .. } => "broker error".to_string(),
            BrokerListenerError::ClaimerError { .. } => "claimer error".to_string(),
        }
    }
}

/// The listener between two events: the stream it reads and the id of the
/// last event whose claim was processed.
#[derive(Debug)]
pub struct DefaultBrokerListener {
    stream: DAppMetadata,
    last_claim_id: String,
}

/// The listener while the claim of one event is with the claimer.
#[derive(Debug)]
pub struct Delivery {
    listener: DefaultBrokerListener,
    event: Event,
}

impl DefaultBrokerListener {
    /// The dapp whose stream is read.
    pub closed spec fn stream(self) -> DAppMetadata {
        self.stream
    }

    /// The id of the last event whose claim was processed, or `initial_id()`
    /// before the first.
    pub closed spec fn cursor(self) -> Seq<char> {
        self.last_claim_id@
    }

    /// A listener at the beginning of the stream of `dapp_metadata`.
    pub fn new(dapp_metadata: DAppMetadata) -> (listener: Self)
        ensures
            listener.stream() == dapp_metadata,
            listener.cursor() == initial_id(),
    {
        Self { stream: dapp_metadata, last_claim_id: initial_cursor() }
    }

    /// The dapp whose stream is to be read.
    pub fn dapp_metadata(&self) -> (dapp_metadata: DAppMetadata)
        ensures
            dapp_metadata == self.stream(),
    {
        self.stream
    }

    /// The id after which the next event is to be read.
    pub fn last_claim_id(&self) -> (id: &String)
        ensures
            id@ == self.cursor(),
    {
        &self.last_claim_id
    }

    /// Takes what the stream returned for the read after `last_claim_id`.
    /// An event is held for the claimer, the cursor unchanged; a failure stops
    /// the listener with a broker error that holds the cause.
    pub fn received<E>(self, polled: Result<Event, BrokerError>) -> (result: Result<
        Delivery,
        BrokerListenerError<E>,
    >)
        ensures
            match polled {
                Ok(event) => result matches Ok(delivery) && delivery.listener() == self
                    && delivery.event() == event,
                Err(cause) => result == Err::<Delivery, BrokerListenerError<E>>(
                    BrokerListenerError::BrokerError { source: cause },
                ),
            },
    {
        match polled {
            Ok(event) => Ok(Delivery { listener: self, event }),
            Err(source) => Err(BrokerListenerError::BrokerError { source }),
        }
    }
}

impl Delivery {
    /// The listener as it was when the event arrived.
    pub closed spec fn listener(self) -> DefaultBrokerListener {
        self.listener
    }

    /// The event whose claim is being processed.
    pub closed spec fn event(self) -> Event {
        self.event
    }

    /// The claim to hand to the claimer.
    pub fn rollups_claim(&self) -> (rollups_claim: RollupsClaim)
        ensures
            rollups_claim == self.event().payload,
    {
        self.event.payload
    }

    /// Takes what the claimer returned for the claim of this event. On
    /// success the cursor moves to the event's id and the claimer's new state
    /// is passed on; on failure the listener stops with a claimer error that
    /// holds the cause, and the cursor is gone with it.
    pub fn processed<C, E>(self, outcome: Result<C, E>) -> (result: Result<
        (DefaultBrokerListener, C),
        BrokerListenerError<E>,
    >)
        ensures
            match outcome {
                Ok(claimer) => result matches Ok((listener, passed)) && passed == claimer
                    && listener.stream() == self.listener().stream() && listener.cursor()
                    == self.event().id@,
                Err(cause) => result == Err::<(DefaultBrokerListener, C), BrokerListenerError<E>>(
                    BrokerListenerError::ClaimerError { source: cause },
                ),
            },
    {
        match outcome {
            Ok(claimer) => Ok(
                (
                    DefaultBrokerListener {
                        stream: self.listener.stream,
                        last_claim_id: self.event.id,
                    },
                    claimer,
                ),
            ),
            Err(source) => Err(BrokerListenerError::ClaimerError { source }),
        }
    }
}

/// Where a listener stands after a stretch of the stream.
pub struct Progress {
    /// The cursor.
    pub cursor: Seq<char>,
    /// How many events had their claim processed.
    pub processed: nat,
    /// The listener has stopped on a failure of the claimer.
    pub failed: bool,
}

/// Where a listener stands that started at `cursor` and was delivered
/// `events` in order, where `settled[i]` tells whether the claimer returned a
/// new state for the claim of `events[i]`. Each step is that of `received`
/// and `Delivery::processed`: a processed event moves the cursor to its id,
/// and a failure stops the listener for good.
pub open spec fn listen(cursor: Seq<char>, events: Seq<Event>, settled: Seq<bool>) -> Progress
    recommends
        events.len() == settled.len(),
    decreases events.len(),
{
    if events.len() == 0 {
        Progress { cursor, processed: 0, failed: false }
    } else {
        let before = listen(cursor, events.drop_last(), settled.drop_last());
        if before.failed {
            before
        } else if settled.last() {
            Progress { cursor: events.last().id@, processed: before.processed + 1, failed: false }
        } else {
            Progress { cursor: before.cursor, processed: before.processed, failed: true }
        }
    }
}

/// While the claimer succeeds, every event is processed and the cursor is
/// the id of the last one.
pub proof fn lemma_listen_without_failure(
    cursor: Seq<char>,
    events: Seq<Event>,
    settled: Seq<bool>,
)
    requires
        events.len() == settled.len(),
        forall|i: int| 0 <= i < settled.len() ==> settled[i],
    ensures
        !listen(cursor, events, settled).failed,
        listen(cursor, events, settled).processed == events.len(),
        listen(cursor, events, settled).cursor == if events.len() == 0 {
            cursor
        } else {
            events.last().id@
        },
    decreases events.len(),
{
    if events.len() > 0 {
        lemma_listen_without_failure(cursor, events.drop_last(), settled.drop_last());
        assert(settled.last());
    }
}

/// After the claim of event `i` is processed, the cursor is the id of that
/// event: the listener that was delivered the first `i + 1` events, none of
/// which failed, stands there with `i + 1` events processed.
pub proof fn lemma_cursor_follows_the_stream(
    cursor: Seq<char>,
    events: Seq<Event>,
    settled: Seq<bool>,
    i: int,
)
    requires
        events.len() == settled.len(),
        0 <= i < events.len(),
        forall|j: int| 0 <= j <= i ==> settled[j],
    ensures
        listen(cursor, events.take(i + 1), settled.take(i + 1)).cursor == events[i].id@,
        listen(cursor, events.take(i + 1), settled.take(i + 1)).processed == i + 1,
        !listen(cursor, events.take(i + 1), settled.take(i + 1)).failed,
{
    lemma_listen_without_failure(cursor, events.take(i + 1), settled.take(i + 1));
}

/// A listener that has failed takes nothing more from the stream: more
/// events leave it where it stopped.
pub proof fn lemma_failed_listener_is_final(
    cursor: Seq<char>,
    events: Seq<Event>,
    settled: Seq<bool>,
    n: int,
)
    requires
        events.len() == settled.len(),
        0 <= n <= events.len(),
        listen(cursor, events.take(n), settled.take(n)).failed,
    ensures
        listen(cursor, events, settled) == listen(cursor, events.take(n), settled.take(n)),
    decreases events.len(),
{
    if n == events.len() {
        assert(events.take(n) =~= events);
        assert(settled.take(n) =~= settled);
    } else {
        assert(events.drop_last().take(n) =~= events.take(n));
        assert(settled.drop_last().take(n) =~= settled.take(n));
        lemma_failed_listener_is_final(cursor, events.drop_last(), settled.drop_last(), n);
    }
}

/// Where the claimer fails on event `k`, the events after it are never
/// consumed: the listener stands where the first `k + 1` events left it,
/// with `k` events processed and the cursor at the event before `k`.
pub proof fn lemma_fails_fast(cursor: Seq<char>, events: Seq<Event>, settled: Seq<bool>, k: int)
    requires
        events.len() == settled.len(),
        0 <= k < events.len(),
        forall|j: int| 0 <= j < k ==> settled[j],
        !settled[k],
    ensures
        listen(cursor, events, settled) == listen(
            cursor,
            events.take(k + 1),
            settled.take(k + 1),
        ),
        listen(cursor, events, settled).failed,
        listen(cursor, events, settled).processed == k,
        listen(cursor, events, settled).cursor == if k == 0 {
            cursor
        } else {
            events[k - 1].id@
        },
{
    assert(events.take(k + 1).drop_last() =~= events.take(k));
    assert(settled.take(k + 1).drop_last() =~= settled.take(k));
    lemma_listen_without_failure(cursor, events.take(k), settled.take(k));
    assert(listen(cursor, events.take(k + 1), settled.take(k + 1)).failed);
    lemma_failed_listener_is_final(cursor, events, settled, k + 1);
}

} // verus!

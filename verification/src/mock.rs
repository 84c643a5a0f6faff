//! A scripted claimer and the checks that go with it, for exercising a
//! listener without a chain or a broker.

use vstd::prelude::*;
use vstd::pervasive::runtime_assert;
use crate::claim::{zero_hash, Event, RollupsClaim};
use crate::listener::{
    lemma_failed_listener_is_final, lemma_fails_fast, listen, BrokerListenerError,
    DefaultBrokerListener, Progress,
};

verus! {

/// The errors of the scripted claimer.
#[derive(Clone, Copy, Debug, PartialEq, Eq)]
pub enum ClaimerError {
    /// The script ran to its end as planned.
    EndError,
    /// The claimer was called with no script left.
    InternalError,
    /// The script ends in a failure.
    MockError,
}

impl ClaimerError {
    /// The name of the error.
    pub open spec fn message(self) -> Seq<char> {
        match self {
            ClaimerError::EndError => "EndError"@,
            ClaimerError::InternalError => "InternalError"@,
            ClaimerError::MockError => "MockError"@,
        }
    }

    pub fn to_string(&self) -> (text: String)
        ensures
            text@ == self.message(),
    {
        match self {
            ClaimerError::EndError => "EndError".to_string(),
            ClaimerError::InternalError => "InternalError".to_string(),
            ClaimerError::MockError => "MockError".to_string(),
        }
    }
}

/// The names of two errors are equal only where the errors are.
pub proof fn lemma_message_tells_errors_apart(a: ClaimerError, b: ClaimerError)
    ensures
        a.message() == b.message() <==> a == b,
{
    reveal_strlit("EndError");
    reveal_strlit("InternalError");
    reveal_strlit("MockError");
    assert("EndError"@.len() == 8);
    assert("InternalError"@.len() == 13);
    assert("MockError"@.len() == 9);
}

/// The answers of a claimer that accepts `n` claims and then fails with
/// `last`. They are taken from the end.
pub open spec fn script(last: ClaimerError, n: nat) -> Seq<Result<(), ClaimerError>> {
    Seq::new(n + 1, |i: int| if i == 0 { Err(last) } else { Ok(()) })
}

/// A claimer that answers from a script and sends nothing.
#[derive(Debug)]
pub struct Claimer {
    results: Vec<Result<(), ClaimerError>>,
}

impl Claimer {
    /// The answers that are left, the next one last.
    pub closed spec fn results(self) -> Seq<Result<(), ClaimerError>> {
        self.results@
    }

    /// What the claimer answers to its `i`-th call from now, the next call
    /// being the one with `i == 0`.
    pub open spec fn answer(self, i: int) -> Result<(), ClaimerError> {
        if 0 <= i < self.results().len() {
            self.results()[self.results().len() - 1 - i]
        } else {
            Err(ClaimerError::InternalError)
        }
    }

    /// For each of the next `n` calls, whether the claimer answers `Ok`.
    pub open spec fn settles(self, n: nat) -> Seq<bool> {
        Seq::new(n, |i: int| self.answer(i) is Ok)
    }

    fn scripted(last: ClaimerError, n: usize) -> (claimer: Self)
        ensures
            claimer.results() == script(last, n as nat),
    {
        let mut results: Vec<Result<(), ClaimerError>> = Vec::new();
        results.push(Err(last));
        let mut i: usize = 0;
        while i < n
            invariant
                i <= n,
                results@ == script(last, i as nat),
            decreases n - i,
        {
            results.push(Ok(()));
            i += 1;
            assert(results@ =~= script(last, i as nat));
        }
        Self { results }
    }

    /// A claimer that processes `n` claims before it returns
    /// `ClaimerError::EndError`.
    pub fn new(n: usize) -> (claimer: Self)
        ensures
            claimer.results() == script(ClaimerError::EndError, n as nat),
    {
        Self::scripted(ClaimerError::EndError, n)
    }

    /// A claimer that processes `n` claims before it returns
    /// `ClaimerError::MockError`.
    pub fn new_with_error(n: usize) -> (claimer: Self)
        ensures
            claimer.results() == script(ClaimerError::MockError, n as nat),
    {
        Self::scripted(ClaimerError::MockError, n)
    }

    /// Takes the next answer off the script, whatever the claim. An `Ok`
    /// gives the claimer back with the rest of the script; an error is
    /// returned as it is; an empty script gives `InternalError`.
    pub fn send_rollups_claim(self, rollups_claim: RollupsClaim) -> (result: Result<
        Self,
        ClaimerError,
    >)
        ensures
            self.results().len() == 0 ==> result == Err::<Self, ClaimerError>(
                ClaimerError::InternalError,
            ),
            self.results().len() > 0 ==> match self.results().last() {
                Ok(()) => result matches Ok(rest) && rest.results() == self.results().drop_last(),
                Err(error) => result == Err::<Self, ClaimerError>(error),
            },
    {
        let mut claimer = self;
        match claimer.results.pop() {
            None => Err(ClaimerError::InternalError),
            Some(Ok(())) => Ok(claimer),
            Some(Err(error)) => Err(error),
        }
    }
}

/// Runs a listener with a scripted claimer over `events`, the events that
/// the stream holds after the listener's cursor, in order.
///
/// It returns `Ok` with the listener and the claimer as they stand when the
/// events are used up, where a listener on a live stream would wait; and the
/// claimer's error, as a claimer error of the listener, as soon as the
/// claimer fails. Where the listener stands is given by `listen`.
pub fn start(listener: DefaultBrokerListener, claimer: Claimer, events: &Vec<Event>) -> (result:
    Result<(DefaultBrokerListener, Claimer), BrokerListenerError<ClaimerError>>)
    ensures
        ({
            let progress = listen(listener.cursor(), events@, claimer.settles(events@.len()));
            match result {
                Ok((after, rest)) => {
                    &&& !progress.failed
                    &&& after.stream() == listener.stream()
                    &&& after.cursor() == progress.cursor
                    &&& events@.len() <= claimer.results().len()
                    &&& rest.results() == claimer.results().take(
                        claimer.results().len() - events@.len(),
                    )
                },
                Err(error) => {
                    &&& progress.failed
                    &&& claimer.answer(progress.processed as int) matches Err(cause)
                    &&& error == BrokerListenerError::ClaimerError { source: cause }
                },
            }
        }),
{
    let ghost cursor = listener.cursor();
    let ghost script = claimer.results();
    let ghost settled = claimer.settles(events@.len());
    let mut standing = listener;
    let mut answering = claimer;
    let mut i: usize = 0;
    while i < events.len()
        invariant
            i <= events@.len(),
            i <= script.len(),
            cursor == listener.cursor(),
            script == claimer.results(),
            settled == claimer.settles(events@.len()),
            standing.stream() == listener.stream(),
            answering.results() == script.take(script.len() - i),
            listen(cursor, events@.take(i as int), settled.take(i as int)) == (Progress {
                cursor: standing.cursor(),
                processed: i as nat,
                failed: false,
            }),
        decreases events@.len() - i,
    {
        let event = Event { id: events[i].id.clone(), payload: events[i].payload };
        assert(event == events@[i as int]);
        proof {
            assert(events@.take(i + 1).drop_last() =~= events@.take(i as int));
            assert(settled.take(i + 1).drop_last() =~= settled.take(i as int));
            assert(events@.take(i + 1).last() == events@[i as int]);
            assert(settled.take(i + 1).last() == (claimer.answer(i as int) is Ok));
        }
        let delivery = match standing.received::<ClaimerError>(Ok(event)) {
            Ok(delivery) => delivery,
            Err(error) => {
                return Err(error);
            },
        };
        let outcome = answering.send_rollups_claim(delivery.rollups_claim());
        proof {
            if i < script.len() {
                assert(script.take(script.len() - i).last() == claimer.answer(i as int));
                assert(script.take(script.len() - i).drop_last() =~= script.take(
                    script.len() - (i + 1),
                ));
            }
        }
        match delivery.processed(outcome) {
            Ok((next_listener, next_claimer)) => {
                standing = next_listener;
                answering = next_claimer;
            },
            Err(error) => {
                proof {
                    lemma_failed_listener_is_final(cursor, events@, settled, i + 1);
                }
                return Err(error);
            },
        }
        i += 1;
    }
    proof {
        assert(events@.take(i as int) =~= events@);
        assert(settled.take(i as int) =~= settled);
    }
    Ok((standing, answering))
}

/// A listener whose claimer is scripted for `n` claims processes the first
/// `n` events of a longer stream and stops on the next with the script's
/// last answer.
pub proof fn lemma_script_stops_the_listener(
    cursor: Seq<char>,
    events: Seq<Event>,
    claimer: Claimer,
    last: ClaimerError,
    n: nat,
)
    requires
        claimer.results() == script(last, n),
        events.len() > n,
    ensures
        listen(cursor, events, claimer.settles(events.len())).failed,
        listen(cursor, events, claimer.settles(events.len())).processed == n,
        listen(cursor, events, claimer.settles(events.len())).cursor == if n == 0 {
            cursor
        } else {
            events[n - 1].id@
        },
        claimer.answer(n as int) == Err::<(), ClaimerError>(last),
{
    lemma_fails_fast(cursor, events, claimer.settles(events.len()), n as int);
}

/// The listener stopped because the claimer reached the end of its script.
pub open spec fn listener_ended(result: Result<(), BrokerListenerError<ClaimerError>>) -> bool {
    result matches Err(BrokerListenerError::ClaimerError { source }) && source.message()
        == ClaimerError::EndError.message()
}

/// The listener stopped because the claimer's script ended in a failure.
pub open spec fn listener_failed(result: Result<(), BrokerListenerError<ClaimerError>>) -> bool {
    result matches Err(BrokerListenerError::ClaimerError { source }) && source.message()
        == ClaimerError::MockError.message()
}

/// Checks that a listener ended with the claimer's `EndError`. Called on
/// anything else from unverified code, it panics.
pub fn assert_broker_listener_ended(result: Result<(), BrokerListenerError<ClaimerError>>)
    requires
        listener_ended(result),
{
    match result {
        Err(BrokerListenerError::ClaimerError { source }) => {
            let found = source.to_string();
            let expected = ClaimerError::EndError.to_string();
            runtime_assert(found == expected);
        },
        _ => runtime_assert(false),
    }
}

/// Checks that a listener ended with the claimer's `MockError`. Called on
/// anything else from unverified code, it panics.
pub fn assert_broker_listener_failed(result: Result<(), BrokerListenerError<ClaimerError>>)
    requires
        listener_failed(result),
{
    match result {
        Err(BrokerListenerError::ClaimerError { source }) => {
            let found = source.to_string();
            let expected = ClaimerError::MockError.to_string();
            runtime_assert(found == expected);
        },
        _ => runtime_assert(false),
    }
}

/// The claims of `n` epochs in a row, the first of epoch
/// `epoch_index_start`, each with the zero hash.
pub fn produce_rollups_claims(n: usize, epoch_index_start: usize) -> (rollups_claims: Vec<
    RollupsClaim,
>)
    requires
        n + epoch_index_start <= usize::MAX + 1,
    ensures
        rollups_claims@.len() == n,
        forall|i: int|
            0 <= i < n ==> (#[trigger] rollups_claims@[i]).epoch_index == i + epoch_index_start
                && rollups_claims@[i].epoch_hash@ == zero_hash(),
{
    let mut rollups_claims: Vec<RollupsClaim> = Vec::new();
    let mut i: usize = 0;
    while i < n
        invariant
            i <= n,
            n + epoch_index_start <= usize::MAX + 1,
            rollups_claims@.len() == i,
            forall|j: int|
                0 <= j < i ==> (#[trigger] rollups_claims@[j]).epoch_index == j
                    + epoch_index_start && rollups_claims@[j].epoch_hash@ == zero_hash(),
        decreases n - i,
    {
        let mut rollups_claim = RollupsClaim::default();
        rollups_claim.epoch_index = (i + epoch_index_start) as u64;
        rollups_claims.push(rollups_claim);
        i += 1;
    }
    rollups_claims
}

/// The one claim that makes a scripted claimer return its last answer.
pub fn produce_last_claim(epoch_index: usize) -> (rollups_claims: Vec<RollupsClaim>)
    ensures
        rollups_claims@.len() == 1,
        rollups_claims@[0].epoch_index == epoch_index,
        rollups_claims@[0].epoch_hash@ == zero_hash(),
{
    produce_rollups_claims(1, epoch_index)
}

} // verus!

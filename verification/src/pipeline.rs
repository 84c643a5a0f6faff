//! The listener and the claimer together, over a whole stream.
//!
//! `run` says what a listener and a claimer do with a sequence of events,
//! given what the duplicate checker and the transaction sender answer for
//! each. The listener's part is `listen`; the claimer's part is what
//! `send_attempts` hands to the sender for each claim that reaches it. The
//! proof functions state what holds of every such run.

use vstd::prelude::*;
use crate::claim::{initial_id, Event, RollupsClaim};
use crate::claimer::send_attempts;
use crate::listener::{
    lemma_failed_listener_is_final, lemma_listen_without_failure, listen, Progress,
};

verus! {

/// What the collaborators answer for one claim.
pub enum Answer {
    /// The checker reports the claim as already on chain.
    Duplicate,
    /// The checker reports the claim as new, and the sender submits it.
    Sent,
    /// The checker fails.
    CheckFailed,
    /// The checker reports the claim as new, and the sender fails.
    SendFailed,
}

impl Answer {
    /// What the duplicate checker returned.
    pub open spec fn checked(self) -> Result<bool, ()> {
        match self {
            Answer::Duplicate => Ok(true),
            Answer::Sent => Ok(false),
            Answer::SendFailed => Ok(false),
            Answer::CheckFailed => Err(()),
        }
    }

    /// The claimer returns a new state: the claim was skipped as a duplicate
    /// or submitted.
    pub open spec fn succeeds(self) -> bool {
        self is Duplicate || self is Sent
    }
}

/// For each answer, whether the claimer returns a new state.
pub open spec fn settled(answers: Seq<Answer>) -> Seq<bool> {
    Seq::new(answers.len(), |i: int| answers[i].succeeds())
}

/// What a run has done.
pub struct Trace {
    /// Where the listener stands.
    pub progress: Progress,
    /// The claims handed to the transaction sender, in order.
    pub attempts: Seq<RollupsClaim>,
}

/// The run of a listener that starts at `cursor` and is delivered `events`
/// in order, with a claimer whose collaborators give `answers[i]` for
/// `events[i]`. The claim of an event reaches the claimer unless the
/// listener has stopped before.
pub open spec fn run(cursor: Seq<char>, events: Seq<Event>, answers: Seq<Answer>) -> Trace
    recommends
        events.len() == answers.len(),
    decreases events.len(),
{
    if events.len() == 0 {
        Trace { progress: listen(cursor, events, settled(answers)), attempts: Seq::empty() }
    } else {
        let before = run(cursor, events.drop_last(), answers.drop_last());
        Trace {
            progress: listen(cursor, events, settled(answers)),
            attempts: if before.progress.failed {
                before.attempts
            } else {
                before.attempts + send_attempts(events.last().payload, answers.last().checked())
            },
        }
    }
}

/// The claims of the events that are answered `Sent`, in order.
pub open spec fn sent_claims(events: Seq<Event>, answers: Seq<Answer>) -> Seq<RollupsClaim>
    recommends
        events.len() == answers.len(),
    decreases events.len(),
{
    if events.len() == 0 {
        Seq::empty()
    } else if answers.last() is Sent {
        sent_claims(events.drop_last(), answers.drop_last()).push(events.last().payload)
    } else {
        sent_claims(events.drop_last(), answers.drop_last())
    }
}

/// The answer of collaborators that go by the chain: a claim is a duplicate
/// where it is in `chain` or was delivered, and so submitted, before.
pub open spec fn honest_answer(chain: Set<RollupsClaim>, events: Seq<Event>, i: int) -> Answer {
    if chain.contains(events[i].payload) || exists|j: int|
        0 <= j < i && (#[trigger] events[j]).payload == events[i].payload {
        Answer::Duplicate
    } else {
        Answer::Sent
    }
}

/// The answers of collaborators that go by the chain, for a whole stream.
pub open spec fn honest_answers(chain: Set<RollupsClaim>, events: Seq<Event>) -> Seq<Answer> {
    Seq::new(events.len(), |i: int| honest_answer(chain, events, i))
}

/// While the claimer succeeds, every event is processed, the cursor is the
/// id of the last one, and the sender is handed exactly the claims reported
/// as new, each once and in the order of the stream.
pub proof fn lemma_run_without_failure(cursor: Seq<char>, events: Seq<Event>, answers: Seq<Answer>)
    requires
        events.len() == answers.len(),
        forall|i: int| 0 <= i < answers.len() ==> (#[trigger] answers[i]).succeeds(),
    ensures
        !run(cursor, events, answers).progress.failed,
        run(cursor, events, answers).progress.processed == events.len(),
        run(cursor, events, answers).progress.cursor == if events.len() == 0 {
            cursor
        } else {
            events.last().id@
        },
        run(cursor, events, answers).attempts == sent_claims(events, answers),
    decreases events.len(),
{
    lemma_listen_without_failure(cursor, events, settled(answers));
    if events.len() > 0 {
        lemma_run_without_failure(cursor, events.drop_last(), answers.drop_last());
        let before = run(cursor, events.drop_last(), answers.drop_last());
        assert(answers.last().succeeds());
        if answers.last() is Sent {
            assert(before.attempts + seq![events.last().payload] =~= before.attempts.push(
                events.last().payload,
            ));
        } else {
            assert(before.attempts + Seq::<RollupsClaim>::empty() =~= before.attempts);
        }
    }
}

/// A claim that the checker reports as duplicate is never handed to the
/// sender: where every claim of a stream is a duplicate, the whole run hands
/// it nothing.
pub proof fn lemma_duplicates_are_never_sent(
    cursor: Seq<char>,
    events: Seq<Event>,
    answers: Seq<Answer>,
)
    requires
        events.len() == answers.len(),
        forall|i: int| 0 <= i < answers.len() ==> (#[trigger] answers[i]) is Duplicate,
    ensures
        run(cursor, events, answers).attempts == Seq::<RollupsClaim>::empty(),
        !run(cursor, events, answers).progress.failed,
        run(cursor, events, answers).progress.processed == events.len(),
{
    lemma_run_without_failure(cursor, events, answers);
    lemma_sent_claims_without_sent(events, answers);
}

/// Where every claim of a stream is new and its submission succeeds, the
/// sender is handed each claim exactly once, in the order of the stream.
pub proof fn lemma_new_claims_are_sent_once(
    cursor: Seq<char>,
    events: Seq<Event>,
    answers: Seq<Answer>,
)
    requires
        events.len() == answers.len(),
        forall|i: int| 0 <= i < answers.len() ==> (#[trigger] answers[i]) is Sent,
    ensures
        run(cursor, events, answers).attempts == Seq::new(
            events.len(),
            |i: int| events[i].payload,
        ),
{
    lemma_run_without_failure(cursor, events, answers);
    lemma_sent_claims_all_sent(events, answers);
}

/// A run whose listener has stopped hands the sender nothing more: more
/// events leave the run as it is.
pub proof fn lemma_failed_run_is_final(
    cursor: Seq<char>,
    events: Seq<Event>,
    answers: Seq<Answer>,
    n: int,
)
    requires
        events.len() == answers.len(),
        0 <= n <= events.len(),
        run(cursor, events.take(n), answers.take(n)).progress.failed,
    ensures
        run(cursor, events, answers) == run(cursor, events.take(n), answers.take(n)),
    decreases events.len(),
{
    if n == events.len() {
        assert(events.take(n) =~= events);
        assert(answers.take(n) =~= answers);
    } else {
        assert(events.drop_last().take(n) =~= events.take(n));
        assert(answers.drop_last().take(n) =~= answers.take(n));
        lemma_failed_run_is_final(cursor, events.drop_last(), answers.drop_last(), n);
        assert(settled(answers).take(n) =~= settled(answers.take(n)));
        lemma_failed_listener_is_final(cursor, events, settled(answers), n);
    }
}

/// Where the claimer fails on event `k`, nothing of the events after it is
/// consumed or sent: the run is the run over the first `k + 1` events. The
/// sender was handed the new claims among the first `k` events and, where
/// the failure was the sender's own, the claim of event `k`.
pub proof fn lemma_nothing_follows_a_failure(
    cursor: Seq<char>,
    events: Seq<Event>,
    answers: Seq<Answer>,
    k: int,
)
    requires
        events.len() == answers.len(),
        0 <= k < events.len(),
        forall|j: int| 0 <= j < k ==> (#[trigger] answers[j]).succeeds(),
        !answers[k].succeeds(),
    ensures
        run(cursor, events, answers) == run(cursor, events.take(k + 1), answers.take(k + 1)),
        run(cursor, events, answers).progress.failed,
        run(cursor, events, answers).progress.processed == k,
        run(cursor, events, answers).progress.cursor == if k == 0 {
            cursor
        } else {
            events[k - 1].id@
        },
        run(cursor, events, answers).attempts == sent_claims(events.take(k), answers.take(k))
            + send_attempts(events[k].payload, answers[k].checked()),
{
    let head = events.take(k + 1);
    let head_answers = answers.take(k + 1);
    assert(head.drop_last() =~= events.take(k));
    assert(head_answers.drop_last() =~= answers.take(k));
    lemma_run_without_failure(cursor, events.take(k), answers.take(k));
    assert(settled(head_answers).drop_last() =~= settled(answers.take(k)));
    assert(!settled(head_answers).last());
    assert(run(cursor, head, head_answers).progress.failed);
    lemma_failed_run_is_final(cursor, events, answers, k + 1);
}

/// A replay of the whole stream from the beginning, after a restart, submits
/// nothing again.
///
/// The collaborators go by the chain. The first run leaves every claim of the
/// stream on chain, with no claim submitted twice and none that was there
/// before. The replay starts at the sentinel cursor against the chain as the
/// first run left it, and hands the sender nothing.
pub proof fn lemma_replay_sends_nothing(
    cursor: Seq<char>,
    chain: Set<RollupsClaim>,
    events: Seq<Event>,
)
    ensures
        ({
            let first = run(cursor, events, honest_answers(chain, events));
            let replay = run(
                initial_id(),
                events,
                honest_answers(chain.union(first.attempts.to_set()), events),
            );
            &&& !first.progress.failed
            &&& first.progress.processed == events.len()
            &&& first.attempts.no_duplicates()
            &&& forall|i: int|
                0 <= i < first.attempts.len() ==> !chain.contains(#[trigger] first.attempts[i])
            &&& forall|i: int|
                0 <= i < events.len() ==> chain.union(first.attempts.to_set()).contains(
                    (#[trigger] events[i]).payload,
                )
            &&& replay.attempts == Seq::<RollupsClaim>::empty()
            &&& !replay.progress.failed
            &&& replay.progress.processed == events.len()
        }),
{
    let answers = honest_answers(chain, events);
    lemma_run_without_failure(cursor, events, answers);
    let first = run(cursor, events, answers);
    lemma_honest_sent_claims(chain, events, events.len() as int);
    assert(events.take(events.len() as int) =~= events);
    assert(answers.take(events.len() as int) =~= answers);
    let after = chain.union(first.attempts.to_set());
    assert forall|i: int| 0 <= i < events.len() implies after.contains(
        (#[trigger] events[i]).payload,
    ) by {
        lemma_delivered_claim_is_on_chain(chain, events, i);
    }
    let again = honest_answers(after, events);
    assert forall|i: int| 0 <= i < again.len() implies (#[trigger] again[i]) is Duplicate by {
        assert(after.contains(events[i].payload));
    }
    lemma_duplicates_are_never_sent(initial_id(), events, again);
}

proof fn lemma_sent_claims_without_sent(events: Seq<Event>, answers: Seq<Answer>)
    requires
        events.len() == answers.len(),
        forall|i: int| 0 <= i < answers.len() ==> !((#[trigger] answers[i]) is Sent),
    ensures
        sent_claims(events, answers) == Seq::<RollupsClaim>::empty(),
    decreases events.len(),
{
    if events.len() > 0 {
        assert(!(answers.last() is Sent));
        lemma_sent_claims_without_sent(events.drop_last(), answers.drop_last());
    }
}

proof fn lemma_sent_claims_all_sent(events: Seq<Event>, answers: Seq<Answer>)
    requires
        events.len() == answers.len(),
        forall|i: int| 0 <= i < answers.len() ==> (#[trigger] answers[i]) is Sent,
    ensures
        sent_claims(events, answers) == Seq::new(events.len(), |i: int| events[i].payload),
    decreases events.len(),
{
    if events.len() > 0 {
        assert(answers.last() is Sent);
        lemma_sent_claims_all_sent(events.drop_last(), answers.drop_last());
        assert(sent_claims(events, answers) =~= Seq::new(
            events.len(),
            |i: int| events[i].payload,
        ));
    } else {
        assert(sent_claims(events, answers) =~= Seq::new(
            events.len(),
            |i: int| events[i].payload,
        ));
    }
}

/// What honest collaborators let through of the first `n` events: the first
/// delivery of each claim that is not on chain, and nothing else.
proof fn lemma_honest_sent_claims(chain: Set<RollupsClaim>, events: Seq<Event>, n: int)
    requires
        0 <= n <= events.len(),
    ensures
        ({
            let sent = sent_claims(events.take(n), honest_answers(chain, events).take(n));
            &&& sent.no_duplicates()
            &&& forall|i: int| 0 <= i < sent.len() ==> !chain.contains(#[trigger] sent[i])
            &&& forall|c: RollupsClaim| #[trigger]
                sent.contains(c) ==> exists|j: int|
                    0 <= j < n && (#[trigger] events[j]).payload == c
            &&& forall|j: int|
                0 <= j < n && honest_answer(chain, events, j) is Sent ==> sent.contains(
                    (#[trigger] events[j]).payload,
                )
        }),
    decreases n,
{
    let answers = honest_answers(chain, events);
    let sent = sent_claims(events.take(n), answers.take(n));
    if n > 0 {
        lemma_honest_sent_claims(chain, events, n - 1);
        let before = sent_claims(events.take(n - 1), answers.take(n - 1));
        assert(events.take(n).drop_last() =~= events.take(n - 1));
        assert(answers.take(n).drop_last() =~= answers.take(n - 1));
        let claim = events[n - 1].payload;
        assert(events.take(n).last() == events[n - 1]);
        assert(answers.take(n).last() == honest_answer(chain, events, n - 1));
        if honest_answer(chain, events, n - 1) is Sent {
            assert(sent == before.push(claim));
            assert(!before.contains(claim)) by {
                if before.contains(claim) {
                    let j = choose|j: int| 0 <= j < n - 1 && (#[trigger] events[j]).payload == claim;
                    assert(events[j].payload == events[n - 1].payload);
                }
            }
            assert forall|c: RollupsClaim| #[trigger] sent.contains(c) implies exists|j: int|
                0 <= j < n && (#[trigger] events[j]).payload == c by {
                let at = choose|at: int| 0 <= at < sent.len() && sent[at] == c;
                if at < before.len() {
                    assert(before[at] == c);
                    assert(before.contains(c));
                } else {
                    assert(events[n - 1].payload == c);
                }
            }
            assert forall|j: int|
                0 <= j < n && honest_answer(chain, events, j) is Sent implies sent.contains(
                (#[trigger] events[j]).payload,
            ) by {
                if j < n - 1 {
                    assert(before.contains(events[j].payload));
                    let at = choose|at: int|
                        0 <= at < before.len() && before[at] == events[j].payload;
                    assert(sent[at] == events[j].payload);
                } else {
                    assert(sent[sent.len() - 1] == claim);
                }
            }
        } else {
            assert(sent == before);
        }
    }
}

/// With honest collaborators every delivered claim is on chain after the run.
proof fn lemma_delivered_claim_is_on_chain(chain: Set<RollupsClaim>, events: Seq<Event>, i: int)
    requires
        0 <= i < events.len(),
    ensures
        chain.union(
            sent_claims(events, honest_answers(chain, events)).to_set(),
        ).contains(events[i].payload),
    decreases i,
{
    let sent = sent_claims(events, honest_answers(chain, events));
    lemma_honest_sent_claims(chain, events, events.len() as int);
    assert(events.take(events.len() as int) =~= events);
    assert(honest_answers(chain, events).take(events.len() as int) =~= honest_answers(
        chain,
        events,
    ));
    if honest_answer(chain, events, i) is Sent {
        assert(sent.contains(events[i].payload));
    } else if !chain.contains(events[i].payload) {
        let j = choose|j: int| 0 <= j < i && (#[trigger] events[j]).payload == events[i].payload;
        lemma_delivered_claim_is_on_chain(chain, events, j);
    }
}

} // verus!

//! Debouncing change notifications: a burst of rapid events from one save
//! becomes a single "go" signal once the channel has been quiet for a while.

use vstd::prelude::*;

use crate::waits::{wait_for, WaitLimit, Waited};

verus! {

/// What one wait on the notification channel gave.
#[derive(Clone, Copy, PartialEq, Eq, Structural, Debug)]
pub enum RecvOutcome {
    /// A notification arrived.
    Received,
    /// The wait's time limit passed with nothing arriving.
    TimedOut,
    /// Every sender is gone; nothing will ever arrive.
    Disconnected,
}

/// Where a debounce stands: still waiting for the first event of a burst,
/// or inside a burst, waiting for it to go quiet.
#[derive(Clone, Copy, PartialEq, Eq, Structural, Debug)]
pub enum DebounceState {
    AwaitingFirst,
    Settling,
}

/// What follows one wait: keep waiting in the given state, or stop with the
/// given answer (`true`: a burst went quiet; `false`: the channel closed).
#[derive(Clone, Copy, PartialEq, Eq, Structural, Debug)]
pub enum DebounceNext {
    Wait(DebounceState),
    Stop(bool),
}

/// One debounce decision.
pub open spec fn debounce_next_spec(state: DebounceState, outcome: RecvOutcome) -> DebounceNext {
    match outcome {
        RecvOutcome::Disconnected => DebounceNext::Stop(false),
        RecvOutcome::Received => DebounceNext::Wait(DebounceState::Settling),
        RecvOutcome::TimedOut => match state {
            DebounceState::AwaitingFirst => DebounceNext::Wait(DebounceState::AwaitingFirst),
            DebounceState::Settling => DebounceNext::Stop(true),
        },
    }
}

/// Decides what follows a wait: a closed channel stops with `false`; an
/// event starts or extends a burst; a quiet period ends a burst with `true`.
pub fn debounce_next(state: DebounceState, outcome: RecvOutcome) -> (next: DebounceNext)
    ensures
        next == debounce_next_spec(state, outcome),
{
    match outcome {
        RecvOutcome::Disconnected => DebounceNext::Stop(false),
        RecvOutcome::Received => DebounceNext::Wait(DebounceState::Settling),
        RecvOutcome::TimedOut => match state {
            DebounceState::AwaitingFirst => DebounceNext::Wait(DebounceState::AwaitingFirst),
            DebounceState::Settling => DebounceNext::Stop(true),
        },
    }
}

/// The answer a debounce gives for a sequence of wait outcomes, if the
/// sequence brings it to a stop.
pub open spec fn debounce_answer(state: DebounceState, outcomes: Seq<RecvOutcome>) -> Option<bool>
    decreases outcomes.len(),
{
    if outcomes.len() == 0 {
        None
    } else {
        match debounce_next_spec(state, outcomes[0]) {
            DebounceNext::Stop(b) => Some(b),
            DebounceNext::Wait(s) => debounce_answer(s, outcomes.drop_first()),
        }
    }
}

/// `n` events in a row.
pub open spec fn burst(n: nat) -> Seq<RecvOutcome> {
    Seq::new(n, |i: int| RecvOutcome::Received)
}

proof fn lemma_burst_then(state: DebounceState, n: nat, last: RecvOutcome)
    requires
        n >= 1,
    ensures
        debounce_answer(state, burst(n) + seq![last]) == debounce_answer(
            DebounceState::Settling,
            seq![last],
        ),
    decreases n,
{
    let s = burst(n) + seq![last];
    assert(s[0] == RecvOutcome::Received);
    if n > 1 {
        assert(s.drop_first() =~= burst((n - 1) as nat) + seq![last]);
        lemma_burst_then(DebounceState::Settling, (n - 1) as nat, last);
    } else {
        assert(s.drop_first() =~= seq![last]);
    }
}

/// A burst of any number of events followed by a quiet period yields one
/// `true`; a closed channel yields `false`, whether or not events came
/// first; and a closed channel with no events yields `false` at once.
pub proof fn law_burst_coalesces(n: nat)
    requires
        n >= 1,
    ensures
        debounce_answer(DebounceState::AwaitingFirst, burst(n) + seq![RecvOutcome::TimedOut])
            == Some(true),
        debounce_answer(DebounceState::AwaitingFirst, burst(n) + seq![RecvOutcome::Disconnected])
            == Some(false),
        debounce_answer(DebounceState::AwaitingFirst, seq![RecvOutcome::Disconnected]) == Some(
            false,
        ),
        forall|k: nat|
            k <= n ==> #[trigger] debounce_answer(DebounceState::AwaitingFirst, burst(k)) is None,
{
    lemma_burst_then(DebounceState::AwaitingFirst, n, RecvOutcome::TimedOut);
    lemma_burst_then(DebounceState::AwaitingFirst, n, RecvOutcome::Disconnected);
    assert(seq![RecvOutcome::TimedOut].drop_first() =~= Seq::<RecvOutcome>::empty());
    assert forall|k: nat| k <= n implies #[trigger] debounce_answer(
        DebounceState::AwaitingFirst,
        burst(k),
    ) is None by {
        lemma_burst_undecided(DebounceState::AwaitingFirst, k);
    }
}

proof fn lemma_burst_undecided(state: DebounceState, k: nat)
    ensures
        debounce_answer(state, burst(k)) is None,
    decreases k,
{
    if k > 0 {
        assert(burst(k).drop_first() =~= burst((k - 1) as nat));
        lemma_burst_undecided(DebounceState::Settling, (k - 1) as nat);
    }
}

/// The state a debounce reaches after a sequence of wait outcomes that has
/// not brought it to a stop.
pub open spec fn debounce_state(state: DebounceState, outcomes: Seq<RecvOutcome>) -> DebounceState
    decreases outcomes.len(),
{
    if outcomes.len() == 0 {
        state
    } else {
        match debounce_next_spec(state, outcomes[0]) {
            DebounceNext::Wait(s) => debounce_state(s, outcomes.drop_first()),
            DebounceNext::Stop(_) => state,
        }
    }
}

/// One more outcome after an undecided sequence is decided by
/// `debounce_next_spec` from the state that the sequence reached.
proof fn lemma_answer_push(state: DebounceState, outcomes: Seq<RecvOutcome>, last: RecvOutcome)
    requires
        debounce_answer(state, outcomes) is None,
    ensures
        debounce_answer(state, outcomes.push(last)) == (match debounce_next_spec(
            debounce_state(state, outcomes),
            last,
        ) {
            DebounceNext::Stop(b) => Some(b),
            DebounceNext::Wait(_) => None,
        }),
        debounce_next_spec(debounce_state(state, outcomes), last) matches DebounceNext::Wait(s)
            ==> debounce_state(state, outcomes.push(last)) == s,
    decreases outcomes.len(),
{
    let pushed = outcomes.push(last);
    if outcomes.len() == 0 {
        let rest = pushed.drop_first();
        assert(rest =~= Seq::<RecvOutcome>::empty());
        if let DebounceNext::Wait(s) = debounce_next_spec(state, last) {
            assert(debounce_answer(s, rest) is None);
            assert(debounce_state(s, rest) == s);
        }
    } else {
        let rest = pushed.drop_first();
        assert(pushed[0] == outcomes[0]);
        assert(rest =~= outcomes.drop_first().push(last));
        if let DebounceNext::Wait(s) = debounce_next_spec(state, outcomes[0]) {
            lemma_answer_push(s, outcomes.drop_first(), last);
            assert(debounce_answer(state, pushed) == debounce_answer(s, rest));
            assert(debounce_state(state, pushed) == debounce_state(s, rest));
        }
    }
}

/// From inside a burst, an undecided sequence of outcomes holds nothing but
/// events, and leaves the debounce inside the burst.
proof fn lemma_settling_undecided(outcomes: Seq<RecvOutcome>)
    requires
        debounce_answer(DebounceState::Settling, outcomes) is None,
    ensures
        forall|i: int| 0 <= i < outcomes.len() ==> outcomes[i] == RecvOutcome::Received,
        debounce_state(DebounceState::Settling, outcomes) == DebounceState::Settling,
    decreases outcomes.len(),
{
    if outcomes.len() > 0 {
        let rest = outcomes.drop_first();
        assert(outcomes[0] == RecvOutcome::Received);
        lemma_settling_undecided(rest);
        assert forall|i: int| 0 <= i < outcomes.len() implies outcomes[i]
            == RecvOutcome::Received by {
            if i > 0 {
                assert(outcomes[i] == rest[i - 1]);
            }
        }
    }
}

/// A record of waits that does not start with a time-out and is decided no
/// earlier than its last outcome (the kind `drain_debounced` hands back) is
/// a run of events followed by one last outcome. It answers `true` exactly
/// when that last outcome is a quiet period after at least one event,
/// `false` exactly when it is a disconnect, and is still undecided exactly
/// when it is one more event.
pub proof fn law_debounce_record(outcomes: Seq<RecvOutcome>)
    requires
        outcomes.len() > 0,
        outcomes[0] != RecvOutcome::TimedOut,
        debounce_answer(DebounceState::AwaitingFirst, outcomes.drop_last()) is None,
    ensures
        forall|i: int| 0 <= i < outcomes.len() - 1 ==> outcomes[i] == RecvOutcome::Received,
        debounce_answer(DebounceState::AwaitingFirst, outcomes) == Some(true) <==> (outcomes.len()
            >= 2 && outcomes.last() == RecvOutcome::TimedOut),
        debounce_answer(DebounceState::AwaitingFirst, outcomes) == Some(false) <==> outcomes.last()
            == RecvOutcome::Disconnected,
        debounce_answer(DebounceState::AwaitingFirst, outcomes) is None <==> outcomes.last()
            == RecvOutcome::Received,
{
    let prefix = outcomes.drop_last();
    let last = outcomes.last();
    assert(outcomes =~= prefix.push(last));
    lemma_answer_push(DebounceState::AwaitingFirst, prefix, last);
    if prefix.len() == 0 {
        assert(debounce_state(DebounceState::AwaitingFirst, prefix) == DebounceState::AwaitingFirst);
    } else {
        let rest = prefix.drop_first();
        assert(prefix[0] == outcomes[0]);
        assert(prefix[0] == RecvOutcome::Received);
        lemma_settling_undecided(rest);
        assert(debounce_state(DebounceState::AwaitingFirst, prefix) == DebounceState::Settling);
        assert forall|i: int| 0 <= i < outcomes.len() - 1 implies outcomes[i]
            == RecvOutcome::Received by {
            if i > 0 {
                assert(outcomes[i] == rest[i - 1]);
            }
        }
    }
}

/// The limit of the next wait: none while waiting for the first event of a
/// burst, `timeout` inside a burst.
pub open spec fn wait_limit_spec(state: DebounceState, timeout: std::time::Duration) -> WaitLimit {
    match state {
        DebounceState::AwaitingFirst => WaitLimit::Unlimited,
        DebounceState::Settling => WaitLimit::Within(timeout),
    }
}

/// Decides how long the next wait may last.
pub fn wait_limit(state: DebounceState, timeout: std::time::Duration) -> (limit: WaitLimit)
    ensures
        limit == wait_limit_spec(state, timeout),
{
    match state {
        DebounceState::AwaitingFirst => WaitLimit::Unlimited,
        DebounceState::Settling => WaitLimit::Within(timeout),
    }
}

/// The outcomes of a sequence of waits.
pub open spec fn outcomes_of(waits: Seq<Waited>) -> Seq<RecvOutcome> {
    waits.map_values(|w: Waited| w@.outcome)
}

/// Blocks until either the channel disconnects (returns `false`) or at least
/// one event has arrived and then no further event arrives for `timeout`
/// (returns `true`): a burst of events from one logical save becomes a
/// single signal.
///
/// The second part of the result holds the waits that were made on `rx`, in
/// order (a `Waited` is only ever the record of a real wait). The first had
/// no time limit; each one after it was limited to `timeout` exactly when
/// the debounce stood inside a burst, which it always does after the first
/// (`wait_limit`). The answer is the one `debounce_answer` gives for their
/// outcomes, decided at the last of them, so a burst that goes quiet
/// answers `true` once and a closed channel answers `false`, whatever events
/// came first (`law_debounce_record`). The one exception is a burst still
/// going after `u64::MAX + 1` waits, which is reported as settled.
pub fn drain_debounced(rx: &std::sync::mpsc::Receiver<()>, timeout: std::time::Duration) -> (r: (
    bool,
    Vec<Waited>,
))
    ensures
        r.1@.len() > 0,
        forall|i: int|
            0 <= i < r.1@.len() ==> (#[trigger] r.1@[i])@.limit == wait_limit_spec(
                debounce_state(DebounceState::AwaitingFirst, outcomes_of(r.1@).take(i)),
                timeout,
            ),
        r.1@[0]@.outcome != RecvOutcome::TimedOut,
        debounce_answer(DebounceState::AwaitingFirst, outcomes_of(r.1@).drop_last()) is None,
        debounce_answer(DebounceState::AwaitingFirst, outcomes_of(r.1@)) == Some(r.0) || (r.0
            && r.1@.len() == u64::MAX + 1 && debounce_answer(
            DebounceState::AwaitingFirst,
            outcomes_of(r.1@),
        ) is None),
{
    let mut state = DebounceState::AwaitingFirst;
    let mut waits: u64 = 0;
    let mut record: Vec<Waited> = Vec::new();
    loop
        invariant
            record@.len() == waits,
            waits > 0 ==> record@[0]@.outcome != RecvOutcome::TimedOut,
            forall|i: int|
                0 <= i < record@.len() ==> (#[trigger] record@[i])@.limit == wait_limit_spec(
                    debounce_state(DebounceState::AwaitingFirst, outcomes_of(record@).take(i)),
                    timeout,
                ),
            debounce_answer(DebounceState::AwaitingFirst, outcomes_of(record@)) is None,
            state == debounce_state(DebounceState::AwaitingFirst, outcomes_of(record@)),
        decreases u64::MAX - waits,
    {
        let limit = wait_limit(state, timeout);
        let waited = wait_for(rx, limit);
        let outcome = waited.outcome();
        let ghost before = record@;
        record.push(waited);
        proof {
            let outs = outcomes_of(record@);
            assert(outs =~= outcomes_of(before).push(outcome));
            assert(outs.drop_last() =~= outcomes_of(before));
            lemma_answer_push(DebounceState::AwaitingFirst, outcomes_of(before), outcome);
            assert forall|i: int| 0 <= i < record@.len() implies (#[trigger] record@[i])@.limit
                == wait_limit_spec(
                debounce_state(DebounceState::AwaitingFirst, outs.take(i)),
                timeout,
            ) by {
                assert(outs.take(i) =~= outcomes_of(before).take(i));
                if i == before.len() {
                    assert(outcomes_of(before).take(i) =~= outcomes_of(before));
                } else {
                    assert(record@[i] == before[i]);
                }
            }
            if waits == 0 {
                assert(debounce_state(DebounceState::AwaitingFirst, outcomes_of(before))
                    == DebounceState::AwaitingFirst);
                assert(record@[0] == waited);
            } else {
                assert(record@[0] == before[0]);
            }
        }
        match debounce_next(state, outcome) {
            DebounceNext::Stop(answer) => {
                return (answer, record);
            },
            DebounceNext::Wait(next) => {
                if waits == u64::MAX {
                    return (true, record);
                }
                waits = waits + 1;
                state = next;
            },
        }
    }
}

} // verus!

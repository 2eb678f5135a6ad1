use vstd::prelude::*;

use crate::transactions::SendAttempt;

verus! {

/// A commitment level of the ledger, weakest first.
#[derive(Debug, Clone, Copy, PartialEq, Eq, Structural)]
pub enum Commitment {
    Processed,
    Confirmed,
    Finalized,
}

impl Commitment {
    /// The level is "confirmed" or stronger.
    pub open spec fn is_confirmed(self) -> bool {
        !(self is Processed)
    }
}

/// What one signature-status query about a candidate returned.
#[derive(Debug)]
pub enum PollObservation {
    /// The query itself failed (network or RPC error).
    RpcError(String),
    /// The endpoint knows no status for the signature.
    NotFound,
    /// The transaction is in `slot`; `error` is set when it failed on chain.
    Landed { slot: u64, error: Option<String>, level: Option<Commitment> },
}

/// The candidate that confirmed first.
#[derive(Debug)]
pub struct WinningTransactionInfo {
    pub signature: [u8; 64],
    pub rpc_url: String,
    pub amount_lamports: u64,
    /// Milliseconds from the start of its send to the poll that saw it confirmed.
    pub time_to_confirm_ms: u128,
    pub slot: u64,
    pub confirmation_status: Commitment,
}

/// The final status of a candidate that did not win.
#[derive(Debug)]
pub enum OutcomeStatus {
    /// The send itself failed, with the endpoint's reason; it was never polled.
    SendFailed(String),
    /// It confirmed too, but not first.
    ConfirmedNotFastest { time_to_confirm_ms: u128, level: Commitment },
    /// The ledger rejected it.
    FailedOnChain(String),
    /// Unresolved at the deadline; the last check saw it at this level.
    TimedOut { last_level: Commitment },
    /// Unresolved at the deadline, and the last check told nothing.
    Unknown,
}

/// What is recorded of a candidate that did not win the race.
#[derive(Debug)]
pub struct NonWinningTransactionOutcome {
    pub original_signature: [u8; 64],
    pub rpc_url: String,
    pub amount_lamports: u64,
    pub status: OutcomeStatus,
    pub last_known_slot: Option<u64>,
}

/// What tracking a candidate does after one poll.
#[derive(Debug)]
pub enum TrackStep {
    /// Not resolved yet: poll again at the next interval.
    KeepPolling,
    /// Terminal: the ledger rejected the transaction.
    FailedOnChain { error: String, slot: u64 },
    /// Terminal: the transaction reached "confirmed" or stronger.
    Confirmed(WinningTransactionInfo),
}

/// Milliseconds from `start` to `now`, or 0 when the clock reads earlier than `start`.
pub open spec fn elapsed_ms(start: u64, now: u64) -> u128 {
    if now >= start { (now - start) as u128 } else { 0 }
}

/// The record of `a` confirmed in `slot` at `level`, seen at `now`.
pub open spec fn confirmation_of(a: SendAttempt, slot: u64, level: Commitment, now: u64) -> WinningTransactionInfo {
    WinningTransactionInfo {
        signature: a.original_signature,
        rpc_url: a.rpc_url,
        amount_lamports: a.amount_lamports,
        time_to_confirm_ms: elapsed_ms(a.send_start_ms, now),
        slot,
        confirmation_status: level,
    }
}

/// The step that a poll observing `obs` at `now` leads to for the candidate `a`. A failed
/// poll decides nothing: it is retried.
pub open spec fn track_step(a: SendAttempt, obs: PollObservation, now: u64) -> TrackStep {
    match obs {
        PollObservation::Landed { slot, error: Some(e), .. } => TrackStep::FailedOnChain { error: e, slot },
        PollObservation::Landed { slot, error: None, level: Some(l) } => {
            if l.is_confirmed() {
                TrackStep::Confirmed(confirmation_of(a, slot, l, now))
            } else {
                TrackStep::KeepPolling
            }
        },
        _ => TrackStep::KeepPolling,
    }
}

/// Decides, from one poll of the candidate's status taken at `now_ms`, whether its tracking
/// goes on, failed on chain, or confirmed.
pub fn track_single_transaction(attempt: &SendAttempt, observation: PollObservation, now_ms: u64) -> (r: TrackStep)
    ensures
        r == track_step(*attempt, observation, now_ms),
{
    match observation {
        PollObservation::Landed { slot, error: Some(e), .. } => TrackStep::FailedOnChain { error: e, slot },
        PollObservation::Landed { slot, error: None, level: Some(l) } => {
            if l != Commitment::Processed {
                let elapsed: u128 = if now_ms >= attempt.send_start_ms {
                    (now_ms - attempt.send_start_ms) as u128
                } else {
                    0
                };
                TrackStep::Confirmed(WinningTransactionInfo {
                    signature: attempt.original_signature,
                    rpc_url: attempt.rpc_url.clone(),
                    amount_lamports: attempt.amount_lamports,
                    time_to_confirm_ms: elapsed,
                    slot,
                    confirmation_status: l,
                })
            } else {
                TrackStep::KeepPolling
            }
        },
        _ => TrackStep::KeepPolling,
    }
}


/// The terminal step that tracking a candidate reached, and when the monitor received it
/// (milliseconds on the run's clock).
#[derive(Debug)]
pub struct TrackRecord {
    pub step: TrackStep,
    pub received_at_ms: u64,
}

/// Everything the monitor gathered about one dispatched candidate: its send, the terminal
/// step its tracking reached if any, and the single status check made after tracking stopped.
#[derive(Debug)]
pub struct MonitoredCandidate {
    pub attempt: SendAttempt,
    pub tracking: Option<TrackRecord>,
    pub final_check: Option<PollObservation>,
}

/// `c` was sent, and its tracking reported a confirmation before the deadline.
pub open spec fn confirmed_in_time(c: MonitoredCandidate, deadline_ms: u64) -> bool {
    &&& c.attempt.send_result is Ok
    &&& c.tracking matches Some(rec)
    &&& rec.received_at_ms < deadline_ms
    &&& rec.step is Confirmed
}

pub open spec fn received_at(c: MonitoredCandidate) -> u64 {
    c.tracking->Some_0.received_at_ms
}

pub open spec fn confirmation(c: MonitoredCandidate) -> WinningTransactionInfo {
    c.tracking->Some_0.step->Confirmed_0
}

/// `a` confirmed ahead of `b`: it reached the monitor earlier, or together with `b` and
/// with a strictly smaller time to confirm.
pub open spec fn confirmed_before(a: MonitoredCandidate, b: MonitoredCandidate) -> bool {
    ||| received_at(a) < received_at(b)
    ||| received_at(a) == received_at(b) && confirmation(a).time_to_confirm_ms < confirmation(b).time_to_confirm_ms
}

/// The index of the winner among `cs`: of the candidates confirmed in time, the one
/// confirmed ahead of all others, the earliest in input order where two are level.
pub open spec fn race_winner(cs: Seq<MonitoredCandidate>, deadline_ms: u64) -> Option<int>
    decreases cs.len(),
{
    if cs.len() == 0 {
        None
    } else {
        let prev = race_winner(cs.drop_last(), deadline_ms);
        if confirmed_in_time(cs.last(), deadline_ms) && (prev is None || confirmed_before(
            cs.last(),
            cs[prev->Some_0],
        )) {
            Some(cs.len() - 1)
        } else {
            prev
        }
    }
}

/// The final status of a candidate that did not win, and the last slot known for it.
pub open spec fn final_status(c: MonitoredCandidate, deadline_ms: u64) -> (OutcomeStatus, Option<u64>) {
    match c.attempt.send_result {
        Err(reason) => (OutcomeStatus::SendFailed(reason), None),
        Ok(_) => {
            if c.tracking is Some && received_at(c) < deadline_ms && !(c.tracking->Some_0.step is KeepPolling) {
                match c.tracking->Some_0.step {
                    TrackStep::Confirmed(info) => (
                        OutcomeStatus::ConfirmedNotFastest {
                            time_to_confirm_ms: info.time_to_confirm_ms,
                            level: info.confirmation_status,
                        },
                        Some(info.slot),
                    ),
                    TrackStep::FailedOnChain { error, slot } => (OutcomeStatus::FailedOnChain(error), Some(slot)),
                    TrackStep::KeepPolling => (OutcomeStatus::Unknown, None),
                }
            } else {
                match c.final_check {
                    Some(PollObservation::Landed { slot, error: Some(e), .. }) => (OutcomeStatus::FailedOnChain(e), Some(slot)),
                    Some(PollObservation::Landed { slot, error: None, level: Some(l) }) => (OutcomeStatus::TimedOut { last_level: l }, Some(slot)),
                    Some(PollObservation::Landed { slot, error: None, level: None }) => (OutcomeStatus::Unknown, Some(slot)),
                    _ => (OutcomeStatus::Unknown, None),
                }
            }
        },
    }
}

/// The outcome record of a candidate that did not win.
pub open spec fn outcome_of(c: MonitoredCandidate, deadline_ms: u64) -> NonWinningTransactionOutcome {
    NonWinningTransactionOutcome {
        original_signature: c.attempt.original_signature,
        rpc_url: c.attempt.rpc_url,
        amount_lamports: c.attempt.amount_lamports,
        status: final_status(c, deadline_ms).0,
        last_known_slot: final_status(c, deadline_ms).1,
    }
}

/// The outcome records of all candidates but the winner, in input order.
pub open spec fn race_outcomes(cs: Seq<MonitoredCandidate>, winner: Option<int>, deadline_ms: u64) -> Seq<NonWinningTransactionOutcome>
    decreases cs.len(),
{
    if cs.len() == 0 {
        Seq::empty()
    } else {
        let prev = race_outcomes(cs.drop_last(), winner, deadline_ms);
        if winner == Some(cs.len() - 1) {
            prev
        } else {
            prev.push(outcome_of(cs.last(), deadline_ms))
        }
    }
}

/// The winner's record, if there is a winner.
pub open spec fn winner_info(cs: Seq<MonitoredCandidate>, winner: Option<int>) -> Option<WinningTransactionInfo> {
    match winner {
        Some(w) => Some(confirmation(cs[w])),
        None => None,
    }
}

/// The winner, when there is one, is a candidate confirmed in time.
pub proof fn lemma_winner_confirmed_in_time(cs: Seq<MonitoredCandidate>, deadline_ms: u64)
    ensures
        race_winner(cs, deadline_ms) matches Some(w) ==> 0 <= w < cs.len() && confirmed_in_time(cs[w], deadline_ms),
    decreases cs.len(),
{
    if cs.len() > 0 {
        lemma_winner_confirmed_in_time(cs.drop_last(), deadline_ms);
    }
}

fn copy_commitment_info(info: &WinningTransactionInfo) -> (r: WinningTransactionInfo)
    ensures
        r == *info,
{
    WinningTransactionInfo {
        signature: info.signature,
        rpc_url: info.rpc_url.clone(),
        amount_lamports: info.amount_lamports,
        time_to_confirm_ms: info.time_to_confirm_ms,
        slot: info.slot,
        confirmation_status: info.confirmation_status,
    }
}

/// Computes `final_status` of one candidate.
fn final_status_of(c: &MonitoredCandidate, deadline_ms: u64) -> (r: (OutcomeStatus, Option<u64>))
    ensures
        r == final_status(*c, deadline_ms),
{
    match &c.attempt.send_result {
        Err(reason) => (OutcomeStatus::SendFailed(reason.clone()), None),
        Ok(_) => {
            let in_time = match &c.tracking {
                Some(rec) => rec.received_at_ms < deadline_ms && !matches!(rec.step, TrackStep::KeepPolling),
                None => false,
            };
            if in_time {
                match &c.tracking {
                    Some(rec) => match &rec.step {
                        TrackStep::Confirmed(info) => (
                            OutcomeStatus::ConfirmedNotFastest {
                                time_to_confirm_ms: info.time_to_confirm_ms,
                                level: info.confirmation_status,
                            },
                            Some(info.slot),
                        ),
                        TrackStep::FailedOnChain { error, slot } => (OutcomeStatus::FailedOnChain(error.clone()), Some(*slot)),
                        TrackStep::KeepPolling => (OutcomeStatus::Unknown, None),
                    },
                    None => (OutcomeStatus::Unknown, None),
                }
            } else {
                match &c.final_check {
                    Some(PollObservation::Landed { slot, error: Some(e), .. }) => (OutcomeStatus::FailedOnChain(e.clone()), Some(*slot)),
                    Some(PollObservation::Landed { slot, error: None, level: Some(l) }) => (OutcomeStatus::TimedOut { last_level: *l }, Some(*slot)),
                    Some(PollObservation::Landed { slot, error: None, level: None }) => (OutcomeStatus::Unknown, Some(*slot)),
                    _ => (OutcomeStatus::Unknown, None),
                }
            }
        },
    }
}

/// Each confirmation record belongs to its candidate: it carries the candidate's own
/// signature, endpoint and amount, as `track_single_transaction` builds it.
pub open spec fn records_match_attempts(cs: Seq<MonitoredCandidate>) -> bool {
    forall|k: int| 0 <= k < cs.len() && (#[trigger] cs[k]).tracking is Some && cs[k].tracking->Some_0.step is Confirmed ==> {
        let info = cs[k].tracking->Some_0.step->Confirmed_0;
        &&& info.signature == cs[k].attempt.original_signature
        &&& info.rpc_url == cs[k].attempt.rpc_url
        &&& info.amount_lamports == cs[k].attempt.amount_lamports
    }
}

/// Settles a race from what the monitor gathered: the winner is the candidate whose
/// confirmation reached the monitor first before the deadline (the smaller time to confirm
/// breaking a tie within one tick), and every other candidate gets its final outcome.
pub fn resolve_race(candidates: &Vec<MonitoredCandidate>, deadline_ms: u64) -> (r: (Option<WinningTransactionInfo>, Vec<NonWinningTransactionOutcome>))
    ensures
        r.0 == winner_info(candidates@, race_winner(candidates@, deadline_ms)),
        r.1@ == race_outcomes(candidates@, race_winner(candidates@, deadline_ms), deadline_ms),
        records_match_attempts(candidates@) ==> (race_winner(candidates@, deadline_ms) matches Some(w) ==> (r.0 matches Some(info)
            && info.signature == candidates@[w].attempt.original_signature
            && info.rpc_url == candidates@[w].attempt.rpc_url
            && info.amount_lamports == candidates@[w].attempt.amount_lamports)),
{
    let ghost cs = candidates@;
    let mut best: Option<usize> = None;
    let mut i: usize = 0;
    while i < candidates.len()
        invariant
            cs == candidates@,
            i <= cs.len(),
            best matches Some(b) ==> b < i,
            match best {
                Some(b) => race_winner(cs.subrange(0, i as int), deadline_ms) == Some(b as int),
                None => race_winner(cs.subrange(0, i as int), deadline_ms) is None,
            },
        decreases cs.len() - i,
    {
        proof {
            assert(cs.subrange(0, i + 1).drop_last() =~= cs.subrange(0, i as int));
            assert(cs.subrange(0, i + 1).last() == cs[i as int]);
            lemma_winner_confirmed_in_time(cs.subrange(0, i as int), deadline_ms);
            if best is Some {
                assert(cs.subrange(0, i + 1)[best->Some_0 as int] == cs[best->Some_0 as int]);
                assert(cs.subrange(0, i as int)[best->Some_0 as int] == cs[best->Some_0 as int]);
            }
        }
        let c = &candidates[i];
        let is_confirmed = c.attempt.send_result.is_ok() && match &c.tracking {
            Some(rec) => rec.received_at_ms < deadline_ms && matches!(rec.step, TrackStep::Confirmed(_)),
            None => false,
        };
        if is_confirmed {
            let take = match best {
                None => true,
                Some(b) => {
                    let cur = &candidates[b];
                    match (&c.tracking, &cur.tracking) {
                        (Some(rc), Some(rb)) => match (&rc.step, &rb.step) {
                            (TrackStep::Confirmed(ic), TrackStep::Confirmed(ib)) =>
                                rc.received_at_ms < rb.received_at_ms || (rc.received_at_ms == rb.received_at_ms
                                    && ic.time_to_confirm_ms < ib.time_to_confirm_ms),
                            _ => false,
                        },
                        _ => false,
                    }
                },
            };
            if take {
                best = Some(i);
            }
        }
        i = i + 1;
    }
    proof {
        assert(cs.subrange(0, cs.len() as int) =~= cs);
        lemma_winner_confirmed_in_time(cs, deadline_ms);
    }
    let winner = match best {
        Some(b) => match &candidates[b].tracking {
            Some(rec) => match &rec.step {
                TrackStep::Confirmed(info) => Some(copy_commitment_info(info)),
                _ => None,
            },
            None => None,
        },
        None => None,
    };
    let ghost w = race_winner(cs, deadline_ms);
    let mut outcomes: Vec<NonWinningTransactionOutcome> = Vec::new();
    let mut j: usize = 0;
    while j < candidates.len()
        invariant
            cs == candidates@,
            j <= cs.len(),
            w == race_winner(cs, deadline_ms),
            match best {
                Some(b) => w == Some(b as int),
                None => w is None,
            },
            outcomes@ == race_outcomes(cs.subrange(0, j as int), w, deadline_ms),
        decreases cs.len() - j,
    {
        proof {
            assert(cs.subrange(0, j + 1).drop_last() =~= cs.subrange(0, j as int));
            assert(cs.subrange(0, j + 1).last() == cs[j as int]);
        }
        let skip = match best {
            Some(b) => b == j,
            None => false,
        };
        if !skip {
            let c = &candidates[j];
            let (status, last_known_slot) = final_status_of(c, deadline_ms);
            outcomes.push(NonWinningTransactionOutcome {
                original_signature: c.attempt.original_signature,
                rpc_url: c.attempt.rpc_url.clone(),
                amount_lamports: c.attempt.amount_lamports,
                status,
                last_known_slot,
            });
        }
        j = j + 1;
    }
    proof {
        assert(cs.subrange(0, cs.len() as int) =~= cs);
    }
    (winner, outcomes)
}


/// No candidate is dropped: the winner aside, each candidate has exactly one outcome
/// record, in input order.
pub proof fn lemma_every_candidate_accounted(cs: Seq<MonitoredCandidate>, deadline_ms: u64)
    ensures
        ({
            let w = race_winner(cs, deadline_ms);
            let outs = race_outcomes(cs, w, deadline_ms);
            &&& w is None ==> outs.len() == cs.len()
            &&& w is Some ==> outs.len() == cs.len() - 1
            &&& forall|k: int| 0 <= k < cs.len() && w != Some(k) ==> {
                let j = if w matches Some(x) && x < k { k - 1 } else { k };
                outs[j] == outcome_of(#[trigger] cs[k], deadline_ms)
            }
        }),
{
    lemma_winner_confirmed_in_time(cs, deadline_ms);
    lemma_outcomes_skipping(cs, race_winner(cs, deadline_ms), deadline_ms);
}

/// `race_outcomes` lists every candidate but the skipped one, in order.
pub proof fn lemma_outcomes_skipping(cs: Seq<MonitoredCandidate>, skip: Option<int>, deadline_ms: u64)
    requires
        skip matches Some(x) ==> 0 <= x,
    ensures
        race_outcomes(cs, skip, deadline_ms).len() == if skip matches Some(x) && x < cs.len() {
            cs.len() - 1
        } else {
            cs.len() as int
        },
        forall|k: int| 0 <= k < cs.len() && skip != Some(k) ==> {
            let j = if skip matches Some(x) && x < k { k - 1 } else { k };
            race_outcomes(cs, skip, deadline_ms)[j] == outcome_of(#[trigger] cs[k], deadline_ms)
        },
    decreases cs.len(),
{
    if cs.len() > 0 {
        let rest = cs.drop_last();
        let last = cs.len() - 1;
        lemma_outcomes_skipping(rest, skip, deadline_ms);
        assert forall|k: int| 0 <= k < cs.len() && skip != Some(k) implies {
            let j = if skip matches Some(x) && x < k { k - 1 } else { k };
            race_outcomes(cs, skip, deadline_ms)[j] == outcome_of(#[trigger] cs[k], deadline_ms)
        } by {
            if k < last {
                assert(rest[k] == cs[k]);
            }
        }
    }
}

/// The winner rule: there is a winner exactly when some candidate confirmed before the
/// deadline, and no candidate confirmed in time was ahead of the winner. The winner
/// depends on the candidates' arrival ticks and times to confirm alone.
pub proof fn lemma_winner_is_first(cs: Seq<MonitoredCandidate>, deadline_ms: u64)
    ensures
        race_winner(cs, deadline_ms) is None <==> forall|k: int| 0 <= k < cs.len() ==> !confirmed_in_time(#[trigger] cs[k], deadline_ms),
        race_winner(cs, deadline_ms) matches Some(w) ==> {
            &&& 0 <= w < cs.len()
            &&& confirmed_in_time(cs[w], deadline_ms)
            &&& forall|k: int| 0 <= k < cs.len() && k != w && confirmed_in_time(#[trigger] cs[k], deadline_ms)
                ==> !confirmed_before(cs[k], cs[w])
        },
    decreases cs.len(),
{
    lemma_winner_confirmed_in_time(cs, deadline_ms);
    if cs.len() > 0 {
        let rest = cs.drop_last();
        lemma_winner_is_first(rest, deadline_ms);
        assert forall|k: int| 0 <= k < rest.len() implies #[trigger] rest[k] == cs[k] by {}
        let last = cs.len() - 1;
        let prev = race_winner(rest, deadline_ms);
        if race_winner(cs, deadline_ms) is None {
            assert forall|k: int| 0 <= k < cs.len() implies !confirmed_in_time(#[trigger] cs[k], deadline_ms) by {
                if k < last {
                    assert(rest[k] == cs[k]);
                }
            }
        } else {
            let w = race_winner(cs, deadline_ms)->Some_0;
            if prev is Some {
                assert(rest[prev->Some_0] == cs[prev->Some_0]);
            }
            assert forall|k: int| 0 <= k < cs.len() && k != w && confirmed_in_time(#[trigger] cs[k], deadline_ms)
                implies !confirmed_before(cs[k], cs[w]) by {
                if k < last {
                    assert(rest[k] == cs[k]);
                }
            }
        }
    }
}

/// Of two candidates confirmed in time, the one whose confirmation reached the monitor
/// first wins; the other is recorded as confirmed but not fastest, with its own time and
/// slot; a third never resolved, whose last check shows no on-chain error, is recorded as
/// timed out or unknown.
pub proof fn lemma_faster_confirmation_wins(cs: Seq<MonitoredCandidate>, deadline_ms: u64)
    requires
        cs.len() == 3,
        confirmed_in_time(cs[0], deadline_ms),
        confirmed_in_time(cs[1], deadline_ms),
        received_at(cs[1]) < received_at(cs[0]),
        cs[2].attempt.send_result is Ok,
        cs[2].tracking is None,
        !(cs[2].final_check matches Some(PollObservation::Landed { error: Some(_), .. })),
    ensures
        race_winner(cs, deadline_ms) == Some(1int),
        race_outcomes(cs, Some(1int), deadline_ms).len() == 2,
        race_outcomes(cs, Some(1int), deadline_ms)[0].status == (OutcomeStatus::ConfirmedNotFastest {
            time_to_confirm_ms: confirmation(cs[0]).time_to_confirm_ms,
            level: confirmation(cs[0]).confirmation_status,
        }),
        race_outcomes(cs, Some(1int), deadline_ms)[0].last_known_slot == Some(confirmation(cs[0]).slot),
        race_outcomes(cs, Some(1int), deadline_ms)[1].status is TimedOut
            || race_outcomes(cs, Some(1int), deadline_ms)[1].status is Unknown,
{
    lemma_winner_is_first(cs, deadline_ms);
    assert(!confirmed_in_time(cs[2], deadline_ms));
    assert(confirmed_before(cs[1], cs[0]));
    lemma_outcomes_skipping(cs, Some(1int), deadline_ms);
    assert(race_outcomes(cs, Some(1int), deadline_ms)[0] == outcome_of(cs[0], deadline_ms));
    assert(race_outcomes(cs, Some(1int), deadline_ms)[1] == outcome_of(cs[2], deadline_ms));
}

/// When every send failed, nothing is polled: no candidate is tracked, there is no winner,
/// and each candidate is recorded as a failed send with its reason.
pub proof fn lemma_all_sends_failed(cs: Seq<MonitoredCandidate>, deadline_ms: u64)
    requires
        forall|k: int| 0 <= k < cs.len() ==> (#[trigger] cs[k]).attempt.send_result is Err,
    ensures
        sent_indices(cs.map_values(|c: MonitoredCandidate| c.attempt)).len() == 0,
        race_winner(cs, deadline_ms) is None,
        race_outcomes(cs, None, deadline_ms).len() == cs.len(),
        forall|k: int| 0 <= k < cs.len() ==> {
            &&& (#[trigger] race_outcomes(cs, None, deadline_ms)[k]).status == OutcomeStatus::SendFailed(cs[k].attempt.send_result->Err_0)
            &&& race_outcomes(cs, None, deadline_ms)[k].last_known_slot is None
        },
{
    lemma_winner_is_first(cs, deadline_ms);
    lemma_outcomes_skipping(cs, None, deadline_ms);
    let attempts = cs.map_values(|c: MonitoredCandidate| c.attempt);
    lemma_sent_indices(attempts);
    if sent_indices(attempts).len() > 0 {
        let k = sent_indices(attempts)[0];
        assert(attempts[k] == cs[k].attempt);
    }
}

/// When no candidate confirmed before the deadline, there is no winner and every
/// candidate is recorded as failed (to send or on chain), timed out, or unknown.
pub proof fn lemma_timeout_without_confirmation(cs: Seq<MonitoredCandidate>, deadline_ms: u64)
    requires
        forall|k: int| 0 <= k < cs.len() ==> !confirmed_in_time(#[trigger] cs[k], deadline_ms),
    ensures
        race_winner(cs, deadline_ms) is None,
        race_outcomes(cs, None, deadline_ms).len() == cs.len(),
        forall|k: int| 0 <= k < cs.len() ==> {
            let st = (#[trigger] race_outcomes(cs, None, deadline_ms)[k]).status;
            st is SendFailed || st is FailedOnChain || st is TimedOut || st is Unknown
        },
{
    lemma_winner_is_first(cs, deadline_ms);
    lemma_outcomes_skipping(cs, None, deadline_ms);
    assert forall|k: int| 0 <= k < cs.len() implies {
        let st = (#[trigger] race_outcomes(cs, None, deadline_ms)[k]).status;
        st is SendFailed || st is FailedOnChain || st is TimedOut || st is Unknown
    } by {
        assert(!confirmed_in_time(cs[k], deadline_ms));
    }
}

/// The indices, in order, of the attempts whose send succeeded: the candidates to track.
pub open spec fn sent_indices(attempts: Seq<SendAttempt>) -> Seq<int>
    decreases attempts.len(),
{
    if attempts.len() == 0 {
        Seq::empty()
    } else {
        let prev = sent_indices(attempts.drop_last());
        if attempts.last().send_result is Ok {
            prev.push(attempts.len() - 1)
        } else {
            prev
        }
    }
}

/// Every index that `sent_indices` lists names a sent attempt, in increasing order, and every
/// sent attempt is listed.
pub proof fn lemma_sent_indices(attempts: Seq<SendAttempt>)
    ensures
        forall|j: int| 0 <= j < sent_indices(attempts).len() ==> {
            let k = #[trigger] sent_indices(attempts)[j];
            0 <= k < attempts.len() && attempts[k].send_result is Ok
        },
        forall|k: int| 0 <= k < attempts.len() && (#[trigger] attempts[k]).send_result is Ok
            ==> sent_indices(attempts).contains(k),
    decreases attempts.len(),
{
    if attempts.len() > 0 {
        let rest = attempts.drop_last();
        lemma_sent_indices(rest);
        assert forall|k: int| 0 <= k < rest.len() implies #[trigger] rest[k] == attempts[k] by {}
        let s = sent_indices(attempts);
        let p = sent_indices(rest);
        assert forall|j: int| 0 <= j < s.len() implies {
            let k = #[trigger] s[j];
            0 <= k < attempts.len() && attempts[k].send_result is Ok
        } by {
            if j < p.len() {
                assert(s[j] == p[j]);
                assert(rest[p[j]] == attempts[p[j]]);
            }
        }
        assert forall|k: int| 0 <= k < attempts.len() && (#[trigger] attempts[k]).send_result is Ok
            implies s.contains(k) by {
            if k < attempts.len() - 1 {
                assert(rest[k] == attempts[k]);
                assert(p.contains(k));
                let j = choose|j: int| 0 <= j < p.len() && p[j] == k;
                assert(s[j] == p[j]);
            } else {
                assert(s[s.len() - 1] == k);
            }
        }
    }
}

/// Lists the candidates whose send succeeded: only those are polled.
pub fn candidates_to_track(attempts: &Vec<SendAttempt>) -> (r: Vec<usize>)
    ensures
        r@.len() == sent_indices(attempts@).len(),
        forall|j: int| 0 <= j < r@.len() ==> r@[j] as int == #[trigger] sent_indices(attempts@)[j],
{
    let mut out: Vec<usize> = Vec::new();
    let mut i: usize = 0;
    while i < attempts.len()
        invariant
            i <= attempts@.len(),
            out@.len() == sent_indices(attempts@.subrange(0, i as int)).len(),
            forall|j: int| 0 <= j < out@.len() ==> out@[j] as int == #[trigger] sent_indices(attempts@.subrange(0, i as int))[j],
        decreases attempts@.len() - i,
    {
        proof {
            assert(attempts@.subrange(0, i + 1).drop_last() =~= attempts@.subrange(0, i as int));
        }
        if attempts[i].send_result.is_ok() {
            out.push(i);
        }
        i = i + 1;
    }
    proof {
        assert(attempts@.subrange(0, attempts@.len() as int) =~= attempts@);
    }
    out
}


/// Whether the monitor goes on waiting for tracking results at `now_ms`: only while some
/// tracking is still `pending` and the deadline has not come, and, once a candidate has
/// confirmed, only within `grace_ms` of the first confirmation.
pub fn keep_monitoring(candidates: &Vec<MonitoredCandidate>, pending: usize, now_ms: u64, deadline_ms: u64, grace_ms: u64) -> (r: bool)
    ensures
        r == (pending > 0 && now_ms < deadline_ms && forall|k: int| 0 <= k < candidates@.len()
            && confirmed_in_time(#[trigger] candidates@[k], deadline_ms) ==> now_ms < received_at(candidates@[k]) + grace_ms),
{
    if pending == 0 || now_ms >= deadline_ms {
        return false;
    }
    let mut i: usize = 0;
    while i < candidates.len()
        invariant
            i <= candidates@.len(),
            forall|k: int| 0 <= k < i && confirmed_in_time(#[trigger] candidates@[k], deadline_ms)
                ==> now_ms < received_at(candidates@[k]) + grace_ms,
        decreases candidates@.len() - i,
    {
        let c = &candidates[i];
        if c.attempt.send_result.is_ok() {
            match &c.tracking {
                Some(rec) => {
                    if rec.received_at_ms < deadline_ms && matches!(rec.step, TrackStep::Confirmed(_)) {
                        if now_ms >= rec.received_at_ms && now_ms - rec.received_at_ms >= grace_ms {
                            return false;
                        }
                    }
                },
                None => {},
            }
        }
        i = i + 1;
    }
    true
}

} // verus!

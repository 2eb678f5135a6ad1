use usopp_send::monitoring::{
    candidates_to_track, keep_monitoring, resolve_race, track_single_transaction, Commitment,
    MonitoredCandidate, OutcomeStatus, PollObservation, TrackRecord, TrackStep,
};
use usopp_send::transactions::{record_send_attempts, PreparedTransaction, SendAttempt, SendReport};
use usopp_send::Error;

fn prepared(n: usize) -> Vec<PreparedTransaction> {
    (0..n)
        .map(|i| PreparedTransaction {
            rpc_url: format!("http://node{}", i),
            transaction: vec![i as u8; 4],
            signature: [i as u8; 64],
            amount_lamports: 1_000 - i as u64,
        })
        .collect()
}

fn attempt(i: u8, ok: bool, start: u64) -> SendAttempt {
    SendAttempt {
        rpc_url: format!("http://node{}", i),
        original_signature: [i; 64],
        amount_lamports: 100 + i as u64,
        send_result: if ok { Ok([i; 64]) } else { Err(format!("boom {}", i)) },
        send_start_ms: start,
        send_duration_ms: 5,
    }
}

fn confirmed(a: &SendAttempt, time: u128, slot: u64, at: u64) -> TrackRecord {
    TrackRecord {
        step: TrackStep::Confirmed(usopp_send::monitoring::WinningTransactionInfo {
            signature: a.original_signature,
            rpc_url: a.rpc_url.clone(),
            amount_lamports: a.amount_lamports,
            time_to_confirm_ms: time,
            slot,
            confirmation_status: Commitment::Confirmed,
        }),
        received_at_ms: at,
    }
}

#[test]
fn dispatcher_marks_exactly_the_failed_sends() {
    let p = prepared(4);
    let reports: Vec<SendReport> = (0..4)
        .map(|i| SendReport {
            send_result: if i == 1 || i == 3 { Err(format!("rejected {}", i)) } else { Ok([9; 64]) },
            send_start_ms: 10 * i as u64,
            send_duration_ms: 3,
        })
        .collect();
    let attempts = record_send_attempts(&p, reports).unwrap();
    assert_eq!(attempts.len(), 4);
    let failed: Vec<bool> = attempts.iter().map(|a| a.send_result.is_err()).collect();
    assert_eq!(failed, vec![false, true, false, true]);
    assert_eq!(attempts[2].rpc_url, "http://node2");
    assert_eq!(attempts[2].original_signature, [2; 64]);
    assert_eq!(attempts[3].send_result, Err("rejected 3".to_string()));
    assert_eq!(attempts[3].send_start_ms, 30);
}

#[test]
fn dispatcher_count_mismatch() {
    let r = record_send_attempts(&prepared(2), Vec::new());
    assert_eq!(r.unwrap_err(), Error::DispatchCountMismatch { expected: 2, found: 0 });
}

#[test]
fn tracking_steps() {
    let a = attempt(1, true, 1_000);
    let s = track_single_transaction(&a, PollObservation::RpcError("down".into()), 1_500);
    assert!(matches!(s, TrackStep::KeepPolling));
    let s = track_single_transaction(&a, PollObservation::NotFound, 1_500);
    assert!(matches!(s, TrackStep::KeepPolling));
    let obs = PollObservation::Landed { slot: 7, error: None, level: Some(Commitment::Processed) };
    assert!(matches!(track_single_transaction(&a, obs, 1_500), TrackStep::KeepPolling));
    let obs = PollObservation::Landed { slot: 8, error: Some("InsufficientFunds".into()), level: None };
    match track_single_transaction(&a, obs, 1_500) {
        TrackStep::FailedOnChain { error, slot } => {
            assert_eq!(error, "InsufficientFunds");
            assert_eq!(slot, 8);
        }
        _ => panic!("expected an on-chain failure"),
    }
    let obs = PollObservation::Landed { slot: 9, error: None, level: Some(Commitment::Finalized) };
    match track_single_transaction(&a, obs, 1_750) {
        TrackStep::Confirmed(w) => {
            assert_eq!(w.time_to_confirm_ms, 750);
            assert_eq!(w.slot, 9);
            assert_eq!(w.confirmation_status, Commitment::Finalized);
            assert_eq!(w.rpc_url, "http://node1");
        }
        _ => panic!("expected a confirmation"),
    }
    let obs = PollObservation::Landed { slot: 9, error: None, level: Some(Commitment::Confirmed) };
    match track_single_transaction(&a, obs, 900) {
        TrackStep::Confirmed(w) => assert_eq!(w.time_to_confirm_ms, 0),
        _ => panic!("expected a confirmation"),
    }
}

#[test]
fn race_with_800_500_and_never() {
    let a0 = attempt(0, true, 0);
    let a1 = attempt(1, true, 0);
    let a2 = attempt(2, true, 0);
    let t0 = confirmed(&a0, 800, 41, 800);
    let t1 = confirmed(&a1, 500, 40, 500);
    let cands = vec![
        MonitoredCandidate { attempt: a0, tracking: Some(t0), final_check: None },
        MonitoredCandidate { attempt: a1, tracking: Some(t1), final_check: None },
        MonitoredCandidate { attempt: a2, tracking: None, final_check: Some(PollObservation::NotFound) },
    ];
    let (winner, outcomes) = resolve_race(&cands, 2_000);
    let w = winner.unwrap();
    assert_eq!(w.signature, [1; 64]);
    assert_eq!(w.time_to_confirm_ms, 500);
    assert_eq!(w.slot, 40);
    assert_eq!(outcomes.len(), 2);
    assert_eq!(outcomes[0].original_signature, [0; 64]);
    assert!(matches!(
        outcomes[0].status,
        OutcomeStatus::ConfirmedNotFastest { time_to_confirm_ms: 800, level: Commitment::Confirmed }
    ));
    assert_eq!(outcomes[0].last_known_slot, Some(41));
    assert_eq!(outcomes[1].original_signature, [2; 64]);
    assert!(matches!(outcomes[1].status, OutcomeStatus::Unknown));
    assert_eq!(outcomes[1].last_known_slot, None);
}

#[test]
fn same_tick_tie_goes_to_smaller_time() {
    let a0 = attempt(0, true, 0);
    let a1 = attempt(1, true, 0);
    let t0 = confirmed(&a0, 640, 5, 700);
    let t1 = confirmed(&a1, 610, 5, 700);
    let cands = vec![
        MonitoredCandidate { attempt: a0, tracking: Some(t0), final_check: None },
        MonitoredCandidate { attempt: a1, tracking: Some(t1), final_check: None },
    ];
    let (winner, outcomes) = resolve_race(&cands, 5_000);
    assert_eq!(winner.unwrap().signature, [1; 64]);
    assert_eq!(outcomes.len(), 1);
    assert_eq!(outcomes[0].original_signature, [0; 64]);
}

#[test]
fn all_sends_failed_means_no_polling_and_no_winner() {
    let attempts = vec![attempt(0, false, 0), attempt(1, false, 0), attempt(2, false, 0)];
    assert!(candidates_to_track(&attempts).is_empty());
    let cands: Vec<MonitoredCandidate> = attempts
        .into_iter()
        .map(|a| MonitoredCandidate { attempt: a, tracking: None, final_check: None })
        .collect();
    let (winner, outcomes) = resolve_race(&cands, 1_000);
    assert!(winner.is_none());
    assert_eq!(outcomes.len(), 3);
    match &outcomes[2].status {
        OutcomeStatus::SendFailed(reason) => assert_eq!(reason, "boom 2"),
        _ => panic!("expected a failed send"),
    }
}

#[test]
fn timeout_before_any_confirmation() {
    let a0 = attempt(0, true, 0);
    let a1 = attempt(1, true, 0);
    let a2 = attempt(2, false, 0);
    // A confirmation that reached the monitor only after the deadline does not count.
    let late = confirmed(&a0, 3_100, 12, 3_100);
    let cands = vec![
        MonitoredCandidate {
            attempt: a0,
            tracking: Some(late),
            final_check: Some(PollObservation::Landed { slot: 12, error: None, level: Some(Commitment::Processed) }),
        },
        MonitoredCandidate {
            attempt: a1,
            tracking: None,
            final_check: Some(PollObservation::RpcError("timeout".into())),
        },
        MonitoredCandidate { attempt: a2, tracking: None, final_check: None },
    ];
    let (winner, outcomes) = resolve_race(&cands, 3_000);
    assert!(winner.is_none());
    assert_eq!(outcomes.len(), 3);
    assert!(matches!(outcomes[0].status, OutcomeStatus::TimedOut { last_level: Commitment::Processed }));
    assert_eq!(outcomes[0].last_known_slot, Some(12));
    assert!(matches!(outcomes[1].status, OutcomeStatus::Unknown));
    assert!(matches!(outcomes[2].status, OutcomeStatus::SendFailed(_)));
}

#[test]
fn failed_on_chain_is_recorded() {
    let a0 = attempt(0, true, 0);
    let cands = vec![MonitoredCandidate {
        attempt: a0,
        tracking: Some(TrackRecord {
            step: TrackStep::FailedOnChain { error: "AlreadyProcessed".into(), slot: 3 },
            received_at_ms: 100,
        }),
        final_check: None,
    }];
    let (winner, outcomes) = resolve_race(&cands, 1_000);
    assert!(winner.is_none());
    match &outcomes[0].status {
        OutcomeStatus::FailedOnChain(e) => assert_eq!(e, "AlreadyProcessed"),
        _ => panic!("expected an on-chain failure"),
    }
    assert_eq!(outcomes[0].last_known_slot, Some(3));
}

#[test]
fn tracked_candidates_are_the_sent_ones() {
    let attempts = vec![attempt(0, true, 0), attempt(1, false, 0), attempt(2, true, 0)];
    assert_eq!(candidates_to_track(&attempts), vec![0, 2]);
}

#[test]
fn monitor_waits_within_deadline_and_grace() {
    let a0 = attempt(0, true, 0);
    let t0 = confirmed(&a0, 500, 1, 500);
    let none = vec![MonitoredCandidate { attempt: attempt(1, true, 0), tracking: None, final_check: None }];
    assert!(keep_monitoring(&none, 1, 100, 1_000, 200));
    assert!(!keep_monitoring(&none, 0, 100, 1_000, 200));
    assert!(!keep_monitoring(&none, 1, 1_000, 1_000, 200));
    let won = vec![MonitoredCandidate { attempt: a0, tracking: Some(t0), final_check: None }];
    assert!(keep_monitoring(&won, 2, 600, 10_000, 200));
    assert!(!keep_monitoring(&won, 2, 700, 10_000, 200));
}

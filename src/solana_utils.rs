use vstd::prelude::*;

use crate::monitoring::{Commitment, PollObservation};
use crate::Error;

verus! {

/// An account's address and its balance in lamports.
#[derive(Debug, Clone, PartialEq, Eq)]
pub struct AccountRole {
    pubkey: [u8; 32],
    balance: u64,
}

impl AccountRole {
    pub closed spec fn spec_pubkey(&self) -> [u8; 32] {
        self.pubkey
    }

    pub closed spec fn spec_balance(&self) -> u64 {
        self.balance
    }

    pub fn new(pubkey: [u8; 32], balance: u64) -> (r: Self)
        ensures
            r.spec_pubkey() == pubkey,
            r.spec_balance() == balance,
    {
        Self { pubkey, balance }
    }

    pub fn pubkey(&self) -> (r: &[u8; 32])
        ensures
            *r == self.spec_pubkey(),
    {
        &self.pubkey
    }

    pub fn balance_lamports(&self) -> (r: u64)
        ensures
            r == self.spec_balance(),
    {
        self.balance
    }
}

pub open spec fn is_account(a: AccountRole, pubkey: [u8; 32], balance: u64) -> bool {
    a.spec_pubkey() == pubkey && a.spec_balance() == balance
}

/// Orders two accounts as (sender, recipient) from their balance lookups: the richer one
/// sends, the first one on equal balances. The first failed lookup is returned as is.
pub fn determine_account_roles(
    pubkey1: [u8; 32],
    balance1: Result<u64, Error>,
    pubkey2: [u8; 32],
    balance2: Result<u64, Error>,
) -> (r: Result<(AccountRole, AccountRole), Error>)
    ensures
        match (balance1, balance2) {
            (Err(e), _) => r == Err::<(AccountRole, AccountRole), Error>(e),
            (Ok(_), Err(e)) => r == Err::<(AccountRole, AccountRole), Error>(e),
            (Ok(b1), Ok(b2)) => r matches Ok((sender, recipient)) && if b1 >= b2 {
                is_account(sender, pubkey1, b1) && is_account(recipient, pubkey2, b2)
            } else {
                is_account(sender, pubkey2, b2) && is_account(recipient, pubkey1, b1)
            },
        },
{
    let b1 = match balance1 {
        Ok(b) => b,
        Err(e) => return Err(e),
    };
    let b2 = match balance2 {
        Ok(b) => b,
        Err(e) => return Err(e),
    };
    let acc_role1 = AccountRole::new(pubkey1, b1);
    let acc_role2 = AccountRole::new(pubkey2, b2);
    if b1 >= b2 {
        Ok((acc_role1, acc_role2))
    } else {
        Ok((acc_role2, acc_role1))
    }
}

/// A submitted transaction under watch.
#[derive(Debug, Clone)]
pub struct MonitoredTxInfo {
    pub signature: [u8; 64],
    /// When it was sent, in milliseconds on the run's clock.
    pub send_time: u64,
    pub rpc_url_sent_via: String,
}

/// The transaction seen confirmed first.
#[derive(Debug)]
pub struct WinningTxResult {
    pub signature: [u8; 64],
    pub rpc_url_sent_via: String,
    pub latency_ms: u64,
    pub slot: u64,
}

/// How long the watch over all submitted transactions may last, in milliseconds.
pub const MONITORING_TIMEOUT_MS: u64 = 60_000;

/// The pause between two status queries, in milliseconds.
pub const POLLING_INTERVAL_MS: u64 = 500;

/// The watch that began at `started_ms` is over at `now_ms`.
pub fn monitoring_timed_out(started_ms: u64, now_ms: u64) -> (r: bool)
    ensures
        r == (now_ms >= started_ms && now_ms - started_ms >= MONITORING_TIMEOUT_MS),
{
    now_ms >= started_ms && now_ms - started_ms >= MONITORING_TIMEOUT_MS
}

/// The status reports the transaction at "confirmed" or stronger, without error.
pub open spec fn is_confirmed_ok(obs: PollObservation) -> bool {
    obs matches PollObservation::Landed { error: None, level: Some(l), .. } && l.is_confirmed()
}

/// Milliseconds from the send of `tx` to `now_ms`, or 0 when the clock reads earlier.
pub open spec fn latency_of(tx: MonitoredTxInfo, now_ms: u64) -> u64 {
    if now_ms >= tx.send_time { (now_ms - tx.send_time) as u64 } else { 0 }
}

/// Entry `k` of the batch shows its transaction confirmed without error.
pub open spec fn confirmed_at(submitted: Seq<MonitoredTxInfo>, statuses: Seq<PollObservation>, k: int) -> bool {
    0 <= k < submitted.len() && k < statuses.len() && is_confirmed_ok(statuses[k])
}

/// From one batch of status queries (one per submitted transaction, in order), picks among
/// the transactions found confirmed without error the one with the smallest latency at
/// `now_ms`, the earliest in the batch between equal latencies.
pub fn first_confirmed_transaction(submitted: &Vec<MonitoredTxInfo>, statuses: &Vec<PollObservation>, now_ms: u64) -> (r: Option<WinningTxResult>)
    ensures
        r is None <==> forall|k: int| !#[trigger] confirmed_at(submitted@, statuses@, k),
        r matches Some(w) ==> exists|k: int| {
            &&& #[trigger] confirmed_at(submitted@, statuses@, k)
            &&& forall|j: int| #[trigger] confirmed_at(submitted@, statuses@, j)
                ==> latency_of(submitted@[k], now_ms) <= latency_of(submitted@[j], now_ms)
            &&& forall|j: int| 0 <= j < k && #[trigger] confirmed_at(submitted@, statuses@, j)
                ==> latency_of(submitted@[k], now_ms) < latency_of(submitted@[j], now_ms)
            &&& w.signature == submitted@[k].signature
            &&& w.rpc_url_sent_via == submitted@[k].rpc_url_sent_via
            &&& w.slot == statuses@[k]->Landed_slot
            &&& w.latency_ms == latency_of(submitted@[k], now_ms)
        },
{
    let mut best: Option<usize> = None;
    let mut best_latency: u64 = 0;
    let mut i: usize = 0;
    while i < submitted.len() && i < statuses.len()
        invariant
            i <= submitted@.len(),
            i <= statuses@.len(),
            match best {
                None => forall|j: int| 0 <= j < i ==> !#[trigger] confirmed_at(submitted@, statuses@, j),
                Some(b) => {
                    &&& b < i
                    &&& confirmed_at(submitted@, statuses@, b as int)
                    &&& best_latency == latency_of(submitted@[b as int], now_ms)
                    &&& forall|j: int| 0 <= j < i && #[trigger] confirmed_at(submitted@, statuses@, j)
                        ==> best_latency <= latency_of(submitted@[j], now_ms)
                    &&& forall|j: int| 0 <= j < b && #[trigger] confirmed_at(submitted@, statuses@, j)
                        ==> best_latency < latency_of(submitted@[j], now_ms)
                },
            },
        decreases submitted@.len() - i,
    {
        let qualifies = match &statuses[i] {
            PollObservation::Landed { error: None, level: Some(l), .. } => *l != Commitment::Processed,
            _ => false,
        };
        assert(qualifies == confirmed_at(submitted@, statuses@, i as int));
        if qualifies {
            let tx = &submitted[i];
            let latency_ms = if now_ms >= tx.send_time { now_ms - tx.send_time } else { 0 };
            let better = match best {
                None => true,
                Some(_) => latency_ms < best_latency,
            };
            if better {
                best = Some(i);
                best_latency = latency_ms;
            }
        }
        i = i + 1;
    }
    match best {
        None => {
            assert forall|k: int| !#[trigger] confirmed_at(submitted@, statuses@, k) by {
                if 0 <= k < i {
                }
            }
            None
        },
        Some(b) => {
            let tx = &submitted[b];
            let slot = match &statuses[b] {
                PollObservation::Landed { slot, .. } => *slot,
                _ => 0,
            };
            assert forall|j: int| #[trigger] confirmed_at(submitted@, statuses@, j)
                implies best_latency <= latency_of(submitted@[j], now_ms) by {
                assert(0 <= j < i);
            }
            Some(WinningTxResult {
                signature: tx.signature,
                rpc_url_sent_via: tx.rpc_url_sent_via.clone(),
                latency_ms: best_latency,
                slot,
            })
        },
    }
}

} // verus!

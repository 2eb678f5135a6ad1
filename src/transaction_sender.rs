use vstd::prelude::*;

use crate::transactions::{
    candidate_count, is_signed_transfer, sign_conflicting_transfers, signed_transfer, spend_amount,
    MIN_SENDER_RESERVE_LAMPORTS,
};
use crate::Error;

verus! {

/// Direct sending is not offered by this interface: it always reports so.
pub fn send_transactions() -> (r: Result<(), String>)
    ensures
        r matches Err(m) && m@ == "Transaction sending not yet implemented"@,
{
    Err("Transaction sending not yet implemented".to_string())
}

/// Direct sending is not offered by this interface: it always reports so.
pub fn send_actual_transactions_placeholder() -> (r: Result<(), String>)
    ensures
        r matches Err(m) && m@ == "Transaction sending not yet implemented"@,
{
    Err("Transaction sending not yet implemented".to_string())
}

/// Builds `num_transactions` conflicting transfers from the sender to the recipient, all
/// over `latest_blockhash`, each spending a smaller share of what lies above the reserve.
/// The transactions are returned in their wire encoding.
pub fn construct_conflicting_transactions(
    sender_keypair: [u8; 32],
    sender_balance: u64,
    recipient_pubkey: [u8; 32],
    latest_blockhash: [u8; 32],
    num_transactions: usize,
) -> (r: Result<Vec<Vec<u8>>, Error>)
    ensures
        num_transactions == 0 ==> r == Err::<Vec<Vec<u8>>, Error>(Error::NoEndpoints),
        num_transactions > 0 && sender_balance <= MIN_SENDER_RESERVE_LAMPORTS ==> r == Err::<Vec<Vec<u8>>, Error>(
            Error::InsufficientBalance { balance: sender_balance, reserve: MIN_SENDER_RESERVE_LAMPORTS },
        ),
        num_transactions > 0 && sender_balance > MIN_SENDER_RESERVE_LAMPORTS ==> (r matches Ok(v) && {
            &&& v@.len() == candidate_count(num_transactions as int)
            &&& forall|k: int| 0 <= k < v@.len() ==> (#[trigger] v@[k])@ == signed_transfer(
                sender_keypair@,
                recipient_pubkey@,
                spend_amount(sender_balance - MIN_SENDER_RESERVE_LAMPORTS, k) as u64,
                latest_blockhash@,
            ).1
        }),
{
    if num_transactions == 0 {
        return Err(Error::NoEndpoints);
    }
    if sender_balance <= MIN_SENDER_RESERVE_LAMPORTS {
        return Err(Error::InsufficientBalance { balance: sender_balance, reserve: MIN_SENDER_RESERVE_LAMPORTS });
    }
    let ghost spendable = sender_balance - MIN_SENDER_RESERVE_LAMPORTS;
    let transfers = sign_conflicting_transfers(
        sender_keypair,
        sender_balance,
        recipient_pubkey,
        latest_blockhash,
        num_transactions,
    );
    let mut out: Vec<Vec<u8>> = Vec::new();
    let mut i: usize = 0;
    while i < transfers.len()
        invariant
            i <= transfers@.len(),
            transfers@.len() == candidate_count(num_transactions as int),
            forall|k: int| 0 <= k < transfers@.len() ==> #[trigger] is_signed_transfer(
                transfers@[k], sender_keypair@, recipient_pubkey@, spend_amount(spendable, k), latest_blockhash@),
            out@.len() == i,
            forall|k: int| 0 <= k < i ==> (#[trigger] out@[k])@ == transfers@[k].transaction@,
        decreases transfers@.len() - i,
    {
        out.push(transfers[i].transaction.clone());
        i = i + 1;
    }
    assert forall|k: int| 0 <= k < out@.len() implies (#[trigger] out@[k])@ == signed_transfer(
        sender_keypair@, recipient_pubkey@, spend_amount(spendable, k) as u64, latest_blockhash@).1 by {
        assert(is_signed_transfer(transfers@[k], sender_keypair@, recipient_pubkey@, spend_amount(spendable, k), latest_blockhash@));
    }
    if out.len() == 0 {
        return Err(Error::NoCandidatesConstructed);
    }
    Ok(out)
}

/// What dispatching one transaction to one endpoint gave.
#[derive(Debug)]
pub struct SendAttempt {
    pub rpc_url: String,
    /// The signature the endpoint returned, when the send succeeded.
    pub signature: Option<[u8; 64]>,
    /// When the send started, in milliseconds on the run's clock.
    pub send_time: Option<u64>,
    /// Why the send failed.
    pub error: Option<String>,
}

impl SendAttempt {
    /// The record of a send to `rpc_url`, started at `send_time`, that returned `result`.
    pub fn from_send_result(rpc_url: String, result: Result<[u8; 64], String>, send_time: u64) -> (r: SendAttempt)
        ensures
            r.rpc_url == rpc_url,
            r.send_time == Some(send_time),
            match result {
                Ok(sig) => r.signature == Some(sig) && r.error is None,
                Err(e) => r.signature is None && r.error == Some(e),
            },
    {
        match result {
            Ok(sig) => SendAttempt { rpc_url, signature: Some(sig), send_time: Some(send_time), error: None },
            Err(e) => SendAttempt { rpc_url, signature: None, send_time: Some(send_time), error: Some(e) },
        }
    }
}

/// Pairs each endpoint with the transaction it is to receive, in order. Fails, dispatching
/// nothing, when the counts differ.
pub fn pair_for_dispatch(rpc_urls: Vec<String>, transactions: Vec<Vec<u8>>) -> (r: Result<Vec<(String, Vec<u8>)>, Error>)
    ensures
        rpc_urls@.len() != transactions@.len() ==> r == Err::<Vec<(String, Vec<u8>)>, Error>(
            Error::DispatchCountMismatch { expected: transactions@.len() as usize, found: rpc_urls@.len() as usize },
        ),
        rpc_urls@.len() == transactions@.len() ==> (r matches Ok(v) && v@.len() == rpc_urls@.len()
            && forall|k: int| 0 <= k < v@.len() ==> (#[trigger] v@[k]).0 == rpc_urls@[k] && v@[k].1@ == transactions@[k]@),
{
    if rpc_urls.len() != transactions.len() {
        return Err(Error::DispatchCountMismatch { expected: transactions.len(), found: rpc_urls.len() });
    }
    let mut out: Vec<(String, Vec<u8>)> = Vec::new();
    let mut i: usize = 0;
    while i < rpc_urls.len()
        invariant
            rpc_urls@.len() == transactions@.len(),
            i <= rpc_urls@.len(),
            out@.len() == i,
            forall|k: int| 0 <= k < i ==> (#[trigger] out@[k]).0 == rpc_urls@[k] && out@[k].1@ == transactions@[k]@,
        decreases rpc_urls@.len() - i,
    {
        out.push((rpc_urls[i].clone(), transactions[i].clone()));
        i = i + 1;
    }
    Ok(out)
}

} // verus!

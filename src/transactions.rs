use vstd::prelude::*;

use solana_sdk::pubkey::Pubkey;
use solana_sdk::signer::keypair::Keypair;

use crate::accounts::AccountInfo;
use crate::Error;

verus! {

/// Lamports that must stay in the sender's account after any one candidate transfer.
pub const MIN_SENDER_RESERVE_LAMPORTS: u64 = 5_000;

/// Percent of the spendable balance that the first endpoint's candidate spends; each later
/// endpoint spends one percent less.
pub const FIRST_SPEND_PERCENT: u64 = 90;

/// The spend fraction of endpoint `i`, in percent: `0.90 - 0.01 * i`.
pub open spec fn spend_percent(i: int) -> int {
    FIRST_SPEND_PERCENT - i
}

/// `floor(spendable * f(i))`, rounded up to 1 and clamped to `spendable`.
pub open spec fn spend_amount(spendable: int, i: int) -> int {
    let raw = spendable * spend_percent(i) / 100;
    let lifted = if raw == 0 { 1 } else { raw };
    if lifted > spendable { spendable } else { lifted }
}

/// How many of `n` endpoints get a candidate: those whose spend fraction is positive.
pub open spec fn candidate_count(n: int) -> int {
    if n < FIRST_SPEND_PERCENT { n } else { FIRST_SPEND_PERCENT as int }
}

/// The amount spent by the candidate of endpoint `i`, from a balance above the reserve.
pub fn spend_amount_at(spendable: u64, i: usize) -> (r: u64)
    requires
        spendable > 0,
        i < FIRST_SPEND_PERCENT,
    ensures
        r == spend_amount(spendable as int, i as int),
        1 <= r <= spendable,
{
    let pct = FIRST_SPEND_PERCENT - i as u64;
    let wide = spendable as u128;
    assert(wide * (pct as u128) <= wide * 100) by (nonlinear_arith)
        requires pct <= 100;
    assert(wide * (pct as u128) / 100 <= wide) by (nonlinear_arith)
        requires wide * (pct as u128) <= wide * 100;
    let raw = (wide * (pct as u128) / 100) as u64;
    let lifted = if raw == 0 { 1 } else { raw };
    if lifted > spendable { spendable } else { lifted }
}

/// The first signature and the wire encoding of a signed transfer.
pub uninterp spec fn signed_transfer(secret: Seq<u8>, to: Seq<u8>, lamports: u64, blockhash: Seq<u8>) -> (Seq<u8>, Seq<u8>);

/// Relies on solana_sdk::system_transaction::transfer: it moves `lamports` from the account of
/// the keypair whose secret seed is `secret` to `to`, over `blockhash`, signed with ed25519,
/// whose signatures are deterministic. The transaction is returned with its first signature
/// and its bincode wire encoding, both functions of the arguments alone.
#[verifier::external_body]
fn sign_transfer(secret: [u8; 32], to: [u8; 32], lamports: u64, blockhash: [u8; 32]) -> (r: ([u8; 64], Vec<u8>))
    ensures
        (r.0@, r.1@) == signed_transfer(secret@, to@, lamports, blockhash@),
{
    let keypair = Keypair::new_from_array(secret);
    let tx = solana_sdk::system_transaction::transfer(
        &keypair,
        &Pubkey::new_from_array(to),
        lamports,
        solana_sdk::hash::Hash::new_from_array(blockhash),
    );
    (tx.signatures[0].into(), bincode::serialize(&tx).unwrap_or_default())
}

/// One signed candidate transfer.
#[derive(Debug, Clone)]
pub struct SignedTransfer {
    pub amount_lamports: u64,
    pub signature: [u8; 64],
    pub transaction: Vec<u8>,
}

/// `t` is the transfer of `amount` from `secret` to `to` over `blockhash`.
pub open spec fn is_signed_transfer(t: SignedTransfer, secret: Seq<u8>, to: Seq<u8>, amount: int, blockhash: Seq<u8>) -> bool {
    &&& t.amount_lamports == amount
    &&& (t.signature@, t.transaction@) == signed_transfer(secret, to, t.amount_lamports, blockhash)
}

/// `ts` holds, in endpoint order, the candidate transfers for `n` endpoints from an account
/// whose spendable balance is `spendable`.
pub open spec fn is_conflicting_set(ts: Seq<SignedTransfer>, secret: Seq<u8>, to: Seq<u8>, spendable: int, n: int, blockhash: Seq<u8>) -> bool {
    &&& ts.len() == candidate_count(n)
    &&& forall|k: int| 0 <= k < ts.len() ==> #[trigger] is_signed_transfer(ts[k], secret, to, spend_amount(spendable, k), blockhash)
}

/// Signs one transfer per endpoint, for the first `n` endpoints whose spend fraction is
/// positive, each spending `spend_amount` of what lies above the reserve.
pub fn sign_conflicting_transfers(secret: [u8; 32], balance: u64, to: [u8; 32], blockhash: [u8; 32], n: usize) -> (r: Vec<SignedTransfer>)
    requires
        balance > MIN_SENDER_RESERVE_LAMPORTS,
    ensures
        is_conflicting_set(r@, secret@, to@, balance - MIN_SENDER_RESERVE_LAMPORTS, n as int, blockhash@),
{
    let spendable = balance - MIN_SENDER_RESERVE_LAMPORTS;
    let mut out: Vec<SignedTransfer> = Vec::new();
    let mut i: usize = 0;
    while i < n && i < FIRST_SPEND_PERCENT as usize
        invariant
            spendable == balance - MIN_SENDER_RESERVE_LAMPORTS,
            spendable > 0,
            i <= n,
            i <= FIRST_SPEND_PERCENT,
            out@.len() == i,
            forall|k: int| 0 <= k < i ==> #[trigger] is_signed_transfer(out@[k], secret@, to@, spend_amount(spendable as int, k), blockhash@),
        decreases n - i,
    {
        let amount = spend_amount_at(spendable, i);
        let (signature, transaction) = sign_transfer(secret, to, amount, blockhash);
        out.push(SignedTransfer { amount_lamports: amount, signature, transaction });
        i = i + 1;
    }
    out
}


/// The spend amount never grows from one endpoint to a later one.
pub proof fn lemma_spend_amount_non_increasing(spendable: int, i: int, j: int)
    requires
        spendable > 0,
        0 <= i <= j < FIRST_SPEND_PERCENT,
    ensures
        spend_amount(spendable, j) <= spend_amount(spendable, i),
        1 <= spend_amount(spendable, j) <= spendable,
{
    let pi = spend_percent(i);
    let pj = spend_percent(j);
    assert(spendable * pj <= spendable * pi) by (nonlinear_arith)
        requires spendable > 0, pj <= pi;
    assert(spendable * pj / 100 <= spendable * pi / 100) by {
        vstd::arithmetic::div_mod::lemma_div_is_ordered(spendable * pj, spendable * pi, 100);
    }
    assert(0 <= spendable * pj) by (nonlinear_arith)
        requires spendable > 0, pj > 0;
    assert(spendable * pj / 100 <= spendable) by (nonlinear_arith)
        requires spendable > 0, 0 < pj <= 100;
}

/// A signed transaction ready to be sent to one endpoint.
#[derive(Debug, Clone)]
pub struct PreparedTransaction {
    pub rpc_url: String,
    /// The signed transaction in its wire encoding.
    pub transaction: Vec<u8>,
    pub signature: [u8; 64],
    pub amount_lamports: u64,
}

/// `r` is what building the candidates from `sender` to `recipient` for the endpoints
/// `rpc_urls`, over `blockhash`, must give: an error when there is no endpoint or nothing
/// above the reserve, else one transfer per endpoint with a positive spend fraction, in
/// endpoint order, each spending `spend_amount` of the balance above the reserve.
pub open spec fn builds_candidates(
    sender: AccountInfo,
    recipient: AccountInfo,
    rpc_urls: Seq<String>,
    blockhash: Seq<u8>,
    r: Result<Vec<PreparedTransaction>, Error>,
) -> bool {
    if rpc_urls.len() == 0 {
        r == Err::<Vec<PreparedTransaction>, Error>(Error::NoEndpoints)
    } else if sender.balance <= MIN_SENDER_RESERVE_LAMPORTS {
        r == Err::<Vec<PreparedTransaction>, Error>(
            Error::InsufficientBalance { balance: sender.balance, reserve: MIN_SENDER_RESERVE_LAMPORTS },
        )
    } else {
        r matches Ok(v) && {
            let spendable = sender.balance - MIN_SENDER_RESERVE_LAMPORTS;
            &&& v@.len() == candidate_count(rpc_urls.len() as int)
            &&& forall|k: int| 0 <= k < v@.len() ==> {
                &&& (#[trigger] v@[k]).rpc_url@ == rpc_urls[k]@
                &&& v@[k].amount_lamports == spend_amount(spendable, k)
                &&& (v@[k].signature@, v@[k].transaction@) == signed_transfer(
                    sender.keypair@, recipient.pubkey@, v@[k].amount_lamports, blockhash)
            }
        }
    }
}

/// Tells, before any blockhash is fetched, whether candidates can be built from `sender`
/// for `rpc_urls`: the same errors, on the same inputs, as the construction itself.
pub fn check_construction_inputs(sender_account: &AccountInfo, rpc_urls: &Vec<String>) -> (r: Result<(), Error>)
    ensures
        rpc_urls@.len() == 0 ==> r == Err::<(), Error>(Error::NoEndpoints),
        rpc_urls@.len() > 0 && sender_account.balance <= MIN_SENDER_RESERVE_LAMPORTS ==> r == Err::<(), Error>(
            Error::InsufficientBalance { balance: sender_account.balance, reserve: MIN_SENDER_RESERVE_LAMPORTS },
        ),
        rpc_urls@.len() > 0 && sender_account.balance > MIN_SENDER_RESERVE_LAMPORTS ==> r is Ok,
{
    if rpc_urls.len() == 0 {
        return Err(Error::NoEndpoints);
    }
    if sender_account.balance <= MIN_SENDER_RESERVE_LAMPORTS {
        return Err(Error::InsufficientBalance {
            balance: sender_account.balance,
            reserve: MIN_SENDER_RESERVE_LAMPORTS,
        });
    }
    Ok(())
}

/// Builds one conflicting transfer per endpoint from `sender` to `recipient`, all over the
/// same `recent_blockhash`, so that the ledger can accept at most one of them.
pub fn construct_conflicting_transactions(
    sender_account: &AccountInfo,
    recipient_account: &AccountInfo,
    rpc_urls: &Vec<String>,
    recent_blockhash: [u8; 32],
) -> (r: Result<Vec<PreparedTransaction>, Error>)
    ensures
        builds_candidates(*sender_account, *recipient_account, rpc_urls@, recent_blockhash@, r),
        r matches Ok(v) ==> {
            &&& 0 < v@.len() <= rpc_urls@.len()
            &&& v@.len() <= FIRST_SPEND_PERCENT
            &&& forall|i: int, j: int| 0 <= i < j < v@.len()
                ==> #[trigger] v@[j].amount_lamports <= #[trigger] v@[i].amount_lamports
        },
{
    match check_construction_inputs(sender_account, rpc_urls) {
        Ok(()) => {},
        Err(e) => return Err(e),
    }
    let ghost spendable = sender_account.balance - MIN_SENDER_RESERVE_LAMPORTS;
    let transfers = sign_conflicting_transfers(
        sender_account.keypair,
        sender_account.balance,
        recipient_account.pubkey,
        recent_blockhash,
        rpc_urls.len(),
    );
    let mut prepared: Vec<PreparedTransaction> = Vec::new();
    let mut i: usize = 0;
    while i < transfers.len()
        invariant
            transfers@.len() == candidate_count(rpc_urls@.len() as int),
            is_conflicting_set(transfers@, sender_account.keypair@, recipient_account.pubkey@, spendable, rpc_urls@.len() as int, recent_blockhash@),
            i <= transfers@.len(),
            prepared@.len() == i,
            forall|k: int| 0 <= k < i ==> {
                &&& (#[trigger] prepared@[k]).rpc_url@ == rpc_urls@[k]@
                &&& prepared@[k].amount_lamports == transfers@[k].amount_lamports
                &&& prepared@[k].signature == transfers@[k].signature
                &&& prepared@[k].transaction@ == transfers@[k].transaction@
            },
        decreases transfers@.len() - i,
    {
        assert(is_signed_transfer(transfers@[i as int], sender_account.keypair@, recipient_account.pubkey@, spend_amount(spendable, i as int), recent_blockhash@));
        let t = &transfers[i];
        prepared.push(PreparedTransaction {
            rpc_url: rpc_urls[i].clone(),
            transaction: t.transaction.clone(),
            signature: t.signature,
            amount_lamports: t.amount_lamports,
        });
        i = i + 1;
    }
    if prepared.len() == 0 {
        return Err(Error::NoCandidatesConstructed);
    }
    assert forall|k: int| 0 <= k < prepared@.len() implies {
        &&& (#[trigger] prepared@[k]).amount_lamports == spend_amount(spendable, k)
        &&& (prepared@[k].signature@, prepared@[k].transaction@) == signed_transfer(
            sender_account.keypair@, recipient_account.pubkey@, prepared@[k].amount_lamports, recent_blockhash@)
    } by {
        assert(is_signed_transfer(transfers@[k], sender_account.keypair@, recipient_account.pubkey@, spend_amount(spendable, k), recent_blockhash@));
    }
    assert forall|a: int, b: int| 0 <= a < b < prepared@.len()
        implies #[trigger] prepared@[b].amount_lamports <= #[trigger] prepared@[a].amount_lamports by {
        assert(prepared@[a].amount_lamports == spend_amount(spendable, a));
        assert(prepared@[b].amount_lamports == spend_amount(spendable, b));
        lemma_spend_amount_non_increasing(spendable, a, b);
    }
    Ok(prepared)
}

/// Building the candidates twice, from the same accounts and blockhash and for endpoint
/// lists of the same length, gives the same amounts and byte-identical signed transactions.
pub proof fn lemma_construction_is_deterministic(
    sender: AccountInfo,
    recipient: AccountInfo,
    urls1: Seq<String>,
    urls2: Seq<String>,
    blockhash: Seq<u8>,
    r1: Result<Vec<PreparedTransaction>, Error>,
    r2: Result<Vec<PreparedTransaction>, Error>,
)
    requires
        urls1.len() == urls2.len(),
        builds_candidates(sender, recipient, urls1, blockhash, r1),
        builds_candidates(sender, recipient, urls2, blockhash, r2),
    ensures
        r1 is Ok <==> r2 is Ok,
        r1 is Err ==> r1 == r2,
        r1 matches Ok(v1) ==> r2 matches Ok(v2) && v1@.len() == v2@.len() && forall|k: int|
            0 <= k < v1@.len() ==> {
                &&& (#[trigger] v1@[k]).amount_lamports == v2@[k].amount_lamports
                &&& v1@[k].signature == v2@[k].signature
                &&& v1@[k].transaction@ == v2@[k].transaction@
            },
{
    if r1 is Ok {
        let v1 = r1->Ok_0;
        let v2 = r2->Ok_0;
        assert forall|k: int| 0 <= k < v1@.len() implies {
            &&& (#[trigger] v1@[k]).amount_lamports == v2@[k].amount_lamports
            &&& v1@[k].signature == v2@[k].signature
            &&& v1@[k].transaction@ == v2@[k].transaction@
        } by {
            assert(v1@[k].amount_lamports == v2@[k].amount_lamports);
            assert(v1@[k].signature@ == v2@[k].signature@);
        }
    }
}


/// What the submission of one candidate reported: the endpoint's signature or its error,
/// when the send started (in milliseconds on the run's clock) and how long it took.
#[derive(Debug)]
pub struct SendReport {
    pub send_result: Result<[u8; 64], String>,
    pub send_start_ms: u64,
    pub send_duration_ms: u128,
}

/// The result of dispatching one candidate to its endpoint.
#[derive(Debug)]
pub struct SendAttempt {
    pub rpc_url: String,
    pub original_signature: [u8; 64],
    pub amount_lamports: u64,
    pub send_result: Result<[u8; 64], String>,
    /// When the send started, in milliseconds on the run's clock.
    pub send_start_ms: u64,
    pub send_duration_ms: u128,
}

/// `a` records the dispatch of `p` as `report` tells it.
pub open spec fn records_dispatch(a: SendAttempt, p: PreparedTransaction, report: SendReport) -> bool {
    &&& a.rpc_url == p.rpc_url
    &&& a.original_signature == p.signature
    &&& a.amount_lamports == p.amount_lamports
    &&& a.send_result == report.send_result
    &&& a.send_start_ms == report.send_start_ms
    &&& a.send_duration_ms == report.send_duration_ms
}

/// Pairs each candidate with the report of its own submission, in candidate order. A
/// failed submission is recorded as failed and touches no other candidate's record. The
/// reports must be as many as the candidates, else nothing is recorded.
pub fn record_send_attempts(prepared: &Vec<PreparedTransaction>, reports: Vec<SendReport>) -> (r: Result<Vec<SendAttempt>, Error>)
    ensures
        reports@.len() != prepared@.len() ==> r == Err::<Vec<SendAttempt>, Error>(
            Error::DispatchCountMismatch { expected: prepared@.len() as usize, found: reports@.len() as usize },
        ),
        reports@.len() == prepared@.len() ==> (r matches Ok(v) && v@.len() == prepared@.len()
            && forall|k: int| 0 <= k < v@.len() ==> #[trigger] records_dispatch(v@[k], prepared@[k], reports@[k])),
{
    if reports.len() != prepared.len() {
        return Err(Error::DispatchCountMismatch { expected: prepared.len(), found: reports.len() });
    }
    let mut out: Vec<SendAttempt> = Vec::new();
    let mut i: usize = 0;
    while i < prepared.len()
        invariant
            reports@.len() == prepared@.len(),
            i <= prepared@.len(),
            out@.len() == i,
            forall|k: int| 0 <= k < i ==> #[trigger] records_dispatch(out@[k], prepared@[k], reports@[k]),
        decreases prepared@.len() - i,
    {
        let p = &prepared[i];
        let rep = &reports[i];
        let send_result = match &rep.send_result {
            Ok(sig) => Ok(*sig),
            Err(e) => Err(e.clone()),
        };
        out.push(SendAttempt {
            rpc_url: p.rpc_url.clone(),
            original_signature: p.signature,
            amount_lamports: p.amount_lamports,
            send_result,
            send_start_ms: rep.send_start_ms,
            send_duration_ms: rep.send_duration_ms,
        });
        i = i + 1;
    }
    Ok(out)
}

} // verus!

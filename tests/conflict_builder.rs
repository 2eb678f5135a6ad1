use solana_sdk::signature::Signer;
use solana_sdk::signer::keypair::Keypair;
use solana_sdk::transaction::Transaction;
use usopp_send::accounts::AccountInfo;
use usopp_send::transactions::{
    check_construction_inputs, construct_conflicting_transactions, spend_amount_at, PreparedTransaction,
    MIN_SENDER_RESERVE_LAMPORTS,
};
use usopp_send::Error;

fn account(seed: u8, balance: u64) -> AccountInfo {
    let kp = Keypair::new_from_array([seed; 32]);
    let mut a = AccountInfo::new([seed; 32], kp.pubkey().to_bytes());
    a.balance = balance;
    a
}

fn urls(n: usize) -> Vec<String> {
    (0..n).map(|i| format!("http://node{}:8899", i)).collect()
}

fn build(balance: u64, n: usize) -> Result<Vec<PreparedTransaction>, Error> {
    construct_conflicting_transactions(&account(7, balance), &account(9, 0), &urls(n), [3u8; 32])
}

#[test]
fn example_amounts_for_three_endpoints() {
    let txs = build(1_000_000, 3).unwrap();
    let amounts: Vec<u64> = txs.iter().map(|t| t.amount_lamports).collect();
    assert_eq!(amounts, vec![895_500, 885_550, 875_600]);
    assert_eq!(txs[1].rpc_url, "http://node1:8899");
}

#[test]
fn spend_amount_formula() {
    assert_eq!(spend_amount_at(995_000, 0), 895_500);
    assert_eq!(spend_amount_at(995_000, 1), 885_550);
    assert_eq!(spend_amount_at(995_000, 2), 875_600);
    assert_eq!(spend_amount_at(995_000, 89), 9_950);
    // A tiny balance still gives every viable endpoint one lamport.
    assert_eq!(spend_amount_at(1, 0), 1);
    assert_eq!(spend_amount_at(1, 89), 1);
    assert_eq!(spend_amount_at(u64::MAX, 0), (u64::MAX as u128 * 90 / 100) as u64);
}

#[test]
fn at_most_ninety_candidates_non_increasing() {
    let txs = build(MIN_SENDER_RESERVE_LAMPORTS + 150, 100).unwrap();
    assert_eq!(txs.len(), 90);
    for w in txs.windows(2) {
        assert!(w[1].amount_lamports <= w[0].amount_lamports);
        assert!(w[1].amount_lamports >= 1);
    }
    assert_eq!(txs[0].amount_lamports, 135);
    assert_eq!(txs[89].amount_lamports, 1);
    assert_eq!(txs[89].rpc_url, "http://node89:8899");
}

#[test]
fn construction_is_deterministic() {
    let a = build(2_000_000, 4).unwrap();
    let b = build(2_000_000, 4).unwrap();
    assert_eq!(a.len(), b.len());
    for (x, y) in a.iter().zip(b.iter()) {
        assert_eq!(x.transaction, y.transaction);
        assert_eq!(x.signature, y.signature);
    }
    // Candidates differ from each other: they spend different amounts.
    assert_ne!(a[0].transaction, a[1].transaction);
}

#[test]
fn balance_at_or_below_reserve_is_refused() {
    let r = build(MIN_SENDER_RESERVE_LAMPORTS, 3);
    assert_eq!(
        r.unwrap_err(),
        Error::InsufficientBalance { balance: 5_000, reserve: 5_000 }
    );
    assert!(matches!(build(0, 2), Err(Error::InsufficientBalance { .. })));
}

#[test]
fn no_endpoints_is_refused() {
    assert_eq!(build(1_000_000, 0).unwrap_err(), Error::NoEndpoints);
}

#[test]
fn signed_wire_form_decodes_to_the_signed_transfer() {
    let txs = build(1_000_000, 2).unwrap();
    let tx: Transaction = bincode::deserialize(&txs[0].transaction).unwrap();
    assert!(tx.verify().is_ok());
    let sig: [u8; 64] = tx.signatures[0].into();
    assert_eq!(sig, txs[0].signature);
    assert_eq!(tx.message.recent_blockhash.to_bytes(), [3u8; 32]);
    let sender = Keypair::new_from_array([7u8; 32]).pubkey();
    let recipient = Keypair::new_from_array([9u8; 32]).pubkey();
    assert_eq!(tx.message.account_keys[0], sender);
    assert_eq!(tx.message.account_keys[1], recipient);
    let data = &tx.message.instructions[0].data;
    assert_eq!(&data[4..12], &895_500u64.to_le_bytes());
}

#[test]
fn inputs_checked_before_any_blockhash() {
    assert_eq!(check_construction_inputs(&account(7, 1_000_000), &urls(0)), Err(Error::NoEndpoints));
    assert_eq!(
        check_construction_inputs(&account(7, 4_000), &urls(2)),
        Err(Error::InsufficientBalance { balance: 4_000, reserve: 5_000 })
    );
    assert_eq!(check_construction_inputs(&account(7, 5_001), &urls(2)), Ok(()));
}

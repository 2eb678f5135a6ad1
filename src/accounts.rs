use vstd::prelude::*;

use crate::Error;

verus! {

/// The part an account plays in a race.
#[derive(Debug, Clone, Copy, PartialEq, Eq, Structural)]
pub enum AccountRole {
    Sender,
    Recipient,
}

/// One of the two accounts of a run: its signing key, its address, and, once resolved, its
/// balance and role.
#[derive(Debug)]
pub struct AccountInfo {
    /// The 32-byte ed25519 secret seed that signs for the account.
    pub keypair: [u8; 32],
    /// The account's 32-byte public key.
    pub pubkey: [u8; 32],
    /// Balance in lamports, as observed once at start-up.
    pub balance: u64,
    pub role: Option<AccountRole>,
}

impl AccountInfo {
    /// An account freshly loaded from its key: no balance observed, no role yet.
    pub fn new(keypair: [u8; 32], pubkey: [u8; 32]) -> (r: AccountInfo)
        ensures
            r.keypair == keypair,
            r.pubkey == pubkey,
            r.balance == 0,
            r.role is None,
    {
        AccountInfo { keypair, pubkey, balance: 0, role: None }
    }

    /// Records the observed balance and the role assigned to the account.
    pub fn set_balance_and_role(&mut self, balance: u64, role: AccountRole)
        ensures
            final(self).keypair == old(self).keypair,
            final(self).pubkey == old(self).pubkey,
            final(self).balance == balance,
            final(self).role == Some(role),
    {
        self.balance = balance;
        self.role = Some(role);
    }
}

/// `a` is `base` with balance `balance` and role `role`.
pub open spec fn resolved_as(a: AccountInfo, base: AccountInfo, balance: u64, role: AccountRole) -> bool {
    &&& a.keypair == base.keypair
    &&& a.pubkey == base.pubkey
    &&& a.balance == balance
    &&& a.role == Some(role)
}

/// Labels the richer of two accounts the sender and the other the recipient, from the
/// outcome of looking up each one's balance. On equal balances the first account sends.
/// A failed lookup fails the whole resolution.
pub fn determine_account_roles(
    account1: AccountInfo,
    account2: AccountInfo,
    balance1: Result<u64, String>,
    balance2: Result<u64, String>,
) -> (r: Result<(AccountInfo, AccountInfo), Error>)
    ensures
        match (balance1, balance2) {
            (Err(e), _) => r == Err::<(AccountInfo, AccountInfo), Error>(Error::BalanceQuery(e)),
            (Ok(_), Err(e)) => r == Err::<(AccountInfo, AccountInfo), Error>(Error::BalanceQuery(e)),
            (Ok(b1), Ok(b2)) => r matches Ok((sender, recipient)) && if b1 >= b2 {
                resolved_as(sender, account1, b1, AccountRole::Sender)
                    && resolved_as(recipient, account2, b2, AccountRole::Recipient)
            } else {
                resolved_as(sender, account2, b2, AccountRole::Sender)
                    && resolved_as(recipient, account1, b1, AccountRole::Recipient)
            },
        },
{
    let b1 = match balance1 {
        Ok(b) => b,
        Err(e) => return Err(Error::BalanceQuery(e)),
    };
    let b2 = match balance2 {
        Ok(b) => b,
        Err(e) => return Err(Error::BalanceQuery(e)),
    };
    let mut account1 = account1;
    let mut account2 = account2;
    if b1 >= b2 {
        account1.set_balance_and_role(b1, AccountRole::Sender);
        account2.set_balance_and_role(b2, AccountRole::Recipient);
        Ok((account1, account2))
    } else {
        account2.set_balance_and_role(b2, AccountRole::Sender);
        account1.set_balance_and_role(b1, AccountRole::Recipient);
        Ok((account2, account1))
    }
}

} // verus!

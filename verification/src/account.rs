//! Accounts as the ledger hands them to the registry.

use vstd::prelude::*;
use crate::pubkey::{seeds_view, Pubkey};
use crate::state::all_zero;

verus! {

/// One account of a request: its address, what the request may do with it,
/// the program that owns it, its balance and its data. The accounts of a
/// request are values of their own: what an operation does to one of them
/// shows in no other, also where two of them bear the same address.
#[derive(Debug)]
pub struct AccountInfo {
    /// The address of the account.
    pub key: Pubkey,
    /// Whether the holder of the account's key has signed the request.
    pub is_signer: bool,
    /// Whether the request may change the account.
    pub is_writable: bool,
    /// The program that alone may change the account's data.
    pub owner: Pubkey,
    /// The balance of the account in the ledger's native unit.
    pub lamports: u64,
    /// The bytes that the account holds.
    pub data: Vec<u8>,
}

/// What an account is in contracts.
#[verifier::ext_equal]
pub struct AccountState {
    pub key: Seq<u8>,
    pub is_signer: bool,
    pub is_writable: bool,
    pub owner: Seq<u8>,
    pub lamports: u64,
    pub data: Seq<u8>,
}

impl View for AccountInfo {
    type V = AccountState;

    open spec fn view(&self) -> AccountState {
        AccountState {
            key: self.key@,
            is_signer: self.is_signer,
            is_writable: self.is_writable,
            owner: self.owner@,
            lamports: self.lamports,
            data: self.data@,
        }
    }
}

impl DeepView for AccountInfo {
    type V = AccountState;

    open spec fn deep_view(&self) -> AccountState {
        self@
    }
}

impl Clone for AccountInfo {
    fn clone(&self) -> (copy: AccountInfo)
        ensures
            copy@ == self@,
    {
        AccountInfo {
            key: self.key,
            is_signer: self.is_signer,
            is_writable: self.is_writable,
            owner: self.owner,
            lamports: self.lamports,
            data: self.data.clone(),
        }
    }
}

/// What the registry asks the ledger's service for creating accounts to
/// do: to allocate `space` bytes at the address `new_account`, to pay for
/// them from `payer` whatever the ledger asks as the least deposit for that
/// space, and to hand the account to `owner`. The request is signed for the
/// new account by the seeds that derive its address.
#[derive(Debug)]
pub struct CreateAccount {
    /// The account that pays the deposit.
    pub payer: Pubkey,
    /// The address of the account to create.
    pub new_account: Pubkey,
    /// The size of the new account's data, in bytes.
    pub space: u64,
    /// The program that is to own the new account.
    pub owner: Pubkey,
    /// The seeds of the new account's address, the bump byte last.
    pub signer_seeds: Vec<Vec<u8>>,
}

/// What a request to create an account is in contracts.
#[verifier::ext_equal]
pub struct CreateRequest {
    pub payer: Seq<u8>,
    pub new_account: Seq<u8>,
    pub space: u64,
    pub owner: Seq<u8>,
    pub signer_seeds: Seq<Seq<u8>>,
}

impl View for CreateAccount {
    type V = CreateRequest;

    open spec fn view(&self) -> CreateRequest {
        CreateRequest {
            payer: self.payer@,
            new_account: self.new_account@,
            space: self.space,
            owner: self.owner@,
            signer_seeds: seeds_view(self.signer_seeds),
        }
    }
}

/// What a request leaves behind when it succeeds: the accounts as they are
/// afterwards, and the account that the ledger is to create for them, if any.
#[verifier::ext_equal]
pub struct Transition {
    pub accounts: Seq<AccountState>,
    pub create: Option<CreateRequest>,
}

/// Whether every byte of `data` is zero.
pub fn is_all_zero(data: &Vec<u8>) -> (zero: bool)
    ensures
        zero == all_zero(data@),
{
    let mut i: usize = 0;
    while i < data.len()
        invariant
            i <= data.len(),
            forall|j: int| 0 <= j < i ==> data@[j] == 0,
        decreases data.len() - i,
    {
        if data[i] != 0 {
            return false;
        }
        i += 1;
    }
    true
}

} // verus!

use vstd::prelude::*;

use crate::keys::{Address, Pubkey};

verus! {

/// A control plane was created.
#[derive(Clone, Copy, Debug)]
pub struct Initialized {
    pub admin: Pubkey,
    pub points_mint: Pubkey,
}

/// A claim was created.
#[derive(Clone, Copy, Debug)]
pub struct ActionSubmitted {
    pub member: Pubkey,
    pub action_type: [u8; 16],
    pub amount: u64,
}

/// A claim was approved and `points` were awarded.
#[derive(Clone, Copy, Debug)]
pub struct ActionApproved {
    pub member: Pubkey,
    pub action_type: [u8; 16],
    pub points: u64,
    pub verifier: Pubkey,
}

/// A claim was rejected.
#[derive(Clone, Copy, Debug)]
pub struct ActionRejected {
    pub member: Pubkey,
    pub submission: Address,
}

/// Points were redeemed with a partner.
#[derive(Clone, Copy, Debug)]
pub struct Redeemed {
    pub member: Pubkey,
    pub partner_slug: [u8; 16],
    pub points: u64,
}

/// The control parameters were replaced.
#[derive(Clone, Copy, Debug)]
pub struct ParamsUpdated {
    pub admin: Pubkey,
}

/// The control plane was paused.
#[derive(Clone, Copy, Debug)]
pub struct Paused {
    pub by: Pubkey,
}

/// The control plane was unpaused.
#[derive(Clone, Copy, Debug)]
pub struct Unpaused {
    pub by: Pubkey,
}

/// A mint that the external token ledger must carry out: `amount` units of
/// `mint` credited to the balance of `to`, signed by the control plane at
/// `authority`.
#[derive(Clone, Copy, Debug)]
pub struct MintTo {
    pub mint: Pubkey,
    pub to: Pubkey,
    pub authority: Address,
    pub amount: u64,
}

/// A burn that the external token ledger must carry out: `amount` units of
/// `mint` debited from the balance of `from`, signed by `authority`.
#[derive(Clone, Copy, Debug)]
pub struct Burn {
    pub mint: Pubkey,
    pub from: Pubkey,
    pub authority: Pubkey,
    pub amount: u64,
}

/// How a claim was resolved. An approval carries the one mint it owes.
#[derive(Clone, Copy, Debug)]
pub enum Resolution {
    Approved(ActionApproved, MintTo),
    Rejected(ActionRejected),
}

} // verus!

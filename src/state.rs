use vstd::prelude::*;

use crate::keys::{Address, Pubkey};

verus! {

/// Lifecycle of a claim: `Pending`, then once and for all `Approved` or
/// `Rejected`.
#[derive(Clone, Copy, Debug, PartialEq, Eq, Structural)]
pub enum Status {
    Pending,
    Approved,
    Rejected,
}

/// Control parameters of a control plane. Only `paused` is acted on; the
/// caps and the cooldown are configuration that no operation enforces.
#[derive(Clone, Copy, Debug, PartialEq, Eq, Structural)]
pub struct Params {
    pub paused: bool,
    pub daily_cap: u64,
    pub per_tx_cap_default: u64,
    pub cooldown_secs_default: u32,
}

impl Default for Params {
    fn default() -> (r: Params)
        ensures
            r == (Params { paused: false, daily_cap: 0, per_tx_cap_default: 0, cooldown_secs_default: 0 }),
    {
        Params { paused: false, daily_cap: 0, per_tx_cap_default: 0, cooldown_secs_default: 0 }
    }
}

/// The control plane: admin identity, the points asset, the verifier set and
/// the parameters.
#[derive(Debug)]
pub struct GlobalState {
    pub admin: Pubkey,
    pub points_mint: Pubkey,
    pub vault: Pubkey,
    pub verifiers: Vec<Pubkey>,
    pub params: Params,
    pub bump_global: u8,
}

/// A catalog entry: a claimable action and its reward rate.
#[derive(Debug)]
pub struct ActionType {
    /// The admin whose control plane owns this entry.
    pub global: Pubkey,
    pub slug: [u8; 16],
    pub name: String,
    pub points_per_unit: u64,
    pub unit: u8,
    pub badge_metadata_uri: String,
    pub cooldown_secs: u32,
    pub per_tx_cap: u64,
}

/// A participant's record, with the lifetime tally of points awarded.
#[derive(Debug)]
pub struct Member {
    pub owner: Pubkey,
    pub points: u64,
    pub joined_at: i64,
    pub profile_uri: Option<String>,
}

/// A claim of a participant that a verifier resolves.
#[derive(Clone, Copy, Debug)]
pub struct Submission {
    pub member: Address,
    pub member_owner: Pubkey,
    pub action_type: Address,
    pub amount: u64,
    pub evidence_hash: [u8; 32],
    pub location_hash: [u8; 32],
    pub status: Status,
    pub created_at: i64,
    pub client_nonce: u64,
}

/// What an address of the store holds.
#[derive(Debug)]
pub enum Record {
    Global(GlobalState),
    ActionType(ActionType),
    Member(Member),
    Submission(Submission),
}

impl GlobalState {
    /// Whether `who` is among the verifiers.
    pub open spec fn has_verifier(&self, who: Pubkey) -> bool {
        self.verifiers@.contains(who)
    }

    pub fn is_verifier(&self, who: &Pubkey) -> (r: bool)
        ensures
            r == self.has_verifier(*who),
    {
        let mut i: usize = 0;
        while i < self.verifiers.len()
            invariant
                0 <= i <= self.verifiers@.len(),
                forall|k: int| 0 <= k < i ==> self.verifiers@[k] != *who,
            decreases self.verifiers@.len() - i,
        {
            if self.verifiers[i].same_as(who) {
                return true;
            }
            i = i + 1;
        }
        false
    }

    pub fn is_admin(&self, who: &Pubkey) -> (r: bool)
        ensures
            r == (self.admin == *who),
    {
        self.admin.same_as(who)
    }
}

} // verus!

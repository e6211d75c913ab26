//! A verified rewards ledger: participants claim green actions, verifiers
//! resolve the claims, and approval credits reward points exactly once.
//!
//! - `keys`: identities and the deterministic addresses of records.
//! - `state`: the records (control plane, catalog entries, members, claims).
//! - `store`: the content-addressed store with create-new-or-fail semantics.
//! - `instructions`: the operations, each with its exact result and effect.
//! - `events`: what the operations report, and the mint and burn orders that
//!   the external token ledger carries out.
//! - `laws`: properties that relate operations, and the data-model invariant.
//! - `tally`: the invariant that each member's tally is what its approved
//!   claims have earned.
mod errors;
mod events;
mod instructions;
mod keys;
mod laws;
mod state;
mod store;
mod tally;

pub use errors::ErrorCode;
pub use events::{
    ActionApproved, ActionRejected, ActionSubmitted, Burn, Initialized, MintTo, Paused,
    ParamsUpdated, Redeemed, Resolution, Unpaused,
};
pub use instructions::{
    admin_check, initialize, initialize_result, join, new_submission, pause, redeem_result,
    redeem_with_partner, register_action_type, register_action_type_result, require_admin,
    set_params, submit_action, submit_action_next, submit_action_result, unpause,
    verify_action, verify_action_next, verify_action_result, with_params, Initialize, Join,
    Pause, Redeem, RegisterActionType, SetParams, SubmitAction, Unpause, VerifyAction,
};
pub use laws::{
    consistent, fits, lemma_amount_out_of_range_refused, lemma_approval_credits_exactly,
    lemma_empty_consistent, lemma_initialize_consistent, lemma_join_consistent,
    lemma_nonce_single_use, lemma_params_consistent, lemma_pause_blocks_submission,
    lemma_pause_does_not_gate_resolution, lemma_register_action_type_consistent,
    lemma_resolve_at_most_once, lemma_reward_overflow_aborts, lemma_submit_action_consistent,
    lemma_verify_action_consistent,
};
pub use keys::{same_bytes, Address, Pubkey};
pub use state::{ActionType, GlobalState, Member, Params, Record, Status, Submission};
pub use tally::{
    award, earned, lemma_empty_tallies, lemma_initialize_tallies, lemma_join_tallies,
    lemma_params_tallies, lemma_register_action_type_tallies, lemma_submit_action_tallies,
    lemma_verify_action_tallies, sum, tallies_match,
};
pub use store::{action_type_of, global_of, member_of, submission_of, Ledger};

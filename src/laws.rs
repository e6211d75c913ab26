use vstd::prelude::*;

use crate::errors::ErrorCode;
use crate::events::{ActionApproved, ActionSubmitted, MintTo, Resolution};
use crate::instructions::{
    initialize_result, register_action_type_result, submit_action_next, submit_action_result,
    verify_action_next, verify_action_result, with_params, Initialize, RegisterActionType,
    SubmitAction, VerifyAction,
};
use crate::keys::{Address, Pubkey};
use crate::state::{ActionType, GlobalState, Member, Params, Record, Status};
use crate::store::{action_type_of, global_of, member_of, submission_of};

verus! {

/// Approving a pending claim by a verifier, where `rate * amount` and the new
/// tally fit in 64 bits, credits the member's tally with exactly
/// `rate * amount`, marks the claim `Approved`, and returns exactly one mint
/// of that amount to the claimant, signed by the control plane.
pub proof fn lemma_approval_credits_exactly(m: Map<Address, Record>, ctx: VerifyAction)
    requires
        global_of(m, ctx.global) is Some,
        global_of(m, ctx.global)->Some_0.has_verifier(ctx.verifier),
        submission_of(m, ctx.submission_address()) is Some,
        submission_of(m, ctx.submission_address())->Some_0.action_type.is_catalog_entry_of(ctx.global),
        submission_of(m, ctx.submission_address())->Some_0.status == Status::Pending,
        action_type_of(m, submission_of(m, ctx.submission_address())->Some_0.action_type) is Some,
        member_of(m, submission_of(m, ctx.submission_address())->Some_0.member) is Some,
        ({
            let s = submission_of(m, ctx.submission_address())->Some_0;
            let rate = action_type_of(m, s.action_type)->Some_0.points_per_unit;
            let tally = member_of(m, s.member)->Some_0.points;
            rate * s.amount <= u64::MAX && tally + rate * s.amount <= u64::MAX
        }),
    ensures
        ({
            let s = submission_of(m, ctx.submission_address())->Some_0;
            let at = action_type_of(m, s.action_type)->Some_0;
            let tally = member_of(m, s.member)->Some_0.points;
            let points = at.points_per_unit * s.amount;
            let next = verify_action_next(m, ctx, true);
            &&& verify_action_result(m, ctx, true) == Ok::<Resolution, ErrorCode>(
                Resolution::Approved(
                    ActionApproved {
                        member: s.member_owner,
                        action_type: at.slug,
                        points: points as u64,
                        verifier: ctx.verifier,
                    },
                    MintTo {
                        mint: global_of(m, ctx.global)->Some_0.points_mint,
                        to: s.member_owner,
                        authority: Address::Global { admin: ctx.global },
                        amount: points as u64,
                    },
                ),
            )
            &&& member_of(next, s.member) is Some
            &&& member_of(next, s.member)->Some_0.points == tally + points
            &&& submission_of(next, ctx.submission_address()) is Some
            &&& submission_of(next, ctx.submission_address())->Some_0.status == Status::Approved
        }),
{
}

/// A claim is resolved at most once: after one resolution succeeded, a second
/// resolution of the same claim, approving or rejecting, fails (so it mints
/// nothing and writes no status); by a verifier of the claim's control plane
/// it fails with `NotPending`.
pub proof fn lemma_resolve_at_most_once(
    m: Map<Address, Record>,
    ctx: VerifyAction,
    first: bool,
    again: VerifyAction,
    second: bool,
)
    requires
        verify_action_result(m, ctx, first) is Ok,
        again.submission_owner == ctx.submission_owner,
        again.client_nonce == ctx.client_nonce,
    ensures
        verify_action_result(verify_action_next(m, ctx, first), again, second) is Err,
        again.global == ctx.global && global_of(m, again.global)->Some_0.has_verifier(
            again.verifier,
        ) ==> verify_action_result(verify_action_next(m, ctx, first), again, second) == Err::<
            Resolution,
            ErrorCode,
        >(ErrorCode::NotPending),
{
    let next = verify_action_next(m, ctx, first);
    let sa = ctx.submission_address();
    let s = submission_of(m, sa)->Some_0;
    assert(global_of(next, again.global) == global_of(m, again.global));
    assert(submission_of(next, sa)->Some_0.status != Status::Pending);
    assert(action_type_of(next, s.action_type) == action_type_of(m, s.action_type));
    assert(member_of(next, s.member) is Some);
}

/// On a control plane that is not paused, a claim whose amount is zero or
/// above the catalog entry's cap is refused with `InvalidAmount`, so no
/// record is created.
pub proof fn lemma_amount_out_of_range_refused(
    m: Map<Address, Record>,
    ctx: SubmitAction,
    slug: [u8; 16],
    amount: u64,
    client_nonce: u64,
)
    requires
        global_of(m, ctx.global) is Some,
        !global_of(m, ctx.global)->Some_0.params.paused,
        member_of(m, Address::Member { owner: ctx.user }) is Some,
        action_type_of(m, Address::ActionType { admin: ctx.global, slug }) is Some,
        amount == 0 || amount > action_type_of(
            m,
            Address::ActionType { admin: ctx.global, slug },
        )->Some_0.per_tx_cap,
    ensures
        submit_action_result(m, ctx, slug, amount, client_nonce) == Err::<
            ActionSubmitted,
            ErrorCode,
        >(ErrorCode::InvalidAmount),
{
}

/// A `(participant, nonce)` pair names one claim: once a claim was created
/// under it, a second valid claim under the same pair fails with
/// `DuplicateRecord`, while a valid claim under a fresh nonce succeeds.
pub proof fn lemma_nonce_single_use(
    m: Map<Address, Record>,
    ctx: SubmitAction,
    slug: [u8; 16],
    amount: u64,
    client_nonce: u64,
    evidence_hash: [u8; 32],
    location_hash: [u8; 32],
    now: i64,
    other_slug: [u8; 16],
    other_amount: u64,
    other_nonce: u64,
)
    requires
        submit_action_result(m, ctx, slug, amount, client_nonce) is Ok,
        action_type_of(m, Address::ActionType { admin: ctx.global, slug: other_slug }) is Some,
        0 < other_amount <= action_type_of(
            m,
            Address::ActionType { admin: ctx.global, slug: other_slug },
        )->Some_0.per_tx_cap,
    ensures
        ({
            let next = submit_action_next(
                m,
                ctx,
                slug,
                amount,
                client_nonce,
                evidence_hash,
                location_hash,
                now,
            );
            &&& submit_action_result(next, ctx, other_slug, other_amount, client_nonce) == Err::<
                ActionSubmitted,
                ErrorCode,
            >(ErrorCode::DuplicateRecord)
            &&& other_nonce != client_nonce && !m.contains_key(
                Address::Submission { owner: ctx.user, nonce: other_nonce },
            ) ==> submit_action_result(next, ctx, other_slug, other_amount, other_nonce) is Ok
        }),
{
    let next = submit_action_next(
        m,
        ctx,
        slug,
        amount,
        client_nonce,
        evidence_hash,
        location_hash,
        now,
    );
    assert(global_of(next, ctx.global) == global_of(m, ctx.global));
    assert(member_of(next, Address::Member { owner: ctx.user }) == member_of(
        m,
        Address::Member { owner: ctx.user },
    ));
    assert(action_type_of(next, Address::ActionType { admin: ctx.global, slug: other_slug })
        == action_type_of(m, Address::ActionType { admin: ctx.global, slug: other_slug }));
}

/// When `rate * amount` does not fit in 64 bits, approval fails with
/// `MathOverflow`; like every failure it leaves the store, and so the claim's
/// `Pending` status, unchanged.
pub proof fn lemma_reward_overflow_aborts(m: Map<Address, Record>, ctx: VerifyAction)
    requires
        global_of(m, ctx.global) is Some,
        global_of(m, ctx.global)->Some_0.has_verifier(ctx.verifier),
        submission_of(m, ctx.submission_address()) is Some,
        submission_of(m, ctx.submission_address())->Some_0.action_type.is_catalog_entry_of(ctx.global),
        submission_of(m, ctx.submission_address())->Some_0.status == Status::Pending,
        action_type_of(m, submission_of(m, ctx.submission_address())->Some_0.action_type) is Some,
        member_of(m, submission_of(m, ctx.submission_address())->Some_0.member) is Some,
        ({
            let s = submission_of(m, ctx.submission_address())->Some_0;
            action_type_of(m, s.action_type)->Some_0.points_per_unit * s.amount > u64::MAX
        }),
    ensures
        verify_action_result(m, ctx, true) == Err::<Resolution, ErrorCode>(ErrorCode::MathOverflow),
{
}

/// A paused control plane refuses every new claim with `Paused`, so no
/// record is created, whatever its catalog entry, amount or nonce.
pub proof fn lemma_pause_blocks_submission(
    m: Map<Address, Record>,
    ctx: SubmitAction,
    slug: [u8; 16],
    amount: u64,
    client_nonce: u64,
)
    requires
        global_of(m, ctx.global) is Some,
        global_of(m, ctx.global)->Some_0.params.paused,
        member_of(m, Address::Member { owner: ctx.user }) is Some,
        action_type_of(m, Address::ActionType { admin: ctx.global, slug }) is Some,
    ensures
        submit_action_result(m, ctx, slug, amount, client_nonce) == Err::<ActionSubmitted, ErrorCode>(
            ErrorCode::Paused,
        ),
{
}

/// Resolution does not read the control parameters: with any parameters in
/// place, paused or not, resolving a claim gives the same result and the
/// same claim and member records.
pub proof fn lemma_pause_does_not_gate_resolution(
    m: Map<Address, Record>,
    ctx: VerifyAction,
    approve: bool,
    params: Params,
)
    requires
        global_of(m, ctx.global) is Some,
    ensures
        verify_action_result(with_params(m, ctx.global, params), ctx, approve)
            == verify_action_result(m, ctx, approve),
        verify_action_result(m, ctx, approve) is Ok ==> ({
            let s = submission_of(m, ctx.submission_address())->Some_0;
            &&& submission_of(verify_action_next(with_params(m, ctx.global, params), ctx, approve), ctx.submission_address())
                == submission_of(verify_action_next(m, ctx, approve), ctx.submission_address())
            &&& member_of(verify_action_next(with_params(m, ctx.global, params), ctx, approve), s.member)
                == member_of(verify_action_next(m, ctx, approve), s.member)
        }),
{
    let m2 = with_params(m, ctx.global, params);
    let sa = ctx.submission_address();
    assert(submission_of(m2, sa) == submission_of(m, sa));
    if submission_of(m, sa) is Some {
        let s = submission_of(m, sa)->Some_0;
        assert(action_type_of(m2, s.action_type) == action_type_of(m, s.action_type));
        assert(member_of(m2, s.member) == member_of(m, s.member));
    }
}

/// Whether the record `r`, stored at `a` in `m`, sits at the address its own
/// key fields give; a claim must moreover belong to the member record of its
/// owner and to a live catalog entry, with an amount within that entry's cap.
pub open spec fn fits(m: Map<Address, Record>, a: Address, r: Record) -> bool {
    match r {
        Record::Global(g) => a == Address::Global { admin: g.admin },
        Record::ActionType(at) => a == Address::ActionType { admin: at.global, slug: at.slug },
        Record::Member(mem) => a == Address::Member { owner: mem.owner },
        Record::Submission(s) => {
            &&& a == Address::Submission { owner: s.member_owner, nonce: s.client_nonce }
            &&& s.member == Address::Member { owner: s.member_owner }
            &&& member_of(m, s.member) is Some
            &&& action_type_of(m, s.action_type) is Some
            &&& 0 < s.amount <= action_type_of(m, s.action_type)->Some_0.per_tx_cap
        },
    }
}

/// The data-model invariant of a store: every record fits its address.
pub open spec fn consistent(m: Map<Address, Record>) -> bool {
    forall|a: Address| #[trigger] m.contains_key(a) ==> fits(m, a, m[a])
}

/// The empty store is consistent.
pub proof fn lemma_empty_consistent()
    ensures
        consistent(Map::<Address, Record>::empty()),
{
}

/// Creating a control plane keeps the store consistent.
pub proof fn lemma_initialize_consistent(
    m: Map<Address, Record>,
    ctx: Initialize,
    verifiers: Vec<Pubkey>,
    params: Params,
)
    requires
        consistent(m),
        initialize_result(m, ctx) is Ok,
    ensures
        consistent(
            m.insert(
                Address::Global { admin: ctx.admin },
                Record::Global(GlobalState {
                    admin: ctx.admin,
                    points_mint: ctx.points_mint,
                    vault: ctx.vault,
                    verifiers,
                    params,
                    bump_global: ctx.bump_global,
                }),
            ),
        ),
{
}

/// Adding a catalog entry keeps the store consistent.
pub proof fn lemma_register_action_type_consistent(
    m: Map<Address, Record>,
    ctx: RegisterActionType,
    at: ActionType,
)
    requires
        consistent(m),
        register_action_type_result(m, ctx, at.slug) is Ok,
        at.global == ctx.global,
    ensures
        consistent(m.insert(Address::ActionType { admin: ctx.global, slug: at.slug }, Record::ActionType(at))),
{
    let a = Address::ActionType { admin: ctx.global, slug: at.slug };
    let next = m.insert(a, Record::ActionType(at));
    assert forall|x: Address| #[trigger] next.contains_key(x) implies fits(next, x, next[x]) by {
        if x != a {
            assert(m.contains_key(x));
            if m[x] is Submission {
                let s = m[x]->Submission_0;
                assert(m.contains_key(s.action_type));
                assert(s.action_type != a);
            }
        }
    }
}

/// Registering a member keeps the store consistent.
pub proof fn lemma_join_consistent(m: Map<Address, Record>, mem: Member)
    requires
        consistent(m),
        !m.contains_key(Address::Member { owner: mem.owner }),
    ensures
        consistent(m.insert(Address::Member { owner: mem.owner }, Record::Member(mem))),
{
    let a = Address::Member { owner: mem.owner };
    let next = m.insert(a, Record::Member(mem));
    assert forall|x: Address| #[trigger] next.contains_key(x) implies fits(next, x, next[x]) by {
        if x != a {
            assert(m.contains_key(x));
            if m[x] is Submission {
                let s = m[x]->Submission_0;
                assert(m.contains_key(s.member));
                assert(s.member != a);
            }
        }
    }
}

/// Creating a claim keeps the store consistent.
pub proof fn lemma_submit_action_consistent(
    m: Map<Address, Record>,
    ctx: SubmitAction,
    slug: [u8; 16],
    amount: u64,
    client_nonce: u64,
    evidence_hash: [u8; 32],
    location_hash: [u8; 32],
    now: i64,
)
    requires
        consistent(m),
        submit_action_result(m, ctx, slug, amount, client_nonce) is Ok,
    ensures
        consistent(
            submit_action_next(m, ctx, slug, amount, client_nonce, evidence_hash, location_hash, now),
        ),
{
    let next = submit_action_next(m, ctx, slug, amount, client_nonce, evidence_hash, location_hash, now);
    let a = Address::Submission { owner: ctx.user, nonce: client_nonce };
    assert forall|x: Address| #[trigger] next.contains_key(x) implies fits(next, x, next[x]) by {
        if x != a {
            assert(m.contains_key(x));
        }
    }
}

/// Resolving a claim keeps the store consistent.
pub proof fn lemma_verify_action_consistent(m: Map<Address, Record>, ctx: VerifyAction, approve: bool)
    requires
        consistent(m),
        verify_action_result(m, ctx, approve) is Ok,
    ensures
        consistent(verify_action_next(m, ctx, approve)),
{
    let next = verify_action_next(m, ctx, approve);
    let sa = ctx.submission_address();
    assert(m.contains_key(sa));
    let s = m[sa]->Submission_0;
    assert forall|x: Address| #[trigger] next.contains_key(x) implies fits(next, x, next[x]) by {
        assert(m.contains_key(x));
        if m[x] is Submission {
            let t = m[x]->Submission_0;
            assert(m.contains_key(t.member));
            assert(m.contains_key(t.action_type));
            assert(action_type_of(next, t.action_type) == action_type_of(m, t.action_type));
        }
    }
}

/// Replacing the parameters of a control plane keeps the store consistent.
pub proof fn lemma_params_consistent(m: Map<Address, Record>, global: Pubkey, params: Params)
    requires
        consistent(m),
        global_of(m, global) is Some,
    ensures
        consistent(with_params(m, global, params)),
{
    let next = with_params(m, global, params);
    assert forall|x: Address| #[trigger] next.contains_key(x) implies fits(next, x, next[x]) by {
        assert(m.contains_key(x));
        if m[x] is Submission {
            let t = m[x]->Submission_0;
            assert(m.contains_key(t.member));
            assert(m.contains_key(t.action_type));
        }
    }
}

} // verus!

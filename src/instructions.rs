use vstd::prelude::*;

use crate::errors::ErrorCode;
use crate::events::{
    ActionApproved, ActionRejected, ActionSubmitted, Burn, Initialized, MintTo, Paused,
    ParamsUpdated, Redeemed, Resolution, Unpaused,
};
use crate::keys::{Address, Pubkey};
use crate::laws::{
    consistent, lemma_initialize_consistent, lemma_join_consistent, lemma_params_consistent,
    lemma_register_action_type_consistent, lemma_submit_action_consistent,
    lemma_verify_action_consistent,
};
use crate::state::{ActionType, GlobalState, Member, Params, Record, Status, Submission};
use crate::tally::{
    lemma_initialize_tallies, lemma_join_tallies, lemma_params_tallies,
    lemma_register_action_type_tallies, lemma_submit_action_tallies, lemma_verify_action_tallies,
    tallies_match,
};
use crate::store::{action_type_of, global_of, member_of, submission_of, Ledger};

verus! {

/// Who creates a control plane, and the assets it is bound to.
#[derive(Clone, Copy, Debug)]
pub struct Initialize {
    pub admin: Pubkey,
    pub points_mint: Pubkey,
    pub vault: Pubkey,
    pub bump_global: u8,
}

/// An admin acting on the control plane created by `global`.
#[derive(Clone, Copy, Debug)]
pub struct RegisterActionType {
    pub admin: Pubkey,
    pub global: Pubkey,
}

/// A participant registering.
#[derive(Clone, Copy, Debug)]
pub struct Join {
    pub user: Pubkey,
}

/// A participant claiming under the control plane created by `global`.
#[derive(Clone, Copy, Debug)]
pub struct SubmitAction {
    pub user: Pubkey,
    pub global: Pubkey,
}

/// A verifier resolving the claim of `submission_owner` under `client_nonce`.
#[derive(Clone, Copy, Debug)]
pub struct VerifyAction {
    pub verifier: Pubkey,
    pub global: Pubkey,
    pub submission_owner: Pubkey,
    pub client_nonce: u64,
}

/// A participant redeeming points.
#[derive(Clone, Copy, Debug)]
pub struct Redeem {
    pub user: Pubkey,
    pub global: Pubkey,
}

/// An admin replacing the parameters.
#[derive(Clone, Copy, Debug)]
pub struct SetParams {
    pub admin: Pubkey,
    pub global: Pubkey,
}

/// An admin pausing the control plane.
#[derive(Clone, Copy, Debug)]
pub struct Pause {
    pub admin: Pubkey,
    pub global: Pubkey,
}

/// An admin unpausing the control plane.
#[derive(Clone, Copy, Debug)]
pub struct Unpause {
    pub admin: Pubkey,
    pub global: Pubkey,
}

impl VerifyAction {
    /// The address of the claim being resolved.
    pub open spec fn submission_address(self) -> Address {
        Address::Submission { owner: self.submission_owner, nonce: self.client_nonce }
    }
}

// ---------- control plane ----------

/// What `initialize` returns: it fails only when the control plane exists.
pub open spec fn initialize_result(m: Map<Address, Record>, ctx: Initialize) -> Result<Initialized, ErrorCode> {
    if m.contains_key(Address::Global { admin: ctx.admin }) {
        Err(ErrorCode::DuplicateRecord)
    } else {
        Ok(Initialized { admin: ctx.admin, points_mint: ctx.points_mint })
    }
}

/// Creates the control plane of `ctx.admin`, once.
pub fn initialize(ledger: &mut Ledger, ctx: Initialize, verifiers: Vec<Pubkey>, params: Params) -> (r:
    Result<Initialized, ErrorCode>)
    requires
        old(ledger).wf(),
    ensures
        final(ledger).wf(),
        consistent(old(ledger)@) ==> consistent(final(ledger)@),
        consistent(old(ledger)@) && tallies_match(old(ledger)@) ==> tallies_match(final(ledger)@),
        r == initialize_result(old(ledger)@, ctx),
        r is Ok ==> final(ledger)@ == old(ledger)@.insert(
            Address::Global { admin: ctx.admin },
            Record::Global(GlobalState {
                admin: ctx.admin,
                points_mint: ctx.points_mint,
                vault: ctx.vault,
                verifiers,
                params,
                bump_global: ctx.bump_global,
            }),
        ),
        r is Err ==> final(ledger)@ == old(ledger)@,
{
    let ghost pre = ledger@;
    let ghost vs = verifiers;
    let g = GlobalState {
        admin: ctx.admin,
        points_mint: ctx.points_mint,
        vault: ctx.vault,
        verifiers,
        params,
        bump_global: ctx.bump_global,
    };
    match ledger.create(Address::Global { admin: ctx.admin }, Record::Global(g)) {
        Ok(()) => {
            proof {
                if consistent(pre) {
                    lemma_initialize_consistent(pre, ctx, vs, params);
                    if tallies_match(pre) {
                        lemma_initialize_tallies(
                            pre,
                            ctx,
                            GlobalState {
                                admin: ctx.admin,
                                points_mint: ctx.points_mint,
                                vault: ctx.vault,
                                verifiers: vs,
                                params,
                                bump_global: ctx.bump_global,
                            },
                        );
                    }
                }
            }
            Ok(Initialized { admin: ctx.admin, points_mint: ctx.points_mint })
        },
        Err(e) => Err(e),
    }
}

/// Fails with `UnauthorizedAdmin` unless `admin` is the control plane's admin.
pub fn require_admin(global: &GlobalState, admin: &Pubkey) -> (r: Result<(), ErrorCode>)
    ensures
        r == (if global.admin == *admin {
            Ok::<(), ErrorCode>(())
        } else {
            Err(ErrorCode::UnauthorizedAdmin)
        }),
{
    if global.is_admin(admin) {
        Ok(())
    } else {
        Err(ErrorCode::UnauthorizedAdmin)
    }
}

/// The error of an admin operation on the control plane of `global`, if any.
pub open spec fn admin_check(m: Map<Address, Record>, admin: Pubkey, global: Pubkey) -> Option<ErrorCode> {
    match global_of(m, global) {
        None => Some(ErrorCode::MissingRecord),
        Some(g) => if g.admin != admin {
            Some(ErrorCode::UnauthorizedAdmin)
        } else {
            None
        },
    }
}

/// The store with the parameters of the control plane of `global` replaced.
pub open spec fn with_params(m: Map<Address, Record>, global: Pubkey, params: Params) -> Map<Address, Record> {
    let a = Address::Global { admin: global };
    m.insert(a, Record::Global(GlobalState { params, ..m[a]->Global_0 }))
}

fn replace_params(ledger: &mut Ledger, admin: &Pubkey, global: &Pubkey, params: Params) -> (r: Result<(), ErrorCode>)
    requires
        old(ledger).wf(),
    ensures
        final(ledger).wf(),
        consistent(old(ledger)@) ==> consistent(final(ledger)@),
        consistent(old(ledger)@) && tallies_match(old(ledger)@) ==> tallies_match(final(ledger)@),
        match admin_check(old(ledger)@, *admin, *global) {
            Some(e) => r == Err::<(), ErrorCode>(e) && final(ledger)@ == old(ledger)@,
            None => r is Ok && final(ledger)@ == with_params(old(ledger)@, *global, params),
        },
{
    let checked = match ledger.global(global) {
        Some(g) => require_admin(g, admin),
        None => Err(ErrorCode::MissingRecord),
    };
    match checked {
        Ok(()) => {
            proof {
                if consistent(ledger@) {
                    lemma_params_consistent(ledger@, *global, params);
                }
                if tallies_match(ledger@) {
                    lemma_params_tallies(ledger@, *global, params);
                }
            }
            ledger.set_params(&Address::Global { admin: *global }, params);
            Ok(())
        },
        Err(e) => Err(e),
    }
}

/// Replaces the whole parameter set.
pub fn set_params(ledger: &mut Ledger, ctx: SetParams, params: Params) -> (r: Result<ParamsUpdated, ErrorCode>)
    requires
        old(ledger).wf(),
    ensures
        final(ledger).wf(),
        consistent(old(ledger)@) ==> consistent(final(ledger)@),
        consistent(old(ledger)@) && tallies_match(old(ledger)@) ==> tallies_match(final(ledger)@),
        match admin_check(old(ledger)@, ctx.admin, ctx.global) {
            Some(e) => r == Err::<ParamsUpdated, ErrorCode>(e) && final(ledger)@ == old(ledger)@,
            None => r == Ok::<ParamsUpdated, ErrorCode>(ParamsUpdated { admin: ctx.admin })
                && final(ledger)@ == with_params(old(ledger)@, ctx.global, params),
        },
{
    match replace_params(ledger, &ctx.admin, &ctx.global, params) {
        Ok(()) => Ok(ParamsUpdated { admin: ctx.admin }),
        Err(e) => Err(e),
    }
}

/// Sets the pause flag, keeping the other parameters.
pub fn pause(ledger: &mut Ledger, ctx: Pause) -> (r: Result<Paused, ErrorCode>)
    requires
        old(ledger).wf(),
    ensures
        final(ledger).wf(),
        consistent(old(ledger)@) ==> consistent(final(ledger)@),
        consistent(old(ledger)@) && tallies_match(old(ledger)@) ==> tallies_match(final(ledger)@),
        match admin_check(old(ledger)@, ctx.admin, ctx.global) {
            Some(e) => r == Err::<Paused, ErrorCode>(e) && final(ledger)@ == old(ledger)@,
            None => r == Ok::<Paused, ErrorCode>(Paused { by: ctx.admin }) && final(ledger)@
                == with_params(
                old(ledger)@,
                ctx.global,
                Params { paused: true, ..global_of(old(ledger)@, ctx.global)->Some_0.params },
            ),
        },
{
    let params = match ledger.global(&ctx.global) {
        Some(g) => Params { paused: true, ..g.params },
        None => return Err(ErrorCode::MissingRecord),
    };
    match replace_params(ledger, &ctx.admin, &ctx.global, params) {
        Ok(()) => Ok(Paused { by: ctx.admin }),
        Err(e) => Err(e),
    }
}

/// Clears the pause flag, keeping the other parameters.
pub fn unpause(ledger: &mut Ledger, ctx: Unpause) -> (r: Result<Unpaused, ErrorCode>)
    requires
        old(ledger).wf(),
    ensures
        final(ledger).wf(),
        consistent(old(ledger)@) ==> consistent(final(ledger)@),
        consistent(old(ledger)@) && tallies_match(old(ledger)@) ==> tallies_match(final(ledger)@),
        match admin_check(old(ledger)@, ctx.admin, ctx.global) {
            Some(e) => r == Err::<Unpaused, ErrorCode>(e) && final(ledger)@ == old(ledger)@,
            None => r == Ok::<Unpaused, ErrorCode>(Unpaused { by: ctx.admin }) && final(ledger)@
                == with_params(
                old(ledger)@,
                ctx.global,
                Params { paused: false, ..global_of(old(ledger)@, ctx.global)->Some_0.params },
            ),
        },
{
    let params = match ledger.global(&ctx.global) {
        Some(g) => Params { paused: false, ..g.params },
        None => return Err(ErrorCode::MissingRecord),
    };
    match replace_params(ledger, &ctx.admin, &ctx.global, params) {
        Ok(()) => Ok(Unpaused { by: ctx.admin }),
        Err(e) => Err(e),
    }
}

// ---------- catalog and members ----------

/// What `register_action_type` returns: the control plane must exist, the
/// caller be its admin, and the slug be free, checked in that order.
pub open spec fn register_action_type_result(
    m: Map<Address, Record>,
    ctx: RegisterActionType,
    slug: [u8; 16],
) -> Result<(), ErrorCode> {
    match global_of(m, ctx.global) {
        None => Err(ErrorCode::MissingRecord),
        Some(g) => if g.admin != ctx.admin {
            Err(ErrorCode::UnauthorizedAdmin)
        } else if m.contains_key(Address::ActionType { admin: ctx.global, slug }) {
            Err(ErrorCode::DuplicateRecord)
        } else {
            Ok(())
        },
    }
}

/// Adds a catalog entry under `slug` to the control plane of `ctx.global`.
pub fn register_action_type(
    ledger: &mut Ledger,
    ctx: RegisterActionType,
    slug: [u8; 16],
    name: String,
    points_per_unit: u64,
    unit: u8,
    badge_uri: String,
    cooldown_secs: u32,
    per_tx_cap: u64,
) -> (r: Result<(), ErrorCode>)
    requires
        old(ledger).wf(),
    ensures
        final(ledger).wf(),
        consistent(old(ledger)@) ==> consistent(final(ledger)@),
        consistent(old(ledger)@) && tallies_match(old(ledger)@) ==> tallies_match(final(ledger)@),
        r == register_action_type_result(old(ledger)@, ctx, slug),
        r is Ok ==> final(ledger)@ == old(ledger)@.insert(
            Address::ActionType { admin: ctx.global, slug },
            Record::ActionType(ActionType {
                global: ctx.global,
                slug,
                name,
                points_per_unit,
                unit,
                badge_metadata_uri: badge_uri,
                cooldown_secs,
                per_tx_cap,
            }),
        ),
        r is Err ==> final(ledger)@ == old(ledger)@,
{
    let addr = Address::ActionType { admin: ctx.global, slug };
    let is_admin = match ledger.global(&ctx.global) {
        Some(g) => g.is_admin(&ctx.admin),
        None => return Err(ErrorCode::MissingRecord),
    };
    if !is_admin {
        return Err(ErrorCode::UnauthorizedAdmin);
    }
    if ledger.get(&addr).is_some() {
        return Err(ErrorCode::DuplicateRecord);
    }
    let at = ActionType {
        global: ctx.global,
        slug,
        name,
        points_per_unit,
        unit,
        badge_metadata_uri: badge_uri,
        cooldown_secs,
        per_tx_cap,
    };
    proof {
        if consistent(ledger@) {
            lemma_register_action_type_consistent(ledger@, ctx, at);
            if tallies_match(ledger@) {
                lemma_register_action_type_tallies(ledger@, ctx, at);
            }
        }
    }
    match ledger.create(addr, Record::ActionType(at)) {
        Ok(()) => Ok(()),
        Err(e) => Err(e),
    }
}

/// Registers `ctx.user` as a member with an empty tally, once.
pub fn join(ledger: &mut Ledger, ctx: Join, profile_uri: Option<String>, now: i64) -> (r: Result<(), ErrorCode>)
    requires
        old(ledger).wf(),
    ensures
        final(ledger).wf(),
        consistent(old(ledger)@) ==> consistent(final(ledger)@),
        consistent(old(ledger)@) && tallies_match(old(ledger)@) ==> tallies_match(final(ledger)@),
        old(ledger)@.contains_key(Address::Member { owner: ctx.user }) ==> r == Err::<(), ErrorCode>(
            ErrorCode::DuplicateRecord,
        ) && final(ledger)@ == old(ledger)@,
        !old(ledger)@.contains_key(Address::Member { owner: ctx.user }) ==> r is Ok && final(ledger)@
            == old(ledger)@.insert(
            Address::Member { owner: ctx.user },
            Record::Member(Member { owner: ctx.user, points: 0, joined_at: now, profile_uri }),
        ),
{
    let m = Member { owner: ctx.user, points: 0, joined_at: now, profile_uri };
    proof {
        if consistent(ledger@) && !ledger@.contains_key(Address::Member { owner: ctx.user }) {
            lemma_join_consistent(ledger@, m);
            if tallies_match(ledger@) {
                lemma_join_tallies(ledger@, m);
            }
        }
    }
    ledger.create(Address::Member { owner: ctx.user }, Record::Member(m))
}

// ---------- claims ----------

/// The claim that a successful submission stores.
pub open spec fn new_submission(
    ctx: SubmitAction,
    slug: [u8; 16],
    amount: u64,
    client_nonce: u64,
    evidence_hash: [u8; 32],
    location_hash: [u8; 32],
    now: i64,
) -> Submission {
    Submission {
        member: Address::Member { owner: ctx.user },
        member_owner: ctx.user,
        action_type: Address::ActionType { admin: ctx.global, slug },
        amount,
        evidence_hash,
        location_hash,
        status: Status::Pending,
        created_at: now,
        client_nonce,
    }
}

/// The store after a successful submission.
pub open spec fn submit_action_next(
    m: Map<Address, Record>,
    ctx: SubmitAction,
    slug: [u8; 16],
    amount: u64,
    client_nonce: u64,
    evidence_hash: [u8; 32],
    location_hash: [u8; 32],
    now: i64,
) -> Map<Address, Record> {
    m.insert(
        Address::Submission { owner: ctx.user, nonce: client_nonce },
        Record::Submission(
            new_submission(ctx, slug, amount, client_nonce, evidence_hash, location_hash, now),
        ),
    )
}

/// What `submit_action` returns: the control plane, the caller's member
/// record and the catalog entry must exist; then the plane must not be
/// paused, the amount must lie in `(0, per_tx_cap]`, and the address of
/// `(user, nonce)` must be free, checked in that order.
pub open spec fn submit_action_result(
    m: Map<Address, Record>,
    ctx: SubmitAction,
    slug: [u8; 16],
    amount: u64,
    client_nonce: u64,
) -> Result<ActionSubmitted, ErrorCode> {
    match (
        global_of(m, ctx.global),
        member_of(m, Address::Member { owner: ctx.user }),
        action_type_of(m, Address::ActionType { admin: ctx.global, slug }),
    ) {
        (Some(g), Some(_), Some(at)) => if g.params.paused {
            Err(ErrorCode::Paused)
        } else if amount == 0 || amount > at.per_tx_cap {
            Err(ErrorCode::InvalidAmount)
        } else if m.contains_key(Address::Submission { owner: ctx.user, nonce: client_nonce }) {
            Err(ErrorCode::DuplicateRecord)
        } else {
            Ok(ActionSubmitted { member: ctx.user, action_type: at.slug, amount })
        },
        _ => Err(ErrorCode::MissingRecord),
    }
}

/// Creates a pending claim of `amount` units of the catalog entry `slug`, at
/// the address of `(ctx.user, client_nonce)`.
pub fn submit_action(
    ledger: &mut Ledger,
    ctx: SubmitAction,
    slug: [u8; 16],
    amount: u64,
    client_nonce: u64,
    evidence_hash: [u8; 32],
    location_hash: [u8; 32],
    now: i64,
) -> (r: Result<ActionSubmitted, ErrorCode>)
    requires
        old(ledger).wf(),
    ensures
        final(ledger).wf(),
        consistent(old(ledger)@) ==> consistent(final(ledger)@),
        consistent(old(ledger)@) && tallies_match(old(ledger)@) ==> tallies_match(final(ledger)@),
        r == submit_action_result(old(ledger)@, ctx, slug, amount, client_nonce),
        r is Ok ==> final(ledger)@ == submit_action_next(
            old(ledger)@,
            ctx,
            slug,
            amount,
            client_nonce,
            evidence_hash,
            location_hash,
            now,
        ),
        r is Err ==> final(ledger)@ == old(ledger)@,
{
    let member = Address::Member { owner: ctx.user };
    let action_type = Address::ActionType { admin: ctx.global, slug };
    let paused = match ledger.global(&ctx.global) {
        Some(g) => g.params.paused,
        None => return Err(ErrorCode::MissingRecord),
    };
    if ledger.member(&member).is_none() {
        return Err(ErrorCode::MissingRecord);
    }
    let (cap, at_slug) = match ledger.action_type(&action_type) {
        Some(at) => (at.per_tx_cap, at.slug),
        None => return Err(ErrorCode::MissingRecord),
    };
    if paused {
        return Err(ErrorCode::Paused);
    }
    if amount == 0 || amount > cap {
        return Err(ErrorCode::InvalidAmount);
    }
    let s = Submission {
        member,
        member_owner: ctx.user,
        action_type,
        amount,
        evidence_hash,
        location_hash,
        status: Status::Pending,
        created_at: now,
        client_nonce,
    };
    proof {
        if consistent(ledger@) && submit_action_result(ledger@, ctx, slug, amount, client_nonce) is Ok {
            lemma_submit_action_consistent(
                ledger@,
                ctx,
                slug,
                amount,
                client_nonce,
                evidence_hash,
                location_hash,
                now,
            );
            if tallies_match(ledger@) {
                lemma_submit_action_tallies(
                    ledger@,
                    ctx,
                    slug,
                    amount,
                    client_nonce,
                    evidence_hash,
                    location_hash,
                    now,
                );
            }
        }
    }
    match ledger.create(Address::Submission { owner: ctx.user, nonce: client_nonce }, Record::Submission(s)) {
        Ok(()) => Ok(ActionSubmitted { member: ctx.user, action_type: at_slug, amount }),
        Err(e) => Err(e),
    }
}

/// What `verify_action` returns: the control plane, the claim, its member
/// record and its catalog entry must exist; then the caller must be a
/// verifier of that control plane and the claim's catalog entry belong to
/// it, the claim must be pending, and on approval `rate * amount` and the new
/// tally must fit in 64 bits.
pub open spec fn verify_action_result(m: Map<Address, Record>, ctx: VerifyAction, approve: bool) -> Result<
    Resolution,
    ErrorCode,
> {
    match (global_of(m, ctx.global), submission_of(m, ctx.submission_address())) {
        (Some(g), Some(s)) => match (action_type_of(m, s.action_type), member_of(m, s.member)) {
            (Some(at), Some(mem)) => {
                let points = at.points_per_unit * s.amount;
                if !g.has_verifier(ctx.verifier) || !s.action_type.is_catalog_entry_of(ctx.global) {
                    Err(ErrorCode::UnauthorizedVerifier)
                } else if s.status != Status::Pending {
                    Err(ErrorCode::NotPending)
                } else if !approve {
                    Ok(
                        Resolution::Rejected(
                            ActionRejected { member: s.member_owner, submission: ctx.submission_address() },
                        ),
                    )
                } else if points > u64::MAX || mem.points + points > u64::MAX {
                    Err(ErrorCode::MathOverflow)
                } else {
                    Ok(
                        Resolution::Approved(
                            ActionApproved {
                                member: s.member_owner,
                                action_type: at.slug,
                                points: points as u64,
                                verifier: ctx.verifier,
                            },
                            MintTo {
                                mint: g.points_mint,
                                to: s.member_owner,
                                authority: Address::Global { admin: ctx.global },
                                amount: points as u64,
                            },
                        ),
                    )
                }
            },
            _ => Err(ErrorCode::MissingRecord),
        },
        _ => Err(ErrorCode::MissingRecord),
    }
}

/// The store after a successful resolution: an approval credits the member's
/// tally with the points and marks the claim `Approved`; a rejection only
/// marks it `Rejected`.
pub open spec fn verify_action_next(m: Map<Address, Record>, ctx: VerifyAction, approve: bool) -> Map<
    Address,
    Record,
> {
    let sa = ctx.submission_address();
    let s = submission_of(m, sa)->Some_0;
    if approve {
        let at = action_type_of(m, s.action_type)->Some_0;
        let mem = member_of(m, s.member)->Some_0;
        let tally = (mem.points + at.points_per_unit * s.amount) as u64;
        m.insert(s.member, Record::Member(Member { points: tally, ..mem })).insert(
            sa,
            Record::Submission(Submission { status: Status::Approved, ..s }),
        )
    } else {
        m.insert(sa, Record::Submission(Submission { status: Status::Rejected, ..s }))
    }
}

/// Resolves a pending claim. On approval the points `rate * amount` are
/// credited to the member's tally and one mint of the same amount is returned
/// for the external token ledger; the status write and the credit happen
/// together or not at all. The caller carries out the mint in the same
/// transaction as this call and drops the store's changes if the mint fails.
pub fn verify_action(ledger: &mut Ledger, ctx: VerifyAction, approve: bool) -> (r: Result<
    Resolution,
    ErrorCode,
>)
    requires
        old(ledger).wf(),
    ensures
        final(ledger).wf(),
        consistent(old(ledger)@) ==> consistent(final(ledger)@),
        consistent(old(ledger)@) && tallies_match(old(ledger)@) ==> tallies_match(final(ledger)@),
        r == verify_action_result(old(ledger)@, ctx, approve),
        r is Ok ==> final(ledger)@ == verify_action_next(old(ledger)@, ctx, approve),
        r is Err ==> final(ledger)@ == old(ledger)@,
{
    let ghost pre = ledger@;
    let sa = Address::Submission { owner: ctx.submission_owner, nonce: ctx.client_nonce };
    let (authorized, points_mint) = match ledger.global(&ctx.global) {
        Some(g) => (g.is_verifier(&ctx.verifier), g.points_mint),
        None => return Err(ErrorCode::MissingRecord),
    };
    let s = match ledger.submission(&sa) {
        Some(s) => s,
        None => return Err(ErrorCode::MissingRecord),
    };
    let (rate, slug) = match ledger.action_type(&s.action_type) {
        Some(at) => (at.points_per_unit, at.slug),
        None => return Err(ErrorCode::MissingRecord),
    };
    let tally = match ledger.member(&s.member) {
        Some(mem) => mem.points,
        None => return Err(ErrorCode::MissingRecord),
    };
    if !authorized || !s.action_type.catalog_entry_of(&ctx.global) {
        return Err(ErrorCode::UnauthorizedVerifier);
    }
    if s.status != Status::Pending {
        return Err(ErrorCode::NotPending);
    }
    if !approve {
        ledger.set_status(&sa, Status::Rejected);
        proof {
            if consistent(pre) {
                lemma_verify_action_consistent(pre, ctx, approve);
                if tallies_match(pre) {
                    lemma_verify_action_tallies(pre, ctx, approve);
                }
            }
        }
        return Ok(Resolution::Rejected(ActionRejected { member: s.member_owner, submission: sa }));
    }
    let points = match rate.checked_mul(s.amount) {
        Some(p) => p,
        None => return Err(ErrorCode::MathOverflow),
    };
    let new_tally = match tally.checked_add(points) {
        Some(t) => t,
        None => return Err(ErrorCode::MathOverflow),
    };
    ledger.set_points(&s.member, new_tally);
    ledger.set_status(&sa, Status::Approved);
    proof {
        if consistent(pre) {
            lemma_verify_action_consistent(pre, ctx, approve);
            if tallies_match(pre) {
                lemma_verify_action_tallies(pre, ctx, approve);
            }
        }
    }
    Ok(
        Resolution::Approved(
            ActionApproved { member: s.member_owner, action_type: slug, points, verifier: ctx.verifier },
            MintTo {
                mint: points_mint,
                to: s.member_owner,
                authority: Address::Global { admin: ctx.global },
                amount: points,
            },
        ),
    )
}

// ---------- redemption ----------

/// What `redeem_with_partner` returns: the control plane must exist and not
/// be paused, and the amount must be positive.
pub open spec fn redeem_result(m: Map<Address, Record>, ctx: Redeem, points: u64, partner_slug: [u8; 16]) -> Result<
    (Redeemed, Burn),
    ErrorCode,
> {
    match global_of(m, ctx.global) {
        None => Err(ErrorCode::MissingRecord),
        Some(g) => if g.params.paused {
            Err(ErrorCode::Paused)
        } else if points == 0 {
            Err(ErrorCode::InvalidAmount)
        } else {
            Ok(
                (
                    Redeemed { member: ctx.user, partner_slug, points },
                    Burn { mint: g.points_mint, from: ctx.user, authority: ctx.user, amount: points },
                ),
            )
        },
    }
}

/// Redeems `points` with a partner: returns the one burn, signed by the
/// participant, that the external token ledger must carry out. The member's
/// tally, a lifetime-earned counter, is left as it is.
pub fn redeem_with_partner(ledger: &Ledger, ctx: Redeem, points: u64, partner_slug: [u8; 16]) -> (r: Result<
    (Redeemed, Burn),
    ErrorCode,
>)
    requires
        ledger.wf(),
    ensures
        r == redeem_result(ledger@, ctx, points, partner_slug),
{
    let g = match ledger.global(&ctx.global) {
        Some(g) => g,
        None => return Err(ErrorCode::MissingRecord),
    };
    if g.params.paused {
        return Err(ErrorCode::Paused);
    }
    if points == 0 {
        return Err(ErrorCode::InvalidAmount);
    }
    Ok(
        (
            Redeemed { member: ctx.user, partner_slug, points },
            Burn { mint: g.points_mint, from: ctx.user, authority: ctx.user, amount: points },
        ),
    )
}

} // verus!

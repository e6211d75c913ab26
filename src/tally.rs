use vstd::prelude::*;

use crate::instructions::{
    initialize_result, register_action_type_result, submit_action_next, submit_action_result,
    verify_action_next, verify_action_result, with_params, Initialize, RegisterActionType,
    SubmitAction, VerifyAction,
};
use crate::keys::{Address, Pubkey};
use crate::laws::consistent;
use crate::state::{ActionType, GlobalState, Member, Params, Record, Status};
use crate::store::{action_type_of, global_of, member_of};

verus! {

broadcast use vstd::set::group_set_axioms;

/// The points that the record at `a` has earned `owner`: `rate * amount` for
/// an approved claim of `owner`, at its catalog entry's rate; nothing for any
/// other record.
pub open spec fn award(m: Map<Address, Record>, owner: Pubkey, a: Address) -> int {
    if m.contains_key(a) && m[a] is Submission {
        let s = m[a]->Submission_0;
        if s.member_owner == owner && s.status == Status::Approved && action_type_of(
            m,
            s.action_type,
        ) is Some {
            action_type_of(m, s.action_type)->Some_0.points_per_unit * s.amount
        } else {
            0
        }
    } else {
        0
    }
}

/// The sum of `w` over the finite set `s`.
pub open spec fn sum(s: Set<Address>, w: spec_fn(Address) -> int) -> int {
    s.fold(0int, |acc: int, a: Address| acc + w(a))
}

/// The points that all approved claims of `owner` in `m` have earned.
pub open spec fn earned(m: Map<Address, Record>, owner: Pubkey) -> int {
    sum(m.dom(), |a: Address| award(m, owner, a))
}

/// Every member's tally equals the sum of `rate * amount` over that
/// member's approved claims.
pub open spec fn tallies_match(m: Map<Address, Record>) -> bool {
    &&& m.dom().finite()
    &&& forall|owner: Pubkey| #[trigger]
        member_of(m, Address::Member { owner }) is Some ==> member_of(
            m,
            Address::Member { owner },
        )->Some_0.points == earned(m, owner)
}

proof fn lemma_sum_insert(s: Set<Address>, w: spec_fn(Address) -> int, a: Address)
    requires
        s.finite(),
        !s.contains(a),
    ensures
        sum(s.insert(a), w) == sum(s, w) + w(a),
{
    let f = |acc: int, x: Address| acc + w(x);
    assert(vstd::set::fold::is_fun_commutative(f));
    vstd::set::fold::lemma_fold_insert(s, 0int, f, a);
}

proof fn lemma_sum_split(s: Set<Address>, w: spec_fn(Address) -> int, a: Address)
    requires
        s.finite(),
        s.contains(a),
    ensures
        sum(s, w) == sum(s.remove(a), w) + w(a),
{
    lemma_sum_insert(s.remove(a), w, a);
    assert(s.remove(a).insert(a) =~= s);
}

/// Two weights that agree on `s` have the same sum over it.
proof fn lemma_sum_agree(s: Set<Address>, w1: spec_fn(Address) -> int, w2: spec_fn(Address) -> int)
    requires
        s.finite(),
        forall|a: Address| s.contains(a) ==> w1(a) == w2(a),
    ensures
        sum(s, w1) == sum(s, w2),
    decreases s.len(),
{
    if s.len() == 0 {
        assert(s =~= Set::<Address>::empty());
        vstd::set::fold::lemma_fold_empty(0int, |acc: int, x: Address| acc + w1(x));
        vstd::set::fold::lemma_fold_empty(0int, |acc: int, x: Address| acc + w2(x));
    } else {
        let a = s.choose();
        lemma_sum_split(s, w1, a);
        lemma_sum_split(s, w2, a);
        lemma_sum_agree(s.remove(a), w1, w2);
    }
}

/// A weight that is zero on `s` sums to zero over it.
proof fn lemma_sum_zero(s: Set<Address>, w: spec_fn(Address) -> int)
    requires
        s.finite(),
        forall|a: Address| s.contains(a) ==> w(a) == 0,
    ensures
        sum(s, w) == 0,
    decreases s.len(),
{
    if s.len() == 0 {
        assert(s =~= Set::<Address>::empty());
        vstd::set::fold::lemma_fold_empty(0int, |acc: int, x: Address| acc + w(x));
    } else {
        let a = s.choose();
        lemma_sum_split(s, w, a);
        lemma_sum_zero(s.remove(a), w);
    }
}

/// Adding a record at a fresh address that earns nothing, where every claim
/// keeps its catalog entry, leaves every owner's earnings as they were.
proof fn lemma_earned_insert_fresh(m: Map<Address, Record>, k: Address, r: Record, owner: Pubkey)
    requires
        m.dom().finite(),
        !m.contains_key(k),
        consistent(m),
        award(m.insert(k, r), owner, k) == 0,
    ensures
        earned(m.insert(k, r), owner) == earned(m, owner),
{
    let n = m.insert(k, r);
    let wn = |a: Address| award(n, owner, a);
    let wm = |a: Address| award(m, owner, a);
    assert(n.dom() =~= m.dom().insert(k));
    lemma_sum_insert(m.dom(), wn, k);
    assert forall|a: Address| m.dom().contains(a) implies wn(a) == wm(a) by {
        if m[a] is Submission {
            let s = m[a]->Submission_0;
            assert(m.contains_key(a));
            if action_type_of(m, s.action_type) is Some {
                assert(s.action_type != k);
            }
        }
    }
    lemma_sum_agree(m.dom(), wn, wm);
}

/// The empty store has matching tallies.
pub proof fn lemma_empty_tallies()
    ensures
        tallies_match(Map::<Address, Record>::empty()),
{
}

/// Adding a record at a fresh address that earns nothing, where the new
/// record is no member record, keeps the tallies matching.
proof fn lemma_tallies_insert_fresh(m: Map<Address, Record>, k: Address, r: Record)
    requires
        consistent(m),
        tallies_match(m),
        !m.contains_key(k),
        !(r is Member),
        forall|owner: Pubkey| award(#[trigger] m.insert(k, r), owner, k) == 0,
    ensures
        tallies_match(m.insert(k, r)),
{
    let n = m.insert(k, r);
    assert forall|owner: Pubkey| #[trigger] member_of(n, Address::Member { owner }) is Some implies member_of(
        n,
        Address::Member { owner },
    )->Some_0.points == earned(n, owner) by {
        assert(award(n, owner, k) == 0);
        lemma_earned_insert_fresh(m, k, r, owner);
        assert(member_of(n, Address::Member { owner }) == member_of(m, Address::Member { owner }));
    }
}

/// Creating a control plane keeps the tallies matching.
pub proof fn lemma_initialize_tallies(m: Map<Address, Record>, ctx: Initialize, g: GlobalState)
    requires
        consistent(m),
        tallies_match(m),
        initialize_result(m, ctx) is Ok,
    ensures
        tallies_match(m.insert(Address::Global { admin: ctx.admin }, Record::Global(g))),
{
    let k = Address::Global { admin: ctx.admin };
    assert forall|owner: Pubkey| award(#[trigger] m.insert(k, Record::Global(g)), owner, k) == 0 by {}
    lemma_tallies_insert_fresh(m, k, Record::Global(g));
}

/// Adding a catalog entry keeps the tallies matching.
pub proof fn lemma_register_action_type_tallies(
    m: Map<Address, Record>,
    ctx: RegisterActionType,
    at: ActionType,
)
    requires
        consistent(m),
        tallies_match(m),
        register_action_type_result(m, ctx, at.slug) is Ok,
    ensures
        tallies_match(m.insert(Address::ActionType { admin: ctx.global, slug: at.slug }, Record::ActionType(at))),
{
    let k = Address::ActionType { admin: ctx.global, slug: at.slug };
    assert forall|owner: Pubkey| award(#[trigger] m.insert(k, Record::ActionType(at)), owner, k) == 0 by {}
    lemma_tallies_insert_fresh(m, k, Record::ActionType(at));
}

/// Creating a claim keeps the tallies matching: a new claim is pending and
/// earns nothing yet.
pub proof fn lemma_submit_action_tallies(
    m: Map<Address, Record>,
    ctx: SubmitAction,
    slug: [u8; 16],
    amount: u64,
    client_nonce: u64,
    evidence_hash: [u8; 32],
    location_hash: [u8; 32],
    now: i64,
)
    requires
        consistent(m),
        tallies_match(m),
        submit_action_result(m, ctx, slug, amount, client_nonce) is Ok,
    ensures
        tallies_match(
            submit_action_next(m, ctx, slug, amount, client_nonce, evidence_hash, location_hash, now),
        ),
{
    let n = submit_action_next(m, ctx, slug, amount, client_nonce, evidence_hash, location_hash, now);
    let k = Address::Submission { owner: ctx.user, nonce: client_nonce };
    let r = n[k];
    assert(n == m.insert(k, r));
    assert forall|owner: Pubkey| award(#[trigger] m.insert(k, r), owner, k) == 0 by {}
    lemma_tallies_insert_fresh(m, k, r);
}

/// Registering a member keeps the tallies matching: in a consistent store
/// no claim belongs to someone without a member record, so the newcomer has
/// earned nothing.
pub proof fn lemma_join_tallies(m: Map<Address, Record>, mem: Member)
    requires
        consistent(m),
        tallies_match(m),
        !m.contains_key(Address::Member { owner: mem.owner }),
        mem.points == 0,
    ensures
        tallies_match(m.insert(Address::Member { owner: mem.owner }, Record::Member(mem))),
{
    let k = Address::Member { owner: mem.owner };
    let n = m.insert(k, Record::Member(mem));
    assert forall|owner: Pubkey| #[trigger] member_of(n, Address::Member { owner }) is Some implies member_of(
        n,
        Address::Member { owner },
    )->Some_0.points == earned(n, owner) by {
        assert(award(n, owner, k) == 0);
        lemma_earned_insert_fresh(m, k, Record::Member(mem), owner);
        if owner == mem.owner {
            let w = |a: Address| award(m, owner, a);
            assert forall|a: Address| m.dom().contains(a) implies w(a) == 0 by {
                assert(m.contains_key(a));
                if m[a] is Submission {
                    let s = m[a]->Submission_0;
                    if s.member_owner == owner {
                        assert(member_of(m, s.member) is Some);
                    }
                }
            }
            lemma_sum_zero(m.dom(), w);
        } else {
            assert(member_of(n, Address::Member { owner }) == member_of(m, Address::Member { owner }));
        }
    }
}

/// Replacing the parameters of a control plane keeps the tallies matching.
pub proof fn lemma_params_tallies(m: Map<Address, Record>, global: Pubkey, params: Params)
    requires
        tallies_match(m),
        global_of(m, global) is Some,
    ensures
        tallies_match(with_params(m, global, params)),
{
    let n = with_params(m, global, params);
    assert(n.dom() =~= m.dom());
    assert forall|owner: Pubkey| #[trigger] member_of(n, Address::Member { owner }) is Some implies member_of(
        n,
        Address::Member { owner },
    )->Some_0.points == earned(n, owner) by {
        assert(member_of(n, Address::Member { owner }) == member_of(m, Address::Member { owner }));
        let wn = |a: Address| award(n, owner, a);
        let wm = |a: Address| award(m, owner, a);
        assert forall|a: Address| m.dom().contains(a) implies wn(a) == wm(a) by {
            if m[a] is Submission {
                let s = m[a]->Submission_0;
                assert(action_type_of(n, s.action_type) == action_type_of(m, s.action_type));
            }
        }
        lemma_sum_agree(m.dom(), wn, wm);
    }
}

/// Resolving a claim keeps the tallies matching: an approval adds
/// `rate * amount` both to the claimant's tally and to what the claimant's
/// approved claims have earned; a rejection changes neither.
pub proof fn lemma_verify_action_tallies(m: Map<Address, Record>, ctx: VerifyAction, approve: bool)
    requires
        consistent(m),
        tallies_match(m),
        verify_action_result(m, ctx, approve) is Ok,
    ensures
        tallies_match(verify_action_next(m, ctx, approve)),
{
    let n = verify_action_next(m, ctx, approve);
    let sa = ctx.submission_address();
    assert(m.contains_key(sa));
    let s = m[sa]->Submission_0;
    let pts = action_type_of(m, s.action_type)->Some_0.points_per_unit * s.amount;
    assert(n.dom() =~= m.dom());
    assert(action_type_of(n, s.action_type) == action_type_of(m, s.action_type));
    assert forall|owner: Pubkey| #[trigger] member_of(n, Address::Member { owner }) is Some implies member_of(
        n,
        Address::Member { owner },
    )->Some_0.points == earned(n, owner) by {
        let wn = |a: Address| award(n, owner, a);
        let wm = |a: Address| award(m, owner, a);
        let rest = m.dom().remove(sa);
        assert forall|a: Address| rest.contains(a) implies wn(a) == wm(a) by {
            if m[a] is Submission {
                let t = m[a]->Submission_0;
                assert(action_type_of(n, t.action_type) == action_type_of(m, t.action_type));
            }
        }
        lemma_sum_agree(rest, wn, wm);
        lemma_sum_split(m.dom(), wn, sa);
        lemma_sum_split(m.dom(), wm, sa);
        assert(wm(sa) == 0);
        assert(member_of(m, Address::Member { owner }) is Some);
        if approve && owner == s.member_owner {
            assert(wn(sa) == pts);
        } else {
            assert(wn(sa) == 0);
        }
    }
}

} // verus!

use carbon::{
    initialize, join, pause, redeem_with_partner, register_action_type, require_admin,
    same_bytes, set_params, submit_action, unpause, verify_action, Address, ErrorCode,
    Initialize, Join, Ledger, Params, Pause, Pubkey, Redeem, RegisterActionType, Resolution,
    SetParams, Status, SubmitAction, Unpause, VerifyAction,
};

const TREE: [u8; 16] = *b"TREE............";
const BIKE: [u8; 16] = *b"BIKE............";

fn key(b: u8) -> Pubkey {
    Pubkey::new_from_array([b; 32])
}

fn admin() -> Pubkey {
    key(1)
}

fn checker() -> Pubkey {
    key(2)
}

fn participant() -> Pubkey {
    key(3)
}

fn mint() -> Pubkey {
    key(9)
}

/// A control plane with one verifier, one catalog entry `TREE` of the given
/// rate and cap, and one member.
fn setup(rate: u64, cap: u64) -> Ledger {
    let mut l = Ledger::new();
    let ctx = Initialize { admin: admin(), points_mint: mint(), vault: key(8), bump_global: 254 };
    let ev = initialize(&mut l, ctx, vec![checker()], Params::default()).unwrap();
    assert_eq!(ev.admin, admin());
    assert_eq!(ev.points_mint, mint());
    let rctx = RegisterActionType { admin: admin(), global: admin() };
    register_action_type(&mut l, rctx, TREE, "Plant a tree".to_string(), rate, 0, "ipfs://tree".to_string(), 0, cap)
        .unwrap();
    join(&mut l, Join { user: participant() }, None, 1_700_000_000).unwrap();
    l
}

fn submit(l: &mut Ledger, amount: u64, nonce: u64) -> Result<carbon::ActionSubmitted, ErrorCode> {
    let ctx = SubmitAction { user: participant(), global: admin() };
    submit_action(l, ctx, TREE, amount, nonce, [7; 32], [8; 32], 1_700_000_100)
}

fn resolve(l: &mut Ledger, who: Pubkey, nonce: u64, approve: bool) -> Result<Resolution, ErrorCode> {
    let ctx = VerifyAction { verifier: who, global: admin(), submission_owner: participant(), client_nonce: nonce };
    verify_action(l, ctx, approve)
}

fn tally(l: &Ledger) -> u64 {
    l.member(&Address::Member { owner: participant() }).unwrap().points
}

fn status(l: &Ledger, nonce: u64) -> Status {
    l.submission(&Address::Submission { owner: participant(), nonce }).unwrap().status
}

#[test]
fn full_flow_approve_then_redeem() {
    let mut l = setup(100, 10);
    let ev = submit(&mut l, 3, 1).unwrap();
    assert_eq!(ev.member, participant());
    assert_eq!(ev.action_type, TREE);
    assert_eq!(ev.amount, 3);
    assert_eq!(status(&l, 1), Status::Pending);
    let s = l.submission(&Address::Submission { owner: participant(), nonce: 1 }).unwrap();
    assert_eq!(s.amount, 3);
    assert_eq!(s.member_owner, participant());
    assert_eq!(s.created_at, 1_700_000_100);
    match resolve(&mut l, checker(), 1, true).unwrap() {
        Resolution::Approved(ev, m) => {
            assert_eq!(ev.points, 300);
            assert_eq!(ev.member, participant());
            assert_eq!(ev.verifier, checker());
            assert_eq!(m.amount, 300);
            assert_eq!(m.to, participant());
            assert_eq!(m.mint, mint());
            assert!(m.authority == Address::Global { admin: admin() });
        }
        Resolution::Rejected(_) => panic!("expected an approval"),
    }
    assert_eq!(status(&l, 1), Status::Approved);
    assert_eq!(tally(&l), 300);
    let partner = *b"PARTNER-X.......";
    let (ev, burn) = redeem_with_partner(&l, Redeem { user: participant(), global: admin() }, 150, partner).unwrap();
    assert_eq!(ev.points, 150);
    assert_eq!(ev.partner_slug, partner);
    assert_eq!(burn.amount, 150);
    assert_eq!(burn.from, participant());
    assert_eq!(burn.authority, participant());
    assert_eq!(burn.mint, mint());
    assert_eq!(tally(&l), 300);
}

#[test]
fn non_verifier_cannot_resolve() {
    let mut l = setup(100, 10);
    submit(&mut l, 3, 1).unwrap();
    assert_eq!(resolve(&mut l, key(42), 1, true).unwrap_err(), ErrorCode::UnauthorizedVerifier);
    assert_eq!(resolve(&mut l, participant(), 1, false).unwrap_err(), ErrorCode::UnauthorizedVerifier);
    assert_eq!(status(&l, 1), Status::Pending);
    assert_eq!(tally(&l), 0);
}

#[test]
fn paused_blocks_submission_but_not_resolution() {
    let mut l = setup(100, 10);
    submit(&mut l, 2, 1).unwrap();
    let ev = pause(&mut l, Pause { admin: admin(), global: admin() }).unwrap();
    assert_eq!(ev.by, admin());
    assert!(l.global(&admin()).unwrap().params.paused);
    assert_eq!(submit(&mut l, 2, 2).unwrap_err(), ErrorCode::Paused);
    assert!(l.submission(&Address::Submission { owner: participant(), nonce: 2 }).is_none());
    assert!(resolve(&mut l, checker(), 1, true).is_ok());
    assert_eq!(status(&l, 1), Status::Approved);
    assert_eq!(tally(&l), 200);
    let r = redeem_with_partner(&l, Redeem { user: participant(), global: admin() }, 10, [0; 16]);
    assert_eq!(r.unwrap_err(), ErrorCode::Paused);
    let ev = unpause(&mut l, Unpause { admin: admin(), global: admin() }).unwrap();
    assert_eq!(ev.by, admin());
    assert!(submit(&mut l, 2, 2).is_ok());
}

#[test]
fn approval_credits_rate_times_amount() {
    let mut l = setup(7, 100);
    submit(&mut l, 6, 5).unwrap();
    match resolve(&mut l, checker(), 5, true).unwrap() {
        Resolution::Approved(ev, m) => {
            assert_eq!(ev.points, 42);
            assert_eq!(m.amount, 42);
        }
        Resolution::Rejected(_) => panic!("expected an approval"),
    }
    assert_eq!(tally(&l), 42);
    submit(&mut l, 4, 6).unwrap();
    resolve(&mut l, checker(), 6, true).unwrap();
    assert_eq!(tally(&l), 70);
}

#[test]
fn second_resolution_fails_not_pending() {
    let mut l = setup(100, 10);
    submit(&mut l, 1, 1).unwrap();
    resolve(&mut l, checker(), 1, true).unwrap();
    assert_eq!(resolve(&mut l, checker(), 1, true).unwrap_err(), ErrorCode::NotPending);
    assert_eq!(resolve(&mut l, checker(), 1, false).unwrap_err(), ErrorCode::NotPending);
    assert_eq!(status(&l, 1), Status::Approved);
    assert_eq!(tally(&l), 100);

    submit(&mut l, 1, 2).unwrap();
    match resolve(&mut l, checker(), 2, false).unwrap() {
        Resolution::Rejected(ev) => {
            assert_eq!(ev.member, participant());
            assert!(ev.submission == Address::Submission { owner: participant(), nonce: 2 });
        }
        Resolution::Approved(..) => panic!("expected a rejection"),
    }
    assert_eq!(status(&l, 2), Status::Rejected);
    assert_eq!(resolve(&mut l, checker(), 2, true).unwrap_err(), ErrorCode::NotPending);
    assert_eq!(resolve(&mut l, checker(), 2, false).unwrap_err(), ErrorCode::NotPending);
    assert_eq!(status(&l, 2), Status::Rejected);
    assert_eq!(tally(&l), 100);
}

#[test]
fn amount_outside_range_is_invalid() {
    let mut l = setup(100, 10);
    assert_eq!(submit(&mut l, 0, 1).unwrap_err(), ErrorCode::InvalidAmount);
    assert_eq!(submit(&mut l, 11, 2).unwrap_err(), ErrorCode::InvalidAmount);
    assert_eq!(submit(&mut l, u64::MAX, 3).unwrap_err(), ErrorCode::InvalidAmount);
    for n in 1..4u64 {
        assert!(l.submission(&Address::Submission { owner: participant(), nonce: n }).is_none());
    }
    assert!(submit(&mut l, 10, 4).is_ok());
    assert!(submit(&mut l, 1, 5).is_ok());
}

#[test]
fn reused_nonce_is_duplicate() {
    let mut l = setup(100, 10);
    submit(&mut l, 3, 1).unwrap();
    assert_eq!(submit(&mut l, 4, 1).unwrap_err(), ErrorCode::DuplicateRecord);
    assert_eq!(l.submission(&Address::Submission { owner: participant(), nonce: 1 }).unwrap().amount, 3);
    assert!(submit(&mut l, 4, 2).is_ok());
}

#[test]
fn reward_overflow_aborts() {
    let mut l = setup(u64::MAX, 10);
    submit(&mut l, 2, 1).unwrap();
    assert_eq!(resolve(&mut l, checker(), 1, true).unwrap_err(), ErrorCode::MathOverflow);
    assert_eq!(status(&l, 1), Status::Pending);
    assert_eq!(tally(&l), 0);
}

#[test]
fn tally_overflow_aborts() {
    let mut l = setup(u64::MAX, 10);
    submit(&mut l, 1, 1).unwrap();
    submit(&mut l, 1, 2).unwrap();
    resolve(&mut l, checker(), 1, true).unwrap();
    assert_eq!(tally(&l), u64::MAX);
    assert_eq!(resolve(&mut l, checker(), 2, true).unwrap_err(), ErrorCode::MathOverflow);
    assert_eq!(status(&l, 2), Status::Pending);
    assert_eq!(tally(&l), u64::MAX);
}

#[test]
fn admin_gates() {
    let mut l = setup(100, 10);
    let other = key(50);
    let r = register_action_type(
        &mut l,
        RegisterActionType { admin: other, global: admin() },
        BIKE,
        "Bike".to_string(),
        1,
        2,
        String::new(),
        0,
        5,
    );
    assert_eq!(r.unwrap_err(), ErrorCode::UnauthorizedAdmin);
    assert!(l.action_type(&Address::ActionType { admin: admin(), slug: BIKE }).is_none());
    let r = register_action_type(
        &mut l,
        RegisterActionType { admin: admin(), global: admin() },
        TREE,
        "Again".to_string(),
        1,
        0,
        String::new(),
        0,
        5,
    );
    assert_eq!(r.unwrap_err(), ErrorCode::DuplicateRecord);
    assert_eq!(pause(&mut l, Pause { admin: other, global: admin() }).unwrap_err(), ErrorCode::UnauthorizedAdmin);
    assert_eq!(unpause(&mut l, Unpause { admin: other, global: admin() }).unwrap_err(), ErrorCode::UnauthorizedAdmin);
    let p = Params { paused: true, daily_cap: 5, per_tx_cap_default: 6, cooldown_secs_default: 7 };
    assert_eq!(set_params(&mut l, SetParams { admin: other, global: admin() }, p).unwrap_err(), ErrorCode::UnauthorizedAdmin);
    assert!(!l.global(&admin()).unwrap().params.paused);
    let ev = set_params(&mut l, SetParams { admin: admin(), global: admin() }, p).unwrap();
    assert_eq!(ev.admin, admin());
    assert_eq!(l.global(&admin()).unwrap().params, p);
    assert_eq!(pause(&mut l, Pause { admin: admin(), global: other }).unwrap_err(), ErrorCode::MissingRecord);
    let g = l.global(&admin()).unwrap();
    assert!(require_admin(g, &admin()).is_ok());
    assert_eq!(require_admin(g, &other).unwrap_err(), ErrorCode::UnauthorizedAdmin);
}

#[test]
fn catalog_entry_is_stored() {
    let mut l = setup(100, 10);
    let r = register_action_type(
        &mut l,
        RegisterActionType { admin: admin(), global: admin() },
        BIKE,
        "Bike to work".to_string(),
        5,
        2,
        "ipfs://bike".to_string(),
        60,
        40,
    );
    assert!(r.is_ok());
    let at = l.action_type(&Address::ActionType { admin: admin(), slug: BIKE }).unwrap();
    assert_eq!(at.name, "Bike to work");
    assert_eq!(at.points_per_unit, 5);
    assert_eq!(at.unit, 2);
    assert_eq!(at.badge_metadata_uri, "ipfs://bike");
    assert_eq!(at.cooldown_secs, 60);
    assert_eq!(at.per_tx_cap, 40);
    assert_eq!(at.global, admin());
}

#[test]
fn records_are_created_once() {
    let mut l = setup(100, 10);
    let ctx = Initialize { admin: admin(), points_mint: key(10), vault: key(11), bump_global: 1 };
    assert_eq!(initialize(&mut l, ctx, vec![], Params::default()).unwrap_err(), ErrorCode::DuplicateRecord);
    assert_eq!(l.global(&admin()).unwrap().points_mint, mint());
    let r = join(&mut l, Join { user: participant() }, Some("ipfs://me".to_string()), 5);
    assert_eq!(r.unwrap_err(), ErrorCode::DuplicateRecord);
    assert!(join(&mut l, Join { user: key(60) }, Some("ipfs://me".to_string()), 5).is_ok());
    let m = l.member(&Address::Member { owner: key(60) }).unwrap();
    assert_eq!(m.points, 0);
    assert_eq!(m.joined_at, 5);
    assert_eq!(m.profile_uri.as_deref(), Some("ipfs://me"));
}

#[test]
fn missing_records_fail() {
    let mut l = setup(100, 10);
    let ctx = SubmitAction { user: key(70), global: admin() };
    assert_eq!(submit_action(&mut l, ctx, TREE, 1, 1, [0; 32], [0; 32], 0).unwrap_err(), ErrorCode::MissingRecord);
    let ctx = SubmitAction { user: participant(), global: admin() };
    assert_eq!(submit_action(&mut l, ctx, BIKE, 1, 1, [0; 32], [0; 32], 0).unwrap_err(), ErrorCode::MissingRecord);
    assert_eq!(resolve(&mut l, checker(), 99, true).unwrap_err(), ErrorCode::MissingRecord);
    let r = redeem_with_partner(&l, Redeem { user: participant(), global: key(71) }, 1, [0; 16]);
    assert_eq!(r.unwrap_err(), ErrorCode::MissingRecord);
}

#[test]
fn redeem_zero_is_invalid() {
    let l = setup(100, 10);
    let r = redeem_with_partner(&l, Redeem { user: participant(), global: admin() }, 0, [0; 16]);
    assert_eq!(r.unwrap_err(), ErrorCode::InvalidAmount);
}

#[test]
fn keys_compare_by_bytes() {
    let a = key(1);
    let mut bytes = [1u8; 32];
    assert!(a == Pubkey::new_from_array(bytes));
    bytes[31] = 2;
    assert!(a != Pubkey::new_from_array(bytes));
    assert_eq!(a.to_bytes(), [1u8; 32]);
    assert!(same_bytes(&TREE, &TREE));
    assert!(!same_bytes(&TREE, &BIKE));
    let s1 = Address::Submission { owner: a, nonce: 1 };
    assert!(s1 == Address::Submission { owner: a, nonce: 1 });
    assert!(s1 != Address::Submission { owner: a, nonce: 2 });
    assert!(Address::Member { owner: a } != Address::Global { admin: a });
}

#[test]
fn non_admin_registering_taken_slug_is_unauthorized() {
    let mut l = setup(100, 10);
    let r = register_action_type(
        &mut l,
        RegisterActionType { admin: key(50), global: admin() },
        TREE,
        "Taken".to_string(),
        999,
        0,
        String::new(),
        0,
        5,
    );
    assert_eq!(r.unwrap_err(), ErrorCode::UnauthorizedAdmin);
    let at = l.action_type(&Address::ActionType { admin: admin(), slug: TREE }).unwrap();
    assert_eq!(at.points_per_unit, 100);
    assert_eq!(at.name, "Plant a tree");
}

#[test]
fn verifier_of_another_plane_cannot_resolve() {
    let mut l = setup(100, 10);
    let other_admin = key(80);
    let other_checker = key(81);
    let ctx = Initialize { admin: other_admin, points_mint: key(82), vault: key(83), bump_global: 7 };
    initialize(&mut l, ctx, vec![other_checker], Params::default()).unwrap();
    submit(&mut l, 3, 1).unwrap();
    let vctx = VerifyAction {
        verifier: other_checker,
        global: other_admin,
        submission_owner: participant(),
        client_nonce: 1,
    };
    assert_eq!(verify_action(&mut l, vctx, true).unwrap_err(), ErrorCode::UnauthorizedVerifier);
    assert_eq!(status(&l, 1), Status::Pending);
    assert_eq!(tally(&l), 0);
}

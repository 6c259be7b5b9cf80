use said::Address;
use said::AgentIdentity;
use said::InitializeTreasury;
use said::RegisterAgent;
use said::Registry;
use said::SaidError;
use said::SubmitFeedback;
use said::TaskHash;
use said::UpdateAgent;
use said::ValidateWork;
use said::WithdrawFees;
use said::REGISTRATION_FEE;
use said::TREASURY_RESERVE;
use said::VALIDATION_FEE;

const AUTHORITY: u64 = 1;
const OWNER: u64 = 2;
const REVIEWER: u64 = 3;
const VALIDATOR: u64 = 4;

fn task(n: u64) -> TaskHash {
    TaskHash { w0: n, w1: 0, w2: 0, w3: 0 }
}

/// A registry with an initialized treasury and a funded owner.
fn setup() -> Registry {
    let mut r = Registry::new();
    r.deposit(AUTHORITY, TREASURY_RESERVE);
    r.deposit(OWNER, 10 * REGISTRATION_FEE);
    r.initialize_treasury(InitializeTreasury { authority: AUTHORITY }).unwrap();
    r
}

/// A registry where OWNER is already registered.
fn setup_registered() -> Registry {
    let mut r = setup();
    r.register_agent(RegisterAgent { owner: OWNER }, String::from("ipfs://agent"), 100).unwrap();
    r
}

fn identity() -> Address {
    Address::Agent { owner: OWNER }
}

#[test]
fn initialize_sets_authority_and_zero_counter() {
    let r = setup();
    let t = r.treasury.unwrap();
    assert_eq!(t.authority, AUTHORITY);
    assert_eq!(t.total_collected, 0);
    assert_eq!(r.treasury_balance, TREASURY_RESERVE);
    assert_eq!(r.balance(AUTHORITY), 0);
}

#[test]
fn initialize_twice_fails() {
    let mut r = setup();
    r.deposit(5, TREASURY_RESERVE);
    let res = r.initialize_treasury(InitializeTreasury { authority: 5 });
    assert_eq!(res.unwrap_err(), SaidError::AlreadyInitialized);
    assert_eq!(r.treasury.unwrap().authority, AUTHORITY);
    assert_eq!(r.balance(5), TREASURY_RESERVE);
}

#[test]
fn initialize_needs_reserve_funding() {
    let mut r = Registry::new();
    r.deposit(AUTHORITY, TREASURY_RESERVE - 1);
    let res = r.initialize_treasury(InitializeTreasury { authority: AUTHORITY });
    assert_eq!(res.unwrap_err(), SaidError::InsufficientPayerBalance);
    assert!(r.treasury.is_none());
}

#[test]
fn register_creates_identity_and_collects_fee() {
    let mut r = setup();
    let before = r.balance(OWNER);
    let ev = r
        .register_agent(RegisterAgent { owner: OWNER }, String::from("ipfs://agent"), 42)
        .unwrap();
    assert_eq!(ev.agent_id, Address::Agent { owner: OWNER });
    assert_eq!(ev.owner, OWNER);
    assert_eq!(ev.metadata_uri, "ipfs://agent");
    assert_eq!(ev.fee_paid, REGISTRATION_FEE);
    assert_eq!(r.balance(OWNER), before - REGISTRATION_FEE);
    assert_eq!(r.treasury.unwrap().total_collected, REGISTRATION_FEE);
    assert_eq!(r.treasury_balance, TREASURY_RESERVE + REGISTRATION_FEE);
    assert_eq!(r.agents.len(), 1);
    let a: &AgentIdentity = &r.agents[0];
    assert_eq!(a.owner, OWNER);
    assert_eq!(a.metadata_uri, "ipfs://agent");
    assert_eq!(a.created_at, 42);
}

#[test]
fn register_twice_fails_and_charges_no_fee() {
    let mut r = setup_registered();
    let balance_before = r.balance(OWNER);
    let collected_before = r.treasury.unwrap().total_collected;
    let res = r.register_agent(RegisterAgent { owner: OWNER }, String::from("other"), 200);
    assert_eq!(res.unwrap_err(), SaidError::DuplicateIdentity);
    assert_eq!(r.balance(OWNER), balance_before);
    assert_eq!(r.treasury.unwrap().total_collected, collected_before);
    assert_eq!(r.agents.len(), 1);
    assert_eq!(r.agents[0].metadata_uri, "ipfs://agent");
}

#[test]
fn register_needs_fee_funding() {
    let mut r = setup();
    r.deposit(7, REGISTRATION_FEE - 1);
    let res = r.register_agent(RegisterAgent { owner: 7 }, String::new(), 1);
    assert_eq!(res.unwrap_err(), SaidError::InsufficientPayerBalance);
    assert_eq!(r.balance(7), REGISTRATION_FEE - 1);
    assert!(r.agents.is_empty());
}

#[test]
fn register_accepts_empty_and_longest_metadata() {
    let mut r = setup();
    r.register_agent(RegisterAgent { owner: OWNER }, String::new(), 1).unwrap();
    r.deposit(8, REGISTRATION_FEE);
    let long = "x".repeat(200);
    let ev = r.register_agent(RegisterAgent { owner: 8 }, long.clone(), 2).unwrap();
    assert_eq!(ev.metadata_uri, long);
}

#[test]
fn update_replaces_metadata_for_owner() {
    let mut r = setup_registered();
    let ev = r
        .update_agent(
            UpdateAgent { agent_identity: identity(), owner: OWNER },
            String::from("ipfs://v2"),
        )
        .unwrap();
    assert_eq!(ev.agent_id, identity());
    assert_eq!(ev.new_metadata_uri, "ipfs://v2");
    assert_eq!(r.agents[0].metadata_uri, "ipfs://v2");
    assert_eq!(r.agents[0].created_at, 100);
    assert_eq!(r.agents[0].owner, OWNER);
}

#[test]
fn update_by_other_principal_fails_unauthorized() {
    let mut r = setup_registered();
    let res = r.update_agent(
        UpdateAgent { agent_identity: identity(), owner: REVIEWER },
        String::from("hijacked"),
    );
    assert_eq!(res.unwrap_err(), SaidError::Unauthorized);
    assert_eq!(r.agents[0].metadata_uri, "ipfs://agent");
}

#[test]
fn update_unknown_identity_fails() {
    let mut r = setup();
    let res = r.update_agent(
        UpdateAgent { agent_identity: identity(), owner: OWNER },
        String::from("nothing"),
    );
    assert_eq!(res.unwrap_err(), SaidError::UnknownIdentity);
    let res = r.update_agent(
        UpdateAgent { agent_identity: Address::Treasury, owner: OWNER },
        String::from("nothing"),
    );
    assert_eq!(res.unwrap_err(), SaidError::UnknownIdentity);
}

#[test]
fn first_feedback_creates_reputation() {
    let mut r = setup_registered();
    let ev = r
        .submit_feedback(
            SubmitFeedback { agent_identity: identity(), reviewer: REVIEWER },
            true,
            String::from("great work"),
            300,
        )
        .unwrap();
    assert_eq!(ev.agent_id, identity());
    assert_eq!(ev.from, REVIEWER);
    assert!(ev.positive);
    assert_eq!(ev.context, "great work");
    assert_eq!(ev.new_score, 10000);
    assert_eq!(r.reputations.len(), 1);
    let rep = &r.reputations[0];
    assert_eq!(rep.agent_id, identity());
    assert_eq!(rep.total_interactions, 1);
    assert_eq!(rep.positive_feedback, 1);
    assert_eq!(rep.negative_feedback, 0);
    assert_eq!(rep.reputation_score, 10000);
    assert_eq!(rep.last_updated, 300);
}

#[test]
fn feedback_counters_stay_consistent_over_a_sequence() {
    let mut r = setup_registered();
    let verdicts = [true, false, true, true, false, true];
    for (i, positive) in verdicts.iter().enumerate() {
        r.submit_feedback(
            SubmitFeedback { agent_identity: identity(), reviewer: REVIEWER },
            *positive,
            String::new(),
            i as i64,
        )
        .unwrap();
        let rep = &r.reputations[0];
        assert_eq!(rep.total_interactions, rep.positive_feedback + rep.negative_feedback);
        assert_eq!(
            rep.reputation_score as u64,
            rep.positive_feedback * 10000 / rep.total_interactions
        );
    }
    let rep = &r.reputations[0];
    assert_eq!(rep.total_interactions, 6);
    assert_eq!(rep.positive_feedback, 4);
    assert_eq!(rep.negative_feedback, 2);
    assert_eq!(rep.reputation_score, 6666);
}

#[test]
fn feedback_score_rounds_down() {
    let mut r = setup_registered();
    let ctx = SubmitFeedback { agent_identity: identity(), reviewer: REVIEWER };
    r.submit_feedback(ctx, true, String::new(), 1).unwrap();
    r.submit_feedback(ctx, false, String::new(), 2).unwrap();
    let ev = r.submit_feedback(ctx, false, String::new(), 3).unwrap();
    assert_eq!(ev.new_score, 3333);
    assert_eq!(r.reputations[0].reputation_score, 3333);
}

#[test]
fn feedback_for_unknown_identity_fails() {
    let mut r = setup();
    let res = r.submit_feedback(
        SubmitFeedback { agent_identity: identity(), reviewer: REVIEWER },
        true,
        String::new(),
        1,
    );
    assert_eq!(res.unwrap_err(), SaidError::UnknownIdentity);
    assert!(r.reputations.is_empty());
}

#[test]
fn validate_creates_immutable_record() {
    let mut r = setup_registered();
    let ev = r
        .validate_work(
            ValidateWork { agent_identity: identity(), validator: VALIDATOR },
            task(9),
            true,
            String::from("ipfs://proof"),
            500,
        )
        .unwrap();
    assert_eq!(ev.agent_id, identity());
    assert_eq!(ev.validator, VALIDATOR);
    assert_eq!(ev.task_hash, task(9));
    assert!(ev.passed);
    assert_eq!(ev.evidence_uri, "ipfs://proof");
    assert_eq!(r.validations.len(), 1);
    let v = &r.validations[0];
    assert_eq!(v.agent_id, identity());
    assert_eq!(v.validator, VALIDATOR);
    assert!(v.passed);
    assert_eq!(v.evidence_uri, "ipfs://proof");
    assert_eq!(v.timestamp, 500);
}

#[test]
fn validate_same_task_twice_fails_whoever_attests() {
    let mut r = setup_registered();
    let ctx = ValidateWork { agent_identity: identity(), validator: VALIDATOR };
    r.validate_work(ctx, task(9), true, String::from("first"), 1).unwrap();
    let again = ValidateWork { agent_identity: identity(), validator: 99 };
    let res = r.validate_work(again, task(9), false, String::from("second"), 2);
    assert_eq!(res.unwrap_err(), SaidError::DuplicateValidation);
    assert_eq!(r.validations.len(), 1);
    assert!(r.validations[0].passed);
    assert_eq!(r.validations[0].evidence_uri, "first");
    let other = r.validate_work(ctx, task(10), false, String::from("third"), 3);
    assert!(other.is_ok());
    assert_eq!(r.validations.len(), 2);
}

#[test]
fn validate_for_unknown_identity_fails() {
    let mut r = setup();
    let res = r.validate_work(
        ValidateWork { agent_identity: identity(), validator: VALIDATOR },
        task(1),
        true,
        String::new(),
        1,
    );
    assert_eq!(res.unwrap_err(), SaidError::UnknownIdentity);
}

#[test]
fn validation_charges_no_fee() {
    let mut r = setup_registered();
    assert_eq!(VALIDATION_FEE, 1_000_000);
    r.deposit(VALIDATOR, VALIDATION_FEE);
    let collected = r.treasury.unwrap().total_collected;
    r.validate_work(
        ValidateWork { agent_identity: identity(), validator: VALIDATOR },
        task(3),
        true,
        String::new(),
        1,
    )
    .unwrap();
    assert_eq!(r.balance(VALIDATOR), VALIDATION_FEE);
    assert_eq!(r.treasury.unwrap().total_collected, collected);
}

#[test]
fn withdraw_succeeds_down_to_reserve_and_not_below() {
    let mut r = setup_registered();
    let ev = r.withdraw_fees(WithdrawFees { authority: AUTHORITY }, REGISTRATION_FEE).unwrap();
    assert_eq!(ev.authority, AUTHORITY);
    assert_eq!(ev.amount, REGISTRATION_FEE);
    assert_eq!(r.treasury_balance, TREASURY_RESERVE);
    assert_eq!(r.balance(AUTHORITY), REGISTRATION_FEE);
    let res = r.withdraw_fees(WithdrawFees { authority: AUTHORITY }, 1);
    assert_eq!(res.unwrap_err(), SaidError::InsufficientTreasuryBalance);
    assert_eq!(r.treasury_balance, TREASURY_RESERVE);
    assert_eq!(r.balance(AUTHORITY), REGISTRATION_FEE);
}

#[test]
fn withdraw_keeps_total_collected() {
    let mut r = setup_registered();
    r.withdraw_fees(WithdrawFees { authority: AUTHORITY }, REGISTRATION_FEE).unwrap();
    assert_eq!(r.treasury.unwrap().total_collected, REGISTRATION_FEE);
}

#[test]
fn withdraw_by_other_principal_fails() {
    let mut r = setup_registered();
    let res = r.withdraw_fees(WithdrawFees { authority: OWNER }, 1);
    assert_eq!(res.unwrap_err(), SaidError::Unauthorized);
    assert_eq!(r.treasury_balance, TREASURY_RESERVE + REGISTRATION_FEE);
    assert_eq!(r.balance(OWNER), 9 * REGISTRATION_FEE);
}

#[test]
fn full_protocol_scenario() {
    let mut r = Registry::new();
    r.deposit(AUTHORITY, TREASURY_RESERVE);
    r.deposit(OWNER, REGISTRATION_FEE);
    r.initialize_treasury(InitializeTreasury { authority: AUTHORITY }).unwrap();
    r.register_agent(RegisterAgent { owner: OWNER }, String::from("ipfs://agent"), 10).unwrap();
    assert_eq!(r.treasury.unwrap().total_collected, 5_000_000);
    assert_eq!(REGISTRATION_FEE, 5_000_000);
    let fb = r
        .submit_feedback(
            SubmitFeedback { agent_identity: identity(), reviewer: REVIEWER },
            true,
            String::new(),
            11,
        )
        .unwrap();
    assert_eq!(fb.new_score, 10000);
    assert_eq!(r.reputations[0].total_interactions, 1);
    assert_eq!(r.reputations[0].positive_feedback, 1);
    let h = task(77);
    r.validate_work(
        ValidateWork { agent_identity: identity(), validator: VALIDATOR },
        h,
        true,
        String::from("ipfs://proof"),
        12,
    )
    .unwrap();
    assert_eq!(r.validations.len(), 1);
    let res = r.validate_work(
        ValidateWork { agent_identity: identity(), validator: 5 },
        h,
        true,
        String::from("ipfs://proof2"),
        13,
    );
    assert_eq!(res.unwrap_err(), SaidError::DuplicateValidation);
    assert_eq!(r.validations.len(), 1);
}

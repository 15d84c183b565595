use arcadium::{
    complete_job, create_job, initialize, rate_job, register_agent, split_payment, withdraw_earnings,
    CompleteJob, CreateJob, ErrorCode, Initialize, JobKey, JobStatus, Marketplace, RateJob,
    RegisterAgent, WithdrawEarnings,
};

const AUTHORITY: u64 = 1;
const OWNER: u64 = 2;
const CLIENT: u64 = 3;
const STRANGER: u64 = 4;

fn market_with_agent(fee_bps: u16, price: u64, client_funds: u64) -> Marketplace {
    let mut m = Marketplace::new();
    initialize(&mut m, Initialize { authority: AUTHORITY }, fee_bps).unwrap();
    register_agent(
        &mut m,
        RegisterAgent { owner: OWNER },
        "Sarah".to_string(),
        "ipfs://example".to_string(),
        price,
    )
    .unwrap();
    m.deposit(CLIENT, client_funds).unwrap();
    m
}

fn open_job(m: &mut Marketplace, client: u64) -> JobKey {
    create_job(m, CreateJob { client, agent: OWNER, now: 100 }, "Decline meeting".to_string()).unwrap()
}

fn finish(m: &mut Marketplace, key: JobKey) -> Result<(), ErrorCode> {
    complete_job(m, CompleteJob { client: CLIENT, job: key, now: 200 })
}

fn rate(m: &mut Marketplace, key: JobKey, rating: u8) -> Result<(), ErrorCode> {
    rate_job(m, RateJob { client: CLIENT, job: key, now: 300 }, rating, "Perfect output".to_string())
}

#[test]
fn litesvm_happy_path_create_and_complete_job() {
    let mut m = Marketplace::new();
    initialize(&mut m, Initialize { authority: AUTHORITY }, 1000).unwrap();
    register_agent(
        &mut m,
        RegisterAgent { owner: OWNER },
        "Sarah".to_string(),
        "ipfs://example".to_string(),
        10_000_000,
    )
    .unwrap();
    m.deposit(CLIENT, 10_000_000_000).unwrap();
    let key = create_job(&mut m, CreateJob { client: CLIENT, agent: OWNER, now: 0 }, "Decline meeting".to_string())
        .unwrap();
    assert_eq!(m.balance_of(CLIENT), 10_000_000_000 - 10_000_000);
    assert_eq!(m.escrow_balance(key), 10_000_000);
    complete_job(&mut m, CompleteJob { client: CLIENT, job: key, now: 1 }).unwrap();
    assert_eq!(m.escrow_balance(key), 0);
    assert_eq!(m.vault_balance(OWNER), 9_000_000);
    assert_eq!(m.balance_of(AUTHORITY), 1_000_000);
}

#[test]
fn create_job_leaves_agent_record_alone() {
    let mut m = market_with_agent(1000, 50, 100);
    let before = m.agent(OWNER).unwrap().clone();
    let key = open_job(&mut m, CLIENT);
    let after = m.agent(OWNER).unwrap();
    assert_eq!(after.name, before.name);
    assert_eq!(after.price_lamports, before.price_lamports);
    assert_eq!(after.jobs_completed, before.jobs_completed);
    assert_eq!(after.total_earned, before.total_earned);
    assert_eq!(after.rating_sum, before.rating_sum);
    assert_eq!(after.rating_count, before.rating_count);
    assert_eq!(after.is_active, before.is_active);
    assert_eq!(key.seq, 0);
    assert_eq!(m.next_job_seq(OWNER), 1);
}

#[test]
fn checks_come_in_order() {
    let mut m = market_with_agent(0, 5, 100);
    // An out-of-range rating is refused before the job is looked up.
    assert_eq!(rate(&mut m, JobKey { agent: OWNER, seq: 42 }, 6), Err(ErrorCode::InvalidRating));
    // A completed job refuses completion whoever asks.
    let key = open_job(&mut m, CLIENT);
    finish(&mut m, key).unwrap();
    let r = complete_job(&mut m, CompleteJob { client: STRANGER, job: key, now: 0 });
    assert_eq!(r, Err(ErrorCode::InvalidJobStatus));
    // An inactive agent is refused before the registry is consulted.
    let mut fresh = Marketplace::new();
    register_agent(&mut fresh, RegisterAgent { owner: OWNER }, "a".to_string(), "u".to_string(), 1).unwrap();
    fresh.set_agent_active(OWNER, false).unwrap();
    let r = create_job(&mut fresh, CreateJob { client: CLIENT, agent: OWNER, now: 0 }, "t".to_string());
    assert_eq!(r, Err(ErrorCode::AgentNotActive));
}

#[test]
fn scenario_ten_percent_fee() {
    let mut m = market_with_agent(1000, 10_000_000, 10_000_000_000);
    let key = open_job(&mut m, CLIENT);
    assert_eq!(m.escrow_balance(key), 10_000_000);
    assert_eq!(m.balance_of(CLIENT), 10_000_000_000 - 10_000_000);
    finish(&mut m, key).unwrap();
    assert_eq!(m.balance_of(AUTHORITY), 1_000_000);
    assert_eq!(m.vault_balance(OWNER), 9_000_000);
    assert_eq!(m.escrow_balance(key), 0);
    let job = m.job(key).unwrap();
    assert_eq!(job.status, JobStatus::Completed);
    assert_eq!(job.completed_at, Some(200));
    let agent = m.agent(OWNER).unwrap();
    assert_eq!(agent.jobs_completed, 1);
    assert_eq!(agent.total_earned, 9_000_000);
    let platform = m.platform().unwrap();
    assert_eq!(platform.total_jobs, 1);
    assert_eq!(platform.total_volume, 10_000_000);
}

#[test]
fn scenario_truncation_favors_agent() {
    assert_eq!(split_payment(7, 1), (0, 7));
    let mut m = market_with_agent(1, 7, 100);
    let key = open_job(&mut m, CLIENT);
    finish(&mut m, key).unwrap();
    assert_eq!(m.balance_of(AUTHORITY), 0);
    assert_eq!(m.vault_balance(OWNER), 7);
    assert_eq!(m.escrow_balance(key), 0);
}

#[test]
fn scenario_zero_price_rejected() {
    let mut m = Marketplace::new();
    let r = register_agent(&mut m, RegisterAgent { owner: OWNER }, "a".to_string(), "u".to_string(), 0);
    assert_eq!(r, Err(ErrorCode::InvalidPrice));
    assert!(m.agent(OWNER).is_none());
}

#[test]
fn scenario_rating_six_rejected() {
    let mut m = market_with_agent(1000, 50, 100);
    let key = open_job(&mut m, CLIENT);
    finish(&mut m, key).unwrap();
    assert_eq!(rate(&mut m, key, 6), Err(ErrorCode::InvalidRating));
    assert_eq!(rate(&mut m, key, 0), Err(ErrorCode::InvalidRating));
    assert!(m.review(key).is_none());
    let agent = m.agent(OWNER).unwrap();
    assert_eq!(agent.rating_sum, 0);
    assert_eq!(agent.rating_count, 0);
}

#[test]
fn scenario_inactive_agent_rejected() {
    let mut m = market_with_agent(1000, 50, 100);
    m.set_agent_active(OWNER, false).unwrap();
    let r = create_job(&mut m, CreateJob { client: CLIENT, agent: OWNER, now: 1 }, "t".to_string());
    assert_eq!(r, Err(ErrorCode::AgentNotActive));
    assert_eq!(m.balance_of(CLIENT), 100);
    assert_eq!(m.platform().unwrap().total_jobs, 0);
    assert!(m.job(JobKey { agent: OWNER, seq: 0 }).is_none());
    m.set_agent_active(OWNER, true).unwrap();
    assert!(create_job(&mut m, CreateJob { client: CLIENT, agent: OWNER, now: 1 }, "t".to_string()).is_ok());
}

#[test]
fn split_adds_up_to_price() {
    let prices: [u64; 5] = [1, 7, 9_999, 10_000_000, u64::MAX];
    let rates: [u16; 5] = [0, 1, 250, 9_999, 10_000];
    for price in prices {
        for bps in rates {
            let (fee, amount) = split_payment(price, bps);
            assert_eq!(fee + amount, price);
            assert_eq!(fee as u128, price as u128 * bps as u128 / 10_000);
        }
    }
    assert_eq!(split_payment(u64::MAX, 10_000), (u64::MAX, 0));
    assert_eq!(split_payment(12_345, 2_500), (3_086, 9_259));
}

#[test]
fn complete_twice_fails_second_time() {
    let mut m = market_with_agent(1000, 1_000, 5_000);
    let key = open_job(&mut m, CLIENT);
    finish(&mut m, key).unwrap();
    assert_eq!(finish(&mut m, key), Err(ErrorCode::InvalidJobStatus));
    assert_eq!(m.vault_balance(OWNER), 900);
    assert_eq!(m.balance_of(AUTHORITY), 100);
    assert_eq!(m.agent(OWNER).unwrap().jobs_completed, 1);
    assert_eq!(m.platform().unwrap().total_volume, 1_000);
}

#[test]
fn register_twice_keeps_first_record() {
    let mut m = Marketplace::new();
    register_agent(&mut m, RegisterAgent { owner: OWNER }, "first".to_string(), "u1".to_string(), 10).unwrap();
    let r = register_agent(&mut m, RegisterAgent { owner: OWNER }, "second".to_string(), "u2".to_string(), 20);
    assert_eq!(r, Err(ErrorCode::DuplicateKey));
    let agent = m.agent(OWNER).unwrap();
    assert_eq!(agent.name, "first");
    assert_eq!(agent.skill_uri, "u1");
    assert_eq!(agent.price_lamports, 10);
    assert!(agent.is_active);
    assert_eq!(agent.average_rating(), None);
}

#[test]
fn ratings_aggregate_per_agent() {
    let mut m = market_with_agent(1000, 10, 1_000);
    let mut keys = Vec::new();
    for _ in 0..3 {
        let key = open_job(&mut m, CLIENT);
        finish(&mut m, key).unwrap();
        keys.push(key);
    }
    rate(&mut m, keys[0], 5).unwrap();
    rate(&mut m, keys[1], 3).unwrap();
    rate(&mut m, keys[2], 5).unwrap();
    let agent = m.agent(OWNER).unwrap();
    assert_eq!(agent.rating_sum, 13);
    assert_eq!(agent.rating_count, 3);
    assert_eq!(agent.average_rating(), Some(4));
    let review = m.review(keys[1]).unwrap();
    assert_eq!(review.rating, 3);
    assert_eq!(review.client, CLIENT);
    assert_eq!(review.agent, OWNER);
    assert_eq!(review.comment, "Perfect output");
    assert_eq!(rate(&mut m, keys[1], 4), Err(ErrorCode::DuplicateKey));
    assert_eq!(m.agent(OWNER).unwrap().rating_sum, 13);
}

#[test]
fn withdraw_moves_exact_amount() {
    let mut m = market_with_agent(0, 500, 500);
    let key = open_job(&mut m, CLIENT);
    finish(&mut m, key).unwrap();
    assert_eq!(m.vault_balance(OWNER), 500);
    let ctx = WithdrawEarnings { owner: OWNER, agent: OWNER };
    withdraw_earnings(&mut m, ctx, 200).unwrap();
    assert_eq!(m.vault_balance(OWNER), 300);
    assert_eq!(m.balance_of(OWNER), 200);
    assert_eq!(withdraw_earnings(&mut m, ctx, 301), Err(ErrorCode::InsufficientFunds));
    assert_eq!(m.vault_balance(OWNER), 300);
    assert_eq!(m.balance_of(OWNER), 200);
    withdraw_earnings(&mut m, ctx, 300).unwrap();
    assert_eq!(m.vault_balance(OWNER), 0);
    assert_eq!(m.balance_of(OWNER), 500);
}

#[test]
fn withdraw_by_stranger_is_unauthorized() {
    let mut m = market_with_agent(0, 500, 500);
    let key = open_job(&mut m, CLIENT);
    finish(&mut m, key).unwrap();
    let r = withdraw_earnings(&mut m, WithdrawEarnings { owner: STRANGER, agent: OWNER }, 1);
    assert_eq!(r, Err(ErrorCode::Unauthorized));
    let r = withdraw_earnings(&mut m, WithdrawEarnings { owner: STRANGER, agent: STRANGER }, 1);
    assert_eq!(r, Err(ErrorCode::AgentNotFound));
    assert_eq!(m.vault_balance(OWNER), 500);
}

#[test]
fn fee_rate_bounds() {
    let mut m = Marketplace::new();
    assert_eq!(initialize(&mut m, Initialize { authority: AUTHORITY }, 10_001), Err(ErrorCode::InvalidFeeBps));
    assert!(m.platform().is_none());
    initialize(&mut m, Initialize { authority: AUTHORITY }, 10_000).unwrap();
    assert_eq!(initialize(&mut m, Initialize { authority: AUTHORITY }, 5), Err(ErrorCode::DuplicateKey));
    assert_eq!(m.platform().unwrap().platform_fee_bps, 10_000);
}

#[test]
fn full_fee_goes_to_platform() {
    let mut m = market_with_agent(10_000, 40, 40);
    let key = open_job(&mut m, CLIENT);
    finish(&mut m, key).unwrap();
    assert_eq!(m.balance_of(AUTHORITY), 40);
    assert_eq!(m.vault_balance(OWNER), 0);
    assert_eq!(m.balance_of(CLIENT), 0);
}

#[test]
fn registration_length_limits() {
    let mut m = Marketplace::new();
    let long_name = "n".repeat(51);
    let r = register_agent(&mut m, RegisterAgent { owner: OWNER }, long_name, "u".to_string(), 1);
    assert_eq!(r, Err(ErrorCode::NameTooLong));
    let r = register_agent(&mut m, RegisterAgent { owner: OWNER }, "n".to_string(), "u".repeat(201), 1);
    assert_eq!(r, Err(ErrorCode::UriTooLong));
    assert!(m.agent(OWNER).is_none());
    // Limits count characters: fifty two-byte characters fit.
    let r = register_agent(&mut m, RegisterAgent { owner: OWNER }, "é".repeat(50), "u".repeat(200), 1);
    assert_eq!(r, Ok(()));
}

#[test]
fn task_and_comment_length_limits() {
    let mut m = market_with_agent(0, 1, 10);
    let r = create_job(&mut m, CreateJob { client: CLIENT, agent: OWNER, now: 0 }, "t".repeat(501));
    assert_eq!(r, Err(ErrorCode::TaskTooLong));
    let key = create_job(&mut m, CreateJob { client: CLIENT, agent: OWNER, now: 0 }, "t".repeat(500)).unwrap();
    finish(&mut m, key).unwrap();
    let ctx = RateJob { client: CLIENT, job: key, now: 0 };
    assert_eq!(rate_job(&mut m, ctx, 4, "c".repeat(201)), Err(ErrorCode::CommentTooLong));
    assert_eq!(rate_job(&mut m, ctx, 4, "c".repeat(200)), Ok(()));
}

#[test]
fn create_job_failures() {
    let mut m = Marketplace::new();
    let ctx = CreateJob { client: CLIENT, agent: OWNER, now: 0 };
    assert_eq!(create_job(&mut m, ctx, "t".to_string()), Err(ErrorCode::AgentNotFound));
    register_agent(&mut m, RegisterAgent { owner: OWNER }, "a".to_string(), "u".to_string(), 10).unwrap();
    assert_eq!(create_job(&mut m, ctx, "t".to_string()), Err(ErrorCode::NotInitialized));
    initialize(&mut m, Initialize { authority: AUTHORITY }, 100).unwrap();
    m.deposit(CLIENT, 9).unwrap();
    assert_eq!(create_job(&mut m, ctx, "t".to_string()), Err(ErrorCode::InsufficientClientFunds));
    assert_eq!(m.balance_of(CLIENT), 9);
    assert_eq!(m.next_job_seq(OWNER), 0);
    assert!(m.job(JobKey { agent: OWNER, seq: 0 }).is_none());
}

#[test]
fn jobs_get_creation_sequence_numbers() {
    let mut m = market_with_agent(0, 5, 100);
    let first = open_job(&mut m, CLIENT);
    let second = open_job(&mut m, CLIENT);
    assert_eq!(first, JobKey { agent: OWNER, seq: 0 });
    assert_eq!(second, JobKey { agent: OWNER, seq: 1 });
    assert_ne!(first.address(), second.address());
    assert_eq!(first.address(), (OWNER as u128) << 64);
    assert_eq!(m.escrow_balance(first), 5);
    assert_eq!(m.escrow_balance(second), 5);
    finish(&mut m, second).unwrap();
    let third = open_job(&mut m, CLIENT);
    assert_eq!(third.seq, 2);
    let job = m.job(third).unwrap();
    assert_eq!(job.price_lamports, 5);
    assert_eq!(job.status, JobStatus::Created);
    assert_eq!(job.created_at, 100);
    assert_eq!(job.completed_at, None);
    assert_eq!(job.task_description, "Decline meeting");
    assert_eq!(m.platform().unwrap().total_jobs, 3);
}

#[test]
fn complete_job_failures() {
    let mut m = market_with_agent(0, 5, 100);
    let missing = JobKey { agent: OWNER, seq: 9 };
    assert_eq!(finish(&mut m, missing), Err(ErrorCode::JobNotFound));
    let key = open_job(&mut m, CLIENT);
    let r = complete_job(&mut m, CompleteJob { client: STRANGER, job: key, now: 0 });
    assert_eq!(r, Err(ErrorCode::Unauthorized));
    assert_eq!(m.escrow_balance(key), 5);
    assert_eq!(m.job(key).unwrap().status, JobStatus::Created);
}

#[test]
fn rate_job_failures() {
    let mut m = market_with_agent(0, 5, 100);
    let key = open_job(&mut m, CLIENT);
    assert_eq!(rate(&mut m, JobKey { agent: OWNER, seq: 7 }, 3), Err(ErrorCode::JobNotFound));
    assert_eq!(rate(&mut m, key, 3), Err(ErrorCode::JobNotCompleted));
    finish(&mut m, key).unwrap();
    let r = rate_job(&mut m, RateJob { client: STRANGER, job: key, now: 0 }, 3, "x".to_string());
    assert_eq!(r, Err(ErrorCode::Unauthorized));
    assert!(m.review(key).is_none());
}

#[test]
fn deposit_overflow_is_transfer_failure() {
    let mut m = Marketplace::new();
    m.deposit(CLIENT, u64::MAX).unwrap();
    assert_eq!(m.deposit(CLIENT, 1), Err(ErrorCode::TransferFailure));
    assert_eq!(m.balance_of(CLIENT), u64::MAX);
    assert_eq!(m.set_agent_active(OWNER, false), Err(ErrorCode::AgentNotFound));
}

#[test]
fn earnings_overflow_is_rejected() {
    let mut m = market_with_agent(0, u64::MAX, u64::MAX);
    m.deposit(STRANGER, u64::MAX).unwrap();
    let first = open_job(&mut m, CLIENT);
    let second = open_job(&mut m, STRANGER);
    finish(&mut m, first).unwrap();
    let r = complete_job(&mut m, CompleteJob { client: STRANGER, job: second, now: 0 });
    assert_eq!(r, Err(ErrorCode::TransferFailure));
    withdraw_earnings(&mut m, WithdrawEarnings { owner: OWNER, agent: OWNER }, u64::MAX).unwrap();
    let r = complete_job(&mut m, CompleteJob { client: STRANGER, job: second, now: 0 });
    assert_eq!(r, Err(ErrorCode::Overflow));
    assert_eq!(m.escrow_balance(second), u64::MAX);
}

use crate::error::ErrorCode;
use crate::fee::split_payment;
use crate::laws::{
    lemma_complete_job_keeps_wf, lemma_create_job_keeps_wf, lemma_deposit_keeps_wf,
    lemma_initialize_keeps_wf, lemma_rate_job_keeps_wf, lemma_register_agent_keeps_wf,
    lemma_set_agent_active_keeps_wf, lemma_withdraw_keeps_wf,
};
use crate::model::{
    complete_job_outcome, create_job_outcome, deposit_outcome, follows, held, initialize_outcome,
    jobs_only_advance, next_job_key, rate_job_outcome, register_agent_outcome, set_agent_active_outcome, withdraw_outcome,
    MarketView,
};
use crate::records::{
    Agent, CompleteJob, CreateJob, Identity, Initialize, Job, JobKey, JobStatus, Platform, RateJob,
    RegisterAgent, Review, WithdrawEarnings,
};
use std::collections::HashMap;
use vstd::prelude::*;
use vstd::string::StrSliceExecFns;

verus! {

broadcast use vstd::std_specs::hash::group_hash_axioms;

/// The marketplace's records and holdings. Holdings move only through the
/// operations of this module.
pub struct Marketplace {
    platform: Option<Platform>,
    agents: HashMap<Identity, Agent>,
    jobs: HashMap<u128, Job>,
    reviews: HashMap<u128, Review>,
    job_seqs: HashMap<Identity, u64>,
    balances: HashMap<Identity, u64>,
    vaults: HashMap<Identity, u64>,
    escrows: HashMap<u128, u64>,
}

impl View for Marketplace {
    type V = MarketView;

    closed spec fn view(&self) -> MarketView {
        MarketView {
            platform: self.platform,
            agents: self.agents@,
            jobs: self.jobs@,
            reviews: self.reviews@,
            job_seqs: self.job_seqs@,
            balances: self.balances@,
            vaults: self.vaults@,
            escrows: self.escrows@,
        }
    }
}

fn held_by_identity(m: &HashMap<Identity, u64>, k: Identity) -> (r: u64)
    ensures
        r == held(m@, k),
{
    match m.get(&k) {
        Some(x) => *x,
        None => 0,
    }
}

fn held_by_job(m: &HashMap<u128, u64>, k: u128) -> (r: u64)
    ensures
        r == held(m@, k),
{
    match m.get(&k) {
        Some(x) => *x,
        None => 0,
    }
}

impl Marketplace {
    /// A marketplace with no registry, no records and no value.
    pub fn new() -> (r: Marketplace)
        ensures
            r@ == MarketView::empty(),
            r@.wf(),
    {
        Marketplace {
            platform: None,
            agents: HashMap::new(),
            jobs: HashMap::new(),
            reviews: HashMap::new(),
            job_seqs: HashMap::new(),
            balances: HashMap::new(),
            vaults: HashMap::new(),
            escrows: HashMap::new(),
        }
    }

    /// The platform registry, once created.
    pub fn platform(&self) -> (r: Option<Platform>)
        ensures
            r == self@.platform,
    {
        self.platform
    }

    /// The agent registered under `owner`.
    pub fn agent(&self, owner: Identity) -> (r: Option<&Agent>)
        ensures
            r is Some <==> self@.agents.contains_key(owner),
            r matches Some(a) ==> *a == self@.agents[owner],
    {
        self.agents.get(&owner)
    }

    /// The job at `key`.
    pub fn job(&self, key: JobKey) -> (r: Option<&Job>)
        ensures
            r is Some <==> self@.jobs.contains_key(key.spec_address()),
            r matches Some(j) ==> *j == self@.jobs[key.spec_address()],
    {
        self.jobs.get(&key.address())
    }

    /// The review of the job at `key`.
    pub fn review(&self, key: JobKey) -> (r: Option<&Review>)
        ensures
            r is Some <==> self@.reviews.contains_key(key.spec_address()),
            r matches Some(v) ==> *v == self@.reviews[key.spec_address()],
    {
        self.reviews.get(&key.address())
    }

    /// The sequence number the next job of the agent keyed by `owner` gets.
    pub fn next_job_seq(&self, owner: Identity) -> (r: u64)
        ensures
            r == held(self@.job_seqs, owner),
    {
        held_by_identity(&self.job_seqs, owner)
    }

    /// An identity's own balance.
    pub fn balance_of(&self, who: Identity) -> (r: u64)
        ensures
            r == held(self@.balances, who),
    {
        held_by_identity(&self.balances, who)
    }

    /// The balance of the vault of the agent owned by `owner`.
    pub fn vault_balance(&self, owner: Identity) -> (r: u64)
        ensures
            r == held(self@.vaults, owner),
    {
        held_by_identity(&self.vaults, owner)
    }

    /// The balance of the escrow of the job at `key`.
    pub fn escrow_balance(&self, key: JobKey) -> (r: u64)
        ensures
            r == held(self@.escrows, key.spec_address()),
    {
        held_by_job(&self.escrows, key.address())
    }

    /// Credits `amount` to `who`'s own balance: value entering the
    /// marketplace from outside.
    pub fn deposit(&mut self, who: Identity, amount: u64) -> (r: Result<(), ErrorCode>)
        requires
            old(self)@.wf(),
        ensures
            follows(deposit_outcome(old(self)@, who, amount), old(self)@, final(self)@, r),
            final(self)@.wf(),
            jobs_only_advance(old(self)@, final(self)@),
    {
        let ghost before = self@;
        let balance = held_by_identity(&self.balances, who);
        if balance > u64::MAX - amount {
            return Err(ErrorCode::TransferFailure);
        }
        self.balances.insert(who, balance + amount);
        proof {
            lemma_deposit_keeps_wf(before, who, amount);
        }
        Ok(())
    }

    /// Lets the agent keyed by `owner` accept new jobs, or stops it. No caller
    /// is checked: whoever holds the marketplace decides who may do this.
    pub fn set_agent_active(&mut self, owner: Identity, active: bool) -> (r: Result<(), ErrorCode>)
        requires
            old(self)@.wf(),
        ensures
            follows(set_agent_active_outcome(old(self)@, owner, active), old(self)@, final(self)@, r),
            final(self)@.wf(),
            jobs_only_advance(old(self)@, final(self)@),
    {
        let ghost before = self@;
        let mut agent = match self.agents.get(&owner) {
            Some(a) => a.duplicate(),
            None => return Err(ErrorCode::AgentNotFound),
        };
        agent.is_active = active;
        self.agents.insert(owner, agent);
        proof {
            lemma_set_agent_active_keeps_wf(before, owner, active);
        }
        Ok(())
    }
}

/// Creates the platform registry, once, with the caller as authority.
pub fn initialize(market: &mut Marketplace, ctx: Initialize, platform_fee_bps: u16) -> (r: Result<(), ErrorCode>)
    requires
        old(market)@.wf(),
    ensures
        follows(initialize_outcome(old(market)@, ctx, platform_fee_bps), old(market)@, final(market)@, r),
        final(market)@.wf(),
        jobs_only_advance(old(market)@, final(market)@),
{
    let ghost before = market@;
    if market.platform.is_some() {
        return Err(ErrorCode::DuplicateKey);
    }
    if platform_fee_bps > 10000 {
        return Err(ErrorCode::InvalidFeeBps);
    }
    market.platform = Some(
        Platform { authority: ctx.authority, platform_fee_bps, total_jobs: 0, total_volume: 0 },
    );
    proof {
        lemma_initialize_keeps_wf(before, ctx, platform_fee_bps);
    }
    Ok(())
}

/// Registers an agent under the caller's identity, active and with zeroed
/// statistics. A second registration by the same owner fails.
pub fn register_agent(
    market: &mut Marketplace,
    ctx: RegisterAgent,
    name: String,
    skill_uri: String,
    price_lamports: u64,
) -> (r: Result<(), ErrorCode>)
    requires
        old(market)@.wf(),
    ensures
        follows(
            register_agent_outcome(old(market)@, ctx, name, skill_uri, price_lamports),
            old(market)@,
            final(market)@,
            r,
        ),
        final(market)@.wf(),
        jobs_only_advance(old(market)@, final(market)@),
{
    let ghost before = market@;
    let ghost spec_name = name;
    let ghost spec_uri = skill_uri;
    if market.agents.contains_key(&ctx.owner) {
        return Err(ErrorCode::DuplicateKey);
    }
    if name.as_str().unicode_len() > 50 {
        return Err(ErrorCode::NameTooLong);
    }
    if skill_uri.as_str().unicode_len() > 200 {
        return Err(ErrorCode::UriTooLong);
    }
    if price_lamports == 0 {
        return Err(ErrorCode::InvalidPrice);
    }
    let agent = Agent {
        owner: ctx.owner,
        name,
        skill_uri,
        price_lamports,
        jobs_completed: 0,
        total_earned: 0,
        rating_sum: 0,
        rating_count: 0,
        is_active: true,
    };
    market.agents.insert(ctx.owner, agent);
    proof {
        lemma_register_agent_keeps_wf(before, ctx, spec_name, spec_uri, price_lamports);
    }
    Ok(())
}

/// Opens a job for the agent owned by `ctx.agent` at the agent's current
/// price, moving that price from the client's balance into the job's escrow.
/// Returns the new job's key.
pub fn create_job(market: &mut Marketplace, ctx: CreateJob, task_description: String) -> (r: Result<JobKey, ErrorCode>)
    requires
        old(market)@.wf(),
    ensures
        final(market)@.wf(),
        jobs_only_advance(old(market)@, final(market)@),
        match create_job_outcome(old(market)@, ctx, task_description) {
            Ok(next) => r == Ok::<JobKey, ErrorCode>(next_job_key(old(market)@, ctx.agent))
                && final(market)@ == next,
            Err(e) => r == Err::<JobKey, ErrorCode>(e) && final(market)@ == old(market)@,
        },
{
    let ghost before = market@;
    let ghost task = task_description;
    if task_description.as_str().unicode_len() > 500 {
        return Err(ErrorCode::TaskTooLong);
    }
    let (is_active, price) = match market.agents.get(&ctx.agent) {
        Some(a) => (a.is_active, a.price_lamports),
        None => return Err(ErrorCode::AgentNotFound),
    };
    if !is_active {
        return Err(ErrorCode::AgentNotActive);
    }
    let platform = match market.platform {
        Some(p) => p,
        None => return Err(ErrorCode::NotInitialized),
    };
    let seq = held_by_identity(&market.job_seqs, ctx.agent);
    let key = JobKey { agent: ctx.agent, seq };
    let id = key.address();
    if market.jobs.contains_key(&id) {
        return Err(ErrorCode::DuplicateKey);
    }
    let client_balance = held_by_identity(&market.balances, ctx.client);
    if client_balance < price {
        return Err(ErrorCode::InsufficientClientFunds);
    }
    let escrow = held_by_job(&market.escrows, id);
    if escrow > u64::MAX - price {
        return Err(ErrorCode::TransferFailure);
    }
    if platform.total_jobs == u64::MAX || seq == u64::MAX {
        return Err(ErrorCode::Overflow);
    }
    let job = Job {
        agent: ctx.agent,
        client: ctx.client,
        task_description,
        price_lamports: price,
        status: JobStatus::Created,
        created_at: ctx.now,
        completed_at: None,
    };
    market.jobs.insert(id, job);
    market.balances.insert(ctx.client, client_balance - price);
    market.escrows.insert(id, escrow + price);
    market.job_seqs.insert(ctx.agent, seq + 1);
    market.platform = Some(Platform { total_jobs: platform.total_jobs + 1, ..platform });
    proof {
        lemma_create_job_keeps_wf(before, ctx, task);
    }
    Ok(key)
}

/// Completes a job that the caller, its client, accepts: the escrow pays the
/// agent's share into the agent's vault and the platform fee to the
/// authority's balance, the job becomes `Completed`, and the agent's and the
/// registry's statistics move. A job completes at most once.
pub fn complete_job(market: &mut Marketplace, ctx: CompleteJob) -> (r: Result<(), ErrorCode>)
    requires
        old(market)@.wf(),
    ensures
        follows(complete_job_outcome(old(market)@, ctx), old(market)@, final(market)@, r),
        final(market)@.wf(),
        jobs_only_advance(old(market)@, final(market)@),
{
    let ghost before = market@;
    let platform = match market.platform {
        Some(p) => p,
        None => return Err(ErrorCode::NotInitialized),
    };
    let id = ctx.job.address();
    let job = match market.jobs.get(&id) {
        Some(j) => j.duplicate(),
        None => return Err(ErrorCode::JobNotFound),
    };
    if job.status != JobStatus::Created {
        return Err(ErrorCode::InvalidJobStatus);
    }
    if job.client != ctx.client {
        return Err(ErrorCode::Unauthorized);
    }
    let agent = match market.agents.get(&job.agent) {
        Some(a) => a.duplicate(),
        None => return Err(ErrorCode::AgentNotFound),
    };
    let price = job.price_lamports;
    let (platform_fee, agent_amount) = split_payment(price, platform.platform_fee_bps);
    let escrow = held_by_job(&market.escrows, id);
    if escrow < price {
        return Err(ErrorCode::InsufficientFunds);
    }
    let vault = held_by_identity(&market.vaults, job.agent);
    if vault > u64::MAX - agent_amount {
        return Err(ErrorCode::TransferFailure);
    }
    let authority_balance = held_by_identity(&market.balances, platform.authority);
    if authority_balance > u64::MAX - platform_fee {
        return Err(ErrorCode::TransferFailure);
    }
    if agent.jobs_completed == u64::MAX || agent.total_earned > u64::MAX - agent_amount
        || platform.total_volume > u64::MAX - price {
        return Err(ErrorCode::Overflow);
    }
    // Both transfers leave the escrow; it ends `price` lower.
    market.vaults.insert(job.agent, vault + agent_amount);
    market.balances.insert(platform.authority, authority_balance + platform_fee);
    market.escrows.insert(id, escrow - agent_amount - platform_fee);
    let agent_key = job.agent;
    let mut completed = job;
    completed.status = JobStatus::Completed;
    completed.completed_at = Some(ctx.now);
    market.jobs.insert(id, completed);
    let mut updated = agent;
    updated.jobs_completed = updated.jobs_completed + 1;
    updated.total_earned = updated.total_earned + agent_amount;
    market.agents.insert(agent_key, updated);
    market.platform = Some(Platform { total_volume: platform.total_volume + price, ..platform });
    proof {
        lemma_complete_job_keeps_wf(before, ctx);
    }
    Ok(())
}

/// Records the caller's rating of a completed job of theirs, once per job,
/// and adds it to the agent's rating aggregate.
pub fn rate_job(market: &mut Marketplace, ctx: RateJob, rating: u8, comment: String) -> (r: Result<(), ErrorCode>)
    requires
        old(market)@.wf(),
    ensures
        follows(rate_job_outcome(old(market)@, ctx, rating, comment), old(market)@, final(market)@, r),
        final(market)@.wf(),
        jobs_only_advance(old(market)@, final(market)@),
{
    let ghost before = market@;
    let ghost spec_comment = comment;
    if rating < 1 || rating > 5 {
        return Err(ErrorCode::InvalidRating);
    }
    if comment.as_str().unicode_len() > 200 {
        return Err(ErrorCode::CommentTooLong);
    }
    let id = ctx.job.address();
    let job = match market.jobs.get(&id) {
        Some(j) => j.duplicate(),
        None => return Err(ErrorCode::JobNotFound),
    };
    if market.reviews.contains_key(&id) {
        return Err(ErrorCode::DuplicateKey);
    }
    if job.client != ctx.client {
        return Err(ErrorCode::Unauthorized);
    }
    if job.status != JobStatus::Completed {
        return Err(ErrorCode::JobNotCompleted);
    }
    let agent = match market.agents.get(&job.agent) {
        Some(a) => a.duplicate(),
        None => return Err(ErrorCode::AgentNotFound),
    };
    if agent.rating_sum > u64::MAX - rating as u64 || agent.rating_count == u64::MAX {
        return Err(ErrorCode::Overflow);
    }
    let review = Review {
        job: ctx.job,
        agent: job.agent,
        client: ctx.client,
        rating,
        comment,
        created_at: ctx.now,
    };
    market.reviews.insert(id, review);
    let mut updated = agent;
    updated.rating_sum = updated.rating_sum + rating as u64;
    updated.rating_count = updated.rating_count + 1;
    market.agents.insert(job.agent, updated);
    proof {
        lemma_rate_job_keeps_wf(before, ctx, rating, spec_comment);
    }
    Ok(())
}

/// Pays `amount` out of the agent's vault to its owner, who must be the
/// caller. The amount may not exceed what the vault holds.
pub fn withdraw_earnings(market: &mut Marketplace, ctx: WithdrawEarnings, amount: u64) -> (r: Result<(), ErrorCode>)
    requires
        old(market)@.wf(),
    ensures
        follows(withdraw_outcome(old(market)@, ctx, amount), old(market)@, final(market)@, r),
        final(market)@.wf(),
        jobs_only_advance(old(market)@, final(market)@),
        r is Ok ==> amount <= held(old(market)@.vaults, ctx.agent),
        r is Ok ==> held(final(market)@.vaults, ctx.agent) == held(old(market)@.vaults, ctx.agent) - amount,
        r is Ok ==> held(final(market)@.balances, ctx.owner) == held(old(market)@.balances, ctx.owner) + amount,
{
    let ghost before = market@;
    let owner = match market.agents.get(&ctx.agent) {
        Some(a) => a.owner,
        None => return Err(ErrorCode::AgentNotFound),
    };
    if owner != ctx.owner {
        return Err(ErrorCode::Unauthorized);
    }
    let vault = held_by_identity(&market.vaults, ctx.agent);
    if amount > vault {
        return Err(ErrorCode::InsufficientFunds);
    }
    let balance = held_by_identity(&market.balances, ctx.owner);
    if balance > u64::MAX - amount {
        return Err(ErrorCode::TransferFailure);
    }
    market.vaults.insert(ctx.agent, vault - amount);
    market.balances.insert(ctx.owner, balance + amount);
    proof {
        lemma_withdraw_keeps_wf(before, ctx, amount);
    }
    Ok(())
}

} // verus!

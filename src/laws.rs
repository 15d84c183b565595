use crate::error::ErrorCode;
use crate::model::{
    complete_job_outcome, create_job_outcome, deposit_outcome, held, initialize_outcome, max_value, new_agent,
    next_job_key, rate_job_outcome, register_agent_outcome, set_agent_active_outcome, withdraw_outcome,
    MarketView,
};
use crate::fee::{agent_amount_of, lemma_split_conserves_value, platform_fee_of};
use crate::records::{job_address, lemma_job_address_parts, CompleteJob, CreateJob, Identity, Initialize, JobStatus, RateJob, RegisterAgent, WithdrawEarnings};
use vstd::prelude::*;

verus! {

/// Operations that touch neither jobs, escrows, sequence numbers nor the
/// fee rate, remove no agent and keep agents sound keep the marketplace well
/// formed.
proof fn lemma_wf_frame(v: MarketView, next: MarketView)
    requires
        v.wf(),
        next.jobs == v.jobs,
        next.escrows == v.escrows,
        next.platform == v.platform,
        next.job_seqs == v.job_seqs,
        forall|o: Identity| #[trigger] v.agents.contains_key(o) ==> next.agents.contains_key(o),
        next.agents_sound(),
    ensures
        next.wf(),
{
    assert forall|id: u128| #[trigger] next.jobs.contains_key(id) implies {
        let a = next.jobs[id].agent;
        &&& id == job_address(a, id as u64)
        &&& next.agents.contains_key(a)
        &&& (id as u64) < held(next.job_seqs, a)
    } by {
        assert(v.agents.contains_key(v.jobs[id].agent));
    }
}

/// A successful deposit keeps the marketplace well formed.
pub proof fn lemma_deposit_keeps_wf(v: MarketView, who: Identity, amount: u64)
    requires
        v.wf(),
        deposit_outcome(v, who, amount) is Ok,
    ensures
        deposit_outcome(v, who, amount)->Ok_0.wf(),
{
    lemma_wf_frame(v, deposit_outcome(v, who, amount)->Ok_0);
}

/// Creating the registry keeps the marketplace well formed.
pub proof fn lemma_initialize_keeps_wf(v: MarketView, ctx: Initialize, fee_bps: u16)
    requires
        v.wf(),
        initialize_outcome(v, ctx, fee_bps) is Ok,
    ensures
        initialize_outcome(v, ctx, fee_bps)->Ok_0.wf(),
{
}

/// A successful registration keeps the marketplace well formed.
pub proof fn lemma_register_agent_keeps_wf(v: MarketView, ctx: RegisterAgent, name: String, skill_uri: String, price: u64)
    requires
        v.wf(),
        register_agent_outcome(v, ctx, name, skill_uri, price) is Ok,
    ensures
        register_agent_outcome(v, ctx, name, skill_uri, price)->Ok_0.wf(),
{
    lemma_wf_frame(v, register_agent_outcome(v, ctx, name, skill_uri, price)->Ok_0);
}

/// Switching an agent on or off keeps the marketplace well formed.
pub proof fn lemma_set_agent_active_keeps_wf(v: MarketView, owner: Identity, active: bool)
    requires
        v.wf(),
        set_agent_active_outcome(v, owner, active) is Ok,
    ensures
        set_agent_active_outcome(v, owner, active)->Ok_0.wf(),
{
    lemma_wf_frame(v, set_agent_active_outcome(v, owner, active)->Ok_0);
}

/// A successful job creation keeps the marketplace well formed.
pub proof fn lemma_create_job_keeps_wf(v: MarketView, ctx: CreateJob, task: String)
    requires
        v.wf(),
        create_job_outcome(v, ctx, task) is Ok,
    ensures
        create_job_outcome(v, ctx, task)->Ok_0.wf(),
{
    let next = create_job_outcome(v, ctx, task)->Ok_0;
    let seq = held(v.job_seqs, ctx.agent) as u64;
    let id = next_job_key(v, ctx.agent).spec_address();
    lemma_job_address_parts(ctx.agent, seq);
    assert(held(v.escrows, id) == 0);
    assert forall|k: u128|
        #[trigger] held(next.escrows, k) == if next.jobs.contains_key(k) {
            if next.jobs[k].status == JobStatus::Created {
                next.jobs[k].price_lamports as int
            } else {
                0
            }
        } else {
            0
        } by {
        if k != id {
            assert(held(v.escrows, k) == held(next.escrows, k));
        }
    }
    assert forall|k: u128| #[trigger] next.jobs.contains_key(k) implies {
        let a = next.jobs[k].agent;
        &&& k == job_address(a, k as u64)
        &&& next.agents.contains_key(a)
        &&& (k as u64) < held(next.job_seqs, a)
    } by {
        if k != id {
            let a = v.jobs[k].agent;
            assert(v.jobs.contains_key(k));
            if a == ctx.agent {
                assert(held(next.job_seqs, a) == held(v.job_seqs, a) + 1);
            } else {
                assert(held(next.job_seqs, a) == held(v.job_seqs, a));
            }
        }
    }
    assert(next.agents == v.agents);
}

/// A successful completion keeps the marketplace well formed.
pub proof fn lemma_complete_job_keeps_wf(v: MarketView, ctx: CompleteJob)
    requires
        v.wf(),
        complete_job_outcome(v, ctx) is Ok,
    ensures
        complete_job_outcome(v, ctx)->Ok_0.wf(),
{
    let next = complete_job_outcome(v, ctx)->Ok_0;
    let id = ctx.job.spec_address();
    assert(held(v.escrows, id) == v.jobs[id].price_lamports);
    assert forall|k: u128|
        #[trigger] held(next.escrows, k) == if next.jobs.contains_key(k) {
            if next.jobs[k].status == JobStatus::Created {
                next.jobs[k].price_lamports as int
            } else {
                0
            }
        } else {
            0
        } by {
        if k != id {
            assert(held(v.escrows, k) == held(next.escrows, k));
        }
    }
}

/// A successful rating keeps the marketplace well formed.
pub proof fn lemma_rate_job_keeps_wf(v: MarketView, ctx: RateJob, rating: u8, comment: String)
    requires
        v.wf(),
        rate_job_outcome(v, ctx, rating, comment) is Ok,
    ensures
        rate_job_outcome(v, ctx, rating, comment)->Ok_0.wf(),
{
    lemma_wf_frame(v, rate_job_outcome(v, ctx, rating, comment)->Ok_0);
}

/// A successful withdrawal keeps the marketplace well formed.
pub proof fn lemma_withdraw_keeps_wf(v: MarketView, ctx: WithdrawEarnings, amount: u64)
    requires
        v.wf(),
        withdraw_outcome(v, ctx, amount) is Ok,
    ensures
        withdraw_outcome(v, ctx, amount)->Ok_0.wf(),
{
    lemma_wf_frame(v, withdraw_outcome(v, ctx, amount)->Ok_0);
}

/// Completion moves value without creating or destroying any: the escrow
/// loses exactly the job's price, the agent's vault gains the agent's amount,
/// the authority gains the platform fee, and the two add up to the price.
/// Afterwards the escrow of a well-formed marketplace holds nothing.
pub proof fn lemma_complete_job_conserves_value(v: MarketView, ctx: CompleteJob)
    requires
        v.wf(),
        complete_job_outcome(v, ctx) is Ok,
    ensures
        ({
            let next = complete_job_outcome(v, ctx)->Ok_0;
            let id = ctx.job.spec_address();
            let job = v.jobs[id];
            let p = v.platform->Some_0;
            let fee = platform_fee_of(job.price_lamports as int, p.platform_fee_bps as int);
            let amount = agent_amount_of(job.price_lamports as int, p.platform_fee_bps as int);
            &&& held(v.escrows, id) - held(next.escrows, id) == job.price_lamports
            &&& held(next.escrows, id) == 0
            &&& held(next.vaults, job.agent) - held(v.vaults, job.agent) == amount
            &&& held(next.balances, p.authority) - held(v.balances, p.authority) == fee
            &&& amount + fee == job.price_lamports
        }),
{
    let p = v.platform->Some_0;
    let job = v.jobs[ctx.job.spec_address()];
    lemma_split_conserves_value(job.price_lamports, p.platform_fee_bps);
    assert(held(v.escrows, ctx.job.spec_address()) == job.price_lamports);
}

/// Completing a job is not idempotent: once a completion has succeeded, any
/// further completion of that job, by any caller, fails with
/// `InvalidJobStatus` (and a failed operation changes nothing, so nothing is
/// paid or counted twice).
pub proof fn lemma_complete_job_once(v: MarketView, first: CompleteJob, second: CompleteJob)
    requires
        complete_job_outcome(v, first) is Ok,
        second.job == first.job,
    ensures
        complete_job_outcome(complete_job_outcome(v, first)->Ok_0, second) == Err::<MarketView, ErrorCode>(
            ErrorCode::InvalidJobStatus,
        ),
{
}

/// Registration is keyed by the owner: after a successful registration the
/// owner's record is the one registered, and any further registration by the
/// same owner fails with `DuplicateKey` (leaving that record as it is).
pub proof fn lemma_register_agent_once(
    v: MarketView,
    ctx: RegisterAgent,
    name: String,
    skill_uri: String,
    price: u64,
    name2: String,
    skill_uri2: String,
    price2: u64,
)
    requires
        register_agent_outcome(v, ctx, name, skill_uri, price) is Ok,
    ensures
        register_agent_outcome(v, ctx, name, skill_uri, price)->Ok_0.agents[ctx.owner] == new_agent(
            ctx.owner,
            name,
            skill_uri,
            price,
        ),
        register_agent_outcome(
            register_agent_outcome(v, ctx, name, skill_uri, price)->Ok_0,
            ctx,
            name2,
            skill_uri2,
            price2,
        ) == Err::<MarketView, ErrorCode>(ErrorCode::DuplicateKey),
{
}

/// One rating request: the caller context, the rating and the comment.
pub type RatingRequest = (RateJob, u8, String);

/// Applies rating requests in order, stopping at the first failure.
pub open spec fn rate_all(v: MarketView, requests: Seq<RatingRequest>) -> Result<MarketView, ErrorCode>
    decreases requests.len(),
{
    if requests.len() == 0 {
        Ok(v)
    } else {
        match rate_all(v, requests.drop_last()) {
            Ok(w) => rate_job_outcome(w, requests.last().0, requests.last().1, requests.last().2),
            Err(e) => Err(e),
        }
    }
}

/// The sum of the ratings of a sequence of requests.
pub open spec fn rating_total(requests: Seq<RatingRequest>) -> int
    decreases requests.len(),
{
    if requests.len() == 0 {
        0
    } else {
        rating_total(requests.drop_last()) + requests.last().1
    }
}

/// The rating aggregate: when ratings `r1..rn` of jobs of one agent all
/// succeed, the agent's `rating_sum` grows by exactly `r1 + ... + rn` and its
/// `rating_count` by exactly `n` (from a fresh registration both start at
/// zero). Jobs, escrows and every other agent stay as they were.
pub proof fn lemma_rating_aggregate(v: MarketView, requests: Seq<RatingRequest>, agent: Identity)
    requires
        rate_all(v, requests) is Ok,
        v.agents.contains_key(agent),
        forall|i: int|
            0 <= i < requests.len() ==> v.jobs.contains_key(#[trigger] requests[i].0.job.spec_address())
                && v.jobs[requests[i].0.job.spec_address()].agent == agent,
    ensures
        ({
            let next = rate_all(v, requests)->Ok_0;
            &&& next.agents.contains_key(agent)
            &&& next.agents[agent].rating_sum == v.agents[agent].rating_sum + rating_total(requests)
            &&& next.agents[agent].rating_count == v.agents[agent].rating_count + requests.len()
            &&& next.jobs == v.jobs
            &&& next.escrows == v.escrows
        }),
    decreases requests.len(),
{
    if requests.len() > 0 {
        let prefix = requests.drop_last();
        assert forall|i: int|
            0 <= i < prefix.len() implies v.jobs.contains_key(#[trigger] prefix[i].0.job.spec_address())
                && v.jobs[prefix[i].0.job.spec_address()].agent == agent by {
            assert(prefix[i] == requests[i]);
        }
        lemma_rating_aggregate(v, prefix, agent);
        assert(requests.last() == requests[requests.len() - 1]);
    }
}

/// Job creation only reads the agent: a successful creation leaves every
/// agent record and every vault as it was, and raises the agent's sequence
/// number by one.
pub proof fn lemma_create_job_reads_agent(v: MarketView, ctx: CreateJob, task: String)
    requires
        create_job_outcome(v, ctx, task) is Ok,
    ensures
        create_job_outcome(v, ctx, task)->Ok_0.agents == v.agents,
        create_job_outcome(v, ctx, task)->Ok_0.vaults == v.vaults,
        held(create_job_outcome(v, ctx, task)->Ok_0.job_seqs, ctx.agent) == held(v.job_seqs, ctx.agent) + 1,
{
}

/// An inactive agent takes no jobs: with a task of at most 500 characters,
/// creating a job for a registered agent that is not active fails with
/// `AgentNotActive` (so no value moves and no record is made).
pub proof fn lemma_inactive_agent_refused(v: MarketView, ctx: CreateJob, task: String)
    requires
        task@.len() <= 500,
        v.agents.contains_key(ctx.agent),
        !v.agents[ctx.agent].is_active,
    ensures
        create_job_outcome(v, ctx, task) == Err::<MarketView, ErrorCode>(ErrorCode::AgentNotActive),
{
}

/// A rating outside 1..=5 is refused with `InvalidRating` whatever the job,
/// so no review is made and no aggregate moves.
pub proof fn lemma_rating_out_of_range_refused(v: MarketView, ctx: RateJob, rating: u8, comment: String)
    requires
        rating < 1 || rating > 5,
    ensures
        rate_job_outcome(v, ctx, rating, comment) == Err::<MarketView, ErrorCode>(ErrorCode::InvalidRating),
{
}

/// In a well-formed marketplace the next key of a registered agent is free,
/// so job creation succeeds whenever the task fits, the agent is active, the
/// registry exists, the client can pay and the counters have room.
pub proof fn lemma_create_job_succeeds(v: MarketView, ctx: CreateJob, task: String)
    requires
        v.wf(),
        task@.len() <= 500,
        v.agents.contains_key(ctx.agent),
        v.agents[ctx.agent].is_active,
        v.platform is Some,
        held(v.balances, ctx.client) >= v.agents[ctx.agent].price_lamports,
        v.platform->Some_0.total_jobs < u64::MAX,
        held(v.job_seqs, ctx.agent) < u64::MAX,
    ensures
        create_job_outcome(v, ctx, task) is Ok,
{
    let seq = held(v.job_seqs, ctx.agent) as u64;
    let id = next_job_key(v, ctx.agent).spec_address();
    lemma_job_address_parts(ctx.agent, seq);
    if v.jobs.contains_key(id) {
        let a = v.jobs[id].agent;
        lemma_job_address_parts(a, seq);
        assert(a == ctx.agent);
    }
    assert(held(v.escrows, id) == 0);
}

/// In a well-formed marketplace a created job's agent and escrow are in
/// place, so completion by the job's client succeeds whenever the vault, the
/// authority's balance and the counters have room for what they receive.
pub proof fn lemma_complete_job_succeeds(v: MarketView, ctx: CompleteJob)
    requires
        v.wf(),
        v.platform is Some,
        v.jobs.contains_key(ctx.job.spec_address()),
        v.jobs[ctx.job.spec_address()].status == JobStatus::Created,
        v.jobs[ctx.job.spec_address()].client == ctx.client,
        ({
            let j = v.jobs[ctx.job.spec_address()];
            let p = v.platform->Some_0;
            let a = v.agents[j.agent];
            let fee = platform_fee_of(j.price_lamports as int, p.platform_fee_bps as int);
            let amount = j.price_lamports - fee;
            &&& held(v.vaults, j.agent) + amount <= max_value()
            &&& held(v.balances, p.authority) + fee <= max_value()
            &&& a.jobs_completed < u64::MAX
            &&& a.total_earned + amount <= max_value()
            &&& p.total_volume + j.price_lamports <= max_value()
        }),
    ensures
        complete_job_outcome(v, ctx) is Ok,
{
    assert(v.agents.contains_key(v.jobs[ctx.job.spec_address()].agent));
    assert(held(v.escrows, ctx.job.spec_address()) == v.jobs[ctx.job.spec_address()].price_lamports);
}

/// In a well-formed marketplace a rating in 1..=5 with a short comment, by
/// the client of a completed job not yet reviewed, succeeds and adds exactly
/// the rating to the sum and one to the count, whenever the sum has room.
pub proof fn lemma_rate_job_succeeds(v: MarketView, ctx: RateJob, rating: u8, comment: String)
    requires
        v.wf(),
        1 <= rating <= 5,
        comment@.len() <= 200,
        v.jobs.contains_key(ctx.job.spec_address()),
        !v.reviews.contains_key(ctx.job.spec_address()),
        v.jobs[ctx.job.spec_address()].status == JobStatus::Completed,
        v.jobs[ctx.job.spec_address()].client == ctx.client,
        v.agents[v.jobs[ctx.job.spec_address()].agent].rating_count < u64::MAX,
        v.agents[v.jobs[ctx.job.spec_address()].agent].rating_sum + rating <= max_value(),
    ensures
        ({
            let a = v.jobs[ctx.job.spec_address()].agent;
            let r = rate_job_outcome(v, ctx, rating, comment);
            &&& r is Ok
            &&& r->Ok_0.agents[a].rating_sum == v.agents[a].rating_sum + rating
            &&& r->Ok_0.agents[a].rating_count == v.agents[a].rating_count + 1
        }),
{
    assert(v.agents.contains_key(v.jobs[ctx.job.spec_address()].agent));
}

/// In a well-formed marketplace the owner of an agent may withdraw any
/// amount up to the vault's balance, whenever the owner's balance has room
/// for it; the vault keeps the rest.
pub proof fn lemma_withdraw_succeeds(v: MarketView, owner: Identity, amount: u64)
    requires
        v.wf(),
        v.agents.contains_key(owner),
        amount <= held(v.vaults, owner),
        held(v.balances, owner) + amount <= max_value(),
    ensures
        withdraw_outcome(v, WithdrawEarnings { owner, agent: owner }, amount) is Ok,
        held(withdraw_outcome(v, WithdrawEarnings { owner, agent: owner }, amount)->Ok_0.vaults, owner)
            == held(v.vaults, owner) - amount,
{
}

/// In a well-formed marketplace an agent's ratings, each in 1..=5, keep its
/// derived average `rating_sum / rating_count` in 1..=5 once it has any.
pub proof fn lemma_average_rating_in_range(v: MarketView, owner: Identity)
    requires
        v.wf(),
        v.agents.contains_key(owner),
        v.agents[owner].rating_count > 0,
    ensures
        1 <= v.agents[owner].rating_sum / v.agents[owner].rating_count <= 5,
{
    let a = v.agents[owner];
    let sum = a.rating_sum as int;
    let count = a.rating_count as int;
    vstd::arithmetic::div_mod::lemma_div_is_ordered(count, sum, count);
    vstd::arithmetic::div_mod::lemma_div_is_ordered(sum, 5 * count, count);
    vstd::arithmetic::div_mod::lemma_div_multiples_vanish(1, count);
    vstd::arithmetic::div_mod::lemma_div_multiples_vanish(5, count);
    assert(count * 1 == count);
    assert(count * 5 == 5 * count);
}

} // verus!

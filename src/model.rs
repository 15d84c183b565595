use crate::error::ErrorCode;
use crate::fee::platform_fee_of;
use crate::records::{
    job_address,
    Agent, CompleteJob, CreateJob, Identity, Initialize, Job, JobKey, JobStatus, Platform, RateJob,
    RegisterAgent, Review, WithdrawEarnings,
};
use vstd::prelude::*;

verus! {

/// The whole marketplace as mathematical maps.
///
/// Records: the registry, agents keyed by owner, jobs and reviews keyed by the
/// job's derived address, and per agent the sequence number its next job gets.
/// Holdings: each identity's own balance, each agent's vault (keyed like the
/// agent) and each job's escrow (keyed like the job).
pub ghost struct MarketView {
    pub platform: Option<Platform>,
    pub agents: Map<Identity, Agent>,
    pub jobs: Map<u128, Job>,
    pub reviews: Map<u128, Review>,
    pub job_seqs: Map<Identity, u64>,
    pub balances: Map<Identity, u64>,
    pub vaults: Map<Identity, u64>,
    pub escrows: Map<u128, u64>,
}

/// The value held at `k`; an address that never received value holds zero.
pub open spec fn held<K>(m: Map<K, u64>, k: K) -> int {
    if m.contains_key(k) {
        m[k] as int
    } else {
        0
    }
}

/// The largest value a holding or counter can reach.
pub open spec fn max_value() -> int {
    u64::MAX as int
}

impl MarketView {
    /// The fee rate is in range; every job's escrow holds its price until
    /// completion and nothing after it, and no escrow holds value without a
    /// job; every job sits at the address of its registered agent and a
    /// sequence number that agent has already handed out; every agent is
    /// keyed by its owner, and its ratings, each in 1..=5, bound its sum.
    pub open spec fn wf(self) -> bool {
        &&& self.jobs_placed()
        &&& self.agents_sound()
        &&& (self.platform matches Some(p) ==> p.platform_fee_bps <= 10000)
        &&& forall|id: u128|
            #[trigger] held(self.escrows, id) == if self.jobs.contains_key(id) {
                if self.jobs[id].status == JobStatus::Created {
                    self.jobs[id].price_lamports as int
                } else {
                    0
                }
            } else {
                0
            }
    }

    /// Every job sits at `job_address(agent, seq)` for its registered agent
    /// and a sequence number below that agent's next one.
    pub open spec fn jobs_placed(self) -> bool {
        forall|id: u128|
            #[trigger] self.jobs.contains_key(id) ==> {
                let a = self.jobs[id].agent;
                &&& id == job_address(a, id as u64)
                &&& self.agents.contains_key(a)
                &&& (id as u64) < held(self.job_seqs, a)
            }
    }

    /// Every agent is keyed by its owner, and `count <= sum <= 5 * count`.
    pub open spec fn agents_sound(self) -> bool {
        forall|o: Identity|
            #[trigger] self.agents.contains_key(o) ==> {
                let a = self.agents[o];
                &&& a.owner == o
                &&& a.rating_count <= a.rating_sum <= 5 * a.rating_count
            }
    }

    /// An empty marketplace: no registry, no records, no value.
    pub open spec fn empty() -> MarketView {
        MarketView {
            platform: None,
            agents: Map::empty(),
            jobs: Map::empty(),
            reviews: Map::empty(),
            job_seqs: Map::empty(),
            balances: Map::empty(),
            vaults: Map::empty(),
            escrows: Map::empty(),
        }
    }
}

/// A job record moves at most once, from `Created` to `Completed`, and only
/// its status and completion time change when it does.
pub open spec fn job_advances(before: Job, after: Job) -> bool {
    after == before || (before.status == JobStatus::Created && after == Job {
        status: JobStatus::Completed,
        completed_at: after.completed_at,
        ..before
    })
}

/// Every job of `before` still exists in `after` and has at most advanced.
pub open spec fn jobs_only_advance(before: MarketView, after: MarketView) -> bool {
    forall|id: u128|
        #[trigger] before.jobs.contains_key(id) ==> after.jobs.contains_key(id) && job_advances(
            before.jobs[id],
            after.jobs[id],
        )
}

/// Credits `amount` to an identity's own balance from outside the marketplace.
pub open spec fn deposit_outcome(v: MarketView, who: Identity, amount: u64) -> Result<MarketView, ErrorCode> {
    if held(v.balances, who) + amount > max_value() {
        Err(ErrorCode::TransferFailure)
    } else {
        Ok(MarketView { balances: v.balances.insert(who, (held(v.balances, who) + amount) as u64), ..v })
    }
}

/// Creates the registry with the caller as authority and zeroed counters.
pub open spec fn initialize_outcome(v: MarketView, ctx: Initialize, fee_bps: u16) -> Result<MarketView, ErrorCode> {
    if v.platform is Some {
        Err(ErrorCode::DuplicateKey)
    } else if fee_bps > 10000 {
        Err(ErrorCode::InvalidFeeBps)
    } else {
        Ok(
            MarketView {
                platform: Some(
                    Platform {
                        authority: ctx.authority,
                        platform_fee_bps: fee_bps,
                        total_jobs: 0,
                        total_volume: 0,
                    },
                ),
                ..v
            },
        )
    }
}

/// The record a successful registration creates.
pub open spec fn new_agent(owner: Identity, name: String, skill_uri: String, price: u64) -> Agent {
    Agent {
        owner,
        name,
        skill_uri,
        price_lamports: price,
        jobs_completed: 0,
        total_earned: 0,
        rating_sum: 0,
        rating_count: 0,
        is_active: true,
    }
}

/// Registers an agent under the caller's identity.
pub open spec fn register_agent_outcome(
    v: MarketView,
    ctx: RegisterAgent,
    name: String,
    skill_uri: String,
    price: u64,
) -> Result<MarketView, ErrorCode> {
    if v.agents.contains_key(ctx.owner) {
        Err(ErrorCode::DuplicateKey)
    } else if name@.len() > 50 {
        Err(ErrorCode::NameTooLong)
    } else if skill_uri@.len() > 200 {
        Err(ErrorCode::UriTooLong)
    } else if price == 0 {
        Err(ErrorCode::InvalidPrice)
    } else {
        Ok(MarketView { agents: v.agents.insert(ctx.owner, new_agent(ctx.owner, name, skill_uri, price)), ..v })
    }
}

/// Turns the agent keyed by `owner` on or off for new jobs. No caller is
/// checked: whoever may call this decides who may switch agents.
pub open spec fn set_agent_active_outcome(v: MarketView, owner: Identity, active: bool) -> Result<MarketView, ErrorCode> {
    if !v.agents.contains_key(owner) {
        Err(ErrorCode::AgentNotFound)
    } else {
        Ok(MarketView { agents: v.agents.insert(owner, Agent { is_active: active, ..v.agents[owner] }), ..v })
    }
}

/// The key the next job of an agent gets.
pub open spec fn next_job_key(v: MarketView, agent: Identity) -> JobKey {
    JobKey { agent, seq: held(v.job_seqs, agent) as u64 }
}

/// Opens a job at the agent's current price and moves that price from the
/// client's balance into the job's escrow.
pub open spec fn create_job_outcome(v: MarketView, ctx: CreateJob, task: String) -> Result<MarketView, ErrorCode> {
    if task@.len() > 500 {
        Err(ErrorCode::TaskTooLong)
    } else if !v.agents.contains_key(ctx.agent) {
        Err(ErrorCode::AgentNotFound)
    } else if !v.agents[ctx.agent].is_active {
        Err(ErrorCode::AgentNotActive)
    } else if v.platform is None {
        Err(ErrorCode::NotInitialized)
    } else {
        let p = v.platform->Some_0;
        let price = v.agents[ctx.agent].price_lamports;
        let seq = held(v.job_seqs, ctx.agent);
        let id = next_job_key(v, ctx.agent).spec_address();
        if v.jobs.contains_key(id) {
            Err(ErrorCode::DuplicateKey)
        } else if held(v.balances, ctx.client) < price {
            Err(ErrorCode::InsufficientClientFunds)
        } else if held(v.escrows, id) + price > max_value() {
            Err(ErrorCode::TransferFailure)
        } else if p.total_jobs == u64::MAX || seq == u64::MAX {
            Err(ErrorCode::Overflow)
        } else {
            let job = Job {
                agent: ctx.agent,
                client: ctx.client,
                task_description: task,
                price_lamports: price,
                status: JobStatus::Created,
                created_at: ctx.now,
                completed_at: None,
            };
            Ok(
                MarketView {
                    platform: Some(Platform { total_jobs: (p.total_jobs + 1) as u64, ..p }),
                    job_seqs: v.job_seqs.insert(ctx.agent, (seq + 1) as u64),
                    jobs: v.jobs.insert(id, job),
                    balances: v.balances.insert(ctx.client, (held(v.balances, ctx.client) - price) as u64),
                    escrows: v.escrows.insert(id, (held(v.escrows, id) + price) as u64),
                    ..v
                },
            )
        }
    }
}

/// Releases a job's escrow: the agent's share to its vault, the platform fee
/// to the authority's balance; the job is completed and the counters move.
pub open spec fn complete_job_outcome(v: MarketView, ctx: CompleteJob) -> Result<MarketView, ErrorCode> {
    let id = ctx.job.spec_address();
    if v.platform is None {
        Err(ErrorCode::NotInitialized)
    } else if !v.jobs.contains_key(id) {
        Err(ErrorCode::JobNotFound)
    } else {
        let p = v.platform->Some_0;
        let j = v.jobs[id];
        let price = j.price_lamports;
        let fee = platform_fee_of(price as int, p.platform_fee_bps as int);
        let amount = price - fee;
        if j.status != JobStatus::Created {
            Err(ErrorCode::InvalidJobStatus)
        } else if j.client != ctx.client {
            Err(ErrorCode::Unauthorized)
        } else if !v.agents.contains_key(j.agent) {
            Err(ErrorCode::AgentNotFound)
        } else {
            let a = v.agents[j.agent];
            if held(v.escrows, id) < price {
                Err(ErrorCode::InsufficientFunds)
            } else if held(v.vaults, j.agent) + amount > max_value() {
                Err(ErrorCode::TransferFailure)
            } else if held(v.balances, p.authority) + fee > max_value() {
                Err(ErrorCode::TransferFailure)
            } else if a.jobs_completed == u64::MAX || a.total_earned + amount > max_value()
                || p.total_volume + price > max_value() {
                Err(ErrorCode::Overflow)
            } else {
                Ok(
                    MarketView {
                        platform: Some(Platform { total_volume: (p.total_volume + price) as u64, ..p }),
                        agents: v.agents.insert(
                            j.agent,
                            Agent {
                                jobs_completed: (a.jobs_completed + 1) as u64,
                                total_earned: (a.total_earned + amount) as u64,
                                ..a
                            },
                        ),
                        jobs: v.jobs.insert(
                            id,
                            Job { status: JobStatus::Completed, completed_at: Some(ctx.now), ..j },
                        ),
                        balances: v.balances.insert(p.authority, (held(v.balances, p.authority) + fee) as u64),
                        vaults: v.vaults.insert(j.agent, (held(v.vaults, j.agent) + amount) as u64),
                        escrows: v.escrows.insert(id, (held(v.escrows, id) - price) as u64),
                        ..v
                    },
                )
            }
        }
    }
}

/// Records the client's rating of a completed job and adds it to the
/// agent's aggregate.
pub open spec fn rate_job_outcome(v: MarketView, ctx: RateJob, rating: u8, comment: String) -> Result<MarketView, ErrorCode> {
    let id = ctx.job.spec_address();
    if rating < 1 || rating > 5 {
        Err(ErrorCode::InvalidRating)
    } else if comment@.len() > 200 {
        Err(ErrorCode::CommentTooLong)
    } else if !v.jobs.contains_key(id) {
        Err(ErrorCode::JobNotFound)
    } else if v.reviews.contains_key(id) {
        Err(ErrorCode::DuplicateKey)
    } else {
        let j = v.jobs[id];
        if j.client != ctx.client {
            Err(ErrorCode::Unauthorized)
        } else if j.status != JobStatus::Completed {
            Err(ErrorCode::JobNotCompleted)
        } else if !v.agents.contains_key(j.agent) {
            Err(ErrorCode::AgentNotFound)
        } else {
            let a = v.agents[j.agent];
            if a.rating_sum + rating > max_value() || a.rating_count == u64::MAX {
                Err(ErrorCode::Overflow)
            } else {
                let review = Review {
                    job: ctx.job,
                    agent: j.agent,
                    client: ctx.client,
                    rating,
                    comment,
                    created_at: ctx.now,
                };
                Ok(
                    MarketView {
                        agents: v.agents.insert(
                            j.agent,
                            Agent {
                                rating_sum: (a.rating_sum + rating) as u64,
                                rating_count: (a.rating_count + 1) as u64,
                                ..a
                            },
                        ),
                        reviews: v.reviews.insert(id, review),
                        ..v
                    },
                )
            }
        }
    }
}

/// Moves `amount` from an agent's vault to its owner's balance.
pub open spec fn withdraw_outcome(v: MarketView, ctx: WithdrawEarnings, amount: u64) -> Result<MarketView, ErrorCode> {
    if !v.agents.contains_key(ctx.agent) {
        Err(ErrorCode::AgentNotFound)
    } else if v.agents[ctx.agent].owner != ctx.owner {
        Err(ErrorCode::Unauthorized)
    } else if amount > held(v.vaults, ctx.agent) {
        Err(ErrorCode::InsufficientFunds)
    } else if held(v.balances, ctx.owner) + amount > max_value() {
        Err(ErrorCode::TransferFailure)
    } else {
        Ok(
            MarketView {
                vaults: v.vaults.insert(ctx.agent, (held(v.vaults, ctx.agent) - amount) as u64),
                balances: v.balances.insert(ctx.owner, (held(v.balances, ctx.owner) + amount) as u64),
                ..v
            },
        )
    }
}

/// How an operation's result and the state after it follow from its outcome:
/// on success the state is the outcome's, on failure it is unchanged.
pub open spec fn follows(outcome: Result<MarketView, ErrorCode>, before: MarketView, after: MarketView, r: Result<(), ErrorCode>) -> bool {
    match outcome {
        Ok(next) => r is Ok && after == next,
        Err(e) => r == Err::<(), ErrorCode>(e) && after == before,
    }
}

} // verus!

use vstd::prelude::*;

verus! {

/// An identity: a client, an agent's owner or the platform authority. It is
/// also the address of that identity's own balance.
pub type Identity = u64;

/// The address of a job: its agent's owner and the agent's creation sequence
/// number at the time the job was made.
#[derive(Debug, Clone, Copy, PartialEq, Eq, Structural)]
pub struct JobKey {
    pub agent: Identity,
    pub seq: u64,
}

/// The derived address of a job (and of its escrow and its review): the
/// agent's key in the high 64 bits, the sequence number in the low 64 bits.
pub open spec fn job_address(agent: u64, seq: u64) -> u128 {
    ((agent as u128) << 64u128) | (seq as u128)
}

/// A job address splits back into the agent's key and the sequence number,
/// so distinct keys have distinct addresses.
pub proof fn lemma_job_address_parts(agent: u64, seq: u64)
    ensures
        (job_address(agent, seq) >> 64u128) as u64 == agent,
        job_address(agent, seq) as u64 == seq,
{
    assert((((agent as u128) << 64u128) | (seq as u128)) >> 64u128 == agent as u128) by (bit_vector);
    assert((((agent as u128) << 64u128) | (seq as u128)) as u64 == seq) by (bit_vector);
}

impl JobKey {
    pub open spec fn spec_address(self) -> u128 {
        job_address(self.agent, self.seq)
    }

    /// The derived address of this job.
    pub fn address(&self) -> (r: u128)
        ensures
            r == self.spec_address(),
    {
        ((self.agent as u128) << 64u128) | (self.seq as u128)
    }
}

/// The singleton platform registry.
#[derive(Debug, Clone, Copy, PartialEq, Eq, Structural)]
pub struct Platform {
    /// Receives the platform fees.
    pub authority: Identity,
    /// The fee rate in basis points, at most 10000.
    pub platform_fee_bps: u16,
    /// Jobs created so far.
    pub total_jobs: u64,
    /// Sum of the prices of completed jobs.
    pub total_volume: u64,
}

/// An agent's profile, keyed by its owner.
#[derive(Debug, Clone)]
pub struct Agent {
    pub owner: Identity,
    pub name: String,
    pub skill_uri: String,
    pub price_lamports: u64,
    pub jobs_completed: u64,
    pub total_earned: u64,
    pub rating_sum: u64,
    pub rating_count: u64,
    pub is_active: bool,
}

impl Agent {
    /// A field-for-field copy.
    pub fn duplicate(&self) -> (r: Agent)
        ensures
            r == *self,
    {
        Agent {
            owner: self.owner,
            name: self.name.clone(),
            skill_uri: self.skill_uri.clone(),
            price_lamports: self.price_lamports,
            jobs_completed: self.jobs_completed,
            total_earned: self.total_earned,
            rating_sum: self.rating_sum,
            rating_count: self.rating_count,
            is_active: self.is_active,
        }
    }

    /// The average rating, `rating_sum / rating_count` rounded down; `None`
    /// before the first rating.
    pub fn average_rating(&self) -> (r: Option<u64>)
        ensures
            self.rating_count == 0 ==> r is None,
            self.rating_count > 0 ==> r == Some((self.rating_sum / self.rating_count) as u64),
    {
        if self.rating_count == 0 {
            None
        } else {
            Some(self.rating_sum / self.rating_count)
        }
    }
}

/// Where a job stands. It only ever moves from `Created` to `Completed`.
#[derive(Debug, Clone, Copy, PartialEq, Eq, Structural)]
pub enum JobStatus {
    Created,
    Completed,
}

/// A job: a client's paid order for one unit of an agent's work.
#[derive(Debug, Clone)]
pub struct Job {
    /// The owner of the agent that does the work.
    pub agent: Identity,
    pub client: Identity,
    pub task_description: String,
    /// The agent's price when the job was created, frozen thereafter.
    pub price_lamports: u64,
    pub status: JobStatus,
    pub created_at: i64,
    pub completed_at: Option<i64>,
}

impl Job {
    /// A field-for-field copy.
    pub fn duplicate(&self) -> (r: Job)
        ensures
            r == *self,
    {
        Job {
            agent: self.agent,
            client: self.client,
            task_description: self.task_description.clone(),
            price_lamports: self.price_lamports,
            status: self.status,
            created_at: self.created_at,
            completed_at: self.completed_at,
        }
    }
}

/// The caller context of `initialize`.
#[derive(Debug, Clone, Copy, PartialEq, Eq, Structural)]
pub struct Initialize {
    /// Becomes the platform authority.
    pub authority: Identity,
}

/// The caller context of `register_agent`.
#[derive(Debug, Clone, Copy, PartialEq, Eq, Structural)]
pub struct RegisterAgent {
    /// Owns the new agent; its key.
    pub owner: Identity,
}

/// The caller context of `create_job`.
#[derive(Debug, Clone, Copy, PartialEq, Eq, Structural)]
pub struct CreateJob {
    /// Pays for the job.
    pub client: Identity,
    /// The owner of the agent hired.
    pub agent: Identity,
    /// The current time.
    pub now: i64,
}

/// The caller context of `complete_job`.
#[derive(Debug, Clone, Copy, PartialEq, Eq, Structural)]
pub struct CompleteJob {
    /// Accepts the work; must be the job's client.
    pub client: Identity,
    pub job: JobKey,
    /// The current time.
    pub now: i64,
}

/// The caller context of `rate_job`.
#[derive(Debug, Clone, Copy, PartialEq, Eq, Structural)]
pub struct RateJob {
    /// Rates the work; must be the job's client.
    pub client: Identity,
    pub job: JobKey,
    /// The current time.
    pub now: i64,
}

/// The caller context of `withdraw_earnings`.
#[derive(Debug, Clone, Copy, PartialEq, Eq, Structural)]
pub struct WithdrawEarnings {
    /// Receives the value; must be the agent's owner.
    pub owner: Identity,
    /// The key of the agent whose vault pays.
    pub agent: Identity,
}

/// A client's rating of a completed job; at most one per job.
#[derive(Debug, Clone)]
pub struct Review {
    pub job: JobKey,
    pub agent: Identity,
    pub client: Identity,
    pub rating: u8,
    pub comment: String,
    pub created_at: i64,
}

} // verus!

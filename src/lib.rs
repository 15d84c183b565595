//! A custodial escrow marketplace: clients pay registered agents through a
//! per-job escrow, completion splits the escrow between the agent's vault and
//! the platform, clients rate completed work and agents withdraw earnings.
//!
//! - `records`: the records (registry, agent, job, review) and the caller
//!   contexts of the operations.
//! - `fee`: the fee split.
//! - `model`: the marketplace as maps, and what each operation does to it.
//! - `market`: the executable marketplace and its operations.
//! - `laws`: what holds across operations and states.

mod error;
mod fee;
mod laws;
mod market;
mod model;
mod records;

pub use error::ErrorCode;
pub use fee::{agent_amount_of, lemma_split_conserves_value, platform_fee_of, split_payment, BPS_DENOMINATOR};
pub use laws::{
    lemma_average_rating_in_range, lemma_complete_job_conserves_value, lemma_complete_job_keeps_wf,
    lemma_complete_job_once, lemma_complete_job_succeeds, lemma_create_job_keeps_wf,
    lemma_create_job_reads_agent, lemma_create_job_succeeds, lemma_deposit_keeps_wf,
    lemma_inactive_agent_refused, lemma_initialize_keeps_wf, lemma_rate_job_keeps_wf, lemma_rate_job_succeeds,
    lemma_rating_aggregate, lemma_rating_out_of_range_refused, lemma_register_agent_keeps_wf,
    lemma_register_agent_once, lemma_set_agent_active_keeps_wf, lemma_withdraw_keeps_wf,
    lemma_withdraw_succeeds, rate_all, rating_total, RatingRequest,
};
pub use market::{
    complete_job, create_job, initialize, rate_job, register_agent, withdraw_earnings, Marketplace,
};
pub use model::{
    complete_job_outcome, create_job_outcome, deposit_outcome, follows, held, initialize_outcome,
    job_advances, jobs_only_advance, max_value, new_agent, next_job_key, rate_job_outcome,
    register_agent_outcome, set_agent_active_outcome, withdraw_outcome, MarketView,
};
pub use records::{
    job_address, lemma_job_address_parts, Agent, CompleteJob, CreateJob, Identity, Initialize, Job, JobKey, JobStatus, Platform,
    RateJob, RegisterAgent, Review, WithdrawEarnings,
};

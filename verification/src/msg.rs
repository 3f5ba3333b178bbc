//! The typed operation surface: requests routed to the module and the
//! responses its read-only queries return.

use vstd::prelude::*;

use crate::state::{Candidate, Config, Propsal, PropsalResult, PropsalStatus};

verus! {

/// Creates the configuration and seeds the counters and the audit log.
#[derive(Clone, Debug, PartialEq, Eq)]
pub struct InstantiateMsg {
    /// The identity installed as owner.
    pub owner: String,
    /// Longest allowed span between block time and a proposal expiration.
    pub max_duration_seconds: u64,
}

/// Requests the module-version migration check.
#[derive(Clone, Copy, Debug, PartialEq, Eq, Structural)]
pub struct MigrateMsg {}

/// A mutating request.
#[derive(Clone, Debug, PartialEq, Eq)]
pub enum ExecuteMsg {
    /// Partially updates the configuration; owner only.
    UpdateConfig {
        /// Replacement owner, if supplied.
        owner: Option<String>,
        /// Replacement duration cap, if supplied.
        max_duration_seconds: Option<u64>,
    },
    /// Creates a proposal; owner only.
    AddPropsal {
        /// Title.
        title: String,
        /// Initial status.
        status: PropsalStatus,
        /// Address of the collection gating voting eligibility.
        nft_address: String,
        /// Voting deadline, unix seconds.
        expiration: u64,
        /// The options voters choose among.
        candidates: Vec<Candidate>,
    },
    /// Partially updates a proposal; owner only.
    UpdatePropsal {
        /// Key of the proposal to update.
        id: u64,
        /// Replacement title, if supplied.
        title: Option<String>,
        /// Replacement status, if supplied.
        status: Option<PropsalStatus>,
        /// Replacement collection address, if supplied.
        nft_address: Option<String>,
        /// Replacement deadline, if supplied; re-validated like creation.
        expiration: Option<u64>,
        /// Replacement candidate list, if supplied.
        candidates: Option<Vec<Candidate>>,
    },
    /// Deletes a proposal; owner only; no error when absent.
    RemovePropsal {
        /// Key of the proposal to delete.
        id: u64,
    },
    /// Appends one unit-weight vote; any caller.
    ExecuteVote {
        /// Key of the proposal voted on.
        propsal_id: u64,
        /// Chosen candidate id within that proposal.
        candidate_id: u64,
    },
}

/// A read-only request.
#[derive(Clone, Copy, Debug, PartialEq, Eq, Structural)]
pub enum QueryMsg {
    /// The configuration.
    Config {},
    /// A page of proposals ascending by id.
    Propsals {
        /// Exclusive lower bound on returned ids.
        start_after: Option<u64>,
        /// Page size; defaults to 10, capped at 100.
        limit: Option<u32>,
    },
    /// One proposal by id.
    Propsal {
        /// Key of the requested proposal.
        id: u64,
    },
    /// One proposal together with its tallied winner.
    PropsalResult {
        /// Key of the requested proposal.
        id: u64,
    },
    /// The audit-log height recorded at an index.
    BlockHeight {
        /// Audit-log index.
        num: u64,
    },
    /// The next free audit-log index.
    BlockIndex {},
}

/// Answer to [`QueryMsg::Config`].
#[derive(Clone, Debug, PartialEq, Eq)]
pub struct ConfigResponse {
    /// The stored configuration.
    pub config: Config,
}

/// Answer to [`QueryMsg::Propsals`].
#[derive(Clone, Debug, PartialEq, Eq)]
pub struct PropsalsResponse {
    /// The requested page, ascending by id.
    pub propsals: Vec<Propsal>,
}

/// Answer to [`QueryMsg::Propsal`].
#[derive(Clone, Debug, PartialEq, Eq)]
pub struct PropsalResponse {
    /// The requested proposal.
    pub propsal: Propsal,
}

/// Answer to [`QueryMsg::PropsalResult`].
#[derive(Clone, Debug, PartialEq, Eq)]
pub struct PropsalResultResponse {
    /// The proposal and its winner.
    pub propsal_result: PropsalResult,
}

/// Answer to [`QueryMsg::BlockHeight`].
#[derive(Clone, Copy, Debug, PartialEq, Eq, Structural)]
pub struct BlockHeightResponse {
    /// The recorded height.
    pub block_height: u64,
}

/// Answer to [`QueryMsg::BlockIndex`].
#[derive(Clone, Copy, Debug, PartialEq, Eq, Structural)]
pub struct BlockIndexResponse {
    /// The running index; equals the number of recorded heights.
    pub block_index: u64,
}

/// The answer a [`QueryMsg`] resolves to.
#[derive(Clone, Debug, PartialEq, Eq)]
pub enum QueryAnswer {
    /// Answer to [`QueryMsg::Config`].
    Config(ConfigResponse),
    /// Answer to [`QueryMsg::Propsals`].
    Propsals(PropsalsResponse),
    /// Answer to [`QueryMsg::Propsal`].
    Propsal(PropsalResponse),
    /// Answer to [`QueryMsg::PropsalResult`].
    PropsalResult(PropsalResultResponse),
    /// Answer to [`QueryMsg::BlockHeight`].
    BlockHeight(BlockHeightResponse),
    /// Answer to [`QueryMsg::BlockIndex`].
    BlockIndex(BlockIndexResponse),
}

/// What a successful mutating request reports back for observability: the
/// operation that ran and the entity it touched.
#[derive(Clone, Debug, PartialEq, Eq)]
pub enum ExecuteAnswer {
    /// `UpdateConfig` committed; carries the new configuration.
    ConfigUpdated {
        /// The configuration after the update.
        config: Config,
    },
    /// `AddPropsal` committed; carries the stored proposal.
    PropsalAdded {
        /// The proposal as stored, votes empty.
        propsal: Propsal,
    },
    /// `UpdatePropsal` committed; carries the stored proposal.
    PropsalUpdated {
        /// The proposal after the update.
        propsal: Propsal,
    },
    /// `RemovePropsal` committed; carries the deleted key.
    PropsalRemoved {
        /// The key that was deleted.
        id: u64,
    },
    /// `ExecuteVote` committed; carries the proposal with the new vote.
    VoteCast {
        /// The proposal after the vote was appended.
        propsal: Propsal,
    },
}

} // verus!

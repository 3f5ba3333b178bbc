//! The mutating operations: instantiation, migration, configuration update,
//! proposal create/update/delete, and vote casting, together with the owner
//! guard that every owner-gated path runs first.

use vstd::prelude::*;

use crate::error::ContractError;
use crate::msg::{ExecuteAnswer, ExecuteMsg, InstantiateMsg, MigrateMsg};
use crate::state::{
    clone_config, clone_propsal, spec_find, spec_remove, spec_store, Candidate, CandidateView,
    Config, ContractVersion, Env, MessageInfo, Propsal, PropsalStatus, PropsalView, State, Vote,
    VoteView,
};

verus! {

/// The module name stored at instantiation and checked by migration.
pub open spec fn spec_contract_name() -> Seq<char> {
    "nft-dao"@
}

/// Executable counterpart of [`spec_contract_name`].
pub fn contract_name() -> (r: String)
    ensures
        r@ == spec_contract_name(),
{
    "nft-dao".to_owned()
}

/// The module version stored at instantiation; migration requires the stored
/// version to lie strictly below it.
pub open spec fn spec_contract_version() -> Seq<char> {
    "0.1.0"@
}

/// Executable counterpart of [`spec_contract_version`].
pub fn contract_version() -> (r: String)
    ensures
        r@ == spec_contract_version(),
{
    "0.1.0".to_owned()
}

/// Lexicographic order on character sequences: the order migration compares
/// version markers by. A proper prefix sorts before its extensions.
pub open spec fn lex_lt(a: Seq<char>, b: Seq<char>) -> bool
    decreases a.len() + b.len(),
{
    if b.len() == 0 {
        false
    } else if a.len() == 0 {
        true
    } else if a[0] != b[0] {
        (a[0] as u32) < (b[0] as u32)
    } else {
        lex_lt(a.drop_first(), b.drop_first())
    }
}

/// A shared prefix does not decide the lexicographic comparison.
proof fn lemma_lex_lt_prefix(a: Seq<char>, b: Seq<char>, i: int)
    requires
        0 <= i <= a.len(),
        i <= b.len(),
        forall|j: int| 0 <= j < i ==> a[j] == b[j],
    ensures
        lex_lt(a, b) == lex_lt(a.skip(i), b.skip(i)),
    decreases i,
{
    if i == 0 {
        assert(a.skip(0) =~= a);
        assert(b.skip(0) =~= b);
    } else {
        assert forall|j: int| 0 <= j < i - 1 implies a.drop_first()[j] == b.drop_first()[j] by {
            assert(a.drop_first()[j] == a[j + 1]);
            assert(b.drop_first()[j] == b[j + 1]);
        }
        assert(a.drop_first().skip(i - 1) =~= a.skip(i));
        assert(b.drop_first().skip(i - 1) =~= b.skip(i));
        lemma_lex_lt_prefix(a.drop_first(), b.drop_first(), i - 1);
        assert(lex_lt(a, b) == lex_lt(a.drop_first(), b.drop_first()));
    }
}

/// Compares two strings in the lexicographic order [`lex_lt`].
fn str_lt(a: &str, b: &str) -> (r: bool)
    ensures
        r == lex_lt(a@, b@),
{
    let a_len = a.unicode_len();
    let b_len = b.unicode_len();
    let mut i: usize = 0;
    while i < a_len && i < b_len
        invariant
            a_len == a@.len(),
            b_len == b@.len(),
            i <= a_len,
            i <= b_len,
            forall|j: int| 0 <= j < i ==> a@[j] == b@[j],
        decreases a_len - i,
    {
        let ca = a.get_char(i);
        let cb = b.get_char(i);
        if ca != cb {
            proof {
                lemma_lex_lt_prefix(a@, b@, i as int);
                assert(a@.skip(i as int)[0] == a@[i as int]);
                assert(b@.skip(i as int)[0] == b@[i as int]);
            }
            return (ca as u32) < (cb as u32);
        }
        i += 1;
    }
    proof {
        lemma_lex_lt_prefix(a@, b@, i as int);
    }
    a_len < b_len
}

/// Succeeds exactly when the caller is the configured owner; the guard run
/// first by every owner-gated operation.
pub fn only_owner(state: &State, info: &MessageInfo) -> (r: Result<(), ContractError>)
    ensures
        r is Ok <==> info.sender@ == state.config.owner@,
        r is Err ==> r == Err::<(), ContractError>(ContractError::Unauthorized),
{
    if state.config.owner == info.sender {
        Ok(())
    } else {
        Err(ContractError::Unauthorized)
    }
}

/// Creates the module state: the configuration as given, the proposal-id
/// counter at 1, and the audit log seeded with the observed block height at
/// index 0 and its running index at 1.
pub fn instantiate(env: &Env, _info: &MessageInfo, msg: InstantiateMsg) -> (r: State)
    ensures
        r.wf(),
        r.contract.contract@ == spec_contract_name(),
        r.contract.version@ == spec_contract_version(),
        r.config == (Config {
            start_blocknumber: env.block.height,
            max_duration_seconds: msg.max_duration_seconds,
            owner: msg.owner,
        }),
        r.propsal_index == 1,
        r.propsals_view() == Seq::<PropsalView>::empty(),
        r.block_heights@ == seq![env.block.height],
        r.block_index == 1,
{
    let config = Config {
        start_blocknumber: env.block.height,
        max_duration_seconds: msg.max_duration_seconds,
        owner: msg.owner,
    };
    let mut block_heights: Vec<u64> = Vec::new();
    block_heights.push(env.block.height);
    let propsals: Vec<Propsal> = Vec::new();
    proof {
        assert(block_heights@ =~= seq![env.block.height]);
        assert(propsals@.map_values(|p: Propsal| p@) =~= Seq::<PropsalView>::empty());
    }
    State {
        contract: ContractVersion { contract: contract_name(), version: contract_version() },
        config,
        propsal_index: 1,
        propsals,
        block_heights,
        block_index: 1,
    }
}

/// Validates that the stored module name matches and the stored version lies
/// strictly below this module's version, then updates the version marker.
/// Touches neither the entities nor the audit log.
pub fn migrate(state: &mut State, _msg: MigrateMsg) -> (r: Result<(), ContractError>)
    requires
        old(state).wf(),
    ensures
        final(state).wf(),
        r is Ok <==> {
            &&& old(state).contract.contract@ == spec_contract_name()
            &&& lex_lt(old(state).contract.version@, spec_contract_version())
        },
        match r {
            Ok(()) => {
                &&& final(state).contract.contract == old(state).contract.contract
                &&& final(state).contract.version@ == spec_contract_version()
                &&& final(state).config == old(state).config
                &&& final(state).propsal_index == old(state).propsal_index
                &&& final(state).propsals == old(state).propsals
                &&& final(state).block_heights == old(state).block_heights
                &&& final(state).block_index == old(state).block_index
            },
            Err(e) => {
                &&& *final(state) == *old(state)
                &&& (e == ContractError::InvalidContractName <==> old(
                    state,
                ).contract.contract@ != spec_contract_name())
                &&& (e == ContractError::InvalidContractVersion <==> {
                    &&& old(state).contract.contract@ == spec_contract_name()
                    &&& !lex_lt(old(state).contract.version@, spec_contract_version())
                })
            },
        },
{
    let name = contract_name();
    let version = contract_version();
    if !(state.contract.contract == name) {
        return Err(ContractError::InvalidContractName);
    }
    if !str_lt(state.contract.version.as_str(), version.as_str()) {
        return Err(ContractError::InvalidContractVersion);
    }
    state.contract.version = version;
    Ok(())
}

/// The configuration after a partial update: each supplied field replaces
/// the prior value, each omitted field is left untouched.
pub open spec fn spec_apply_config(
    c: Config,
    owner: Option<String>,
    max_duration_seconds: Option<u64>,
) -> Config {
    Config {
        start_blocknumber: c.start_blocknumber,
        max_duration_seconds: match max_duration_seconds {
            Some(m) => m,
            None => c.max_duration_seconds,
        },
        owner: match owner {
            Some(o) => o,
            None => c.owner,
        },
    }
}

/// Partially updates the configuration. Owner only; commits together with an
/// audit-log append, or not at all.
pub fn update_config(
    state: &mut State,
    env: &Env,
    info: &MessageInfo,
    owner: Option<String>,
    max_duration_seconds: Option<u64>,
) -> (r: Result<Config, ContractError>)
    requires
        old(state).wf(),
        old(state).block_index < u64::MAX,
    ensures
        final(state).wf(),
        r is Ok <==> {
            &&& info.sender@ == old(state).config.owner@
            &&& env.block.height > old(state).last_height()
        },
        match r {
            Ok(c) => {
                &&& c == spec_apply_config(old(state).config, owner, max_duration_seconds)
                &&& final(state).config == c
                &&& final(state).block_heights@ == old(state).block_heights@.push(
                    env.block.height,
                )
                &&& final(state).block_index == old(state).block_index + 1
                &&& final(state).contract == old(state).contract
                &&& final(state).propsal_index == old(state).propsal_index
                &&& final(state).propsals == old(state).propsals
            },
            Err(e) => {
                &&& *final(state) == *old(state)
                &&& (e == ContractError::Unauthorized <==> info.sender@ != old(
                    state,
                ).config.owner@)
                &&& (e == ContractError::AuditInvariantViolation <==> {
                    &&& info.sender@ == old(state).config.owner@
                    &&& env.block.height <= old(state).last_height()
                })
            },
        },
{
    match only_owner(state, info) {
        Ok(()) => (),
        Err(e) => {
            return Err(e);
        },
    }
    let new_config = Config {
        start_blocknumber: state.config.start_blocknumber,
        max_duration_seconds: match max_duration_seconds {
            Some(m) => m,
            None => state.config.max_duration_seconds,
        },
        owner: match owner {
            Some(o) => o,
            None => state.config.owner.clone(),
        },
    };
    match state.increase_block(env) {
        Ok(()) => (),
        Err(e) => {
            return Err(e);
        },
    }
    let echo = clone_config(&new_config);
    state.config = new_config;
    Ok(echo)
}

/// The error a proposal expiration draws when validated against the current
/// block time and the configured cap, if any. The two checks are exhaustive
/// over the input domain and mutually exclusive: a deadline in the past draws
/// `LowerTime`, one further ahead than the cap draws `MaxDuration`, and every
/// other deadline passes.
pub open spec fn spec_expiration_error(
    expiration: u64,
    time: u64,
    max_duration_seconds: u64,
) -> Option<ContractError> {
    if expiration < time {
        Some(ContractError::LowerTime)
    } else if expiration - time > max_duration_seconds {
        Some(ContractError::MaxDuration)
    } else {
        None
    }
}

/// Law: the two expiration checks are independent and exhaustive over the
/// input domain. Every expiration draws `LowerTime` exactly when it lies
/// before the block time, `MaxDuration` exactly when it lies at or after the
/// block time but further ahead than the cap, and passes in every remaining
/// case; exactly one of the three holds.
pub proof fn lemma_expiration_checks_exhaustive(expiration: u64, time: u64, max_duration_seconds: u64)
    ensures
        spec_expiration_error(expiration, time, max_duration_seconds) == Some(
            ContractError::LowerTime,
        ) <==> expiration < time,
        spec_expiration_error(expiration, time, max_duration_seconds) == Some(
            ContractError::MaxDuration,
        ) <==> expiration >= time && expiration - time > max_duration_seconds,
        spec_expiration_error(expiration, time, max_duration_seconds) is None <==> expiration
            >= time && expiration - time <= max_duration_seconds,
{
}

/// The content a newly created proposal is stored with: the fields as given,
/// the key taken from the id counter, and no votes.
pub open spec fn spec_new_propsal(
    id: u64,
    title: Seq<char>,
    status: PropsalStatus,
    nft_address: Seq<char>,
    expiration: u64,
    candidates: Seq<CandidateView>,
) -> PropsalView {
    PropsalView {
        id,
        title,
        status,
        nft_address,
        expiration,
        votes: Seq::<VoteView>::empty(),
        candidates,
    }
}

/// Creates a proposal keyed by the current id counter, with the votes list
/// empty. Owner only; the expiration must lie at or after the current block
/// time and at most the configured cap ahead of it. Commits together with an
/// audit-log append, or not at all. The id counter is read but never
/// advanced, mirroring the stored-counter protocol this module ships with: a
/// later proposal overwrites the earlier one unless the counter is changed
/// by other means.
pub fn add_propsal(
    state: &mut State,
    env: &Env,
    info: &MessageInfo,
    title: String,
    status: PropsalStatus,
    nft_address: String,
    expiration: u64,
    candidates: Vec<Candidate>,
) -> (r: Result<Propsal, ContractError>)
    requires
        old(state).wf(),
        old(state).block_index < u64::MAX,
    ensures
        final(state).wf(),
        r is Ok <==> {
            &&& info.sender@ == old(state).config.owner@
            &&& spec_expiration_error(
                expiration,
                env.block.time,
                old(state).config.max_duration_seconds,
            ) is None
            &&& env.block.height > old(state).last_height()
        },
        match r {
            Ok(p) => {
                &&& p@ == spec_new_propsal(
                    old(state).propsal_index,
                    title@,
                    status,
                    nft_address@,
                    expiration,
                    candidates@.map_values(|c: Candidate| c@),
                )
                &&& final(state).propsals_view() == spec_store(old(state).propsals_view(), p@)
                &&& final(state).block_heights@ == old(state).block_heights@.push(
                    env.block.height,
                )
                &&& final(state).block_index == old(state).block_index + 1
                &&& final(state).contract == old(state).contract
                &&& final(state).config == old(state).config
                &&& final(state).propsal_index == old(state).propsal_index
            },
            Err(e) => {
                &&& *final(state) == *old(state)
                &&& e == (if info.sender@ != old(state).config.owner@ {
                    ContractError::Unauthorized
                } else {
                    match spec_expiration_error(
                        expiration,
                        env.block.time,
                        old(state).config.max_duration_seconds,
                    ) {
                        Some(err) => err,
                        None => ContractError::AuditInvariantViolation,
                    }
                })
            },
        },
{
    match only_owner(state, info) {
        Ok(()) => (),
        Err(e) => {
            return Err(e);
        },
    }
    let id = state.propsal_index;
    if expiration < env.block.time {
        return Err(ContractError::LowerTime);
    }
    if expiration - env.block.time > state.config.max_duration_seconds {
        return Err(ContractError::MaxDuration);
    }
    let votes: Vec<Vote> = Vec::new();
    let propsal = Propsal { id, title, status, nft_address, expiration, votes, candidates };
    match state.increase_block(env) {
        Ok(()) => (),
        Err(e) => {
            return Err(e);
        },
    }
    let echo = clone_propsal(&propsal);
    proof {
        assert(propsal@.votes =~= Seq::<VoteView>::empty());
    }
    state.save_propsal(propsal);
    Ok(echo)
}

/// The content of a proposal after a partial update: each supplied field
/// replaces the prior value, each omitted field is left untouched; the key
/// and the votes never change.
pub open spec fn spec_apply_propsal(
    p: PropsalView,
    title: Option<String>,
    status: Option<PropsalStatus>,
    nft_address: Option<String>,
    expiration: Option<u64>,
    candidates: Option<Vec<Candidate>>,
) -> PropsalView {
    PropsalView {
        id: p.id,
        title: match title {
            Some(t) => t@,
            None => p.title,
        },
        status: match status {
            Some(s) => s,
            None => p.status,
        },
        nft_address: match nft_address {
            Some(a) => a@,
            None => p.nft_address,
        },
        expiration: match expiration {
            Some(e) => e,
            None => p.expiration,
        },
        votes: p.votes,
        candidates: match candidates {
            Some(c) => c@.map_values(|x: Candidate| x@),
            None => p.candidates,
        },
    }
}

/// Partially updates the proposal keyed `id`. Owner only; fails `NotFound`
/// when the proposal is absent; a supplied expiration is validated exactly
/// as at creation. Commits together with an audit-log append, or not at all.
pub fn update_propsal(
    state: &mut State,
    env: &Env,
    info: &MessageInfo,
    id: u64,
    title: Option<String>,
    status: Option<PropsalStatus>,
    nft_address: Option<String>,
    expiration: Option<u64>,
    candidates: Option<Vec<Candidate>>,
) -> (r: Result<Propsal, ContractError>)
    requires
        old(state).wf(),
        old(state).block_index < u64::MAX,
    ensures
        final(state).wf(),
        r is Ok <==> {
            &&& info.sender@ == old(state).config.owner@
            &&& old(state).has_propsal(id)
            &&& match expiration {
                Some(e) => spec_expiration_error(
                    e,
                    env.block.time,
                    old(state).config.max_duration_seconds,
                ) is None,
                None => true,
            }
            &&& env.block.height > old(state).last_height()
        },
        match r {
            Ok(p) => {
                &&& spec_find(old(state).propsals_view(), id) matches Some(prev) && p@
                    == spec_apply_propsal(prev, title, status, nft_address, expiration, candidates)
                &&& final(state).propsals_view() == spec_store(old(state).propsals_view(), p@)
                &&& final(state).block_heights@ == old(state).block_heights@.push(
                    env.block.height,
                )
                &&& final(state).block_index == old(state).block_index + 1
                &&& final(state).contract == old(state).contract
                &&& final(state).config == old(state).config
                &&& final(state).propsal_index == old(state).propsal_index
            },
            Err(e) => {
                &&& *final(state) == *old(state)
                &&& e == (if info.sender@ != old(state).config.owner@ {
                    ContractError::Unauthorized
                } else if !old(state).has_propsal(id) {
                    ContractError::NotFound
                } else {
                    match expiration {
                        Some(x) => match spec_expiration_error(
                            x,
                            env.block.time,
                            old(state).config.max_duration_seconds,
                        ) {
                            Some(err) => err,
                            None => ContractError::AuditInvariantViolation,
                        },
                        None => ContractError::AuditInvariantViolation,
                    }
                })
            },
        },
{
    match only_owner(state, info) {
        Ok(()) => (),
        Err(e) => {
            return Err(e);
        },
    }
    let i = match state.find_index(id) {
        Some(i) => i,
        None => {
            return Err(ContractError::NotFound);
        },
    };
    let mut propsal = clone_propsal(&state.propsals[i]);
    if let Some(t) = title {
        propsal.title = t;
    }
    if let Some(s) = status {
        propsal.status = s;
    }
    if let Some(a) = nft_address {
        propsal.nft_address = a;
    }
    if let Some(e) = expiration {
        if e < env.block.time {
            return Err(ContractError::LowerTime);
        }
        if e - env.block.time > state.config.max_duration_seconds {
            return Err(ContractError::MaxDuration);
        }
        propsal.expiration = e;
    }
    if let Some(c) = candidates {
        propsal.candidates = c;
    }
    match state.increase_block(env) {
        Ok(()) => (),
        Err(e) => {
            return Err(e);
        },
    }
    let echo = clone_propsal(&propsal);
    state.save_propsal(propsal);
    Ok(echo)
}

/// Deletes the proposal keyed `id`. Owner only; absent proposals are no
/// error. Commits together with an audit-log append, or not at all.
pub fn remove_propsal(state: &mut State, env: &Env, info: &MessageInfo, id: u64) -> (r: Result<
    u64,
    ContractError,
>)
    requires
        old(state).wf(),
        old(state).block_index < u64::MAX,
    ensures
        final(state).wf(),
        r is Ok <==> {
            &&& info.sender@ == old(state).config.owner@
            &&& env.block.height > old(state).last_height()
        },
        match r {
            Ok(rid) => {
                &&& rid == id
                &&& final(state).propsals_view() == spec_remove(old(state).propsals_view(), id)
                &&& final(state).block_heights@ == old(state).block_heights@.push(
                    env.block.height,
                )
                &&& final(state).block_index == old(state).block_index + 1
                &&& final(state).contract == old(state).contract
                &&& final(state).config == old(state).config
                &&& final(state).propsal_index == old(state).propsal_index
            },
            Err(e) => {
                &&& *final(state) == *old(state)
                &&& e == (if info.sender@ != old(state).config.owner@ {
                    ContractError::Unauthorized
                } else {
                    ContractError::AuditInvariantViolation
                })
            },
        },
{
    match only_owner(state, info) {
        Ok(()) => (),
        Err(e) => {
            return Err(e);
        },
    }
    match state.increase_block(env) {
        Ok(()) => (),
        Err(e) => {
            return Err(e);
        },
    }
    state.delete_propsal(id);
    Ok(id)
}

/// The content a cast vote is appended with: unit weight, the caller as
/// voter, and the targeted proposal and candidate ids.
pub open spec fn spec_new_vote(voter: Seq<char>, propsal_id: u64, candidate_id: u64) -> VoteView {
    VoteView { power: 1, voter, propsal_id, candidate_id }
}

/// Appends one unit-weight vote to the proposal keyed `propsal_id`. Open to
/// any caller; no check of status, expiration, candidate validity, or
/// duplicate voters — the vote is appended as given. Fails `NotFound` when
/// the proposal is absent. Commits together with an audit-log append, or not
/// at all.
pub fn execute_vote(
    state: &mut State,
    env: &Env,
    info: &MessageInfo,
    propsal_id: u64,
    candidate_id: u64,
) -> (r: Result<Propsal, ContractError>)
    requires
        old(state).wf(),
        old(state).block_index < u64::MAX,
    ensures
        final(state).wf(),
        r is Ok <==> {
            &&& old(state).has_propsal(propsal_id)
            &&& env.block.height > old(state).last_height()
        },
        match r {
            Ok(p) => {
                &&& spec_find(old(state).propsals_view(), propsal_id) matches Some(prev) && p@
                    == (PropsalView {
                    votes: prev.votes.push(
                        spec_new_vote(info.sender@, propsal_id, candidate_id),
                    ),
                    ..prev
                })
                &&& final(state).propsals_view() == spec_store(old(state).propsals_view(), p@)
                &&& final(state).block_heights@ == old(state).block_heights@.push(
                    env.block.height,
                )
                &&& final(state).block_index == old(state).block_index + 1
                &&& final(state).contract == old(state).contract
                &&& final(state).config == old(state).config
                &&& final(state).propsal_index == old(state).propsal_index
            },
            Err(e) => {
                &&& *final(state) == *old(state)
                &&& e == (if !old(state).has_propsal(propsal_id) {
                    ContractError::NotFound
                } else {
                    ContractError::AuditInvariantViolation
                })
            },
        },
{
    let i = match state.find_index(propsal_id) {
        Some(i) => i,
        None => {
            return Err(ContractError::NotFound);
        },
    };
    let mut propsal = clone_propsal(&state.propsals[i]);
    let vote = Vote { power: 1, voter: info.sender.clone(), propsal_id, candidate_id };
    let ghost votes_before = propsal@.votes;
    propsal.votes.push(vote);
    proof {
        assert(propsal@.votes =~= votes_before.push(
            spec_new_vote(info.sender@, propsal_id, candidate_id),
        ));
    }
    match state.increase_block(env) {
        Ok(()) => (),
        Err(e) => {
            return Err(e);
        },
    }
    let echo = clone_propsal(&propsal);
    state.save_propsal(propsal);
    Ok(echo)
}

/// Routes a mutating request to the operation it names. The contract
/// restates, per request kind, exactly what that operation ensures: every
/// successful call appends the observed height to the audit log, every
/// failed call leaves the state untouched, and every owner-gated request
/// from a non-owner fails `Unauthorized`.
pub fn execute(state: &mut State, env: &Env, info: &MessageInfo, msg: ExecuteMsg) -> (r: Result<
    ExecuteAnswer,
    ContractError,
>)
    requires
        old(state).wf(),
        old(state).block_index < u64::MAX,
    ensures
        final(state).wf(),
        r is Err ==> *final(state) == *old(state),
        r is Ok ==> {
            &&& final(state).block_heights@ == old(state).block_heights@.push(env.block.height)
            &&& final(state).block_index == old(state).block_index + 1
            &&& final(state).contract == old(state).contract
            &&& final(state).propsal_index == old(state).propsal_index
        },
        match msg {
            ExecuteMsg::UpdateConfig { owner, max_duration_seconds } => {
                &&& (r is Ok <==> info.sender@ == old(state).config.owner@ && env.block.height
                    > old(state).last_height())
                &&& match r {
                    Ok(a) => {
                        &&& a == (ExecuteAnswer::ConfigUpdated {
                            config: spec_apply_config(
                                old(state).config,
                                owner,
                                max_duration_seconds,
                            ),
                        })
                        &&& final(state).config == spec_apply_config(
                            old(state).config,
                            owner,
                            max_duration_seconds,
                        )
                        &&& final(state).propsals == old(state).propsals
                    },
                    Err(e) => e == (if info.sender@ != old(state).config.owner@ {
                        ContractError::Unauthorized
                    } else {
                        ContractError::AuditInvariantViolation
                    }),
                }
            },
            ExecuteMsg::AddPropsal { title, status, nft_address, expiration, candidates } => {
                &&& (r is Ok <==> {
                    &&& info.sender@ == old(state).config.owner@
                    &&& spec_expiration_error(
                        expiration,
                        env.block.time,
                        old(state).config.max_duration_seconds,
                    ) is None
                    &&& env.block.height > old(state).last_height()
                })
                &&& match r {
                    Ok(a) => {
                        &&& a matches ExecuteAnswer::PropsalAdded { propsal } && propsal@
                            == spec_new_propsal(
                            old(state).propsal_index,
                            title@,
                            status,
                            nft_address@,
                            expiration,
                            candidates@.map_values(|c: Candidate| c@),
                        )
                        &&& final(state).propsals_view() == spec_store(
                            old(state).propsals_view(),
                            spec_new_propsal(
                                old(state).propsal_index,
                                title@,
                                status,
                                nft_address@,
                                expiration,
                                candidates@.map_values(|c: Candidate| c@),
                            ),
                        )
                        &&& final(state).config == old(state).config
                    },
                    Err(e) => e == (if info.sender@ != old(state).config.owner@ {
                        ContractError::Unauthorized
                    } else {
                        match spec_expiration_error(
                            expiration,
                            env.block.time,
                            old(state).config.max_duration_seconds,
                        ) {
                            Some(err) => err,
                            None => ContractError::AuditInvariantViolation,
                        }
                    }),
                }
            },
            ExecuteMsg::UpdatePropsal { id, title, status, nft_address, expiration, candidates } => {
                &&& (r is Ok <==> {
                    &&& info.sender@ == old(state).config.owner@
                    &&& old(state).has_propsal(id)
                    &&& match expiration {
                        Some(e) => spec_expiration_error(
                            e,
                            env.block.time,
                            old(state).config.max_duration_seconds,
                        ) is None,
                        None => true,
                    }
                    &&& env.block.height > old(state).last_height()
                })
                &&& match r {
                    Ok(a) => {
                        &&& a matches ExecuteAnswer::PropsalUpdated { propsal }
                        &&& spec_find(old(state).propsals_view(), id) matches Some(prev)
                            && propsal@ == spec_apply_propsal(
                            prev,
                            title,
                            status,
                            nft_address,
                            expiration,
                            candidates,
                        )
                        &&& final(state).propsals_view() == spec_store(
                            old(state).propsals_view(),
                            propsal@,
                        )
                        &&& final(state).config == old(state).config
                    },
                    Err(e) => e == (if info.sender@ != old(state).config.owner@ {
                        ContractError::Unauthorized
                    } else if !old(state).has_propsal(id) {
                        ContractError::NotFound
                    } else {
                        match expiration {
                            Some(x) => match spec_expiration_error(
                                x,
                                env.block.time,
                                old(state).config.max_duration_seconds,
                            ) {
                                Some(err) => err,
                                None => ContractError::AuditInvariantViolation,
                            },
                            None => ContractError::AuditInvariantViolation,
                        }
                    }),
                }
            },
            ExecuteMsg::RemovePropsal { id } => {
                &&& (r is Ok <==> info.sender@ == old(state).config.owner@ && env.block.height
                    > old(state).last_height())
                &&& match r {
                    Ok(a) => {
                        &&& a == (ExecuteAnswer::PropsalRemoved { id })
                        &&& final(state).propsals_view() == spec_remove(
                            old(state).propsals_view(),
                            id,
                        )
                        &&& final(state).config == old(state).config
                    },
                    Err(e) => e == (if info.sender@ != old(state).config.owner@ {
                        ContractError::Unauthorized
                    } else {
                        ContractError::AuditInvariantViolation
                    }),
                }
            },
            ExecuteMsg::ExecuteVote { propsal_id, candidate_id } => {
                &&& (r is Ok <==> old(state).has_propsal(propsal_id) && env.block.height > old(
                    state,
                ).last_height())
                &&& match r {
                    Ok(a) => {
                        &&& a matches ExecuteAnswer::VoteCast { propsal }
                        &&& spec_find(old(state).propsals_view(), propsal_id) matches Some(prev)
                            && propsal@ == (PropsalView {
                            votes: prev.votes.push(
                                spec_new_vote(info.sender@, propsal_id, candidate_id),
                            ),
                            ..prev
                        })
                        &&& final(state).propsals_view() == spec_store(
                            old(state).propsals_view(),
                            propsal@,
                        )
                        &&& final(state).config == old(state).config
                    },
                    Err(e) => e == (if !old(state).has_propsal(propsal_id) {
                        ContractError::NotFound
                    } else {
                        ContractError::AuditInvariantViolation
                    }),
                }
            },
        },
{
    match msg {
        ExecuteMsg::UpdateConfig { owner, max_duration_seconds } => {
            match update_config(state, env, info, owner, max_duration_seconds) {
                Ok(config) => Ok(ExecuteAnswer::ConfigUpdated { config }),
                Err(e) => Err(e),
            }
        },
        ExecuteMsg::AddPropsal { title, status, nft_address, expiration, candidates } => {
            match add_propsal(state, env, info, title, status, nft_address, expiration, candidates) {
                Ok(propsal) => Ok(ExecuteAnswer::PropsalAdded { propsal }),
                Err(e) => Err(e),
            }
        },
        ExecuteMsg::UpdatePropsal { id, title, status, nft_address, expiration, candidates } => {
            match update_propsal(
                state,
                env,
                info,
                id,
                title,
                status,
                nft_address,
                expiration,
                candidates,
            ) {
                Ok(propsal) => Ok(ExecuteAnswer::PropsalUpdated { propsal }),
                Err(e) => Err(e),
            }
        },
        ExecuteMsg::RemovePropsal { id } => {
            match remove_propsal(state, env, info, id) {
                Ok(rid) => Ok(ExecuteAnswer::PropsalRemoved { id: rid }),
                Err(e) => Err(e),
            }
        },
        ExecuteMsg::ExecuteVote { propsal_id, candidate_id } => {
            match execute_vote(state, env, info, propsal_id, candidate_id) {
                Ok(propsal) => Ok(ExecuteAnswer::VoteCast { propsal }),
                Err(e) => Err(e),
            }
        },
    }
}

} // verus!

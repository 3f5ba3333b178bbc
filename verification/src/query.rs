//! The read-only queries: configuration, proposals (single and paginated),
//! the tallied winner of a proposal, and the audit log.

use vstd::prelude::*;

use crate::error::ContractError;
use crate::msg::{
    BlockHeightResponse, BlockIndexResponse, ConfigResponse, PropsalResponse, PropsalResultResponse,
    PropsalsResponse, QueryAnswer, QueryMsg,
};
use crate::state::{
    clone_config, clone_propsal, spec_find, Candidate, Propsal, PropsalResult, PropsalView, State,
    Vote, VoteView,
};

verus! {

/// Page size used when a proposals query supplies none.
pub const DEFAULT_LIMIT: u32 = 10;

/// Largest page size a proposals query can request.
pub const MAX_LIMIT: u32 = 100;

/// The page size a proposals query runs with: the requested limit, defaulted
/// to [`DEFAULT_LIMIT`] and capped at [`MAX_LIMIT`].
pub open spec fn spec_effective_limit(limit: Option<u32>) -> u32 {
    let l = match limit {
        Some(l) => l,
        None => DEFAULT_LIMIT,
    };
    if l > MAX_LIMIT {
        MAX_LIMIT
    } else {
        l
    }
}

/// Whether a proposal lies strictly after the exclusive lower bound of a
/// proposals query; every proposal does when no bound is supplied.
pub open spec fn spec_after_start(p: PropsalView, start_after: Option<u64>) -> bool {
    match start_after {
        Some(a) => p.id > a,
        None => true,
    }
}

/// The proposals selected by a page request, before truncation: those lying
/// after the bound, in storage order.
pub open spec fn spec_selected(s: Seq<PropsalView>, start_after: Option<u64>) -> Seq<PropsalView> {
    s.filter(|p: PropsalView| spec_after_start(p, start_after))
}

/// The page a proposals query returns: the selected proposals, truncated to
/// the effective limit.
pub open spec fn spec_page(
    s: Seq<PropsalView>,
    start_after: Option<u64>,
    limit: Option<u32>,
) -> Seq<PropsalView> {
    let sel = spec_selected(s, start_after);
    if sel.len() <= spec_effective_limit(limit) {
        sel
    } else {
        sel.take(spec_effective_limit(limit) as int)
    }
}

/// Filtering keeps a sequence whose members all satisfy the predicate.
proof fn lemma_filter_all(s: Seq<PropsalView>, pred: spec_fn(PropsalView) -> bool)
    requires
        forall|i: int| 0 <= i < s.len() ==> pred(s[i]),
    ensures
        s.filter(pred) == s,
    decreases s.len(),
{
    reveal(Seq::filter);
    if s.len() > 0 {
        assert forall|i: int| 0 <= i < s.drop_last().len() implies pred(s.drop_last()[i]) by {
            assert(s.drop_last()[i] == s[i]);
        }
        lemma_filter_all(s.drop_last(), pred);
        assert(pred(s.last()));
        assert(s.drop_last().push(s.last()) =~= s);
    }
}

/// Filtering empties a sequence none of whose members satisfy the predicate.
proof fn lemma_filter_none(s: Seq<PropsalView>, pred: spec_fn(PropsalView) -> bool)
    requires
        forall|i: int| 0 <= i < s.len() ==> !pred(s[i]),
    ensures
        s.filter(pred) == Seq::<PropsalView>::empty(),
    decreases s.len(),
{
    reveal(Seq::filter);
    if s.len() > 0 {
        assert forall|i: int| 0 <= i < s.drop_last().len() implies !pred(s.drop_last()[i]) by {
            assert(s.drop_last()[i] == s[i]);
        }
        lemma_filter_none(s.drop_last(), pred);
    }
}

/// On a registry in ascending id order, the proposals lying after the bound
/// form the suffix that starts at the first of them.
proof fn lemma_selected_is_suffix(s: Seq<PropsalView>, start_after: Option<u64>, k: int)
    requires
        0 <= k <= s.len(),
        forall|j: int| 0 <= j < k ==> !spec_after_start(s[j], start_after),
        forall|j: int| k <= j < s.len() ==> spec_after_start(s[j], start_after),
    ensures
        spec_selected(s, start_after) == s.skip(k),
{
    let pred = |p: PropsalView| spec_after_start(p, start_after);
    broadcast use Seq::filter_distributes_over_add;

    assert(s.take(k) + s.skip(k) =~= s);
    assert((s.take(k) + s.skip(k)).filter(pred) == s.take(k).filter(pred) + s.skip(k).filter(
        pred,
    ));
    assert forall|j: int| 0 <= j < s.take(k).len() implies !pred(s.take(k)[j]) by {
        assert(s.take(k)[j] == s[j]);
    }
    lemma_filter_none(s.take(k), pred);
    assert forall|j: int| 0 <= j < s.skip(k).len() implies pred(s.skip(k)[j]) by {
        assert(s.skip(k)[j] == s[j + k]);
    }
    lemma_filter_all(s.skip(k), pred);
    assert(Seq::<PropsalView>::empty() + s.skip(k) =~= s.skip(k));
}

/// Returns the stored configuration.
pub fn query_config(state: &State) -> (r: ConfigResponse)
    ensures
        r.config == state.config,
{
    ConfigResponse { config: clone_config(&state.config) }
}

/// Returns a page of proposals in ascending id order: those keyed strictly
/// after `start_after`, at most `limit` many (defaulted to
/// [`DEFAULT_LIMIT`], capped at [`MAX_LIMIT`]).
pub fn query_propsals(state: &State, start_after: Option<u64>, limit: Option<u32>) -> (r:
    PropsalsResponse)
    requires
        state.wf(),
    ensures
        r.propsals@.map_values(|p: Propsal| p@) == spec_page(
            state.propsals_view(),
            start_after,
            limit,
        ),
        r.propsals@.len() <= spec_effective_limit(limit),
        forall|i: int, j: int|
            0 <= i < j < r.propsals@.len() ==> r.propsals@[i]@.id < r.propsals@[j]@.id,
        forall|i: int|
            0 <= i < r.propsals@.len() ==> spec_after_start(r.propsals@[i]@, start_after),
{
    let ghost s = state.propsals_view();
    let limit_raw: u32 = match limit {
        Some(l) => l,
        None => DEFAULT_LIMIT,
    };
    let limit_eff: usize = (if limit_raw > MAX_LIMIT {
        MAX_LIMIT
    } else {
        limit_raw
    }) as usize;
    let mut k: usize = 0;
    match start_after {
        Some(a) => {
            while k < state.propsals.len() && state.propsals[k].id <= a
                invariant
                    k <= s.len(),
                    s == state.propsals_view(),
                    s.len() == state.propsals@.len(),
                    forall|j: int| 0 <= j < k ==> s[j].id <= a,
                decreases s.len() - k,
            {
                k += 1;
            }
        },
        None => {},
    }
    proof {
        assert forall|j: int| k <= j < s.len() implies spec_after_start(s[j], start_after) by {
            if j > k {
                assert(s[k as int].id < s[j].id);
            }
        }
        lemma_selected_is_suffix(s, start_after, k as int);
    }
    let mut out: Vec<Propsal> = Vec::new();
    let mut i: usize = k;
    while i < state.propsals.len() && out.len() < limit_eff
        invariant
            k <= i <= s.len(),
            s == state.propsals_view(),
            s.len() == state.propsals@.len(),
            crate::state::sorted_by_id(s),
            spec_selected(s, start_after) == s.skip(k as int),
            forall|j: int| k <= j < s.len() ==> spec_after_start(s[j], start_after),
            out@.len() == i - k,
            out@.len() <= limit_eff,
            out@.map_values(|p: Propsal| p@) == s.subrange(k as int, i as int),
        decreases s.len() - i,
    {
        out.push(clone_propsal(&state.propsals[i]));
        proof {
            assert(out@.map_values(|p: Propsal| p@) =~= s.subrange(k as int, i + 1));
        }
        i += 1;
    }
    proof {
        let sel = spec_selected(s, start_after);
        assert(sel == s.skip(k as int));
        if i == s.len() {
            assert(s.subrange(k as int, i as int) =~= s.skip(k as int));
            assert(out@.len() == sel.len());
        } else {
            assert(out@.len() == limit_eff);
            assert(s.subrange(k as int, i as int) =~= s.skip(k as int).take(limit_eff as int));
        }
        assert forall|a: int, b: int| 0 <= a < b < out@.len() implies out@[a]@.id
            < out@[b]@.id by {
            assert(out@.map_values(|p: Propsal| p@)[a] == out@[a]@);
            assert(out@.map_values(|p: Propsal| p@)[b] == out@[b]@);
            assert(s.subrange(k as int, i as int)[a] == s[k + a]);
            assert(s.subrange(k as int, i as int)[b] == s[k + b]);
        }
        assert forall|a: int| 0 <= a < out@.len() implies spec_after_start(
            out@[a]@,
            start_after,
        ) by {
            assert(out@.map_values(|p: Propsal| p@)[a] == out@[a]@);
            assert(s.subrange(k as int, i as int)[a] == s[k + a]);
        }
    }
    PropsalsResponse { propsals: out }
}

/// Returns the proposal keyed `id`, or `NotFound`.
pub fn query_propsal(state: &State, id: u64) -> (r: Result<PropsalResponse, ContractError>)
    ensures
        r is Ok <==> state.has_propsal(id),
        match r {
            Ok(resp) => spec_find(state.propsals_view(), id) == Some(resp.propsal@),
            Err(e) => e == ContractError::NotFound,
        },
{
    match state.find_index(id) {
        Some(i) => Ok(PropsalResponse { propsal: clone_propsal(&state.propsals[i]) }),
        None => Err(ContractError::NotFound),
    }
}

/// How many of `votes` chose `candidate_id`.
pub open spec fn spec_vote_count(votes: Seq<VoteView>, candidate_id: u64) -> nat {
    votes.filter(|v: VoteView| v.candidate_id == candidate_id).len()
}

/// `candidate_id` wins the tally over `votes`: it was voted for, no
/// candidate collected more votes, and among candidates with the same count
/// it is the lowest id — the documented deterministic tie-break.
pub open spec fn spec_is_winner(votes: Seq<VoteView>, candidate_id: u64) -> bool {
    &&& exists|i: int| 0 <= i < votes.len() && #[trigger] votes[i].candidate_id == candidate_id
    &&& forall|i: int|
        0 <= i < votes.len() ==> spec_vote_count(votes, #[trigger] votes[i].candidate_id)
            <= spec_vote_count(votes, candidate_id)
    &&& forall|i: int|
        0 <= i < votes.len() && spec_vote_count(votes, #[trigger] votes[i].candidate_id)
            == spec_vote_count(votes, candidate_id) ==> candidate_id <= votes[i].candidate_id
}

/// Counts the votes that chose `candidate_id`.
fn count_votes(votes: &Vec<Vote>, candidate_id: u64) -> (r: usize)
    ensures
        r == spec_vote_count(votes@.map_values(|v: Vote| v@), candidate_id),
{
    let ghost vv = votes@.map_values(|v: Vote| v@);
    let mut count: usize = 0;
    let mut i: usize = 0;
    while i < votes.len()
        invariant
            i <= vv.len(),
            vv == votes@.map_values(|v: Vote| v@),
            vv.len() == votes@.len(),
            count == spec_vote_count(vv.take(i as int), candidate_id),
            count <= i,
        decreases vv.len() - i,
    {
        proof {
            broadcast use Seq::lemma_filter_push;

            assert(vv.take(i + 1) =~= vv.take(i as int).push(vv[i as int]));
            assert(vv[i as int] == votes@[i as int]@);
            assert(spec_vote_count(vv.take(i + 1), candidate_id) == spec_vote_count(
                vv.take(i as int),
                candidate_id,
            ) + (if vv[i as int].candidate_id == candidate_id {
                1int
            } else {
                0int
            }));
        }
        if votes[i].candidate_id == candidate_id {
            count += 1;
        }
        i += 1;
    }
    proof {
        assert(vv.take(vv.len() as int) =~= vv);
    }
    count
}

/// Derives the winning candidate id from a non-empty vote list: the highest
/// vote count, lowest candidate id on ties.
fn tally_winner(votes: &Vec<Vote>) -> (r: u64)
    requires
        votes@.len() > 0,
    ensures
        spec_is_winner(votes@.map_values(|v: Vote| v@), r),
{
    let ghost vv = votes@.map_values(|v: Vote| v@);
    let mut best_id: u64 = votes[0].candidate_id;
    let mut best_count: usize = count_votes(votes, best_id);
    proof {
        assert(vv[0].candidate_id == best_id);
    }
    let mut i: usize = 1;
    while i < votes.len()
        invariant
            1 <= i <= vv.len(),
            vv == votes@.map_values(|v: Vote| v@),
            vv.len() == votes@.len(),
            exists|j: int| 0 <= j < vv.len() && #[trigger] vv[j].candidate_id == best_id,
            best_count == spec_vote_count(vv, best_id),
            forall|j: int|
                0 <= j < i ==> spec_vote_count(vv, #[trigger] vv[j].candidate_id) <= best_count,
            forall|j: int|
                0 <= j < i && spec_vote_count(vv, #[trigger] vv[j].candidate_id) == best_count
                    ==> best_id <= vv[j].candidate_id,
        decreases vv.len() - i,
    {
        let cid = votes[i].candidate_id;
        let count = count_votes(votes, cid);
        if count > best_count || (count == best_count && cid < best_id) {
            best_id = cid;
            best_count = count;
            proof {
                assert(vv[i as int].candidate_id == best_id);
            }
        }
        i += 1;
    }
    best_id
}

/// Returns the proposal keyed `id` together with its tallied winner, or
/// `NotFound`. The winner's name is reported empty; only the id is derived
/// from the votes. The tally is undefined on an empty vote list, so the
/// proposal, when present, must hold at least one vote.
pub fn query_propsal_result(state: &State, id: u64) -> (r: Result<
    PropsalResultResponse,
    ContractError,
>)
    requires
        state.has_propsal(id) ==> spec_find(state.propsals_view(), id)->Some_0.votes.len() > 0,
    ensures
        r is Ok <==> state.has_propsal(id),
        match r {
            Ok(resp) => {
                &&& spec_find(state.propsals_view(), id) == Some(resp.propsal_result.propsal@)
                &&& spec_is_winner(
                    resp.propsal_result.propsal@.votes,
                    resp.propsal_result.winner.id,
                )
                &&& resp.propsal_result.winner.name@ == Seq::<char>::empty()
            },
            Err(e) => e == ContractError::NotFound,
        },
{
    let i = match state.find_index(id) {
        Some(i) => i,
        None => {
            return Err(ContractError::NotFound);
        },
    };
    let propsal = clone_propsal(&state.propsals[i]);
    let winner_id = tally_winner(&propsal.votes);
    let winner = Candidate { id: winner_id, name: String::new() };
    Ok(PropsalResultResponse { propsal_result: PropsalResult { propsal, winner } })
}

/// Returns the audit-log height recorded at index `num`, or `NotFound`.
pub fn query_block_height(state: &State, num: u64) -> (r: Result<
    BlockHeightResponse,
    ContractError,
>)
    ensures
        r is Ok <==> num < state.block_heights@.len(),
        match r {
            Ok(resp) => resp.block_height == state.block_heights@[num as int],
            Err(e) => e == ContractError::NotFound,
        },
{
    if num < state.block_heights.len() as u64 {
        Ok(BlockHeightResponse { block_height: state.block_heights[num as usize] })
    } else {
        Err(ContractError::NotFound)
    }
}

/// Returns the next free audit-log index.
pub fn query_block_index(state: &State) -> (r: BlockIndexResponse)
    ensures
        r.block_index == state.block_index,
{
    BlockIndexResponse { block_index: state.block_index }
}

/// Routes a read-only request to the query it names; no query mutates
/// anything. The contract restates, per request kind, exactly what that
/// query ensures.
pub fn query(state: &State, msg: QueryMsg) -> (r: Result<QueryAnswer, ContractError>)
    requires
        state.wf(),
        match msg {
            QueryMsg::PropsalResult { id } => state.has_propsal(id) ==> spec_find(
                state.propsals_view(),
                id,
            )->Some_0.votes.len() > 0,
            _ => true,
        },
    ensures
        match msg {
            QueryMsg::Config {  } => r matches Ok(QueryAnswer::Config(resp)) && resp.config
                == state.config,
            QueryMsg::Propsals { start_after, limit } => r matches Ok(
                QueryAnswer::Propsals(resp),
            ) && resp.propsals@.map_values(|p: Propsal| p@) == spec_page(
                state.propsals_view(),
                start_after,
                limit,
            ),
            QueryMsg::Propsal { id } => {
                &&& (r is Ok <==> state.has_propsal(id))
                &&& match r {
                    Ok(a) => a matches QueryAnswer::Propsal(resp) && spec_find(
                        state.propsals_view(),
                        id,
                    ) == Some(resp.propsal@),
                    Err(e) => e == ContractError::NotFound,
                }
            },
            QueryMsg::PropsalResult { id } => {
                &&& (r is Ok <==> state.has_propsal(id))
                &&& match r {
                    Ok(a) => a matches QueryAnswer::PropsalResult(resp) && {
                        &&& spec_find(state.propsals_view(), id) == Some(
                            resp.propsal_result.propsal@,
                        )
                        &&& spec_is_winner(
                            resp.propsal_result.propsal@.votes,
                            resp.propsal_result.winner.id,
                        )
                        &&& resp.propsal_result.winner.name@ == Seq::<char>::empty()
                    },
                    Err(e) => e == ContractError::NotFound,
                }
            },
            QueryMsg::BlockHeight { num } => {
                &&& (r is Ok <==> num < state.block_heights@.len())
                &&& match r {
                    Ok(a) => a matches QueryAnswer::BlockHeight(resp) && resp.block_height
                        == state.block_heights@[num as int],
                    Err(e) => e == ContractError::NotFound,
                }
            },
            QueryMsg::BlockIndex {  } => r matches Ok(QueryAnswer::BlockIndex(resp))
                && resp.block_index == state.block_index,
        },
{
    match msg {
        QueryMsg::Config {} => Ok(QueryAnswer::Config(query_config(state))),
        QueryMsg::Propsals { start_after, limit } => Ok(
            QueryAnswer::Propsals(query_propsals(state, start_after, limit)),
        ),
        QueryMsg::Propsal { id } => match query_propsal(state, id) {
            Ok(resp) => Ok(QueryAnswer::Propsal(resp)),
            Err(e) => Err(e),
        },
        QueryMsg::PropsalResult { id } => match query_propsal_result(state, id) {
            Ok(resp) => Ok(QueryAnswer::PropsalResult(resp)),
            Err(e) => Err(e),
        },
        QueryMsg::BlockHeight { num } => match query_block_height(state, num) {
            Ok(resp) => Ok(QueryAnswer::BlockHeight(resp)),
            Err(e) => Err(e),
        },
        QueryMsg::BlockIndex {} => Ok(QueryAnswer::BlockIndex(query_block_index(state))),
    }
}

} // verus!

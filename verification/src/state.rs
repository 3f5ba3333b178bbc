//! The persistent state model: configuration, the proposal registry, and the
//! block-height audit log, together with the invariants that every operation
//! preserves.
//!
//! Each stored type has a mathematical view (`@`) over sequences and plain
//! values; all contracts are stated over those views.

use vstd::prelude::*;

use crate::error::ContractError;

verus! {

/// The singleton governance configuration.
#[derive(Clone, Debug, PartialEq, Eq)]
pub struct Config {
    /// Block height at which the module was instantiated.
    pub start_blocknumber: u64,
    /// Longest allowed span, in seconds, between the current block time and a
    /// proposal's expiration.
    pub max_duration_seconds: u64,
    /// The sole identity allowed to mutate configuration and proposals.
    pub owner: String,
}

/// A governance proposal: candidates, an expiration, and accumulated votes.
#[derive(Clone, Debug, PartialEq, Eq)]
pub struct Propsal {
    /// Registry key, assigned from the proposal-id counter.
    pub id: u64,
    /// Title, free-form.
    pub title: String,
    /// Stored status; never checked before accepting a vote.
    pub status: PropsalStatus,
    /// Address of the collection gating voting eligibility.
    pub nft_address: String,
    /// Voting deadline, as a unix timestamp in seconds.
    pub expiration: u64,
    /// Votes cast so far, in the order they arrived.
    pub votes: Vec<Vote>,
    /// The options voters choose among.
    pub candidates: Vec<Candidate>,
}

/// Lifecycle tag stored on a proposal.
#[derive(Clone, Copy, Debug, PartialEq, Eq, Structural)]
pub enum PropsalStatus {
    /// Open.
    Enabled,
    /// Not open.
    Disabled,
    /// Closed.
    Finalized,
}

/// One cast vote, immutable once appended.
#[derive(Clone, Debug, PartialEq, Eq)]
pub struct Vote {
    /// Voting power; always the unit weight 1.
    pub power: u64,
    /// The caller that cast the vote.
    pub voter: String,
    /// Key of the proposal voted on.
    pub propsal_id: u64,
    /// Id of the chosen candidate within that proposal.
    pub candidate_id: u64,
}

/// A named option within a proposal.
#[derive(Clone, Debug, PartialEq, Eq)]
pub struct Candidate {
    /// Caller-supplied id, unique only within its proposal.
    pub id: u64,
    /// Display name.
    pub name: String,
}

/// A proposal together with its computed winner; derived on demand, never
/// stored.
#[derive(Clone, Debug, PartialEq, Eq)]
pub struct PropsalResult {
    /// The proposal the tally ran over.
    pub propsal: Propsal,
    /// The winning candidate. Its `name` is always empty: the tally reports
    /// only the id it derived from the votes.
    pub winner: Candidate,
}

/// The stored module name and version marker checked by migration.
#[derive(Clone, Debug, PartialEq, Eq)]
pub struct ContractVersion {
    /// Module name.
    pub contract: String,
    /// Module version, compared lexicographically by migration.
    pub version: String,
}

/// The block the host observes while processing an operation.
#[derive(Clone, Copy, Debug, PartialEq, Eq, Structural)]
pub struct BlockInfo {
    /// Current block height.
    pub height: u64,
    /// Current block time, as a unix timestamp in seconds.
    pub time: u64,
}

/// The host context an operation runs under.
#[derive(Clone, Copy, Debug, PartialEq, Eq, Structural)]
pub struct Env {
    /// The observed block.
    pub block: BlockInfo,
}

/// The message context: who invoked the operation.
#[derive(Clone, Debug, PartialEq, Eq)]
pub struct MessageInfo {
    /// The calling identity.
    pub sender: String,
}

/// Mathematical content of a [`Vote`].
pub ghost struct VoteView {
    /// Voting power.
    pub power: u64,
    /// The caller that cast the vote.
    pub voter: Seq<char>,
    /// Key of the proposal voted on.
    pub propsal_id: u64,
    /// Id of the chosen candidate.
    pub candidate_id: u64,
}

/// Mathematical content of a [`Candidate`].
pub ghost struct CandidateView {
    /// Caller-supplied id.
    pub id: u64,
    /// Display name.
    pub name: Seq<char>,
}

/// Mathematical content of a [`Propsal`].
pub ghost struct PropsalView {
    /// Registry key.
    pub id: u64,
    /// Title.
    pub title: Seq<char>,
    /// Stored status.
    pub status: PropsalStatus,
    /// Address of the gating collection.
    pub nft_address: Seq<char>,
    /// Voting deadline, unix seconds.
    pub expiration: u64,
    /// Votes in arrival order.
    pub votes: Seq<VoteView>,
    /// The options voters choose among.
    pub candidates: Seq<CandidateView>,
}

impl View for Vote {
    type V = VoteView;

    open spec fn view(&self) -> VoteView {
        VoteView {
            power: self.power,
            voter: self.voter@,
            propsal_id: self.propsal_id,
            candidate_id: self.candidate_id,
        }
    }
}

impl View for Candidate {
    type V = CandidateView;

    open spec fn view(&self) -> CandidateView {
        CandidateView { id: self.id, name: self.name@ }
    }
}

impl View for Propsal {
    type V = PropsalView;

    open spec fn view(&self) -> PropsalView {
        PropsalView {
            id: self.id,
            title: self.title@,
            status: self.status,
            nft_address: self.nft_address@,
            expiration: self.expiration,
            votes: self.votes@.map_values(|v: Vote| v@),
            candidates: self.candidates@.map_values(|c: Candidate| c@),
        }
    }
}

/// The first proposal in `s` keyed `id`, if any.
pub open spec fn spec_find(s: Seq<PropsalView>, id: u64) -> Option<PropsalView>
    decreases s.len(),
{
    if s.len() == 0 {
        None
    } else if s[0].id == id {
        Some(s[0])
    } else {
        spec_find(s.drop_first(), id)
    }
}

/// `s` with `p` inserted in ascending id order, replacing an existing
/// proposal keyed `p.id`.
pub open spec fn spec_store(s: Seq<PropsalView>, p: PropsalView) -> Seq<PropsalView>
    decreases s.len(),
{
    if s.len() == 0 {
        seq![p]
    } else if p.id < s[0].id {
        seq![p] + s
    } else if p.id == s[0].id {
        seq![p] + s.drop_first()
    } else {
        seq![s[0]] + spec_store(s.drop_first(), p)
    }
}

/// `s` with the first proposal keyed `id` removed; `s` itself if none is.
pub open spec fn spec_remove(s: Seq<PropsalView>, id: u64) -> Seq<PropsalView>
    decreases s.len(),
{
    if s.len() == 0 {
        s
    } else if s[0].id == id {
        s.drop_first()
    } else {
        seq![s[0]] + spec_remove(s.drop_first(), id)
    }
}

/// Proposal ids strictly ascend in `s`, so each id occurs at most once.
pub open spec fn sorted_by_id(s: Seq<PropsalView>) -> bool {
    forall|i: int, j: int| 0 <= i < j < s.len() ==> s[i].id < s[j].id
}

/// Splitting a search for `id` at a prefix free of `id` leaves the result
/// unchanged.
proof fn lemma_find_prefix(s: Seq<PropsalView>, id: u64, i: int)
    requires
        0 <= i <= s.len(),
        forall|j: int| 0 <= j < i ==> s[j].id != id,
    ensures
        spec_find(s, id) == spec_find(s.skip(i), id),
    decreases i,
{
    if i > 0 {
        assert forall|j: int| 0 <= j < i - 1 implies s.drop_first()[j].id != id by {
            assert(s.drop_first()[j] == s[j + 1]);
        }
        assert(s.drop_first().skip(i - 1) =~= s.skip(i));
        lemma_find_prefix(s.drop_first(), id, i - 1);
        assert(spec_find(s, id) == spec_find(s.drop_first(), id));
    } else {
        assert(s.skip(0) =~= s);
    }
}

/// Storing past a prefix whose ids all lie below `p.id` keeps that prefix and
/// stores into the remainder.
proof fn lemma_store_prefix(s: Seq<PropsalView>, p: PropsalView, i: int)
    requires
        0 <= i <= s.len(),
        forall|j: int| 0 <= j < i ==> s[j].id < p.id,
    ensures
        spec_store(s, p) == s.take(i) + spec_store(s.skip(i), p),
    decreases i,
{
    if i == 0 {
        assert(s.skip(0) =~= s);
        assert(s.take(0) + spec_store(s, p) =~= spec_store(s, p));
    } else {
        assert forall|j: int| 0 <= j < i - 1 implies s.drop_first()[j].id < p.id by {
            assert(s.drop_first()[j] == s[j + 1]);
        }
        lemma_store_prefix(s.drop_first(), p, i - 1);
        assert(s.take(i) =~= seq![s[0]] + s.drop_first().take(i - 1));
        assert(s.skip(i) =~= s.drop_first().skip(i - 1));
        assert(spec_store(s, p) =~= s.take(i) + spec_store(s.skip(i), p));
    }
}

/// Removing `id` past a prefix free of `id` keeps that prefix and removes
/// from the remainder.
proof fn lemma_remove_prefix(s: Seq<PropsalView>, id: u64, i: int)
    requires
        0 <= i <= s.len(),
        forall|j: int| 0 <= j < i ==> s[j].id != id,
    ensures
        spec_remove(s, id) == s.take(i) + spec_remove(s.skip(i), id),
    decreases i,
{
    if i == 0 {
        assert(s.skip(0) =~= s);
        assert(s.take(0) + spec_remove(s, id) =~= spec_remove(s, id));
    } else {
        assert forall|j: int| 0 <= j < i - 1 implies s.drop_first()[j].id != id by {
            assert(s.drop_first()[j] == s[j + 1]);
        }
        lemma_remove_prefix(s.drop_first(), id, i - 1);
        assert(s.take(i) =~= seq![s[0]] + s.drop_first().take(i - 1));
        assert(s.skip(i) =~= s.drop_first().skip(i - 1));
        assert(spec_remove(s, id) =~= s.take(i) + spec_remove(s.skip(i), id));
    }
}

/// Law: a stored proposal is found under its key. In particular, right
/// after a proposal is created its stored content — votes empty — is what
/// any lookup of its id returns.
pub proof fn lemma_find_store_same(s: Seq<PropsalView>, p: PropsalView)
    ensures
        spec_find(spec_store(s, p), p.id) == Some(p),
    decreases s.len(),
{
    if s.len() == 0 {
        assert(spec_store(s, p)[0] == p);
    } else if p.id < s[0].id {
        assert(spec_store(s, p)[0] == p);
    } else if p.id == s[0].id {
        assert(spec_store(s, p)[0] == p);
    } else {
        lemma_find_store_same(s.drop_first(), p);
        assert(spec_store(s, p)[0] == s[0]);
        assert(spec_store(s, p).drop_first() =~= spec_store(s.drop_first(), p));
    }
}

/// Law: storing a proposal leaves every other key's lookup unchanged.
pub proof fn lemma_find_store_other(s: Seq<PropsalView>, p: PropsalView, id: u64)
    requires
        id != p.id,
    ensures
        spec_find(spec_store(s, p), id) == spec_find(s, id),
    decreases s.len(),
{
    if s.len() == 0 {
        assert(spec_store(s, p)[0] == p);
        assert(spec_store(s, p).drop_first() =~= Seq::<PropsalView>::empty());
        assert(spec_find(spec_store(s, p), id) == spec_find(
            Seq::<PropsalView>::empty(),
            id,
        ));
    } else if p.id < s[0].id {
        assert(spec_store(s, p)[0] == p);
        assert(spec_store(s, p).drop_first() =~= s);
        assert(spec_find(spec_store(s, p), id) == spec_find(s, id));
    } else if p.id == s[0].id {
        assert(spec_store(s, p)[0] == p);
        assert(spec_store(s, p).drop_first() =~= s.drop_first());
        assert(spec_find(spec_store(s, p), id) == spec_find(s.drop_first(), id));
        assert(spec_find(s, id) == spec_find(s.drop_first(), id));
    } else {
        lemma_find_store_other(s.drop_first(), p, id);
        assert(spec_store(s, p)[0] == s[0]);
        assert(spec_store(s, p).drop_first() =~= spec_store(s.drop_first(), p));
        if s[0].id == id {
            assert(spec_find(spec_store(s, p), id) == Some(s[0]));
            assert(spec_find(s, id) == Some(s[0]));
        } else {
            assert(spec_find(spec_store(s, p), id) == spec_find(
                spec_store(s.drop_first(), p),
                id,
            ));
            assert(spec_find(s, id) == spec_find(s.drop_first(), id));
        }
    }
}

/// A registry none of whose entries carries `id` resolves no lookup of it.
proof fn lemma_find_absent(s: Seq<PropsalView>, id: u64)
    requires
        forall|j: int| 0 <= j < s.len() ==> s[j].id != id,
    ensures
        spec_find(s, id) is None,
    decreases s.len(),
{
    if s.len() > 0 {
        assert forall|j: int| 0 <= j < s.drop_first().len() implies s.drop_first()[j].id != id by {
            assert(s.drop_first()[j] == s[j + 1]);
        }
        lemma_find_absent(s.drop_first(), id);
    }
}

/// Law: deleting a key from a sorted registry leaves nothing to find under
/// it.
pub proof fn lemma_find_remove_absent(s: Seq<PropsalView>, id: u64)
    requires
        sorted_by_id(s),
    ensures
        spec_find(spec_remove(s, id), id) is None,
    decreases s.len(),
{
    if s.len() == 0 {
    } else if s[0].id == id {
        assert forall|j: int| 0 <= j < s.drop_first().len() implies s.drop_first()[j].id != id by {
            assert(s.drop_first()[j] == s[j + 1]);
            assert(s[0].id < s[j + 1].id);
        }
        lemma_find_absent(s.drop_first(), id);
    } else {
        assert forall|a: int, b: int|
            0 <= a < b < s.drop_first().len() implies s.drop_first()[a].id
            < s.drop_first()[b].id by {
            assert(s.drop_first()[a] == s[a + 1]);
            assert(s.drop_first()[b] == s[b + 1]);
        }
        lemma_find_remove_absent(s.drop_first(), id);
        assert(spec_remove(s, id)[0] == s[0]);
        assert(spec_remove(s, id).drop_first() =~= spec_remove(s.drop_first(), id));
    }
}

/// Inserting `p` between a prefix of smaller ids and a suffix of larger ids
/// keeps the registry sorted.
proof fn lemma_sorted_insert(s: Seq<PropsalView>, p: PropsalView, i: int)
    requires
        sorted_by_id(s),
        0 <= i <= s.len(),
        forall|j: int| 0 <= j < i ==> s[j].id < p.id,
        i < s.len() ==> p.id < s[i].id,
    ensures
        sorted_by_id(s.take(i) + seq![p] + s.skip(i)),
{
    let t = s.take(i) + seq![p] + s.skip(i);
    assert forall|a: int, b: int| 0 <= a < b < t.len() implies t[a].id < t[b].id by {
        assert(forall|k: int| 0 <= k < i ==> t[k] == s[k]);
        assert(t[i] == p);
        assert(forall|k: int| i < k < t.len() ==> t[k] == s[k - 1]);
    }
}

/// Replacing the proposal at `i` by one with the same id keeps the registry
/// sorted.
proof fn lemma_sorted_replace(s: Seq<PropsalView>, p: PropsalView, i: int)
    requires
        sorted_by_id(s),
        0 <= i < s.len(),
        s[i].id == p.id,
    ensures
        sorted_by_id(s.take(i) + seq![p] + s.skip(i + 1)),
{
    let t = s.take(i) + seq![p] + s.skip(i + 1);
    assert forall|a: int, b: int| 0 <= a < b < t.len() implies t[a].id < t[b].id by {
        assert(forall|k: int| 0 <= k < i ==> t[k] == s[k]);
        assert(t[i] == p);
        assert(forall|k: int| i < k < t.len() ==> t[k] == s[k]);
    }
}

/// Deleting the proposal at `i` keeps the registry sorted.
proof fn lemma_sorted_delete(s: Seq<PropsalView>, i: int)
    requires
        sorted_by_id(s),
        0 <= i < s.len(),
    ensures
        sorted_by_id(s.take(i) + s.skip(i + 1)),
{
    let t = s.take(i) + s.skip(i + 1);
    assert forall|a: int, b: int| 0 <= a < b < t.len() implies t[a].id < t[b].id by {
        assert(forall|k: int| 0 <= k < i ==> t[k] == s[k]);
        assert(forall|k: int| i <= k < t.len() ==> t[k] == s[k + 1]);
    }
}

/// Field-by-field copy of a configuration.
pub(crate) fn clone_config(c: &Config) -> (r: Config)
    ensures
        r == *c,
{
    Config {
        start_blocknumber: c.start_blocknumber,
        max_duration_seconds: c.max_duration_seconds,
        owner: c.owner.clone(),
    }
}

/// Field-by-field copy of a vote.
pub(crate) fn clone_vote(v: &Vote) -> (r: Vote)
    ensures
        r == *v,
{
    Vote {
        power: v.power,
        voter: v.voter.clone(),
        propsal_id: v.propsal_id,
        candidate_id: v.candidate_id,
    }
}

/// Field-by-field copy of a candidate.
pub(crate) fn clone_candidate(c: &Candidate) -> (r: Candidate)
    ensures
        r == *c,
{
    Candidate { id: c.id, name: c.name.clone() }
}

/// Element-by-element copy of a vote list.
pub(crate) fn clone_votes(v: &Vec<Vote>) -> (r: Vec<Vote>)
    ensures
        r@ == v@,
{
    let mut out: Vec<Vote> = Vec::new();
    let mut i: usize = 0;
    while i < v.len()
        invariant
            i <= v@.len(),
            out@ == v@.take(i as int),
        decreases v@.len() - i,
    {
        out.push(clone_vote(&v[i]));
        proof {
            assert(v@.take(i + 1) =~= v@.take(i as int).push(v@[i as int]));
        }
        i += 1;
    }
    proof {
        assert(v@.take(v@.len() as int) =~= v@);
    }
    out
}

/// Element-by-element copy of a candidate list.
pub(crate) fn clone_candidates(v: &Vec<Candidate>) -> (r: Vec<Candidate>)
    ensures
        r@ == v@,
{
    let mut out: Vec<Candidate> = Vec::new();
    let mut i: usize = 0;
    while i < v.len()
        invariant
            i <= v@.len(),
            out@ == v@.take(i as int),
        decreases v@.len() - i,
    {
        out.push(clone_candidate(&v[i]));
        proof {
            assert(v@.take(i + 1) =~= v@.take(i as int).push(v@[i as int]));
        }
        i += 1;
    }
    proof {
        assert(v@.take(v@.len() as int) =~= v@);
    }
    out
}

/// Field-by-field copy of a proposal, equal in content to its source.
pub(crate) fn clone_propsal(p: &Propsal) -> (r: Propsal)
    ensures
        r@ == p@,
{
    Propsal {
        id: p.id,
        title: p.title.clone(),
        status: p.status,
        nft_address: p.nft_address.clone(),
        expiration: p.expiration,
        votes: clone_votes(&p.votes),
        candidates: clone_candidates(&p.candidates),
    }
}

/// All durable data of the module. An operation is an atomic transition on a
/// value of this type: it either commits every change it describes or leaves
/// the value untouched.
#[derive(Clone, Debug, PartialEq, Eq)]
pub struct State {
    /// The module name and version marker.
    pub contract: ContractVersion,
    /// The singleton configuration.
    pub config: Config,
    /// The id the next created proposal receives.
    pub propsal_index: u64,
    /// The proposal registry, kept in strictly ascending id order.
    pub propsals: Vec<Propsal>,
    /// The audit log: the block height observed at instantiation followed by
    /// the height of every successful mutating operation, strictly
    /// increasing.
    pub block_heights: Vec<u64>,
    /// The next free audit-log index; always the length of the log.
    pub block_index: u64,
}

impl State {
    /// The registry as a sequence of proposal views, in storage order.
    pub open spec fn propsals_view(self) -> Seq<PropsalView> {
        self.propsals@.map_values(|p: Propsal| p@)
    }

    /// Registry invariant: proposal ids strictly ascend, so each id occurs at
    /// most once.
    pub open spec fn propsals_sorted(self) -> bool {
        sorted_by_id(self.propsals_view())
    }

    /// Audit-log invariant: the log is non-empty, its running index counts
    /// its entries, and recorded heights strictly increase in append order.
    pub open spec fn audit_wf(self) -> bool {
        &&& self.block_heights@.len() >= 1
        &&& self.block_index == self.block_heights@.len()
        &&& forall|i: int, j: int|
            0 <= i < j < self.block_heights@.len() ==> self.block_heights@[i]
                < self.block_heights@[j]
    }

    /// Well-formedness of the whole state; established by instantiation and
    /// preserved by every operation.
    pub open spec fn wf(self) -> bool {
        &&& self.propsals_sorted()
        &&& self.audit_wf()
    }

    /// The most recently recorded audit-log height.
    pub open spec fn last_height(self) -> u64 {
        self.block_heights@.last()
    }

    /// Whether the registry holds a proposal keyed `id`.
    pub open spec fn has_propsal(self, id: u64) -> bool {
        spec_find(self.propsals_view(), id) is Some
    }

    /// Position of the proposal keyed `id`, scanning in storage order.
    pub(crate) fn find_index(&self, id: u64) -> (r: Option<usize>)
        ensures
            match r {
                Some(i) => {
                    &&& i < self.propsals@.len()
                    &&& self.propsals@[i as int].id == id
                    &&& spec_find(self.propsals_view(), id) == Some(self.propsals_view()[i as int])
                    &&& forall|j: int| 0 <= j < i ==> self.propsals_view()[j].id != id
                },
                None => {
                    &&& spec_find(self.propsals_view(), id) is None
                    &&& forall|j: int|
                        0 <= j < self.propsals@.len() ==> self.propsals_view()[j].id != id
                },
            },
    {
        let ghost s = self.propsals_view();
        let mut i: usize = 0;
        while i < self.propsals.len()
            invariant
                i <= s.len(),
                s == self.propsals_view(),
                s.len() == self.propsals@.len(),
                forall|j: int| 0 <= j < i ==> s[j].id != id,
            decreases s.len() - i,
        {
            if self.propsals[i].id == id {
                proof {
                    lemma_find_prefix(s, id, i as int);
                    assert(s.skip(i as int)[0] == s[i as int]);
                }
                return Some(i);
            }
            i += 1;
        }
        proof {
            lemma_find_prefix(s, id, i as int);
        }
        None
    }

    /// Stores `p` under key `p.id`, inserting in ascending id order or
    /// replacing the proposal already keyed `p.id`.
    pub(crate) fn save_propsal(&mut self, p: Propsal)
        requires
            old(self).propsals_sorted(),
        ensures
            final(self).propsals_view() == spec_store(old(self).propsals_view(), p@),
            final(self).propsals_sorted(),
            final(self).contract == old(self).contract,
            final(self).config == old(self).config,
            final(self).propsal_index == old(self).propsal_index,
            final(self).block_heights == old(self).block_heights,
            final(self).block_index == old(self).block_index,
    {
        let ghost s = self.propsals_view();
        let mut i: usize = 0;
        while i < self.propsals.len() && self.propsals[i].id < p.id
            invariant
                i <= s.len(),
                s == self.propsals_view(),
                s.len() == self.propsals@.len(),
                forall|j: int| 0 <= j < i ==> s[j].id < p@.id,
            decreases s.len() - i,
        {
            i += 1;
        }
        proof {
            lemma_store_prefix(s, p@, i as int);
        }
        if i < self.propsals.len() && self.propsals[i].id == p.id {
            let _replaced = self.propsals.remove(i);
            self.propsals.insert(i, p);
            proof {
                assert(s.skip(i as int)[0] == s[i as int]);
                assert(s.skip(i as int).drop_first() =~= s.skip(i + 1));
                assert(self.propsals_view() =~= s.take(i as int) + seq![p@] + s.skip(i + 1));
                assert(spec_store(s, p@) =~= self.propsals_view());
                lemma_sorted_replace(s, p@, i as int);
            }
        } else {
            self.propsals.insert(i, p);
            proof {
                if i < s.len() {
                    assert(s.skip(i as int)[0] == s[i as int]);
                }
                assert(self.propsals_view() =~= s.take(i as int) + seq![p@] + s.skip(i as int));
                assert(spec_store(s, p@) =~= self.propsals_view());
                lemma_sorted_insert(s, p@, i as int);
            }
        }
    }

    /// Deletes the proposal keyed `id`, if any; no error when it is absent.
    pub(crate) fn delete_propsal(&mut self, id: u64)
        requires
            old(self).propsals_sorted(),
        ensures
            final(self).propsals_view() == spec_remove(old(self).propsals_view(), id),
            final(self).propsals_sorted(),
            final(self).contract == old(self).contract,
            final(self).config == old(self).config,
            final(self).propsal_index == old(self).propsal_index,
            final(self).block_heights == old(self).block_heights,
            final(self).block_index == old(self).block_index,
    {
        let ghost s = self.propsals_view();
        match self.find_index(id) {
            Some(i) => {
                let _removed = self.propsals.remove(i);
                proof {
                    lemma_remove_prefix(s, id, i as int);
                    assert(s.skip(i as int)[0] == s[i as int]);
                    assert(s.skip(i as int).drop_first() =~= s.skip(i + 1));
                    assert(self.propsals_view() =~= s.take(i as int) + s.skip(i + 1));
                    assert(spec_remove(s, id) =~= self.propsals_view());
                    lemma_sorted_delete(s, i as int);
                }
            },
            None => {
                proof {
                    lemma_remove_prefix(s, id, s.len() as int);
                    assert(spec_remove(s, id) =~= s);
                }
            },
        }
    }

    /// Law: in every well-formed state the audit-log heights are strictly
    /// increasing in append order. Together with the contracts of the
    /// mutating operations — which preserve well-formedness, append exactly
    /// the observed height on success, and leave the state untouched on
    /// failure — this holds across any sequence of operations.
    pub proof fn lemma_audit_heights_strictly_increase(self, i: int, j: int)
        requires
            self.wf(),
            0 <= i < j < self.block_heights@.len(),
        ensures
            self.block_heights@[i] < self.block_heights@[j],
    {
    }

    /// Appends the observed block height to the audit log, rejecting any
    /// height not strictly above the last recorded one. Called as the final
    /// fallible step of every mutating operation, so a stale or rewound
    /// height aborts the whole operation.
    pub fn increase_block(&mut self, env: &Env) -> (r: Result<(), ContractError>)
        requires
            old(self).wf(),
            old(self).block_index < u64::MAX,
        ensures
            final(self).wf(),
            r is Ok <==> env.block.height > old(self).last_height(),
            match r {
                Ok(()) => {
                    &&& final(self).block_heights@ == old(self).block_heights@.push(
                        env.block.height,
                    )
                    &&& final(self).block_index == old(self).block_index + 1
                    &&& final(self).last_height() == env.block.height
                    &&& final(self).contract == old(self).contract
                    &&& final(self).config == old(self).config
                    &&& final(self).propsal_index == old(self).propsal_index
                    &&& final(self).propsals == old(self).propsals
                },
                Err(e) => {
                    &&& e == ContractError::AuditInvariantViolation
                    &&& *final(self) == *old(self)
                },
            },
    {
        let idx = self.block_index;
        let prev_block_height = self.block_heights[self.block_heights.len() - 1];
        if prev_block_height >= env.block.height {
            return Err(ContractError::AuditInvariantViolation);
        }
        self.block_heights.push(env.block.height);
        self.block_index = idx + 1;
        Ok(())
    }
}

} // verus!

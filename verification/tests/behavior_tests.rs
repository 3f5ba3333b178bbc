use cw_dao::error::ContractError;
use cw_dao::execute::{execute, instantiate, migrate};
use cw_dao::msg::{ExecuteMsg, InstantiateMsg, MigrateMsg, QueryAnswer, QueryMsg};
use cw_dao::query::query;
use cw_dao::state::{
    BlockInfo, Candidate, Config, ContractVersion, Env, MessageInfo, Propsal, PropsalStatus, State,
};

fn env_at(height: u64, time: u64) -> Env {
    Env { block: BlockInfo { height, time } }
}

fn info_of(sender: &str) -> MessageInfo {
    MessageInfo { sender: String::from(sender) }
}

/// A fresh module instantiated by "owner" at height 100, time 1000, with a
/// duration cap of 500 seconds.
fn fresh_state() -> State {
    let env = env_at(100, 1000);
    let info = info_of("owner");
    let msg = InstantiateMsg { owner: String::from("owner"), max_duration_seconds: 500 };
    instantiate(&env, &info, msg)
}

fn standard_add_msg(time: u64) -> ExecuteMsg {
    ExecuteMsg::AddPropsal {
        title: String::from("test-propsal"),
        status: PropsalStatus::Enabled,
        nft_address: String::from("nft"),
        expiration: time + 100,
        candidates: vec![Candidate { id: 1, name: String::from("candiate1") }],
    }
}

fn propsals_of(state: &State, start_after: Option<u64>, limit: Option<u32>) -> Vec<Propsal> {
    match query(state, QueryMsg::Propsals { start_after, limit }).unwrap() {
        QueryAnswer::Propsals(resp) => resp.propsals,
        _ => panic!("expected a proposals answer"),
    }
}

fn config_of(state: &State) -> Config {
    match query(state, QueryMsg::Config {}).unwrap() {
        QueryAnswer::Config(resp) => resp.config,
        _ => panic!("expected a config answer"),
    }
}

fn block_index_of(state: &State) -> u64 {
    match query(state, QueryMsg::BlockIndex {}).unwrap() {
        QueryAnswer::BlockIndex(resp) => resp.block_index,
        _ => panic!("expected a block-index answer"),
    }
}

/// A registry of `n` one-candidate proposals keyed 1..=n, built directly.
fn state_with_propsals(n: u64) -> State {
    let mut propsals = Vec::new();
    let mut id = 1u64;
    while id <= n {
        propsals.push(Propsal {
            id,
            title: format!("propsal-{}", id),
            status: PropsalStatus::Enabled,
            nft_address: String::from("nft"),
            expiration: 2000,
            votes: vec![],
            candidates: vec![Candidate { id: 1, name: String::from("candiate1") }],
        });
        id += 1;
    }
    State {
        contract: ContractVersion {
            contract: String::from("nft-dao"),
            version: String::from("0.1.0"),
        },
        config: Config {
            start_blocknumber: 100,
            max_duration_seconds: 500,
            owner: String::from("owner"),
        },
        propsal_index: 1,
        propsals,
        block_heights: vec![100],
        block_index: 1,
    }
}

#[test]
fn non_owner_mutations_rejected() {
    let mut state = fresh_state();
    let env = env_at(101, 1000);
    let intruder = info_of("intruder");
    let before = state.clone();

    let calls = vec![
        ExecuteMsg::UpdateConfig { owner: Some(String::from("intruder")), max_duration_seconds: Some(1) },
        standard_add_msg(1000),
        ExecuteMsg::UpdatePropsal {
            id: 1,
            title: Some(String::from("stolen")),
            status: None,
            nft_address: None,
            expiration: None,
            candidates: None,
        },
        ExecuteMsg::RemovePropsal { id: 1 },
    ];
    for msg in calls {
        let err = execute(&mut state, &env, &intruder, msg).unwrap_err();
        assert_eq!(err, ContractError::Unauthorized);
        assert_eq!(before, state);
    }
}

#[test]
fn stale_height_rejected_and_state_unchanged() {
    let mut state = fresh_state();
    let owner = info_of("owner");

    // Same height as the seeded baseline entry: rejected.
    let err = execute(
        &mut state,
        &env_at(100, 1000),
        &owner,
        ExecuteMsg::UpdateConfig { owner: None, max_duration_seconds: Some(9) },
    )
    .unwrap_err();
    assert_eq!(err, ContractError::AuditInvariantViolation);
    assert_eq!(config_of(&state).max_duration_seconds, 500);
    assert_eq!(block_index_of(&state), 1);

    // A lower height: rejected too.
    let err = execute(&mut state, &env_at(99, 1000), &owner, standard_add_msg(1000)).unwrap_err();
    assert_eq!(err, ContractError::AuditInvariantViolation);
    assert_eq!(propsals_of(&state, None, None).len(), 0);

    // A fresh height commits and appends to the log.
    execute(&mut state, &env_at(101, 1000), &owner, standard_add_msg(1000)).unwrap();
    assert_eq!(block_index_of(&state), 2);

    // Replaying the committed height is rejected retroactively.
    let before = state.clone();
    let err = execute(&mut state, &env_at(101, 1000), &owner, ExecuteMsg::RemovePropsal { id: 1 })
        .unwrap_err();
    assert_eq!(err, ContractError::AuditInvariantViolation);
    assert_eq!(before, state);
}

#[test]
fn audit_log_heights_ascend_and_are_queryable() {
    let mut state = fresh_state();
    let owner = info_of("owner");
    execute(&mut state, &env_at(105, 1000), &owner, standard_add_msg(1000)).unwrap();
    execute(&mut state, &env_at(110, 1000), &owner, ExecuteMsg::ExecuteVote { propsal_id: 1, candidate_id: 1 }).unwrap();

    let heights: Vec<u64> = (0..3)
        .map(|num| match query(&state, QueryMsg::BlockHeight { num }).unwrap() {
            QueryAnswer::BlockHeight(resp) => resp.block_height,
            _ => panic!("expected a block-height answer"),
        })
        .collect();
    assert_eq!(heights, vec![100, 105, 110]);
    assert_eq!(block_index_of(&state), 3);

    let err = query(&state, QueryMsg::BlockHeight { num: 3 }).unwrap_err();
    assert_eq!(err, ContractError::NotFound);
}

#[test]
fn expiration_window_checks() {
    let mut state = fresh_state();
    let owner = info_of("owner");
    let env = env_at(101, 1000);

    let add_with = |expiration: u64| ExecuteMsg::AddPropsal {
        title: String::from("test-propsal"),
        status: PropsalStatus::Enabled,
        nft_address: String::from("nft"),
        expiration,
        candidates: vec![Candidate { id: 1, name: String::from("candiate1") }],
    };

    // Deadline before the block time: LowerTime.
    let err = execute(&mut state, &env, &owner, add_with(999)).unwrap_err();
    assert_eq!(err, ContractError::LowerTime);

    // Deadline further ahead than the cap (500): MaxDuration.
    let err = execute(&mut state, &env, &owner, add_with(1501)).unwrap_err();
    assert_eq!(err, ContractError::MaxDuration);

    // Both boundary values pass: exactly now, and exactly at the cap.
    execute(&mut state, &env, &owner, add_with(1000)).unwrap();
    execute(&mut state, &env_at(102, 1000), &owner, add_with(1500)).unwrap();

    // The same window guards a supplied expiration on update.
    let update_with = |expiration: u64| ExecuteMsg::UpdatePropsal {
        id: 1,
        title: None,
        status: None,
        nft_address: None,
        expiration: Some(expiration),
        candidates: None,
    };
    let err = execute(&mut state, &env_at(103, 1000), &owner, update_with(999)).unwrap_err();
    assert_eq!(err, ContractError::LowerTime);
    let err = execute(&mut state, &env_at(103, 1000), &owner, update_with(1501)).unwrap_err();
    assert_eq!(err, ContractError::MaxDuration);
    execute(&mut state, &env_at(103, 1000), &owner, update_with(1500)).unwrap();
}

#[test]
fn update_missing_propsal_not_found() {
    let mut state = fresh_state();
    let owner = info_of("owner");
    let err = execute(
        &mut state,
        &env_at(101, 1000),
        &owner,
        ExecuteMsg::UpdatePropsal {
            id: 7,
            title: None,
            status: None,
            nft_address: None,
            expiration: None,
            candidates: None,
        },
    )
    .unwrap_err();
    assert_eq!(err, ContractError::NotFound);

    let err = query(&state, QueryMsg::Propsal { id: 7 }).unwrap_err();
    assert_eq!(err, ContractError::NotFound);
    let err = query(&state, QueryMsg::PropsalResult { id: 7 }).unwrap_err();
    assert_eq!(err, ContractError::NotFound);
}

#[test]
fn vote_is_unchecked_and_not_deduplicated() {
    let mut state = fresh_state();
    let owner = info_of("owner");
    // A Disabled proposal still accepts votes, also for an unknown candidate
    // id, also twice from the same voter.
    execute(
        &mut state,
        &env_at(101, 1000),
        &owner,
        ExecuteMsg::AddPropsal {
            title: String::from("test-propsal"),
            status: PropsalStatus::Disabled,
            nft_address: String::from("nft"),
            expiration: 1100,
            candidates: vec![Candidate { id: 1, name: String::from("candiate1") }],
        },
    )
    .unwrap();

    let voter = info_of("anyone");
    execute(&mut state, &env_at(102, 1000), &voter, ExecuteMsg::ExecuteVote { propsal_id: 1, candidate_id: 99 }).unwrap();
    execute(&mut state, &env_at(103, 1000), &voter, ExecuteMsg::ExecuteVote { propsal_id: 1, candidate_id: 99 }).unwrap();

    let propsal = match query(&state, QueryMsg::Propsal { id: 1 }).unwrap() {
        QueryAnswer::Propsal(resp) => resp.propsal,
        _ => panic!("expected a proposal answer"),
    };
    assert_eq!(propsal.votes.len(), 2);
    assert_eq!(propsal.votes[0].voter, "anyone");
    assert_eq!(propsal.votes[0].power, 1);
    assert_eq!(propsal.votes[0].candidate_id, 99);
    assert_eq!(propsal.votes[0], propsal.votes[1]);

    // Voting on a missing proposal fails NotFound.
    let err = execute(&mut state, &env_at(104, 1000), &voter, ExecuteMsg::ExecuteVote { propsal_id: 2, candidate_id: 1 })
        .unwrap_err();
    assert_eq!(err, ContractError::NotFound);
}

#[test]
fn propsal_counter_is_never_advanced() {
    let mut state = fresh_state();
    let owner = info_of("owner");
    execute(&mut state, &env_at(101, 1000), &owner, standard_add_msg(1000)).unwrap();
    execute(
        &mut state,
        &env_at(102, 1000),
        &owner,
        ExecuteMsg::AddPropsal {
            title: String::from("second"),
            status: PropsalStatus::Enabled,
            nft_address: String::from("nft"),
            expiration: 1200,
            candidates: vec![],
        },
    )
    .unwrap();

    // The counter stays at 1, so the second proposal overwrote the first.
    let listed = propsals_of(&state, None, None);
    assert_eq!(listed.len(), 1);
    assert_eq!(listed[0].id, 1);
    assert_eq!(listed[0].title, "second");
}

#[test]
fn list_defaults_caps_and_bounds() {
    let state = state_with_propsals(15);

    // No arguments: at most 10, ascending by id.
    let page = propsals_of(&state, None, None);
    assert_eq!(page.len(), 10);
    let ids: Vec<u64> = page.iter().map(|p| p.id).collect();
    assert_eq!(ids, vec![1, 2, 3, 4, 5, 6, 7, 8, 9, 10]);

    // An exclusive lower bound with a limit.
    let page = propsals_of(&state, Some(5), Some(3));
    let ids: Vec<u64> = page.iter().map(|p| p.id).collect();
    assert_eq!(ids, vec![6, 7, 8]);

    // A limit above the cap behaves like the cap.
    let page = propsals_of(&state, None, Some(200));
    assert_eq!(page.len(), 15);

    // A bound past the end yields an empty page; a zero limit too.
    assert_eq!(propsals_of(&state, Some(15), None).len(), 0);
    assert_eq!(propsals_of(&state, None, Some(0)).len(), 0);
}

#[test]
fn tally_picks_max_count_then_lowest_id() {
    let mut state = state_with_propsals(1);
    let voters = ["a", "b", "c", "d", "e"];
    let choices = [2u64, 1, 2, 1, 2];
    let mut height = 101u64;
    for (voter, choice) in voters.iter().zip(choices.iter()) {
        execute(
            &mut state,
            &env_at(height, 1000),
            &info_of(voter),
            ExecuteMsg::ExecuteVote { propsal_id: 1, candidate_id: *choice },
        )
        .unwrap();
        height += 1;
    }

    // Candidate 2 holds three votes against two: it wins outright.
    let result = match query(&state, QueryMsg::PropsalResult { id: 1 }).unwrap() {
        QueryAnswer::PropsalResult(resp) => resp.propsal_result,
        _ => panic!("expected a proposal-result answer"),
    };
    assert_eq!(result.winner, Candidate { id: 2, name: String::from("") });
    assert_eq!(result.propsal.id, 1);

    // One more vote for candidate 1 ties the counts: the lowest id wins.
    execute(
        &mut state,
        &env_at(height, 1000),
        &info_of("f"),
        ExecuteMsg::ExecuteVote { propsal_id: 1, candidate_id: 1 },
    )
    .unwrap();
    let result = match query(&state, QueryMsg::PropsalResult { id: 1 }).unwrap() {
        QueryAnswer::PropsalResult(resp) => resp.propsal_result,
        _ => panic!("expected a proposal-result answer"),
    };
    assert_eq!(result.winner, Candidate { id: 1, name: String::from("") });
}

#[test]
fn migrate_guards_name_and_version() {
    // The marker written at instantiation carries the current version, so a
    // migration to the same version is rejected.
    let mut state = fresh_state();
    let err = migrate(&mut state, MigrateMsg {}).unwrap_err();
    assert_eq!(err, ContractError::InvalidContractVersion);

    // A stored older version migrates and the marker is updated.
    let mut state = fresh_state();
    state.contract.version = String::from("0.0.1");
    migrate(&mut state, MigrateMsg {}).unwrap();
    assert_eq!(state.contract.version, "0.1.0");

    // A foreign module name is rejected before the version is looked at.
    let mut state = fresh_state();
    state.contract.contract = String::from("someone-elses-module");
    state.contract.version = String::from("0.0.1");
    let err = migrate(&mut state, MigrateMsg {}).unwrap_err();
    assert_eq!(err, ContractError::InvalidContractName);
}

#[test]
fn governance_scenario_end_to_end() {
    // Instantiate, publish one proposal, accept a vote from an arbitrary
    // caller, and read the winner back.
    let env = env_at(12345, 1571797419);
    let owner = info_of("owner");
    let msg = InstantiateMsg { owner: String::from("owner"), max_duration_seconds: 2629743 };
    let mut state = instantiate(&env, &owner, msg);

    execute(
        &mut state,
        &env_at(12346, 1571797419),
        &owner,
        ExecuteMsg::AddPropsal {
            title: String::from("test-propsal"),
            status: PropsalStatus::Enabled,
            nft_address: String::from("nft"),
            expiration: 1571797419 + 100,
            candidates: vec![Candidate { id: 1, name: String::from("candiate1") }],
        },
    )
    .unwrap();

    let listed = propsals_of(&state, None, None);
    assert_eq!(listed.len(), 1);
    assert_eq!(listed[0].title, "test-propsal");
    assert_eq!(listed[0].votes, vec![]);

    execute(
        &mut state,
        &env_at(12347, 1571797419),
        &info_of("any-caller"),
        ExecuteMsg::ExecuteVote { propsal_id: 1, candidate_id: 1 },
    )
    .unwrap();

    let result = match query(&state, QueryMsg::PropsalResult { id: 1 }).unwrap() {
        QueryAnswer::PropsalResult(resp) => resp.propsal_result,
        _ => panic!("expected a proposal-result answer"),
    };
    assert_eq!(result.propsal.votes.len(), 1);
    assert_eq!(result.propsal.votes[0].power, 1);
    assert_eq!(result.winner, Candidate { id: 1, name: String::from("") });
}

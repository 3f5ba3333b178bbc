use cw_dao::execute::{execute, instantiate};
use cw_dao::msg::{ExecuteMsg, InstantiateMsg, QueryAnswer, QueryMsg};
use cw_dao::query::query;
use cw_dao::state::{
    BlockInfo, Candidate, Config, Env, MessageInfo, Propsal, PropsalStatus, State, Vote,
};

fn mock_env() -> Env {
    Env { block: BlockInfo { height: 12345, time: 1571797419 } }
}

fn mock_info(sender: &str) -> MessageInfo {
    MessageInfo { sender: String::from(sender) }
}

/// Instantiates with the standard test configuration and advances the block
/// so the next operation sees a fresh height.
fn setup_contract(state_env: &mut Env, info: &MessageInfo) -> State {
    let msg = InstantiateMsg { owner: info.sender.clone(), max_duration_seconds: 2629743 };
    let state = instantiate(state_env, info, msg);
    state_env.block.height += 1;
    state
}

/// Adds the standard test proposal and advances the block afterwards.
fn add_propsal(state: &mut State, env: &mut Env, info: &MessageInfo) {
    let title = String::from("test-propsal");
    let status = PropsalStatus::Enabled;
    let nft_address = String::from("nft");
    let expiration = env.block.time + 100;
    let candidates = vec![Candidate {
        id: 1,
        name: ("candiate1").to_string(),
    }];

    let msg = ExecuteMsg::AddPropsal {
        title,
        status,
        nft_address,
        expiration,
        candidates,
    };

    execute(state, env, info, msg).unwrap();
    env.block.height += 1;
}

/// Casts a vote and advances the block afterwards.
fn execute_vote(state: &mut State, env: &mut Env, info: &MessageInfo, propsal_id: u64, candidate_id: u64) {
    let msg = ExecuteMsg::ExecuteVote { propsal_id, candidate_id };
    execute(state, env, info, msg).unwrap();
    env.block.height += 1;
}

#[test]
fn test_instantiate() {
    let mut env = mock_env();
    let owner = "owner";
    let info = mock_info(owner);
    let state = setup_contract(&mut env, &info);

    let max_duration_seconds = 2629743;

    let query_config = query(&state, QueryMsg::Config {}).unwrap();
    let config = match query_config {
        QueryAnswer::Config(resp) => resp.config,
        _ => panic!("expected a config answer"),
    };

    assert_eq!(owner, config.owner);
    assert_eq!(max_duration_seconds, config.max_duration_seconds);
}

#[test]
fn test_update_config() {
    let mut env = mock_env();
    let owner = "owner";
    let info = mock_info(owner);
    let mut state = setup_contract(&mut env, &info);

    let owner = String::from("update-owner");
    let max_duration_seconds = 2629745;

    let config = Config {
        start_blocknumber: env.block.height - 1,
        owner,
        max_duration_seconds,
    };

    let msg = ExecuteMsg::UpdateConfig {
        max_duration_seconds: Some(config.max_duration_seconds),
        owner: Some(config.owner.to_string()),
    };
    execute(&mut state, &env, &info, msg.clone()).unwrap();

    let res = query(&state, QueryMsg::Config {}).unwrap();
    let config_response = match res {
        QueryAnswer::Config(resp) => resp.config,
        _ => panic!("expected a config answer"),
    };

    assert_eq!(config.clone(), config_response.clone());
}

#[test]
fn test_add_propsal() {
    let mut env = mock_env();
    let owner = "owner";
    let info = mock_info(owner);
    let mut state = setup_contract(&mut env, &info);

    let title = String::from("test-propsal");
    let status = PropsalStatus::Enabled;
    let nft_address = String::from("nft");
    let expiration = env.block.time + 100;
    let candidates = vec![Candidate {
        id: 1,
        name: ("candiate1").to_string(),
    }];

    let msg = ExecuteMsg::AddPropsal {
        title: title.clone(),
        status: status.clone(),
        nft_address: nft_address.clone(),
        expiration,
        candidates: candidates.clone(),
    };

    env.block.height += 1;
    execute(&mut state, &env, &info, msg.clone()).unwrap();

    let res = query(
        &state,
        QueryMsg::Propsals { start_after: None, limit: None },
    )
    .unwrap();

    let propsals_response = match res {
        QueryAnswer::Propsals(resp) => resp,
        _ => panic!("expected a proposals answer"),
    };
    let votes = vec![];

    let propsal = Propsal {
        id: 1,
        title,
        status,
        nft_address,
        expiration,
        candidates,
        votes,
    };

    assert_eq!(Some(vec![propsal]), Some(propsals_response.propsals));
}

#[test]
fn test_update_propsal() {
    let mut env = mock_env();
    let owner = "owner";
    let info = mock_info(owner);
    let mut state = setup_contract(&mut env, &info);
    add_propsal(&mut state, &mut env, &info);

    let id = 1u64;
    let title = String::from("update-propsal");
    let status = PropsalStatus::Disabled;
    let nft_address = String::from("nft");
    let expiration = env.block.time + 100;
    let candidates = vec![Candidate {
        id: 1,
        name: ("u-candiate1").to_string(),
    }];

    let msg = ExecuteMsg::UpdatePropsal {
        id,
        title: Some(title.clone()),
        status: Some(status.clone()),
        nft_address: Some(nft_address.clone()),
        expiration: Some(expiration.clone()),
        candidates: Some(candidates.clone()),
    };

    env.block.height += 1;
    execute(&mut state, &env, &info, msg.clone()).unwrap();

    let res = query(&state, QueryMsg::Propsal { id }).unwrap();
    let propsal_response = match res {
        QueryAnswer::Propsal(resp) => resp,
        _ => panic!("expected a proposal answer"),
    };
    let votes = vec![];

    let propsal = Propsal {
        id: 1,
        title,
        status,
        nft_address,
        expiration,
        candidates,
        votes,
    };

    assert_eq!(propsal, propsal_response.propsal);
}

#[test]
fn test_remove_propsal() {
    let mut env = mock_env();
    let owner = "owner";
    let info = mock_info(owner);
    let mut state = setup_contract(&mut env, &info);
    add_propsal(&mut state, &mut env, &info);

    let msg = ExecuteMsg::RemovePropsal { id: 1 };

    env.block.height += 1;
    execute(&mut state, &env, &info, msg.clone()).unwrap();

    let res = query(
        &state,
        QueryMsg::Propsals { start_after: None, limit: None },
    )
    .unwrap();

    let propsals_response = match res {
        QueryAnswer::Propsals(resp) => resp,
        _ => panic!("expected a proposals answer"),
    };

    assert_eq!(Some(vec![]), Some(propsals_response.propsals));
}

#[test]
fn test_execute_vote() {
    let mut env = mock_env();
    let owner = "owner";
    let info = mock_info(owner);
    let mut state = setup_contract(&mut env, &info);
    add_propsal(&mut state, &mut env, &info);

    let title = String::from("test-propsal");
    let status = PropsalStatus::Enabled;
    let nft_address = String::from("nft");
    let expiration = env.block.time + 100;
    let candidates = vec![Candidate {
        id: 1,
        name: ("candiate1").to_string(),
    }];

    let msg = ExecuteMsg::ExecuteVote {
        propsal_id: 1,
        candidate_id: 1,
    };

    env.block.height += 1;
    execute(&mut state, &env, &info, msg.clone()).unwrap();

    let res = query(&state, QueryMsg::Propsal { id: 1 }).unwrap();

    let propsal_response = match res {
        QueryAnswer::Propsal(resp) => resp,
        _ => panic!("expected a proposal answer"),
    };

    let vote = Vote {
        power: 1,
        voter: String::from(owner),
        propsal_id: 1,
        candidate_id: 1,
    };
    let votes = vec![vote];

    let propsal = Propsal {
        id: 1,
        title,
        status,
        nft_address,
        expiration,
        candidates,
        votes,
    };

    assert_eq!(propsal, propsal_response.propsal);
}

#[test]
fn test_propsal_result() {
    let mut env = mock_env();
    let owner = "owner";
    let info = mock_info(owner);
    let mut state = setup_contract(&mut env, &info);
    add_propsal(&mut state, &mut env, &info);
    execute_vote(&mut state, &mut env, &info, 1, 1);

    let res = query(&state, QueryMsg::PropsalResult { id: 1 }).unwrap();

    let propsal_result_response = match res {
        QueryAnswer::PropsalResult(resp) => resp,
        _ => panic!("expected a proposal-result answer"),
    };

    let candidate = Candidate {
        id: 1,
        name: String::from(""),
    };

    assert_eq!(candidate, propsal_result_response.propsal_result.winner);
}

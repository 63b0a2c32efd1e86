use roulette_game::bet::{execute_bet, survey_legs};
use roulette_game::checks::{
    assert_is_admin, assert_is_distributor, assert_is_room_owner, assert_min_max_limit,
    assert_not_haulted, get_amount_for_denom, seconds_since, validate_input_amount,
};
use roulette_game::close::{close_with_winner, distribute_reward_to_users};
use roulette_game::env::{BlockInfo, Coin, ContractInfo, Env, MessageInfo, Timestamp};
use roulette_game::error::ContractError;
use roulette_game::execute::{execute, instantiate, HostAnswers};
use roulette_game::msg::{BetConfig, Direction, ExecuteMsg, InstantiateMsg, QueryMsg};
use roulette_game::query::{query, QueryResponse};
use roulette_game::response::{
    get_bank_transfer_to_msg, get_cw20_burn_from_msg, get_cw20_transfer_from_msg,
    get_cw20_transfer_msg, TransferMsg,
};
use roulette_game::state::{AssetInfo, Config, Decimal, RoomConfig, State};
use roulette_game::store::Store;

fn env_at(seconds: u64) -> Env {
    Env {
        block: BlockInfo {
            height: 3,
            time: Timestamp::from_seconds(seconds),
            chain_id: "chain-1".to_string(),
        },
        contract: ContractInfo { address: "roulette".to_string() },
    }
}

fn caller(sender: &str, amount: u128) -> MessageInfo {
    let funds = if amount == 0 {
        vec![]
    } else {
        vec![Coin { denom: "usei".to_string(), amount }]
    };
    MessageInfo { sender: sender.to_string(), funds }
}

fn config() -> Config {
    Config {
        admin: "admin".to_string(),
        nft_contract: "nft".to_string(),
        next_round_seconds: 120,
        distributor: "distributor".to_string(),
        platform_fee: Decimal::percent(40),
    }
}

fn pool() -> Store {
    let (mut store, _) = instantiate(InstantiateMsg { config: config() }).unwrap();
    for (name, denom) in [
        ("SEI", AssetInfo::NativeToken { denom: "usei".to_string() }),
        ("TEST", AssetInfo::Token { contract_addr: "token".to_string() }),
    ] {
        execute(
            &mut store,
            &env_at(0),
            &caller("admin", 0),
            ExecuteMsg::AddRoom {
                room_info: RoomConfig {
                    room_name: name.to_string(),
                    game_denom: denom,
                    nft_id: name.to_string(),
                    max_bet: 100000,
                    min_bet: 1,
                },
            },
            &HostAnswers { nft_owner: Some("owner".to_string()), balance: None },
        )
        .unwrap();
    }
    store
}

fn place(store: &mut Store, at: u64, player: &str, room_id: u64, legs: Vec<BetConfig>) {
    let total: u128 = legs.iter().map(|l| l.amount).sum();
    let funds = if room_id == 1 { total } else { 0 };
    execute_bet(store, &env_at(at), &caller(player, funds), room_id, legs, Some(1_000_000)).unwrap();
}

fn leg(direction: Direction, amount: u128) -> BetConfig {
    BetConfig { direction, amount }
}

#[test]
fn a_round_closed_on_seventeen_pays_odd_and_black_but_not_red() {
    let mut store = pool();
    place(&mut store, 10, "odd", 1, vec![leg(Direction::Odd, 100)]);
    place(&mut store, 11, "low", 1, vec![leg(Direction::FirstHalf, 50)]);
    place(&mut store, 12, "red", 1, vec![leg(Direction::Red, 70)]);
    place(&mut store, 13, "col", 1, vec![leg(Direction::Column { id: 6 }, 5), leg(Direction::Zero, 9)]);
    place(&mut store, 14, "tok", 2, vec![leg(Direction::Black, 1000), leg(Direction::Single { id: 17 }, 1)]);
    // on 1 odd, the first half and red all pay: 200 + 100 + 140
    assert_eq!(store.minimum_reserve, vec![440, 2036]);

    let before = distribute_reward_to_users(&store, 17);
    let response = close_with_winner(&mut store, &env_at(130), &caller("distributor", 0), 17).unwrap();
    assert_eq!(response.messages, before);
    // room 1: staked 234, paid 200 + 100 + 60; room 2: staked 1001, paid 2036
    assert_eq!(
        response.messages,
        vec![
            TransferMsg::BankSend {
                to_address: "col".to_string(),
                denom: "usei".to_string(),
                amount: 60,
            },
            TransferMsg::BankSend {
                to_address: "low".to_string(),
                denom: "usei".to_string(),
                amount: 100,
            },
            TransferMsg::BankSend {
                to_address: "odd".to_string(),
                denom: "usei".to_string(),
                amount: 200,
            },
            TransferMsg::Cw20Transfer {
                token_addr: "token".to_string(),
                recipient: "tok".to_string(),
                amount: 2036,
            },
        ]
    );
    assert_eq!(
        store.state,
        State { living_round: 1, is_haulted: false, room_id: 2 }
    );
    assert_eq!(store.winner_number, vec![17]);
    assert_eq!(store.minimum_reserve, vec![0, 0]);
    assert_eq!(store.bets.records.len(), 5);
    assert!(store.is_well_formed());
}

#[test]
fn the_house_pays_its_fee_where_it_keeps_something() {
    let mut store = pool();
    place(&mut store, 10, "odd", 1, vec![leg(Direction::Odd, 100)]);
    place(&mut store, 11, "red", 1, vec![leg(Direction::Red, 1000)]);
    place(&mut store, 12, "tok", 2, vec![leg(Direction::Zero, 3)]);
    // on 2: nobody wins in either room; the fees are 40% of 1100 and of 3, rounded down
    let response = close_with_winner(&mut store, &env_at(130), &caller("distributor", 0), 2).unwrap();
    assert_eq!(
        response.messages,
        vec![
            TransferMsg::BankSend {
                to_address: "admin".to_string(),
                denom: "usei".to_string(),
                amount: 440,
            },
            TransferMsg::Cw20Transfer {
                token_addr: "token".to_string(),
                recipient: "admin".to_string(),
                amount: 1,
            },
        ]
    );
    // the wagers of the closed round do not weigh on the next
    place(&mut store, 200, "odd", 1, vec![leg(Direction::Odd, 100)]);
    assert_eq!(store.minimum_reserve, vec![200, 0]);
    match query(
        &store,
        &env_at(200),
        QueryMsg::GetPlayersForOneRoundOneRoom {
            room_id: 1,
            round_id: 0,
            start_after: Some("odd".to_string()),
            limit: None,
        },
        None,
    )
    .unwrap()
    {
        QueryResponse::Bets(b) => {
            let names: Vec<&str> = b.bets_info.iter().map(|w| w.player.as_str()).collect();
            assert_eq!(names, vec!["red"]);
        },
        other => panic!("unexpected answer {:?}", other),
    }
    match query(
        &store,
        &env_at(200),
        QueryMsg::GetPlayerInfosForRoom {
            room_id: 1,
            player: "odd".to_string(),
            start_after: None,
            limit: Some(5),
        },
        None,
    )
    .unwrap()
    {
        QueryResponse::Bets(b) => {
            let rounds: Vec<u64> = b.bets_info.iter().map(|w| w.round_id).collect();
            assert_eq!(rounds, vec![0, 1]);
        },
        other => panic!("unexpected answer {:?}", other),
    }
}

#[test]
fn the_roles_are_told_apart() {
    let sender = caller("admin", 0);
    assert_eq!(assert_is_admin(&config(), &sender), Ok(true));
    assert_eq!(assert_is_distributor(&config(), &sender), Err(ContractError::Unauthorized));
    assert_eq!(assert_is_admin(&config(), &caller("Admin", 0)), Err(ContractError::Unauthorized));
    assert_eq!(assert_is_room_owner(&sender, &Some("admin".to_string())), Ok(true));
    assert_eq!(
        assert_is_room_owner(&sender, &Some("other".to_string())),
        Err(ContractError::Unauthorized)
    );
    assert_eq!(assert_is_room_owner(&sender, &None), Err(ContractError::QueryFailed));
    let state = State { living_round: 0, is_haulted: true, room_id: 0 };
    assert_eq!(assert_not_haulted(&state), Err(ContractError::Halted));
    assert_eq!(assert_not_haulted(&State { is_haulted: false, ..state }), Ok(true));
}

#[test]
fn a_halted_pool_takes_no_wagers() {
    let mut store = pool();
    store.state.is_haulted = true;
    let r = execute_bet(
        &mut store,
        &env_at(1),
        &caller("a", 100),
        1,
        vec![leg(Direction::Odd, 100)],
        Some(1000),
    );
    assert_eq!(r, Err(ContractError::Halted));
    assert!(store.bets.records.is_empty());
    assert!(store.round_start_second.is_empty());
}

#[test]
fn limits_and_funds_are_checked_to_the_unit() {
    let room = RoomConfig {
        room_name: "r".to_string(),
        game_denom: AssetInfo::NativeToken { denom: "usei".to_string() },
        nft_id: "n".to_string(),
        max_bet: 500,
        min_bet: 100,
    };
    assert_eq!(assert_min_max_limit(100, &room), Ok(true));
    assert_eq!(assert_min_max_limit(500, &room), Ok(true));
    let refused = Err(ContractError::BetOutOfLimits { min_bet: 100, max_bet: 500 });
    assert_eq!(assert_min_max_limit(99, &room), refused);
    assert_eq!(assert_min_max_limit(501, &room), refused);

    let funds = vec![
        Coin { denom: "usei".to_string(), amount: 60 },
        Coin { denom: "uatom".to_string(), amount: 1000 },
        Coin { denom: "usei".to_string(), amount: 40 },
    ];
    assert_eq!(get_amount_for_denom(&funds, "usei"), Some(100));
    assert_eq!(get_amount_for_denom(&funds, "uatom"), Some(1000));
    assert_eq!(get_amount_for_denom(&funds, "other"), Some(0));
    let huge = vec![
        Coin { denom: "usei".to_string(), amount: u128::MAX },
        Coin { denom: "usei".to_string(), amount: 1 },
    ];
    assert_eq!(get_amount_for_denom(&huge, "usei"), None);
    assert_eq!(validate_input_amount(&funds, 100, &room.game_denom), Ok(()));
    assert_eq!(
        validate_input_amount(&funds, 101, &room.game_denom),
        Err(ContractError::InsufficientFunds)
    );
    assert_eq!(
        validate_input_amount(&huge, u128::MAX, &room.game_denom),
        Err(ContractError::InsufficientFunds)
    );
    let token = AssetInfo::Token { contract_addr: "token".to_string() };
    assert_eq!(validate_input_amount(&[].to_vec(), 101, &token), Ok(()));
}

#[test]
fn legs_are_surveyed_for_their_sum_and_their_points() {
    assert_eq!(survey_legs(&vec![]), Ok((0, false)));
    assert_eq!(
        survey_legs(&vec![leg(Direction::Red, 5), leg(Direction::Zero, 7)]),
        Ok((12, false))
    );
    assert_eq!(
        survey_legs(&vec![leg(Direction::Red, 5), leg(Direction::Zero, 7), leg(Direction::DoubleZero, 1)]),
        Ok((13, true))
    );
    assert_eq!(
        survey_legs(&vec![leg(Direction::Red, u128::MAX), leg(Direction::Row { id: 0 }, 7)]),
        Err(ContractError::InvalidSelection)
    );
    assert_eq!(
        survey_legs(&vec![leg(Direction::Red, u128::MAX), leg(Direction::Zero, 1)]),
        Err(ContractError::Overflow)
    );
    let many: Vec<BetConfig> = (0..1000).map(|_| leg(Direction::Odd, 1)).collect();
    assert_eq!(survey_legs(&many), Ok((1000, true)));
}

#[test]
fn time_is_counted_in_whole_seconds() {
    assert_eq!(Timestamp::from_seconds(121).nanos(), 121_000_000_000);
    assert_eq!(Timestamp { nanos: 1_999_999_999 }.seconds(), 1);
    assert_eq!(seconds_since(130, 10), 120);
    assert_eq!(seconds_since(10, 10), 0);
    assert_eq!(seconds_since(9, 10), 0);
    assert_eq!(Decimal::from_ratio(40, 100), Decimal { atomics: 400_000_000_000_000_000 });
    assert_eq!(Decimal::from_ratio(1, 3), Decimal { atomics: 333_333_333_333_333_333 });
    assert_eq!(Decimal::percent(40), Decimal::from_ratio(40, 100));
    assert_eq!(Decimal::one().atomics(), 1_000_000_000_000_000_000);
    assert_eq!(Decimal::zero().atomics(), 0);
}

#[test]
fn transfers_name_who_pays_whom() {
    assert_eq!(
        get_cw20_transfer_msg("token", "bob", 5),
        TransferMsg::Cw20Transfer {
            token_addr: "token".to_string(),
            recipient: "bob".to_string(),
            amount: 5
        }
    );
    assert_eq!(
        get_cw20_transfer_from_msg("token", "alice", "bob", 6),
        TransferMsg::Cw20TransferFrom {
            token_addr: "token".to_string(),
            owner: "alice".to_string(),
            recipient: "bob".to_string(),
            amount: 6
        }
    );
    assert_eq!(
        get_cw20_burn_from_msg("token", "alice", 7),
        TransferMsg::Cw20BurnFrom {
            token_addr: "token".to_string(),
            owner: "alice".to_string(),
            amount: 7
        }
    );
    assert_eq!(
        get_bank_transfer_to_msg("bob", "usei", 8),
        TransferMsg::BankSend {
            to_address: "bob".to_string(),
            denom: "usei".to_string(),
            amount: 8
        }
    );
}

use roulette_game::env::{BlockInfo, Coin, ContractInfo, Env, MessageInfo, Timestamp};
use roulette_game::error::ContractError;
use roulette_game::execute::{execute, instantiate, lookups_for, migrate, HostAnswers};
use roulette_game::msg::{
    BetConfig, Direction, ExecuteMsg, InstantiateMsg, MigrateMsg, QueryMsg, RoundOffset, Winner,
};
use roulette_game::query::{query, QueryResponse};
use roulette_game::response::TransferMsg;
use roulette_game::state::{AssetInfo, Config, Decimal, RoomConfig};
use roulette_game::store::Store;

const POOL: &str = "roulette";
const TOKEN: &str = "token";

fn env_at(height: u64, seconds: u64) -> Env {
    Env {
        block: BlockInfo {
            height,
            time: Timestamp::from_seconds(seconds),
            chain_id: "chain-1".to_string(),
        },
        contract: ContractInfo { address: POOL.to_string() },
    }
}

fn default_env() -> Env {
    Env {
        block: BlockInfo {
            height: 12345,
            time: Timestamp { nanos: 1571797419879305533 },
            chain_id: "cosmos-testnet-14002".to_string(),
        },
        contract: ContractInfo { address: POOL.to_string() },
    }
}

fn caller(sender: &str, funds: Vec<Coin>) -> MessageInfo {
    MessageInfo { sender: sender.to_string(), funds }
}

fn usei(amount: u128) -> Vec<Coin> {
    vec![Coin { denom: "usei".to_string(), amount }]
}

fn answers(nft_owner: Option<&str>, balance: Option<u128>) -> HostAnswers {
    HostAnswers { nft_owner: nft_owner.map(|s| s.to_string()), balance }
}

fn init_roulette_contract() -> Store {
    let msg = InstantiateMsg {
        config: Config {
            admin: "admin".to_string(),
            nft_contract: "nft".to_string(),
            next_round_seconds: 120,
            distributor: "distributor".to_string(),
            platform_fee: Decimal::from_ratio(40, 100),
        },
    };
    let (store, response) = instantiate(msg).unwrap();
    assert_eq!(response.attributes.len(), 1);
    assert_eq!(response.attributes[0].key, "action");
    assert_eq!(response.attributes[0].value, "init_contract");
    assert!(store.is_well_formed());
    store
}

fn init_two_rooms(store: &mut Store) {
    let msg = ExecuteMsg::AddRoom {
        room_info: RoomConfig {
            room_name: "SEI".to_string(),
            game_denom: AssetInfo::NativeToken { denom: "usei".to_string() },
            nft_id: "SEI".to_string(),
            max_bet: 100000,
            min_bet: 100,
        },
    };
    execute(store, &default_env(), &caller("admin", vec![]), msg, &answers(Some("sei_admin"), None))
        .unwrap();
    let msg = ExecuteMsg::AddRoom {
        room_info: RoomConfig {
            room_name: "TEST".to_string(),
            game_denom: AssetInfo::Token { contract_addr: TOKEN.to_string() },
            nft_id: "TEST".to_string(),
            max_bet: 100000,
            min_bet: 100,
        },
    };
    execute(
        store,
        &default_env(),
        &caller("admin", vec![]),
        msg,
        &answers(Some("test_admin"), None),
    )
    .unwrap();
}

fn bet(direction: Direction, amount: u128) -> BetConfig {
    BetConfig { direction, amount }
}

#[test]
fn test_update_config() {
    let mut store = init_roulette_contract();
    let new_config = Config {
        admin: "new_admin".to_string(),
        nft_contract: "nft_contract".to_string(),
        next_round_seconds: 120,
        distributor: "distributor".to_string(),
        platform_fee: Decimal::from_ratio(40, 100),
    };
    execute(
        &mut store,
        &default_env(),
        &caller("admin", vec![]),
        ExecuteMsg::UpdateConfig { config: new_config },
        &answers(None, None),
    )
    .unwrap();
    let config = match query(&store, &default_env(), QueryMsg::Config {}, None).unwrap() {
        QueryResponse::Config(c) => c,
        other => panic!("unexpected answer {:?}", other),
    };
    assert_eq!(
        config.config,
        Config {
            admin: "new_admin".to_string(),
            nft_contract: "nft_contract".to_string(),
            next_round_seconds: 120,
            distributor: "distributor".to_string(),
            platform_fee: Decimal::from_ratio(40, 100),
        }
    );
}

#[test]
fn test_add_room() {
    let mut store = init_roulette_contract();
    let room = RoomConfig {
        room_name: "SEI".to_string(),
        game_denom: AssetInfo::NativeToken { denom: "usei".to_string() },
        nft_id: "SEI".to_string(),
        max_bet: 100000,
        min_bet: 100,
    };
    let msg = ExecuteMsg::AddRoom { room_info: room.clone() };
    let wanted = lookups_for(&store, &msg);
    assert_eq!(wanted.nft_id, Some("SEI".to_string()));
    assert_eq!(wanted.balance_of, None);
    execute(
        &mut store,
        &default_env(),
        &caller("admin", vec![]),
        msg,
        &answers(Some("sei_admin"), None),
    )
    .unwrap();
    match query(&store, &default_env(), QueryMsg::GetRoom { room_id: 1 }, None).unwrap() {
        QueryResponse::Room(r) => assert_eq!(r.room, room),
        other => panic!("unexpected answer {:?}", other),
    }
    match query(
        &store,
        &default_env(),
        QueryMsg::GetRooms { start_after: None, limit: None },
        None,
    )
    .unwrap()
    {
        QueryResponse::Rooms(r) => assert_eq!(r.rooms, vec![room]),
        other => panic!("unexpected answer {:?}", other),
    }
    assert_eq!(store.state.room_id, 1);
    assert!(store.is_well_formed());
}

#[test]
fn test_bet_with_native_token() {
    let mut store = init_roulette_contract();
    init_two_rooms(&mut store);
    let bet_msg = ExecuteMsg::Bet { room_id: 1, bet_info: vec![bet(Direction::FirstHalf, 200)] };
    let wanted = lookups_for(&store, &bet_msg);
    assert_eq!(wanted.balance_of, Some(AssetInfo::NativeToken { denom: "usei".to_string() }));
    let response = execute(
        &mut store,
        &default_env(),
        &caller("user1", usei(200)),
        bet_msg,
        &answers(None, Some(10200)),
    )
    .unwrap();
    assert!(response.messages.is_empty());
    let keys: Vec<(&str, &str)> =
        response.attributes.iter().map(|a| (a.key.as_str(), a.value.as_str())).collect();
    assert_eq!(
        keys,
        vec![("action", "bet"), ("room_id", "1"), ("amount", "200"), ("direction", "first_half")]
    );

    let bet_msg = ExecuteMsg::Bet { room_id: 2, bet_info: vec![bet(Direction::FirstOfThird, 200)] };
    let response = execute(
        &mut store,
        &default_env(),
        &caller("user2", usei(200)),
        bet_msg,
        &answers(None, Some(10000)),
    )
    .unwrap();
    assert_eq!(
        response.messages,
        vec![TransferMsg::Cw20TransferFrom {
            token_addr: TOKEN.to_string(),
            owner: "user2".to_string(),
            recipient: POOL.to_string(),
            amount: 200,
        }]
    );

    let room_player = match query(
        &store,
        &default_env(),
        QueryMsg::GetPlayerInfosForRoom {
            room_id: 2,
            player: "user2".to_string(),
            start_after: Some(0),
            limit: None,
        },
        None,
    )
    .unwrap()
    {
        QueryResponse::Bets(b) => b,
        other => panic!("unexpected answer {:?}", other),
    };
    // the only wager of user2 in room 2 is of round 0, which the cursor leaves out
    assert!(room_player.bets_info.is_empty());
    assert_eq!(store.minimum_reserve, vec![400, 600]);
    assert!(store.is_well_formed());
}

#[test]
fn test_close_round() {
    let mut store = init_roulette_contract();
    init_two_rooms(&mut store);
    execute(
        &mut store,
        &env_at(0, 0),
        &caller("user1", usei(100)),
        ExecuteMsg::Bet { room_id: 1, bet_info: vec![bet(Direction::SecondOfThird, 100)] },
        &answers(None, Some(10100)),
    )
    .unwrap();
    execute(
        &mut store,
        &env_at(0, 100),
        &caller("user1", vec![]),
        ExecuteMsg::Bet { room_id: 2, bet_info: vec![bet(Direction::SecondOfThird, 200)] },
        &answers(None, Some(10000)),
    )
    .unwrap();

    let bet_info = match query(
        &store,
        &env_at(0, 121),
        QueryMsg::GetGameInfoForRound {
            round_id: 0,
            start_after: Some(RoundOffset { room_id: 1, player: "user1".to_string() }),
            limit: None,
        },
        None,
    )
    .unwrap()
    {
        QueryResponse::Bets(b) => b,
        other => panic!("unexpected answer {:?}", other),
    };
    assert_eq!(bet_info.bets_info.len(), 1);
    assert_eq!(bet_info.bets_info[0].room_id, 2);
    assert_eq!(bet_info.bets_info[0].player, "user1");

    let response = execute(
        &mut store,
        &env_at(0, 121),
        &caller("distributor", vec![]),
        ExecuteMsg::CloseRound {},
        &answers(None, None),
    )
    .unwrap();
    // the draw for this block and caller is 15: second of third wins three times the stake
    let keys: Vec<(&str, &str)> =
        response.attributes.iter().map(|a| (a.key.as_str(), a.value.as_str())).collect();
    assert_eq!(keys, vec![("action", "close_round"), ("winner", "15"), ("round_id", "0")]);
    assert_eq!(
        response.messages,
        vec![
            TransferMsg::BankSend {
                to_address: "user1".to_string(),
                denom: "usei".to_string(),
                amount: 300,
            },
            TransferMsg::Cw20Transfer {
                token_addr: TOKEN.to_string(),
                recipient: "user1".to_string(),
                amount: 600,
            },
        ]
    );
    assert_eq!(store.state.living_round, 1);
    assert_eq!(store.winner_number, vec![15]);
    assert_eq!(store.minimum_reserve, vec![0, 0]);
    assert!(store.is_well_formed());
}

#[test]
fn test_withdraw() {
    let mut store = init_roulette_contract();
    init_two_rooms(&mut store);
    execute(
        &mut store,
        &default_env(),
        &caller("user1", usei(100)),
        ExecuteMsg::Bet { room_id: 1, bet_info: vec![bet(Direction::SecondOfThird, 100)] },
        &answers(None, Some(10100)),
    )
    .unwrap();

    match query(
        &store,
        &default_env(),
        QueryMsg::GetMaximumWithdrawlFromRoom { room_id: 1 },
        Some(10100),
    )
    .unwrap()
    {
        QueryResponse::Withdraw(w) => assert_eq!(w.amount, 9800),
        other => panic!("unexpected answer {:?}", other),
    }

    let withdraw_msg = ExecuteMsg::WithdrawFromPool { room_id: 1, amount: 9000 };
    let wanted = lookups_for(&store, &withdraw_msg);
    assert_eq!(wanted.nft_id, Some("SEI".to_string()));
    assert_eq!(wanted.balance_of, Some(AssetInfo::NativeToken { denom: "usei".to_string() }));
    let response = execute(
        &mut store,
        &default_env(),
        &caller("sei_admin", vec![]),
        withdraw_msg,
        &answers(Some("sei_admin"), Some(10100)),
    )
    .unwrap();
    assert_eq!(
        response.messages,
        vec![TransferMsg::BankSend {
            to_address: "sei_admin".to_string(),
            denom: "usei".to_string(),
            amount: 9000,
        }]
    );
    let keys: Vec<(&str, &str)> =
        response.attributes.iter().map(|a| (a.key.as_str(), a.value.as_str())).collect();
    assert_eq!(keys, vec![("withdrawer", "sei_admin"), ("room_id", "1"), ("amount", "9000")]);

    match query(
        &store,
        &default_env(),
        QueryMsg::GetWinnerLists { start_after: None, limit: None },
        None,
    )
    .unwrap()
    {
        QueryResponse::WinnerList(w) => assert!(w.winner_list.is_empty()),
        other => panic!("unexpected answer {:?}", other),
    }
}

#[test]
fn test_deposit() {
    let mut store = init_roulette_contract();
    init_two_rooms(&mut store);
    let response = execute(
        &mut store,
        &default_env(),
        &caller("sei_admin", usei(100)),
        ExecuteMsg::Deposit { room_id: 1, amount: 100 },
        &answers(Some("sei_admin"), None),
    )
    .unwrap();
    assert!(response.messages.is_empty());
    let keys: Vec<(&str, &str)> =
        response.attributes.iter().map(|a| (a.key.as_str(), a.value.as_str())).collect();
    assert_eq!(keys, vec![("action", "deposit"), ("room_id", "1"), ("amount", "100")]);

    let response = execute(
        &mut store,
        &default_env(),
        &caller("test_admin", vec![]),
        ExecuteMsg::Deposit { room_id: 2, amount: 200 },
        &answers(Some("test_admin"), None),
    )
    .unwrap();
    assert_eq!(
        response.messages,
        vec![TransferMsg::Cw20TransferFrom {
            token_addr: TOKEN.to_string(),
            owner: "test_admin".to_string(),
            recipient: POOL.to_string(),
            amount: 200,
        }]
    );
    // a deposit lowers no reserve floor
    assert_eq!(store.minimum_reserve, vec![0, 0]);
}

#[test]
fn test_change_room_config() {
    let mut store = init_roulette_contract();
    init_two_rooms(&mut store);
    execute(
        &mut store,
        &default_env(),
        &caller("admin", vec![]),
        ExecuteMsg::ChangeRoomConfig {
            room_id: 1,
            room_name: "SEI_ROOM".to_string(),
            nft_id: "SEI_NFT".to_string(),
        },
        &answers(None, None),
    )
    .unwrap();
    match query(&store, &default_env(), QueryMsg::GetRoom { room_id: 1 }, None).unwrap() {
        QueryResponse::Room(r) => {
            assert_eq!(r.room.room_name, "SEI_ROOM");
            assert_eq!(r.room.nft_id, "SEI_NFT");
            assert_eq!(r.room.max_bet, 100000);
            assert_eq!(r.room.min_bet, 100);
            assert_eq!(r.room.game_denom, AssetInfo::NativeToken { denom: "usei".to_string() });
        },
        other => panic!("unexpected answer {:?}", other),
    }
}

#[test]
fn second_wager_of_a_player_in_a_room_and_round_is_refused() {
    let mut store = init_roulette_contract();
    init_two_rooms(&mut store);
    let legs = vec![bet(Direction::Row { id: 1 }, 100), bet(Direction::Column { id: 2 }, 100)];
    execute(
        &mut store,
        &env_at(1, 10),
        &caller("user1", usei(200)),
        ExecuteMsg::Bet { room_id: 1, bet_info: legs.clone() },
        &answers(None, Some(10200)),
    )
    .unwrap();
    let before = store.bets.records.len();
    let again = execute(
        &mut store,
        &env_at(1, 11),
        &caller("user1", usei(200)),
        ExecuteMsg::Bet { room_id: 1, bet_info: legs.clone() },
        &answers(None, Some(10400)),
    );
    assert_eq!(again, Err(ContractError::DuplicateWager));
    assert_eq!(store.bets.records.len(), before);
    // the same player may still wager in another room
    execute(
        &mut store,
        &env_at(1, 12),
        &caller("user1", vec![]),
        ExecuteMsg::Bet { room_id: 2, bet_info: legs },
        &answers(None, Some(10000)),
    )
    .unwrap();
    assert!(store.is_well_formed());
}

#[test]
fn close_round_waits_for_the_round_duration() {
    let mut store = init_roulette_contract();
    init_two_rooms(&mut store);
    let not_started = execute(
        &mut store,
        &env_at(1, 500),
        &caller("distributor", vec![]),
        ExecuteMsg::CloseRound {},
        &answers(None, None),
    );
    assert_eq!(not_started, Err(ContractError::RoundNotStarted));
    execute(
        &mut store,
        &env_at(1, 1000),
        &caller("user1", usei(100)),
        ExecuteMsg::Bet { room_id: 1, bet_info: vec![bet(Direction::Red, 100)] },
        &answers(None, Some(10100)),
    )
    .unwrap();
    let early = execute(
        &mut store,
        &env_at(2, 1010),
        &caller("distributor", vec![]),
        ExecuteMsg::CloseRound {},
        &answers(None, None),
    );
    assert_eq!(early, Err(ContractError::RoundNotFinished));
    assert_eq!(store.state.living_round, 0);
    let stranger = execute(
        &mut store,
        &env_at(3, 1121),
        &caller("user1", vec![]),
        ExecuteMsg::CloseRound {},
        &answers(None, None),
    );
    assert_eq!(stranger, Err(ContractError::Unauthorized));
    execute(
        &mut store,
        &env_at(3, 1121),
        &caller("distributor", vec![]),
        ExecuteMsg::CloseRound {},
        &answers(None, None),
    )
    .unwrap();
    assert_eq!(store.state.living_round, 1);
    // the boundary: exactly the duration is enough
    execute(
        &mut store,
        &env_at(4, 2000),
        &caller("user1", usei(100)),
        ExecuteMsg::Bet { room_id: 1, bet_info: vec![bet(Direction::Red, 100)] },
        &answers(None, Some(10100)),
    )
    .unwrap();
    execute(
        &mut store,
        &env_at(5, 2120),
        &caller("distributor", vec![]),
        ExecuteMsg::CloseRound {},
        &answers(None, None),
    )
    .unwrap();
    assert_eq!(store.state.living_round, 2);
    assert!(store.is_well_formed());
}

#[test]
fn wager_after_the_deadline_is_refused() {
    let mut store = init_roulette_contract();
    init_two_rooms(&mut store);
    execute(
        &mut store,
        &env_at(1, 1000),
        &caller("user1", usei(100)),
        ExecuteMsg::Bet { room_id: 1, bet_info: vec![bet(Direction::Red, 100)] },
        &answers(None, Some(10100)),
    )
    .unwrap();
    // at the deadline a wager is still taken
    execute(
        &mut store,
        &env_at(1, 1120),
        &caller("user2", usei(100)),
        ExecuteMsg::Bet { room_id: 1, bet_info: vec![bet(Direction::Red, 100)] },
        &answers(None, Some(10200)),
    )
    .unwrap();
    let late = execute(
        &mut store,
        &env_at(1, 1121),
        &caller("user3", usei(100)),
        ExecuteMsg::Bet { room_id: 1, bet_info: vec![bet(Direction::Red, 100)] },
        &answers(None, Some(10300)),
    );
    assert_eq!(late, Err(ContractError::RoundFinished));
}

#[test]
fn withdrawal_is_bound_by_the_reserve_floor() {
    let mut store = init_roulette_contract();
    init_two_rooms(&mut store);
    execute(
        &mut store,
        &default_env(),
        &caller("user1", usei(400)),
        ExecuteMsg::Bet { room_id: 1, bet_info: vec![bet(Direction::Red, 400)] },
        &answers(None, Some(1000)),
    )
    .unwrap();
    assert_eq!(store.minimum_reserve[0], 800);
    let too_much = execute(
        &mut store,
        &default_env(),
        &caller("sei_admin", vec![]),
        ExecuteMsg::WithdrawFromPool { room_id: 1, amount: 801 },
        &answers(Some("sei_admin"), Some(1600)),
    );
    assert_eq!(
        too_much,
        Err(ContractError::WithdrawalExceedsAvailable { requested: 801, available: 800 })
    );
    execute(
        &mut store,
        &default_env(),
        &caller("sei_admin", vec![]),
        ExecuteMsg::WithdrawFromPool { room_id: 1, amount: 800 },
        &answers(Some("sei_admin"), Some(1600)),
    )
    .unwrap();
    // a pool that holds less than the floor can spare nothing
    let nothing = execute(
        &mut store,
        &default_env(),
        &caller("sei_admin", vec![]),
        ExecuteMsg::WithdrawFromPool { room_id: 1, amount: 1 },
        &answers(Some("sei_admin"), Some(700)),
    );
    assert_eq!(
        nothing,
        Err(ContractError::WithdrawalExceedsAvailable { requested: 1, available: 0 })
    );
    let stranger = execute(
        &mut store,
        &default_env(),
        &caller("user1", vec![]),
        ExecuteMsg::WithdrawFromPool { room_id: 1, amount: 1 },
        &answers(Some("sei_admin"), Some(1600)),
    );
    assert_eq!(stranger, Err(ContractError::Unauthorized));
    let unknown = execute(
        &mut store,
        &default_env(),
        &caller("sei_admin", vec![]),
        ExecuteMsg::WithdrawFromPool { room_id: 1, amount: 1 },
        &answers(None, Some(1600)),
    );
    assert_eq!(unknown, Err(ContractError::QueryFailed));
    let no_room = execute(
        &mut store,
        &default_env(),
        &caller("sei_admin", vec![]),
        ExecuteMsg::WithdrawFromPool { room_id: 3, amount: 1 },
        &answers(Some("sei_admin"), Some(1600)),
    );
    assert_eq!(no_room, Err(ContractError::RoomNotFound { room_id: 3 }));
}

#[test]
fn wagers_are_refused_for_each_reason_in_turn() {
    let mut store = init_roulette_contract();
    init_two_rooms(&mut store);
    let env = env_at(1, 1000);
    let try_bet = |store: &mut Store, sender: &str, room_id: u64, legs: Vec<BetConfig>, funds: Vec<Coin>, balance: Option<u128>| {
        execute(
            store,
            &env,
            &caller(sender, funds),
            ExecuteMsg::Bet { room_id, bet_info: legs },
            &answers(None, balance),
        )
    };
    assert_eq!(
        try_bet(&mut store, "user1", 9, vec![bet(Direction::Red, 100)], usei(100), Some(1000)),
        Err(ContractError::RoomNotFound { room_id: 9 })
    );
    assert_eq!(
        try_bet(&mut store, "user1", 1, vec![bet(Direction::Row { id: 4 }, 100)], usei(100), Some(1000)),
        Err(ContractError::InvalidSelection)
    );
    assert_eq!(
        try_bet(&mut store, "user1", 1, vec![bet(Direction::Column { id: 0 }, 100)], usei(100), Some(1000)),
        Err(ContractError::InvalidSelection)
    );
    assert_eq!(
        try_bet(&mut store, "user1", 1, vec![bet(Direction::Single { id: 37 }, 100)], usei(100), Some(1000)),
        Err(ContractError::InvalidSelection)
    );
    assert_eq!(
        try_bet(&mut store, "user1", 1, vec![bet(Direction::Red, u128::MAX), bet(Direction::Odd, 1)], usei(100), Some(1000)),
        Err(ContractError::Overflow)
    );
    // eighteen and two make twenty points, one more than allowed
    assert_eq!(
        try_bet(
            &mut store,
            "user1",
            1,
            vec![bet(Direction::Red, 100), bet(Direction::Zero, 50), bet(Direction::DoubleZero, 50)],
            usei(200),
            Some(100000)
        ),
        Err(ContractError::ExceedBetPoints)
    );
    assert_eq!(
        try_bet(&mut store, "user1", 1, vec![bet(Direction::Red, 99)], usei(99), Some(1000)),
        Err(ContractError::BetOutOfLimits { min_bet: 100, max_bet: 100000 })
    );
    assert_eq!(
        try_bet(&mut store, "user1", 1, vec![bet(Direction::Red, 100001)], usei(100001), Some(1000000)),
        Err(ContractError::BetOutOfLimits { min_bet: 100, max_bet: 100000 })
    );
    assert_eq!(
        try_bet(&mut store, "user1", 1, vec![bet(Direction::Red, 100)], usei(99), Some(1000)),
        Err(ContractError::InsufficientFunds)
    );
    assert_eq!(
        try_bet(&mut store, "user1", 1, vec![bet(Direction::Red, 100)], vec![], Some(1000)),
        Err(ContractError::InsufficientFunds)
    );
    assert_eq!(
        try_bet(&mut store, "user1", 1, vec![bet(Direction::Red, 100)], usei(100), None),
        Err(ContractError::QueryFailed)
    );
    assert_eq!(
        try_bet(&mut store, "user1", 1, vec![bet(Direction::Single { id: 7 }, 100)], usei(100), Some(3599)),
        Err(ContractError::InsufficientPoolCoverage { held: 3599, number: 7, worst_case: 3600 })
    );
    // nineteen points are allowed, and funds in two coins of the room's denomination add up
    let funds = vec![
        Coin { denom: "usei".to_string(), amount: 60 },
        Coin { denom: "uatom".to_string(), amount: 5 },
        Coin { denom: "usei".to_string(), amount: 90 },
    ];
    try_bet(
        &mut store,
        "user1",
        1,
        vec![bet(Direction::Red, 100), bet(Direction::Zero, 50)],
        funds,
        Some(3600),
    )
    .unwrap();
    assert!(store.bets.records.len() == 1);
    assert_eq!(store.minimum_reserve[0], 1800);
    assert!(store.is_well_formed());
}

#[test]
fn only_the_admin_changes_the_configuration_and_the_rooms() {
    let mut store = init_roulette_contract();
    let config = Config {
        admin: "admin".to_string(),
        nft_contract: "nft".to_string(),
        next_round_seconds: 60,
        distributor: "distributor".to_string(),
        platform_fee: Decimal { atomics: 1_000_000_000_000_000_001 },
    };
    let stranger = execute(
        &mut store,
        &default_env(),
        &caller("user1", vec![]),
        ExecuteMsg::UpdateConfig { config: config.clone() },
        &answers(None, None),
    );
    assert_eq!(stranger, Err(ContractError::Unauthorized));
    let too_high = execute(
        &mut store,
        &default_env(),
        &caller("admin", vec![]),
        ExecuteMsg::UpdateConfig { config },
        &answers(None, None),
    );
    assert_eq!(too_high, Err(ContractError::InvalidPlatformFee));
    assert_eq!(store.config.next_round_seconds, 120);
    let room = RoomConfig {
        room_name: "SEI".to_string(),
        game_denom: AssetInfo::NativeToken { denom: "usei".to_string() },
        nft_id: "SEI".to_string(),
        max_bet: 100000,
        min_bet: 100,
    };
    let stranger = execute(
        &mut store,
        &default_env(),
        &caller("user1", vec![]),
        ExecuteMsg::AddRoom { room_info: room.clone() },
        &answers(Some("sei_admin"), None),
    );
    assert_eq!(stranger, Err(ContractError::Unauthorized));
    let unknown = execute(
        &mut store,
        &default_env(),
        &caller("admin", vec![]),
        ExecuteMsg::AddRoom { room_info: room },
        &answers(None, None),
    );
    assert_eq!(unknown, Err(ContractError::QueryFailed));
    assert_eq!(store.state.room_id, 0);
    let no_room = execute(
        &mut store,
        &default_env(),
        &caller("admin", vec![]),
        ExecuteMsg::ChangeRoomConfig {
            room_id: 1,
            room_name: "A".to_string(),
            nft_id: "B".to_string(),
        },
        &answers(None, None),
    );
    assert_eq!(no_room, Err(ContractError::RoomNotFound { room_id: 1 }));
    let bad_fee = instantiate(InstantiateMsg {
        config: Config {
            admin: "admin".to_string(),
            nft_contract: "nft".to_string(),
            next_round_seconds: 60,
            distributor: "distributor".to_string(),
            platform_fee: Decimal { atomics: 2_000_000_000_000_000_000 },
        },
    });
    assert_eq!(bad_fee.err(), Some(ContractError::InvalidPlatformFee));
}

#[test]
fn the_owner_sets_the_limits_of_a_room() {
    let mut store = init_roulette_contract();
    init_two_rooms(&mut store);
    let stranger = execute(
        &mut store,
        &default_env(),
        &caller("admin", vec![]),
        ExecuteMsg::UpdateBetLimit { room_id: 2, max_bet: 500, min_bet: 5 },
        &answers(Some("test_admin"), None),
    );
    assert_eq!(stranger, Err(ContractError::Unauthorized));
    let response = execute(
        &mut store,
        &default_env(),
        &caller("test_admin", vec![]),
        ExecuteMsg::UpdateBetLimit { room_id: 2, max_bet: 500, min_bet: 5 },
        &answers(Some("test_admin"), None),
    )
    .unwrap();
    let keys: Vec<(&str, &str)> =
        response.attributes.iter().map(|a| (a.key.as_str(), a.value.as_str())).collect();
    assert_eq!(
        keys,
        vec![("action", "room_update"), ("room_id", "2"), ("max_bet", "500"), ("min_bet", "5")]
    );
    assert_eq!(store.rooms[1].max_bet, 500);
    assert_eq!(store.rooms[1].min_bet, 5);
    assert_eq!(store.rooms[0].max_bet, 100000);
}

#[test]
fn migration_passes_for_the_same_name_and_version_only() {
    let mut store = init_roulette_contract();
    let response = migrate(&store, MigrateMsg {}).unwrap();
    assert_eq!(response.attributes[0].value, "migrate_contract");
    store.version.version = "0.0.9".to_string();
    assert_eq!(migrate(&store, MigrateMsg {}), Err(ContractError::CannotMigrate));
    store.version.version = "0.1.0".to_string();
    store.version.contract = "another".to_string();
    assert_eq!(migrate(&store, MigrateMsg {}), Err(ContractError::CannotMigrate));
}

#[test]
fn settlement_pays_each_winner_once_and_the_fee_to_the_admin() {
    let mut store = init_roulette_contract();
    init_two_rooms(&mut store);
    // the draw at height 0, second 121, by the distributor is 15: third row, fifth column
    execute(
        &mut store,
        &env_at(0, 0),
        &caller("bob", usei(150)),
        ExecuteMsg::Bet {
            room_id: 1,
            bet_info: vec![bet(Direction::Row { id: 3 }, 100), bet(Direction::Column { id: 5 }, 50)],
        },
        &answers(None, Some(10000)),
    )
    .unwrap();
    execute(
        &mut store,
        &env_at(0, 1),
        &caller("alice", usei(1000)),
        ExecuteMsg::Bet { room_id: 1, bet_info: vec![bet(Direction::Even, 1000)] },
        &answers(None, Some(10000)),
    )
    .unwrap();
    execute(
        &mut store,
        &env_at(0, 2),
        &caller("carol", usei(100)),
        ExecuteMsg::Bet { room_id: 1, bet_info: vec![bet(Direction::Single { id: 15 }, 100)] },
        &answers(None, Some(10000)),
    )
    .unwrap();
    let response = execute(
        &mut store,
        &env_at(0, 121),
        &caller("distributor", vec![]),
        ExecuteMsg::CloseRound {},
        &answers(None, None),
    )
    .unwrap();
    // staked 1250, paid 900 + 3600: the house keeps nothing, so no fee;
    // the rewards come in the order of the players' names, alice winning nothing
    assert_eq!(
        response.messages,
        vec![
            TransferMsg::BankSend {
                to_address: "bob".to_string(),
                denom: "usei".to_string(),
                amount: 900,
            },
            TransferMsg::BankSend {
                to_address: "carol".to_string(),
                denom: "usei".to_string(),
                amount: 3600,
            },
        ]
    );
    match query(&store, &env_at(0, 121), QueryMsg::GetWinnerRound { round_id: 0 }, None).unwrap() {
        QueryResponse::Winner(w) => assert_eq!(w.winner, Winner { winner: 15, round_id: 0 }),
        other => panic!("unexpected answer {:?}", other),
    }
    match query(&store, &env_at(0, 121), QueryMsg::GetWinnerRound { round_id: 1 }, None).unwrap() {
        QueryResponse::Winner(w) => assert_eq!(w.winner, Winner { winner: 40, round_id: 1 }),
        other => panic!("unexpected answer {:?}", other),
    }
    // next round: only a loser, the platform takes 40% of what the house keeps
    execute(
        &mut store,
        &env_at(0, 200),
        &caller("alice", usei(1001)),
        ExecuteMsg::Bet { room_id: 1, bet_info: vec![bet(Direction::Zero, 1001)] },
        &answers(None, Some(100000)),
    )
    .unwrap();
    // whatever is drawn, zero pays only on 0
    let response = execute(
        &mut store,
        &env_at(0, 320),
        &caller("distributor", vec![]),
        ExecuteMsg::CloseRound {},
        &answers(None, None),
    )
    .unwrap();
    let winner = store.winner_number[1];
    if winner != 0 {
        assert_eq!(
            response.messages,
            vec![TransferMsg::BankSend {
                to_address: "admin".to_string(),
                denom: "usei".to_string(),
                amount: 400,
            }]
        );
    }
    assert!(store.is_well_formed());
}

#[test]
fn all_state_tells_the_time_and_the_opening_of_the_round() {
    let mut store = init_roulette_contract();
    init_two_rooms(&mut store);
    match query(&store, &env_at(0, 77), QueryMsg::AllState {}, None).unwrap() {
        QueryResponse::AllState(a) => {
            assert_eq!(a.crr_time, 77);
            assert_eq!(a.round_start_second, 0);
            assert_eq!(a.state.room_id, 2);
        },
        other => panic!("unexpected answer {:?}", other),
    }
    execute(
        &mut store,
        &env_at(0, 50),
        &caller("user1", usei(100)),
        ExecuteMsg::Bet { room_id: 1, bet_info: vec![bet(Direction::Red, 100)] },
        &answers(None, Some(10100)),
    )
    .unwrap();
    match query(&store, &env_at(0, 77), QueryMsg::AllState {}, None).unwrap() {
        QueryResponse::AllState(a) => assert_eq!(a.round_start_second, 50),
        other => panic!("unexpected answer {:?}", other),
    }
    match query(&store, &env_at(0, 77), QueryMsg::State {}, None).unwrap() {
        QueryResponse::State(s) => assert_eq!(s.state, store.state),
        other => panic!("unexpected answer {:?}", other),
    }
    match query(&store, &env_at(0, 77), QueryMsg::GetMaximumWithdrawlFromRoom { room_id: 7 }, None)
        .unwrap()
    {
        QueryResponse::Withdraw(w) => assert_eq!(w.amount, 0),
        other => panic!("unexpected answer {:?}", other),
    }
    assert_eq!(
        query(&store, &env_at(0, 77), QueryMsg::GetMaximumWithdrawlFromRoom { room_id: 1 }, None),
        Err(ContractError::QueryFailed)
    );
    assert_eq!(
        query(&store, &env_at(0, 77), QueryMsg::GetRoom { room_id: 3 }, None),
        Err(ContractError::RoomNotFound { room_id: 3 })
    );
}

#[test]
fn a_state_that_breaks_the_invariant_is_told_apart() {
    let mut store = init_roulette_contract();
    init_two_rooms(&mut store);
    execute(
        &mut store,
        &env_at(0, 50),
        &caller("user1", usei(100)),
        ExecuteMsg::Bet { room_id: 1, bet_info: vec![bet(Direction::Red, 100)] },
        &answers(None, Some(10100)),
    )
    .unwrap();
    assert!(store.is_well_formed());
    store.minimum_reserve[0] = 199;
    assert!(!store.is_well_formed());
    store.minimum_reserve[0] = 200;
    assert!(store.is_well_formed());
    store.state.room_id = 3;
    assert!(!store.is_well_formed());
    store.state.room_id = 2;
    store.winner_number.push(5);
    assert!(!store.is_well_formed());
}

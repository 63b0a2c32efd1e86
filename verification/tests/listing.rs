use roulette_game::env::{BlockInfo, ContractInfo, Env, MessageInfo, Timestamp};
use roulette_game::execute::{execute, instantiate, HostAnswers};
use roulette_game::listing::{ascending_page, decimal_before, descending_page, effective_limit};
use roulette_game::msg::{ExecuteMsg, InstantiateMsg, QueryMsg};
use roulette_game::query::{query, QueryResponse};
use roulette_game::state::{AssetInfo, Config, Decimal, RoomConfig};
use roulette_game::store::Store;

fn env() -> Env {
    Env {
        block: BlockInfo { height: 1, time: Timestamp { nanos: 0 }, chain_id: "c".to_string() },
        contract: ContractInfo { address: "roulette".to_string() },
    }
}

fn pool_with_rooms(count: u64) -> Store {
    let (mut store, _) = instantiate(InstantiateMsg {
        config: Config {
            admin: "admin".to_string(),
            nft_contract: "nft".to_string(),
            next_round_seconds: 120,
            distributor: "distributor".to_string(),
            platform_fee: Decimal::percent(40),
        },
    })
    .unwrap();
    for id in 1..=count {
        execute(
            &mut store,
            &env(),
            &MessageInfo { sender: "admin".to_string(), funds: vec![] },
            ExecuteMsg::AddRoom {
                room_info: RoomConfig {
                    room_name: format!("room{}", id),
                    game_denom: AssetInfo::NativeToken { denom: "usei".to_string() },
                    nft_id: format!("nft{}", id),
                    max_bet: 1000,
                    min_bet: 1,
                },
            },
            &HostAnswers { nft_owner: Some("owner".to_string()), balance: None },
        )
        .unwrap();
    }
    store
}

fn room_names(store: &Store, start_after: Option<u64>, limit: Option<u32>) -> Vec<String> {
    match query(store, &env(), QueryMsg::GetRooms { start_after, limit }, None).unwrap() {
        QueryResponse::Rooms(r) => r.rooms.into_iter().map(|r| r.room_name).collect(),
        other => panic!("unexpected answer {:?}", other),
    }
}

#[test]
fn the_limit_defaults_to_ten_and_stops_at_thirty() {
    assert_eq!(effective_limit(None), 10);
    assert_eq!(effective_limit(Some(0)), 0);
    assert_eq!(effective_limit(Some(29)), 29);
    assert_eq!(effective_limit(Some(30)), 30);
    assert_eq!(effective_limit(Some(31)), 30);
    assert_eq!(effective_limit(Some(u32::MAX)), 30);
}

#[test]
fn ids_are_ordered_by_their_decimal_texts() {
    assert!(decimal_before(10, 2));
    assert!(!decimal_before(2, 10));
    assert!(decimal_before(1, 10));
    assert!(!decimal_before(7, 7));
    assert_eq!(ascending_page(1, 12, None, 30), vec![1, 10, 11, 12, 2, 3, 4, 5, 6, 7, 8, 9]);
    assert_eq!(ascending_page(1, 12, Some(12), 3), vec![2, 3, 4]);
    assert_eq!(ascending_page(1, 12, Some(9), 3), Vec::<u64>::new());
    assert_eq!(ascending_page(1, 0, None, 3), Vec::<u64>::new());
    assert_eq!(descending_page(0, 12, None, 30), vec![9, 8, 7, 6, 5, 4, 3, 2, 11, 10, 1, 0]);
    assert_eq!(descending_page(0, 12, Some(2), 4), vec![9, 8, 7, 6]);
    assert_eq!(descending_page(0, 12, Some(10), 30), vec![9, 8, 7, 6, 5, 4, 3, 2, 11]);
}

#[test]
fn rooms_are_listed_in_pages() {
    let store = pool_with_rooms(12);
    assert_eq!(
        room_names(&store, None, None),
        vec![
            "room1", "room10", "room11", "room12", "room2", "room3", "room4", "room5", "room6",
            "room7"
        ]
    );
    assert_eq!(room_names(&store, Some(7), None), vec!["room8", "room9"]);
    assert_eq!(room_names(&store, Some(1), Some(2)), vec!["room10", "room11"]);
    assert_eq!(room_names(&store, None, Some(100)).len(), 12);
}

#[test]
fn winners_are_listed_from_the_last_text_down() {
    let mut store = pool_with_rooms(1);
    for round in 0..11u32 {
        store.winner_number.push(round % 38);
        store.round_start_second.push(round as u64);
        store.state.living_round += 1;
    }
    assert!(store.is_well_formed());
    let list = match query(
        &store,
        &env(),
        QueryMsg::GetWinnerLists { start_after: None, limit: Some(4) },
        None,
    )
    .unwrap()
    {
        QueryResponse::WinnerList(w) => w.winner_list,
        other => panic!("unexpected answer {:?}", other),
    };
    let rounds: Vec<(u64, u32)> = list.iter().map(|w| (w.round_id, w.winner)).collect();
    assert_eq!(rounds, vec![(9, 9), (8, 8), (7, 7), (6, 6)]);
    let list = match query(
        &store,
        &env(),
        QueryMsg::GetWinnerLists { start_after: Some(8), limit: None },
        None,
    )
    .unwrap()
    {
        QueryResponse::WinnerList(w) => w.winner_list,
        other => panic!("unexpected answer {:?}", other),
    };
    let rounds: Vec<u64> = list.iter().map(|w| w.round_id).collect();
    assert_eq!(rounds, vec![9]);
}

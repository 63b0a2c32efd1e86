use roulette_game::error::ContractError;
use roulette_game::ledger::Ledger;
use roulette_game::msg::{BetConfig, Direction};
use roulette_game::state::{bet_info_key, BetInfo};
use roulette_game::text::{bytes_side, text_side, u128_to_string, u64_to_string, Side};

fn wager(room_id: u64, round_id: u64, player: &str) -> BetInfo {
    BetInfo {
        player: player.to_string(),
        round_id,
        room_id,
        bet_info: vec![
            BetConfig { direction: Direction::Odd, amount: 100 },
            BetConfig { direction: Direction::FirstHalf, amount: 100 },
        ],
        bet_time: 5,
    }
}

fn players(found: &[BetInfo]) -> Vec<(u64, u64, String)> {
    found.iter().map(|w| (w.room_id, w.round_id, w.player.clone())).collect()
}

#[test]
fn a_second_wager_for_the_same_room_round_and_player_is_a_duplicate() {
    let mut ledger = Ledger::new();
    assert_eq!(ledger.insert(wager(1, 0, "player")), Ok(()));
    assert_eq!(ledger.insert(wager(1, 0, "player")), Err(ContractError::DuplicateWager));
    assert_eq!(ledger.len(), 1);
    // another room, round or player is another wager
    assert_eq!(ledger.insert(wager(2, 0, "player")), Ok(()));
    assert_eq!(ledger.insert(wager(1, 1, "player")), Ok(()));
    assert_eq!(ledger.insert(wager(1, 0, "player2")), Ok(()));
    assert_eq!(ledger.len(), 4);
    assert!(ledger.is_ascending());
    assert_eq!(ledger.may_load(1, 0, "player"), Some(wager(1, 0, "player")));
    assert_eq!(ledger.may_load(1, 2, "player"), None);
    assert_eq!(bet_info_key(1, 0, &"player".to_string()), (1, 0, "player".to_string()));
}

#[test]
fn a_scan_of_a_room_and_round_ascends_by_player() {
    let mut ledger = Ledger::new();
    for (room, round, player) in [
        (1, 0, "zoe"),
        (1, 0, "adam"),
        (2, 0, "bob"),
        (1, 1, "carl"),
        (1, 0, "Zed"),
        (1, 0, "ad"),
        (1, 0, "bob"),
    ] {
        ledger.insert(wager(room, round, player)).unwrap();
    }
    let found = ledger.scan(1, 0);
    let names: Vec<&str> = found.iter().map(|w| w.player.as_str()).collect();
    assert_eq!(names, vec!["Zed", "ad", "adam", "bob", "zoe"]);
    assert!(ledger.scan(3, 0).is_empty());
    assert_eq!(players(&ledger.scan(2, 0)), vec![(2, 0, "bob".to_string())]);

    let page = ledger.page_of_room_round(1, 0, Some("ad"), 2);
    let names: Vec<&str> = page.iter().map(|w| w.player.as_str()).collect();
    assert_eq!(names, vec!["adam", "bob"]);
    let page = ledger.page_of_room_round(1, 0, Some("bob"), 30);
    let names: Vec<&str> = page.iter().map(|w| w.player.as_str()).collect();
    assert_eq!(names, vec!["zoe"]);
    assert!(ledger.page_of_room_round(1, 0, None, 0).is_empty());
}

#[test]
fn a_scan_by_player_ascends_by_round() {
    let mut ledger = Ledger::new();
    for round in [10u64, 2, 9, 1, 100] {
        ledger.insert(wager(1, round, "bob")).unwrap();
        ledger.insert(wager(2, round, "bob")).unwrap();
        ledger.insert(wager(1, round, "eve")).unwrap();
    }
    let rounds: Vec<u64> = ledger.scan_by_player(1, "bob").iter().map(|w| w.round_id).collect();
    assert_eq!(rounds, vec![1, 2, 9, 10, 100]);
    let rounds: Vec<u64> =
        ledger.page_of_room_player(1, "bob", Some(2), 2).iter().map(|w| w.round_id).collect();
    assert_eq!(rounds, vec![9, 10]);
    let found = ledger.page_of_round(9, Some((1, "bob")), 10);
    assert_eq!(
        players(&found),
        vec![(1, 9, "eve".to_string()), (2, 9, "bob".to_string())]
    );
    let found = ledger.page_of_round(9, None, 1);
    assert_eq!(players(&found), vec![(1, 9, "bob".to_string())]);
}

#[test]
fn texts_are_ordered_byte_wise() {
    assert_eq!(text_side("a", "b"), Side::Before);
    assert_eq!(text_side("b", "a"), Side::After);
    assert_eq!(text_side("abc", "abc"), Side::Same);
    assert_eq!(text_side("ab", "abc"), Side::Before);
    assert_eq!(text_side("", "a"), Side::Before);
    assert_eq!(text_side("", ""), Side::Same);
    assert_eq!(text_side("Z", "a"), Side::Before);
    assert_eq!(text_side("10", "2"), Side::Before);
    assert_eq!(bytes_side(&[1, 2, 255], &[1, 3]), Side::Before);
    assert_eq!(bytes_side(&[200], &[100, 1]), Side::After);
}

#[test]
fn numbers_are_written_in_decimal_digits() {
    assert_eq!(u128_to_string(0), "0");
    assert_eq!(u128_to_string(7), "7");
    assert_eq!(u128_to_string(10), "10");
    assert_eq!(u128_to_string(1440), "1440");
    assert_eq!(u128_to_string(1234567890), "1234567890");
    assert_eq!(u128_to_string(u128::MAX), "340282366920938463463374607431768211455");
    assert_eq!(u64_to_string(u64::MAX), "18446744073709551615");
}

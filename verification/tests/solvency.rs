use roulette_game::error::ContractError;
use roulette_game::msg::{BetConfig, Direction};
use roulette_game::settlement::{settle_room, wager_reward};
use roulette_game::solvency::{max_withdrawable, validate_maximum_reward_exceed};
use roulette_game::response::TransferMsg;
use roulette_game::state::{AssetInfo, BetInfo, Decimal};

fn leg(direction: Direction, amount: u128) -> BetConfig {
    BetConfig { direction, amount }
}

fn wager(player: &str, legs: Vec<BetConfig>) -> BetInfo {
    BetInfo { player: player.to_string(), round_id: 0, room_id: 1, bet_info: legs, bet_time: 0 }
}

#[test]
fn a_single_number_that_the_pool_cannot_cover_is_rejected() {
    let r = validate_maximum_reward_exceed(
        &vec![],
        &vec![leg(Direction::Single { id: 7 }, 40)],
        1000,
        0,
    );
    assert_eq!(
        r,
        Err(ContractError::InsufficientPoolCoverage { held: 1000, number: 7, worst_case: 1440 })
    );
}

#[test]
fn red_within_the_pool_is_accepted_and_raises_the_floor() {
    let r = validate_maximum_reward_exceed(&vec![], &vec![leg(Direction::Red, 400)], 1000, 0);
    assert_eq!(r, Ok(800));
    // a higher floor stays
    let r = validate_maximum_reward_exceed(&vec![], &vec![leg(Direction::Red, 400)], 1000, 900);
    assert_eq!(r, Ok(900));
    // the boundary: a worst case of exactly what the pool holds is covered
    let r = validate_maximum_reward_exceed(&vec![], &vec![leg(Direction::Red, 500)], 1000, 0);
    assert_eq!(r, Ok(1000));
    let r = validate_maximum_reward_exceed(&vec![], &vec![leg(Direction::Red, 501)], 1000, 0);
    assert_eq!(
        r,
        Err(ContractError::InsufficientPoolCoverage { held: 1000, number: 1, worst_case: 1002 })
    );
}

#[test]
fn the_worst_number_is_weighed_over_all_wagers() {
    let accepted = vec![
        wager("a", vec![leg(Direction::Red, 100)]),
        wager("b", vec![leg(Direction::Odd, 100), leg(Direction::Single { id: 2 }, 1)]),
    ];
    // on 1 both red and odd pay: 200 + 200; the candidate adds 3 * 100 on the first third
    let r = validate_maximum_reward_exceed(
        &accepted,
        &vec![leg(Direction::FirstOfThird, 100)],
        700,
        0,
    );
    assert_eq!(r, Ok(700));
    let r = validate_maximum_reward_exceed(
        &accepted,
        &vec![leg(Direction::FirstOfThird, 100)],
        699,
        0,
    );
    assert_eq!(
        r,
        Err(ContractError::InsufficientPoolCoverage { held: 699, number: 1, worst_case: 700 })
    );
    // wagers on different numbers do not add up
    let r = validate_maximum_reward_exceed(
        &vec![wager("a", vec![leg(Direction::Zero, 10)])],
        &vec![leg(Direction::DoubleZero, 10)],
        360,
        0,
    );
    assert_eq!(r, Ok(360));
}

#[test]
fn sums_beyond_the_range_are_rejected_not_wrapped() {
    let r = validate_maximum_reward_exceed(
        &vec![wager("a", vec![leg(Direction::Red, u128::MAX / 2)])],
        &vec![leg(Direction::Red, u128::MAX / 2)],
        u128::MAX,
        0,
    );
    assert_eq!(
        r,
        Err(ContractError::InsufficientPoolCoverage {
            held: u128::MAX,
            number: 1,
            worst_case: u128::MAX
        })
    );
    let r = validate_maximum_reward_exceed(
        &vec![],
        &vec![leg(Direction::Row { id: 9 }, 1)],
        u128::MAX,
        0,
    );
    assert_eq!(r, Err(ContractError::InvalidSelection));
    let r = validate_maximum_reward_exceed(
        &vec![wager("a", vec![leg(Direction::Single { id: 0 }, 1)])],
        &vec![],
        u128::MAX,
        0,
    );
    assert_eq!(r, Err(ContractError::InvalidSelection));
}

#[test]
fn what_can_be_withdrawn_saturates_at_zero() {
    assert_eq!(max_withdrawable(1000, 800), 200);
    assert_eq!(max_withdrawable(800, 800), 0);
    assert_eq!(max_withdrawable(700, 800), 0);
    assert_eq!(max_withdrawable(u128::MAX, 0), u128::MAX);
}

#[test]
fn seventeen_pays_odd_and_first_half() {
    let legs = vec![leg(Direction::Odd, 100), leg(Direction::FirstHalf, 50)];
    assert_eq!(wager_reward(&legs, 17), (300, 150));
    assert_eq!(wager_reward(&legs, 18), (100, 150));
    assert_eq!(wager_reward(&legs, 20), (0, 150));
    assert_eq!(wager_reward(&legs, 0), (0, 150));
    let mut out = Vec::new();
    settle_room(
        &AssetInfo::NativeToken { denom: "usei".to_string() },
        "admin",
        Decimal::percent(40),
        &vec![wager("player", legs)],
        17,
        &mut out,
    );
    assert_eq!(
        out,
        vec![TransferMsg::BankSend {
            to_address: "player".to_string(),
            denom: "usei".to_string(),
            amount: 300,
        }]
    );
}

#[test]
fn the_fee_is_a_part_of_what_the_house_keeps() {
    let wagers = vec![
        wager("a", vec![leg(Direction::Red, 1000)]),
        wager("b", vec![leg(Direction::Single { id: 4 }, 10), leg(Direction::Black, 500)]),
        wager("c", vec![leg(Direction::Zero, 7)]),
    ];
    // on 4 (black): b wins 360 + 1000; staked 1517; the house keeps 157; 40% of it is 62.8
    let mut out = Vec::new();
    settle_room(
        &AssetInfo::Token { contract_addr: "token".to_string() },
        "admin",
        Decimal::from_ratio(40, 100),
        &wagers,
        4,
        &mut out,
    );
    assert_eq!(
        out,
        vec![
            TransferMsg::Cw20Transfer {
                token_addr: "token".to_string(),
                recipient: "b".to_string(),
                amount: 1360,
            },
            TransferMsg::Cw20Transfer {
                token_addr: "token".to_string(),
                recipient: "admin".to_string(),
                amount: 62,
            },
        ]
    );
    // on 37 nobody wins: the fee is 40% of 1517, rounded down
    let mut out = Vec::new();
    settle_room(
        &AssetInfo::Token { contract_addr: "token".to_string() },
        "admin",
        Decimal::from_ratio(40, 100),
        &wagers,
        37,
        &mut out,
    );
    assert_eq!(
        out,
        vec![TransferMsg::Cw20Transfer {
            token_addr: "token".to_string(),
            recipient: "admin".to_string(),
            amount: 606,
        }]
    );
    // a fee of zero sends nothing, a fee of the whole sends all that the house keeps
    let mut out = Vec::new();
    settle_room(
        &AssetInfo::Token { contract_addr: "token".to_string() },
        "admin",
        Decimal::zero(),
        &wagers,
        37,
        &mut out,
    );
    assert!(out.is_empty());
    let mut out = Vec::new();
    settle_room(
        &AssetInfo::Token { contract_addr: "token".to_string() },
        "admin",
        Decimal::one(),
        &wagers,
        37,
        &mut out,
    );
    assert_eq!(out.len(), 1);
    assert_eq!(
        out[0],
        TransferMsg::Cw20Transfer {
            token_addr: "token".to_string(),
            recipient: "admin".to_string(),
            amount: 1517,
        }
    );
    // sums near the top of the range go through the fee without loss
    let mut out = Vec::new();
    settle_room(
        &AssetInfo::Token { contract_addr: "token".to_string() },
        "admin",
        Decimal { atomics: 999_999_999_999_999_999 },
        &vec![wager("a", vec![leg(Direction::Zero, u128::MAX)])],
        1,
        &mut out,
    );
    assert_eq!(
        out[0],
        TransferMsg::Cw20Transfer {
            token_addr: "token".to_string(),
            recipient: "admin".to_string(),
            amount: 340282366920938463123092240510829747991,
        }
    );
}

#[test]
fn the_sum_of_the_rewards_is_what_the_winning_legs_pay() {
    let wagers = vec![
        wager("a", vec![leg(Direction::Red, 1000), leg(Direction::Zero, 3)]),
        wager("b", vec![leg(Direction::Single { id: 4 }, 10), leg(Direction::Black, 500)]),
        wager("c", vec![leg(Direction::Zero, 7)]),
        wager("d", vec![leg(Direction::Column { id: 2 }, 11), leg(Direction::Row { id: 1 }, 13)]),
    ];
    for winner in 0..38u32 {
        let mut out = Vec::new();
        settle_room(
            &AssetInfo::NativeToken { denom: "usei".to_string() },
            "admin",
            Decimal::zero(),
            &wagers,
            winner,
            &mut out,
        );
        let paid: u128 = out
            .iter()
            .map(|m| match m {
                TransferMsg::BankSend { amount, .. } => *amount,
                _ => panic!("a native room pays through the bank"),
            })
            .sum();
        let owed: u128 = wagers.iter().map(|w| wager_reward(&w.bet_info, winner).0).sum();
        assert_eq!(paid, owed);
        assert!(out.iter().all(|m| match m {
            TransferMsg::BankSend { amount, .. } => *amount > 0,
            _ => false,
        }));
    }
}

use roulette_game::error::ContractError;
use roulette_game::msg::{Direction, PointRatioInfo};
use roulette_game::payout::get_points_ratio_information;

fn entry(d: Direction) -> PointRatioInfo {
    get_points_ratio_information(&d).unwrap()
}

fn all_valid() -> Vec<Direction> {
    let mut v = vec![
        Direction::Odd,
        Direction::Even,
        Direction::FirstHalf,
        Direction::SecondHalf,
        Direction::Red,
        Direction::Black,
        Direction::FirstOfThird,
        Direction::SecondOfThird,
        Direction::ThirdOfThird,
        Direction::Zero,
        Direction::DoubleZero,
    ];
    for id in 1..=3 {
        v.push(Direction::Row { id });
    }
    for id in 1..=12 {
        v.push(Direction::Column { id });
    }
    for id in 1..=36 {
        v.push(Direction::Single { id });
    }
    v
}

#[test]
fn the_table_lists_the_even_money_selections() {
    assert_eq!(
        entry(Direction::Odd),
        PointRatioInfo {
            points: vec![1, 3, 5, 7, 9, 11, 13, 15, 17, 19, 21, 23, 25, 27, 29, 31, 33, 35],
            ratio: 2
        }
    );
    assert_eq!(
        entry(Direction::Even),
        PointRatioInfo {
            points: vec![2, 4, 6, 8, 10, 12, 14, 16, 18, 20, 22, 24, 26, 28, 30, 32, 34, 36],
            ratio: 2
        }
    );
    assert_eq!(entry(Direction::FirstHalf).points, (1..=18).collect::<Vec<u32>>());
    assert_eq!(entry(Direction::SecondHalf).points, (19..=36).collect::<Vec<u32>>());
    assert_eq!(
        entry(Direction::Red).points,
        vec![1, 3, 5, 7, 9, 12, 14, 16, 18, 19, 21, 23, 25, 27, 30, 32, 34, 36]
    );
    assert_eq!(
        entry(Direction::Black).points,
        vec![2, 4, 6, 8, 10, 11, 13, 15, 17, 20, 22, 24, 26, 28, 29, 31, 33, 35]
    );
    assert_eq!(entry(Direction::Red).ratio, 2);
    assert_eq!(entry(Direction::Black).ratio, 2);
}

#[test]
fn the_table_lists_rows_columns_thirds_and_single_numbers() {
    assert_eq!(
        entry(Direction::Row { id: 1 }),
        PointRatioInfo { points: vec![1, 4, 7, 10, 13, 16, 19, 22, 25, 28, 31, 34], ratio: 3 }
    );
    assert_eq!(
        entry(Direction::Row { id: 3 }).points,
        vec![3, 6, 9, 12, 15, 18, 21, 24, 27, 30, 33, 36]
    );
    assert_eq!(
        entry(Direction::Column { id: 1 }),
        PointRatioInfo { points: vec![1, 2, 3], ratio: 12 }
    );
    assert_eq!(entry(Direction::Column { id: 12 }).points, vec![34, 35, 36]);
    assert_eq!(entry(Direction::FirstOfThird).points, (1..=12).collect::<Vec<u32>>());
    assert_eq!(entry(Direction::SecondOfThird).points, (13..=24).collect::<Vec<u32>>());
    assert_eq!(entry(Direction::ThirdOfThird).points, (25..=36).collect::<Vec<u32>>());
    assert_eq!(entry(Direction::ThirdOfThird).ratio, 3);
    assert_eq!(entry(Direction::Single { id: 7 }), PointRatioInfo { points: vec![7], ratio: 36 });
    assert_eq!(entry(Direction::Zero), PointRatioInfo { points: vec![0], ratio: 36 });
    assert_eq!(entry(Direction::DoubleZero), PointRatioInfo { points: vec![37], ratio: 36 });
}

#[test]
fn ids_out_of_range_are_refused() {
    for d in [
        Direction::Row { id: 0 },
        Direction::Row { id: 4 },
        Direction::Column { id: 0 },
        Direction::Column { id: 13 },
        Direction::Single { id: 0 },
        Direction::Single { id: 37 },
        Direction::Single { id: u32::MAX },
    ] {
        assert_eq!(get_points_ratio_information(&d), Err(ContractError::InvalidSelection));
    }
}

#[test]
fn every_entry_pays_thirty_six_over_its_numbers() {
    for d in all_valid() {
        let info = entry(d);
        assert!(!info.points.is_empty());
        assert_eq!(info.ratio as usize * info.points.len(), 36);
        for (i, p) in info.points.iter().enumerate() {
            assert!(*p < 38);
            assert!(!info.points[..i].contains(p));
        }
        // asked twice, the table answers the same
        assert_eq!(entry(d), info);
    }
}

#[test]
fn odd_and_even_and_red_and_black_part_the_numbers_one_to_thirty_six() {
    let odd = entry(Direction::Odd).points;
    let even = entry(Direction::Even).points;
    let red = entry(Direction::Red).points;
    let black = entry(Direction::Black).points;
    for n in 1..=36u32 {
        assert!(odd.contains(&n) != even.contains(&n));
        assert!(red.contains(&n) != black.contains(&n));
        assert_eq!(odd.contains(&n), n % 2 == 1);
    }
    for n in [0u32, 37] {
        assert!(!odd.contains(&n) && !even.contains(&n));
        assert!(!red.contains(&n) && !black.contains(&n));
    }
}

#[test]
fn selections_have_their_labels() {
    assert_eq!(Direction::Odd.label(), "odd");
    assert_eq!(Direction::Red.label(), "red");
    assert_eq!(Direction::SecondOfThird.label(), "second of third");
    assert_eq!(Direction::DoubleZero.label(), "zero_zero");
    let s: String = Direction::Row { id: 2 }.into();
    assert_eq!(s, "row");
    assert_eq!(String::from(Direction::FirstHalf), "first_half");
}

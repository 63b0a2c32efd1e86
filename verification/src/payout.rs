//! The payout table: which wheel numbers a selection covers and what it pays.
//!
//! The wheel has 38 numbers: 0, 1 to 36, and 37 for the double zero.

use vstd::prelude::*;
use crate::error::ContractError;
use crate::msg::{Direction, PointRatioInfo};

verus! {

/// How many numbers the wheel has.
pub const WHEEL_SIZE: u32 = 38;

/// Whether a selection's id is in range. Selections without an id always are.
pub open spec fn valid_direction(d: Direction) -> bool {
    match d {
        Direction::Row { id } => 1 <= id <= 3,
        Direction::Column { id } => 1 <= id <= 12,
        Direction::Single { id } => 1 <= id <= 36,
        _ => true,
    }
}

/// The eighteen red numbers of the wheel.
pub open spec fn is_red(n: int) -> bool {
    n == 1 || n == 3 || n == 5 || n == 7 || n == 9 || n == 12 || n == 14 || n == 16 || n == 18
        || n == 19 || n == 21 || n == 23 || n == 25 || n == 27 || n == 30 || n == 32 || n == 34
        || n == 36
}

/// Whether selection `d` pays when `n` wins. An invalid selection covers
/// nothing.
pub open spec fn covers(d: Direction, n: int) -> bool {
    match d {
        Direction::Odd => 1 <= n <= 36 && n % 2 == 1,
        Direction::Even => 1 <= n <= 36 && n % 2 == 0,
        Direction::FirstHalf => 1 <= n <= 18,
        Direction::SecondHalf => 19 <= n <= 36,
        Direction::Red => is_red(n),
        Direction::Black => 1 <= n <= 36 && !is_red(n),
        Direction::Row { id } => 1 <= id <= 3 && 1 <= n <= 36 && n % 3 == id % 3,
        Direction::Column { id } => 1 <= id <= 12 && 3 * (id - 1) < n <= 3 * id,
        Direction::FirstOfThird => 1 <= n <= 12,
        Direction::SecondOfThird => 13 <= n <= 24,
        Direction::ThirdOfThird => 25 <= n <= 36,
        Direction::Single { id } => 1 <= id <= 36 && n == id,
        Direction::Zero => n == 0,
        Direction::DoubleZero => n == 37,
    }
}

/// The factor by which a winning leg's amount is paid.
pub open spec fn multiplier(d: Direction) -> int {
    match d {
        Direction::Odd | Direction::Even | Direction::FirstHalf | Direction::SecondHalf
        | Direction::Red | Direction::Black => 2,
        Direction::Row { id: _ } | Direction::FirstOfThird | Direction::SecondOfThird
        | Direction::ThirdOfThird => 3,
        Direction::Column { id: _ } => 12,
        Direction::Single { id: _ } | Direction::Zero | Direction::DoubleZero => 36,
    }
}

/// The covered numbers of a valid selection, in the order of the table.
pub open spec fn covered_points(d: Direction) -> Seq<u32> {
    match d {
        Direction::Odd => seq![1, 3, 5, 7, 9, 11, 13, 15, 17, 19, 21, 23, 25, 27, 29, 31, 33, 35],
        Direction::Even => seq![2, 4, 6, 8, 10, 12, 14, 16, 18, 20, 22, 24, 26, 28, 30, 32, 34, 36],
        Direction::FirstHalf => seq![1, 2, 3, 4, 5, 6, 7, 8, 9, 10, 11, 12, 13, 14, 15, 16, 17, 18],
        Direction::SecondHalf => seq![
            19, 20, 21, 22, 23, 24, 25, 26, 27, 28, 29, 30, 31, 32, 33, 34, 35, 36,
        ],
        Direction::Red => seq![1, 3, 5, 7, 9, 12, 14, 16, 18, 19, 21, 23, 25, 27, 30, 32, 34, 36],
        Direction::Black => seq![
            2, 4, 6, 8, 10, 11, 13, 15, 17, 20, 22, 24, 26, 28, 29, 31, 33, 35,
        ],
        Direction::Row { id } => Seq::new(12, |i: int| (id + 3 * i) as u32),
        Direction::Column { id } => seq![
            (3 * (id - 1) + 1) as u32,
            (3 * (id - 1) + 2) as u32,
            (3 * (id - 1) + 3) as u32,
        ],
        Direction::FirstOfThird => seq![1, 2, 3, 4, 5, 6, 7, 8, 9, 10, 11, 12],
        Direction::SecondOfThird => seq![13, 14, 15, 16, 17, 18, 19, 20, 21, 22, 23, 24],
        Direction::ThirdOfThird => seq![25, 26, 27, 28, 29, 30, 31, 32, 33, 34, 35, 36],
        Direction::Single { id } => seq![id],
        Direction::Zero => seq![0],
        Direction::DoubleZero => seq![37],
    }
}

/// What holds of every entry of the table: a valid selection covers at least
/// one number, lists none twice and none off the wheel, lists exactly the
/// numbers it pays on, and its multiplier times the count of its numbers is 36.
pub proof fn lemma_table_entry(d: Direction)
    requires
        valid_direction(d),
    ensures
        covered_points(d).len() > 0,
        covered_points(d).no_duplicates(),
        forall|i: int| 0 <= i < covered_points(d).len() ==> covered_points(d)[i] < WHEEL_SIZE,
        forall|n: u32| covered_points(d).contains(n) <==> covers(d, n as int),
        multiplier(d) * covered_points(d).len() == 36,
{
    let s = covered_points(d);
    match d {
        Direction::Row { id } => {
            assert forall|n: u32| s.contains(n) <==> covers(d, n as int) by {
                if covers(d, n as int) {
                    let k = (n - id) / 3;
                    assert(s[k] == n);
                }
            }
        },
        Direction::Column { id } => {
            assert forall|n: u32| s.contains(n) <==> covers(d, n as int) by {
                if covers(d, n as int) {
                    let k = n - 3 * (id - 1) - 1;
                    assert(s[k] == n);
                }
            }
        },
        Direction::Single { id } => {
            assert(s[0] == id);
        },
        Direction::Zero => {
            assert(s[0] == 0);
        },
        Direction::DoubleZero => {
            assert(s[0] == 37);
        },
        Direction::FirstOfThird | Direction::SecondOfThird | Direction::ThirdOfThird => {
            lemma_listing_12(s, d);
        },
        _ => {
            lemma_listing_18(s, d);
        },
    }
}

proof fn lemma_listing_12(s: Seq<u32>, d: Direction)
    requires
        s == covered_points(d),
        d == Direction::FirstOfThird || d == Direction::SecondOfThird || d
            == Direction::ThirdOfThird,
    ensures
        s.len() == 12,
        s.no_duplicates(),
        forall|i: int| 0 <= i < s.len() ==> s[i] < WHEEL_SIZE,
        forall|n: u32| s.contains(n) <==> covers(d, n as int),
{
    let base: int = if d == Direction::FirstOfThird {
        1
    } else if d == Direction::SecondOfThird {
        13
    } else {
        25
    };
    assert(forall|i: int| 0 <= i < 12 ==> s[i] == base + i);
    assert forall|n: u32| s.contains(n) <==> covers(d, n as int) by {
        if covers(d, n as int) {
            assert(s[n - base] == n);
        }
    }
}

proof fn lemma_listing_18(s: Seq<u32>, d: Direction)
    requires
        s == covered_points(d),
        d == Direction::Odd || d == Direction::Even || d == Direction::FirstHalf || d
            == Direction::SecondHalf || d == Direction::Red || d == Direction::Black,
    ensures
        s.len() == 18,
        s.no_duplicates(),
        forall|i: int| 0 <= i < s.len() ==> s[i] < WHEEL_SIZE,
        forall|n: u32| s.contains(n) <==> covers(d, n as int),
{
    assert(s.len() == 18);
    assert(forall|i: int, j: int| 0 <= i < j < 18 ==> s[i] < s[j]);
    assert(forall|i: int| 0 <= i < 18 ==> 1 <= #[trigger] s[i] && s[i] <= 36);
    assert forall|n: u32| s.contains(n) <==> covers(d, n as int) by {
        if covers(d, n as int) {
            let k = choose|k: int| 0 <= k < 18 && s[k] == n;
            assert(s[0] == n || s[1] == n || s[2] == n || s[3] == n || s[4] == n || s[5] == n
                || s[6] == n || s[7] == n || s[8] == n || s[9] == n || s[10] == n || s[11] == n
                || s[12] == n || s[13] == n || s[14] == n || s[15] == n || s[16] == n || s[17]
                == n);
        }
        if s.contains(n) {
            let k = choose|k: int| 0 <= k < 18 && s[k] == n;
            assert(covers(d, s[k] as int));
        }
    }
}

/// The table entry of a selection: the numbers it covers and its multiplier.
/// Fails exactly for a row, column or single number whose id is out of range.
pub fn get_points_ratio_information(direction: &Direction) -> (r: Result<
    PointRatioInfo,
    ContractError,
>)
    ensures
        valid_direction(*direction) <==> r is Ok,
        r matches Ok(info) ==> info.points@ == covered_points(*direction) && info.ratio
            == multiplier(*direction),
        r matches Err(e) ==> e == ContractError::InvalidSelection,
{
    match direction {
        Direction::Odd => Ok(
            PointRatioInfo {
                points: vec![1, 3, 5, 7, 9, 11, 13, 15, 17, 19, 21, 23, 25, 27, 29, 31, 33, 35],
                ratio: 2,
            },
        ),
        Direction::Even => Ok(
            PointRatioInfo {
                points: vec![2, 4, 6, 8, 10, 12, 14, 16, 18, 20, 22, 24, 26, 28, 30, 32, 34, 36],
                ratio: 2,
            },
        ),
        Direction::FirstHalf => Ok(
            PointRatioInfo {
                points: vec![1, 2, 3, 4, 5, 6, 7, 8, 9, 10, 11, 12, 13, 14, 15, 16, 17, 18],
                ratio: 2,
            },
        ),
        Direction::SecondHalf => Ok(
            PointRatioInfo {
                points: vec![
                    19, 20, 21, 22, 23, 24, 25, 26, 27, 28, 29, 30, 31, 32, 33, 34, 35, 36,
                ],
                ratio: 2,
            },
        ),
        Direction::Red => Ok(
            PointRatioInfo {
                points: vec![1, 3, 5, 7, 9, 12, 14, 16, 18, 19, 21, 23, 25, 27, 30, 32, 34, 36],
                ratio: 2,
            },
        ),
        Direction::Black => Ok(
            PointRatioInfo {
                points: vec![
                    2, 4, 6, 8, 10, 11, 13, 15, 17, 20, 22, 24, 26, 28, 29, 31, 33, 35,
                ],
                ratio: 2,
            },
        ),
        Direction::Row { id } => {
            if *id < 1 || *id > 3 {
                return Err(ContractError::InvalidSelection);
            }
            let mut row_ids: Vec<u32> = Vec::new();
            let mut i: u32 = 0;
            while i < 12
                invariant
                    i <= 12,
                    1 <= *id <= 3,
                    row_ids@ == Seq::new(i as nat, |k: int| (*id + 3 * k) as u32),
                decreases 12 - i,
            {
                row_ids.push(*id + i * 3);
                i = i + 1;
                assert(row_ids@ =~= Seq::new(i as nat, |k: int| (*id + 3 * k) as u32));
            }
            Ok(PointRatioInfo { points: row_ids, ratio: 3 })
        },
        Direction::Column { id } => {
            if *id < 1 || *id > 12 {
                return Err(ContractError::InvalidSelection);
            }
            let id_start: u32 = (*id - 1) * 3 + 1;
            Ok(PointRatioInfo { points: vec![id_start, id_start + 1, id_start + 2], ratio: 12 })
        },
        Direction::FirstOfThird => Ok(
            PointRatioInfo { points: vec![1, 2, 3, 4, 5, 6, 7, 8, 9, 10, 11, 12], ratio: 3 },
        ),
        Direction::SecondOfThird => Ok(
            PointRatioInfo {
                points: vec![13, 14, 15, 16, 17, 18, 19, 20, 21, 22, 23, 24],
                ratio: 3,
            },
        ),
        Direction::ThirdOfThird => Ok(
            PointRatioInfo {
                points: vec![25, 26, 27, 28, 29, 30, 31, 32, 33, 34, 35, 36],
                ratio: 3,
            },
        ),
        Direction::Single { id } => {
            if *id < 1 || *id > 36 {
                return Err(ContractError::InvalidSelection);
            }
            Ok(PointRatioInfo { points: vec![*id], ratio: 36 })
        },
        Direction::Zero => Ok(PointRatioInfo { points: vec![0], ratio: 36 }),
        Direction::DoubleZero => Ok(PointRatioInfo { points: vec![37], ratio: 36 }),
    }
}

} // verus!

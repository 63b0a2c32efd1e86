//! The solvency guard: what the pool would owe if a given number won, and
//! whether a new wager can be covered whatever number wins.

use vstd::prelude::*;
use crate::error::ContractError;
use crate::msg::BetConfig;
use crate::payout::{
    covered_points, covers, get_points_ratio_information, lemma_table_entry, multiplier,
    valid_direction, WHEEL_SIZE,
};
use crate::state::{BetInfo, BetInfoView};
use crate::ledger::wager_views;

verus! {

/// What a leg pays if `n` wins.
pub open spec fn leg_payout(leg: BetConfig, n: int) -> int {
    if covers(leg.direction, n) {
        leg.amount * multiplier(leg.direction)
    } else {
        0
    }
}

/// What the legs of one wager pay together if `n` wins.
pub open spec fn legs_payout(legs: Seq<BetConfig>, n: int) -> int
    decreases legs.len(),
{
    if legs.len() == 0 {
        0
    } else {
        legs_payout(legs.drop_last(), n) + leg_payout(legs.last(), n)
    }
}

/// What a list of wagers pays together if `n` wins.
pub open spec fn wagers_payout(wagers: Seq<BetInfoView>, n: int) -> int
    decreases wagers.len(),
{
    if wagers.len() == 0 {
        0
    } else {
        wagers_payout(wagers.drop_last(), n) + legs_payout(wagers.last().bet_info, n)
    }
}

/// The sum of the amounts of the legs of one wager.
pub open spec fn legs_staked(legs: Seq<BetConfig>) -> int
    decreases legs.len(),
{
    if legs.len() == 0 {
        0
    } else {
        legs_staked(legs.drop_last()) + legs.last().amount
    }
}

/// The sum of the amounts of all legs of a list of wagers.
pub open spec fn wagers_staked(wagers: Seq<BetInfoView>) -> int
    decreases wagers.len(),
{
    if wagers.len() == 0 {
        0
    } else {
        wagers_staked(wagers.drop_last()) + legs_staked(wagers.last().bet_info)
    }
}

/// Whether every leg holds a valid selection.
pub open spec fn legs_valid(legs: Seq<BetConfig>) -> bool {
    forall|i: int| 0 <= i < legs.len() ==> valid_direction(#[trigger] legs[i].direction)
}

/// Whether every leg of every wager holds a valid selection.
pub open spec fn wagers_valid(wagers: Seq<BetInfoView>) -> bool {
    forall|i: int| 0 <= i < wagers.len() ==> legs_valid(#[trigger] wagers[i].bet_info)
}

/// A sum as a `u128` holds it: itself, or the largest `u128` if it is larger.
pub open spec fn capped(x: int) -> u128 {
    if x > u128::MAX {
        u128::MAX
    } else if x < 0 {
        0
    } else {
        x as u128
    }
}

/// What the pool owes on the accepted wagers and a candidate's legs if `n`
/// wins.
pub open spec fn liability(wagers: Seq<BetInfoView>, legs: Seq<BetConfig>, n: int) -> int {
    wagers_payout(wagers, n) + legs_payout(legs, n)
}

/// The largest liability among the wheel numbers below `k`.
pub open spec fn worst_below(wagers: Seq<BetInfoView>, legs: Seq<BetConfig>, k: int) -> int
    decreases k,
{
    if k <= 0 {
        0
    } else {
        let rest = worst_below(wagers, legs, k - 1);
        let here = liability(wagers, legs, k - 1);
        if here > rest {
            here
        } else {
            rest
        }
    }
}

/// The largest liability among all 38 wheel numbers.
pub open spec fn worst_case(wagers: Seq<BetInfoView>, legs: Seq<BetConfig>) -> int {
    worst_below(wagers, legs, WHEEL_SIZE as int)
}

/// The first wheel number from `from` on whose liability, as a `u128` holds
/// it, reaches `target`; 38 if there is none.
pub open spec fn first_reaching(
    wagers: Seq<BetInfoView>,
    legs: Seq<BetConfig>,
    target: u128,
    from: int,
) -> int
    decreases WHEEL_SIZE - from,
{
    if from >= WHEEL_SIZE {
        WHEEL_SIZE as int
    } else if capped(liability(wagers, legs, from)) >= target {
        from
    } else {
        first_reaching(wagers, legs, target, from + 1)
    }
}

/// The first wheel number that costs the pool most.
pub open spec fn worst_number(wagers: Seq<BetInfoView>, legs: Seq<BetConfig>) -> int {
    first_reaching(wagers, legs, capped(worst_case(wagers, legs)), 0)
}

/// No payout is negative.
pub proof fn lemma_payout_nonnegative(wagers: Seq<BetInfoView>, legs: Seq<BetConfig>, n: int)
    ensures
        legs_payout(legs, n) >= 0,
        wagers_payout(wagers, n) >= 0,
        legs_staked(legs) >= 0,
        wagers_staked(wagers) >= 0,
    decreases wagers.len(), legs.len(),
{
    if legs.len() > 0 {
        lemma_payout_nonnegative(Seq::empty(), legs.drop_last(), n);
        assert(leg_payout(legs.last(), n) >= 0) by (nonlinear_arith)
            requires
                legs.last().amount >= 0,
                multiplier(legs.last().direction) >= 0,
                leg_payout(legs.last(), n) == 0 || leg_payout(legs.last(), n)
                    == legs.last().amount * multiplier(legs.last().direction),
        ;
    }
    if wagers.len() > 0 {
        lemma_payout_nonnegative(wagers.drop_last(), wagers.last().bet_info, n);
    }
}

/// The payout of a list of legs with one more leg.
pub proof fn lemma_legs_payout_push(legs: Seq<BetConfig>, leg: BetConfig, n: int)
    ensures
        legs_payout(legs.push(leg), n) == legs_payout(legs, n) + leg_payout(leg, n),
        legs_staked(legs.push(leg)) == legs_staked(legs) + leg.amount,
{
    assert(legs.push(leg).drop_last() =~= legs);
}

/// The payout of wagers in two lists is the sum of the payouts of the lists.
pub proof fn lemma_wagers_payout_add(a: Seq<BetInfoView>, b: Seq<BetInfoView>, n: int)
    ensures
        wagers_payout(a + b, n) == wagers_payout(a, n) + wagers_payout(b, n),
        wagers_staked(a + b) == wagers_staked(a) + wagers_staked(b),
    decreases b.len(),
{
    if b.len() == 0 {
        assert(a + b =~= a);
    } else {
        assert((a + b).drop_last() =~= a + b.drop_last());
        lemma_wagers_payout_add(a, b.drop_last(), n);
    }
}

/// The worst case is at least the liability of every wheel number below `k`,
/// is not negative, and is the liability of one of them unless it is zero.
pub proof fn lemma_worst_below(wagers: Seq<BetInfoView>, legs: Seq<BetConfig>, k: int)
    requires
        0 <= k,
    ensures
        worst_below(wagers, legs, k) >= 0,
        forall|n: int| 0 <= n < k ==> liability(wagers, legs, n) <= worst_below(wagers, legs, k),
        worst_below(wagers, legs, k) == 0 || exists|n: int|
            0 <= n < k && liability(wagers, legs, n) == worst_below(wagers, legs, k),
    decreases k,
{
    if k > 0 {
        lemma_worst_below(wagers, legs, k - 1);
        let rest = worst_below(wagers, legs, k - 1);
        if rest != 0 && liability(wagers, legs, k - 1) <= rest {
            let m = choose|m: int| 0 <= m < k - 1 && liability(wagers, legs, m) == rest;
            assert(0 <= m < k && liability(wagers, legs, m) == worst_below(wagers, legs, k));
        } else if liability(wagers, legs, k - 1) > rest {
            assert(liability(wagers, legs, k - 1) == worst_below(wagers, legs, k));
        }
    }
}

/// Whether each wager of a list was admitted in its turn: with the wagers
/// before it, its worst case was within what the pool held at that time.
pub open spec fn admitted_in_turn(wagers: Seq<BetInfoView>, held: Seq<u128>) -> bool {
    &&& held.len() == wagers.len()
    &&& forall|k: int|
        0 <= k < wagers.len() ==> worst_case(wagers.take(k), #[trigger] wagers[k].bet_info)
            <= held[k]
}

/// The pool stays solvent through every sequence of admitted wagers: when
/// wager `k` has been admitted, what the wagers up to it pay on any wheel
/// number is within what the pool held at that time.
pub proof fn lemma_admitted_wagers_covered(
    wagers: Seq<BetInfoView>,
    held: Seq<u128>,
    k: int,
    n: int,
)
    requires
        admitted_in_turn(wagers, held),
        0 <= k < wagers.len(),
        0 <= n < WHEEL_SIZE,
    ensures
        wagers_payout(wagers.take(k + 1), n) <= held[k],
{
    let before = wagers.take(k);
    let legs = wagers[k].bet_info;
    assert(wagers.take(k + 1).drop_last() =~= before);
    assert(wagers.take(k + 1).last() == wagers[k]);
    lemma_worst_below(before, legs, WHEEL_SIZE as int);
    assert(liability(before, legs, n) <= worst_case(before, legs));
}

/// Whether `totals` and `over` record the 38 sums `sums`: each total is its
/// sum as a `u128` holds it, and `over` says that some sum is too large for one.
spec fn tallied(totals: Seq<u128>, over: bool, sums: Seq<int>) -> bool {
    &&& totals.len() == WHEEL_SIZE
    &&& sums.len() == WHEEL_SIZE
    &&& forall|n: int|
        0 <= n < WHEEL_SIZE ==> sums[n] >= 0 && totals[n] == capped(#[trigger] sums[n])
    &&& over <==> exists|n: int| 0 <= n < WHEEL_SIZE && #[trigger] sums[n] > u128::MAX
}

/// The sums `sums`, each with what `legs` pay on its number.
spec fn with_legs(sums: Seq<int>, legs: Seq<BetConfig>) -> Seq<int> {
    Seq::new(WHEEL_SIZE as nat, |n: int| sums[n] + legs_payout(legs, n))
}

/// The sums `sums`, the one of each number in `points` with `reward` more.
spec fn with_points(sums: Seq<int>, points: Seq<u32>, reward: int) -> Seq<int> {
    Seq::new(
        WHEEL_SIZE as nat,
        |n: int|
            if points.contains(n as u32) {
                sums[n] + reward
            } else {
                sums[n]
            },
    )
}

/// Adds to the running total of each wheel number what `legs` pay on it.
/// Fails at the first leg with an invalid selection.
fn add_legs(
    totals: &mut Vec<u128>,
    over: &mut bool,
    legs: &Vec<BetConfig>,
    Ghost(sums): Ghost<Seq<int>>,
) -> (r: Result<(), ContractError>)
    requires
        tallied(old(totals)@, *old(over), sums),
    ensures
        r is Ok <==> legs_valid(legs@),
        r matches Err(e) ==> e == ContractError::InvalidSelection,
        r is Ok ==> tallied(final(totals)@, *final(over), with_legs(sums, legs@)),
{
    let mut i: usize = 0;
    assert(with_legs(sums, legs@.take(0)) =~= sums);
    while i < legs.len()
        invariant
            i <= legs.len(),
            legs_valid(legs@.take(i as int)),
            tallied(totals@, *over, with_legs(sums, legs@.take(i as int))),
        decreases legs.len() - i,
    {
        let leg = legs[i];
        let ghost done = with_legs(sums, legs@.take(i as int));
        match get_points_ratio_information(&leg.direction) {
            Err(_) => {
                return Err(ContractError::InvalidSelection);
            },
            Ok(info) => {
                proof {
                    lemma_table_entry(leg.direction);
                }
                let ghost reward: int = leg.amount * multiplier(leg.direction);
                assert(reward >= 0) by (nonlinear_arith)
                    requires
                        reward == leg.amount * multiplier(leg.direction),
                        multiplier(leg.direction) >= 0,
                ;
                let paid: Option<u128> = leg.amount.checked_mul(info.ratio as u128);
                let mut j: usize = 0;
                assert(with_points(done, info.points@.take(0), reward) =~= done);
                while j < info.points.len()
                    invariant
                        j <= info.points.len(),
                        info.points@ == covered_points(leg.direction),
                        info.points@.no_duplicates(),
                        forall|k: int|
                            0 <= k < info.points@.len() ==> info.points@[k] < WHEEL_SIZE,
                        reward >= 0,
                        paid == (if reward > u128::MAX {
                            None
                        } else {
                            Some(reward as u128)
                        }),
                        tallied(
                            totals@,
                            *over,
                            with_points(done, info.points@.take(j as int), reward),
                        ),
                    decreases info.points.len() - j,
                {
                    let p: usize = info.points[j] as usize;
                    let ghost before = with_points(done, info.points@.take(j as int), reward);
                    let ghost after = with_points(done, info.points@.take(j + 1), reward);
                    proof {
                        assert(info.points@.take(j + 1) =~= info.points@.take(j as int).push(
                            info.points@[j as int],
                        ));
                        assert(!info.points@.take(j as int).contains(info.points@[j as int]));
                        assert forall|n: int| 0 <= n < WHEEL_SIZE implies #[trigger] after[n] == (if n
                            == p {
                            before[n] + reward
                        } else {
                            before[n]
                        }) by {
                            let a = info.points@.take(j as int);
                            let b = info.points@.take(j + 1);
                            if n == p {
                                assert(b[j as int] == n as u32);
                            } else if a.contains(n as u32) {
                                let k = choose|k: int| 0 <= k < a.len() && a[k] == n as u32;
                                assert(b[k] == n as u32);
                            } else if b.contains(n as u32) {
                                let k = choose|k: int| 0 <= k < b.len() && b[k] == n as u32;
                                assert(a[k] == n as u32);
                            }
                        }
                        assert(before[p as int] >= 0);
                    }
                    let ghost was = totals@;
                    let ghost was_over = *over;
                    let sum: Option<u128> = match paid {
                        Some(v) => totals[p].checked_add(v),
                        None => None,
                    };
                    match sum {
                        Some(v) => {
                            totals.set(p, v);
                            proof {
                                if before[p as int] > u128::MAX {
                                    assert(after[p as int] > u128::MAX);
                                }
                            }
                        },
                        None => {
                            totals.set(p, u128::MAX);
                            *over = true;
                            assert(after[p as int] > u128::MAX);
                        },
                    }
                    proof {
                        assert forall|n: int| 0 <= n < WHEEL_SIZE implies after[n] >= 0
                            && totals@[n] == capped(#[trigger] after[n]) by {
                            assert(before[n] >= 0);
                            assert(was[n] == capped(before[n]));
                        }
                        if exists|n: int| 0 <= n < WHEEL_SIZE && #[trigger] after[n] > u128::MAX {
                            let n = choose|n: int|
                                0 <= n < WHEEL_SIZE && #[trigger] after[n] > u128::MAX;
                            if n != p {
                                assert(before[n] > u128::MAX);
                            }
                            assert(*over);
                        }
                        if was_over {
                            let n = choose|n: int|
                                0 <= n < WHEEL_SIZE && #[trigger] before[n] > u128::MAX;
                            assert(after[n] >= before[n]);
                            assert(after[n] > u128::MAX);
                        }
                    }
                    j = j + 1;
                }
                proof {
                    assert(info.points@.take(j as int) =~= info.points@);
                    assert(legs@.take(i + 1) =~= legs@.take(i as int).push(leg));
                    let next = with_legs(sums, legs@.take(i + 1));
                    assert forall|n: int| 0 <= n < WHEEL_SIZE implies #[trigger] next[n]
                        == with_points(done, info.points@, reward)[n] by {
                        lemma_legs_payout_push(legs@.take(i as int), leg, n);
                        assert(info.points@.contains(n as u32) <==> covers(leg.direction, n));
                    }
                    assert(next =~= with_points(done, info.points@, reward));
                }
            },
        }
        i = i + 1;
    }
    assert(legs@.take(i as int) =~= legs@);
    Ok(())
}

/// The liabilities of all 38 wheel numbers.
spec fn liabilities(wagers: Seq<BetInfoView>, legs: Seq<BetConfig>) -> Seq<int> {
    Seq::new(WHEEL_SIZE as nat, |n: int| liability(wagers, legs, n))
}

/// The running totals of the 38 wheel numbers over the accepted wagers and
/// the candidate's legs.
fn tally(players: &Vec<BetInfo>, legs: &Vec<BetConfig>) -> (r: Result<
    (Vec<u128>, bool),
    ContractError,
>)
    ensures
        r is Ok <==> wagers_valid(wager_views(players@)) && legs_valid(legs@),
        r matches Err(e) ==> e == ContractError::InvalidSelection,
        r matches Ok(t) ==> tallied(t.0@, t.1, liabilities(wager_views(players@), legs@)),
{
    let ghost views = wager_views(players@);
    let mut totals: Vec<u128> = Vec::new();
    let mut n: u32 = 0;
    while n < WHEEL_SIZE
        invariant
            n <= WHEEL_SIZE,
            totals@ == Seq::new(n as nat, |k: int| 0u128),
        decreases WHEEL_SIZE - n,
    {
        totals.push(0);
        n = n + 1;
        assert(totals@ =~= Seq::new(n as nat, |k: int| 0u128));
    }
    let mut over: bool = false;
    let ghost mut sums: Seq<int> = Seq::new(WHEEL_SIZE as nat, |k: int| 0int);
    let mut i: usize = 0;
    assert(views.take(0) =~= Seq::<BetInfoView>::empty());
    assert(sums =~= Seq::new(WHEEL_SIZE as nat, |k: int| wagers_payout(views.take(0), k)));
    while i < players.len()
        invariant
            i <= players.len(),
            views == wager_views(players@),
            wagers_valid(views.take(i as int)),
            sums == Seq::new(WHEEL_SIZE as nat, |k: int| wagers_payout(views.take(i as int), k)),
            tallied(totals@, over, sums),
        decreases players.len() - i,
    {
        assert(views[i as int] == players@[i as int]@);
        match add_legs(&mut totals, &mut over, &players[i].bet_info, Ghost(sums)) {
            Err(e) => {
                assert(!legs_valid(views[i as int].bet_info));
                return Err(ContractError::InvalidSelection);
            },
            Ok(()) => {},
        }
        proof {
            let next = Seq::new(
                WHEEL_SIZE as nat,
                |k: int| wagers_payout(views.take(i + 1), k),
            );
            assert(views.take(i + 1).drop_last() =~= views.take(i as int));
            assert(with_legs(sums, players@[i as int].bet_info@) =~= next);
            sums = next;
            assert forall|k: int| 0 <= k < i + 1 implies legs_valid(
                #[trigger] views.take(i + 1)[k].bet_info,
            ) by {
                if k < i {
                    assert(views.take(i as int)[k] == views[k]);
                }
            }
        }
        i = i + 1;
    }
    assert(views.take(i as int) =~= views);
    match add_legs(&mut totals, &mut over, legs, Ghost(sums)) {
        Err(e) => {
            return Err(ContractError::InvalidSelection);
        },
        Ok(()) => {},
    }
    assert(with_legs(sums, legs@) =~= liabilities(views, legs@));
    Ok((totals, over))
}

/// From `from` up to `at`, no wheel number reaches `target`, and `at` does.
proof fn lemma_first_reaching(
    wagers: Seq<BetInfoView>,
    legs: Seq<BetConfig>,
    target: u128,
    from: int,
    at: int,
)
    requires
        0 <= from <= at < WHEEL_SIZE,
        forall|m: int| from <= m < at ==> capped(#[trigger] liability(wagers, legs, m)) < target,
        capped(liability(wagers, legs, at)) >= target,
    ensures
        first_reaching(wagers, legs, target, from) == at,
    decreases at - from,
{
    if from < at {
        lemma_first_reaching(wagers, legs, target, from + 1, at);
    }
}

/// The solvency guard. Given the accepted wagers of a room and round, the
/// legs of a candidate, what the pool holds and the reserve floor so far, it
/// admits the candidate exactly if the pool can pay whatever number wins, and
/// then gives the new reserve floor: the larger of the old floor and the
/// worst case. A leg with an invalid selection fails before anything else.
pub fn validate_maximum_reward_exceed(
    room_round_players: &Vec<BetInfo>,
    bet_info: &Vec<BetConfig>,
    token_hold_amount: u128,
    minimum_reserve: u128,
) -> (r: Result<u128, ContractError>)
    ensures
        !(wagers_valid(wager_views(room_round_players@)) && legs_valid(bet_info@)) ==> r == Err::<
            u128,
            ContractError,
        >(ContractError::InvalidSelection),
        wagers_valid(wager_views(room_round_players@)) && legs_valid(bet_info@) ==> (r is Ok
            <==> forall|n: int|
            0 <= n < WHEEL_SIZE ==> #[trigger] liability(
                wager_views(room_round_players@),
                bet_info@,
                n,
            ) <= token_hold_amount),
        wagers_valid(wager_views(room_round_players@)) && legs_valid(bet_info@) ==> (r is Ok
            <==> worst_case(wager_views(room_round_players@), bet_info@) <= token_hold_amount),
        r matches Ok(floor) ==> floor == (if worst_case(
            wager_views(room_round_players@),
            bet_info@,
        ) > minimum_reserve {
            worst_case(wager_views(room_round_players@), bet_info@)
        } else {
            minimum_reserve as int
        }),
        r is Err && wagers_valid(wager_views(room_round_players@)) && legs_valid(bet_info@) ==> r
            == Err::<u128, ContractError>(
            ContractError::InsufficientPoolCoverage {
                held: token_hold_amount,
                number: worst_number(wager_views(room_round_players@), bet_info@) as u32,
                worst_case: capped(worst_case(wager_views(room_round_players@), bet_info@)),
            },
        ),
{
    let ghost w = wager_views(room_round_players@);
    let ghost l = bet_info@;
    let (totals, over) = match tally(room_round_players, bet_info) {
        Err(e) => {
            return Err(ContractError::InvalidSelection);
        },
        Ok(t) => t,
    };
    let mut worst: u128 = 0;
    let mut number: u32 = 0;
    let mut n: u32 = 0;
    while n < WHEEL_SIZE
        invariant
            n <= WHEEL_SIZE,
            number < WHEEL_SIZE,
            tallied(totals@, over, liabilities(w, l)),
            worst == capped(worst_below(w, l, n as int)),
            forall|m: int| 0 <= m < number ==> capped(#[trigger] liability(w, l, m)) < worst,
            n > 0 ==> number < n && capped(liability(w, l, number as int)) == worst,
            n == 0 ==> worst == 0 && number == 0,
        decreases WHEEL_SIZE - n,
    {
        proof {
            lemma_worst_below(w, l, n as int);
            assert(liabilities(w, l)[n as int] == liability(w, l, n as int));
            assert forall|m: int| 0 <= m < n implies capped(#[trigger] liability(w, l, m))
                <= worst by {
                assert(liability(w, l, m) <= worst_below(w, l, n as int));
            }
        }
        if totals[n as usize] > worst {
            worst = totals[n as usize];
            number = n;
        }
        n = n + 1;
    }
    proof {
        lemma_worst_below(w, l, WHEEL_SIZE as int);
        lemma_first_reaching(w, l, worst, 0, number as int);
        assert forall|m: int| 0 <= m < WHEEL_SIZE implies liabilities(w, l)[m] == #[trigger] liability(
            w,
            l,
            m,
        ) by {}
        if over {
            let m = choose|m: int|
                0 <= m < WHEEL_SIZE && #[trigger] liabilities(w, l)[m] > u128::MAX;
            assert(liability(w, l, m) > token_hold_amount);
        } else {
            assert forall|m: int| 0 <= m < WHEEL_SIZE implies #[trigger] liability(w, l, m)
                <= u128::MAX by {
                assert(liabilities(w, l)[m] <= u128::MAX);
            }
            if worst_case(w, l) != 0 {
                let m = choose|m: int|
                    0 <= m < WHEEL_SIZE && liability(w, l, m) == worst_case(w, l);
                assert(liability(w, l, m) <= u128::MAX);
            }
        }
    }
    if over || worst > token_hold_amount {
        proof {
            if !over {
                let m = number as int;
                assert(liability(w, l, m) > token_hold_amount);
            }
            assert(worst_case(w, l) > token_hold_amount);
        }
        Err(
            ContractError::InsufficientPoolCoverage {
                held: token_hold_amount,
                number,
                worst_case: worst,
            },
        )
    } else if worst > minimum_reserve {
        Ok(worst)
    } else {
        Ok(minimum_reserve)
    }
}

/// What the room's owner may take out of the pool: what the pool holds
/// beyond its reserve floor, and nothing if it holds less.
pub fn max_withdrawable(pool_balance: u128, reserve_floor: u128) -> (r: u128)
    ensures
        r == (if pool_balance >= reserve_floor {
            pool_balance - reserve_floor
        } else {
            0
        }),
{
    if pool_balance >= reserve_floor {
        pool_balance - reserve_floor
    } else {
        0
    }
}

/// Whether every leg holds a valid selection.
pub fn legs_are_valid(legs: &Vec<BetConfig>) -> (ok: bool)
    ensures
        ok == legs_valid(legs@),
{
    let mut i: usize = 0;
    while i < legs.len()
        invariant
            i <= legs.len(),
            forall|k: int| 0 <= k < i ==> valid_direction(#[trigger] legs@[k].direction),
        decreases legs.len() - i,
    {
        if get_points_ratio_information(&legs[i].direction).is_err() {
            return false;
        }
        i = i + 1;
    }
    true
}

/// The sum of the amounts of all legs of a list of wagers; `None` if it is
/// too large for a `u128`.
pub fn staked_within(wagers: &Vec<BetInfo>) -> (r: Option<u128>)
    ensures
        r == (if wagers_staked(wager_views(wagers@)) > u128::MAX {
            None
        } else {
            Some(wagers_staked(wager_views(wagers@)) as u128)
        }),
{
    let ghost views = wager_views(wagers@);
    let mut total: u128 = 0;
    let mut i: usize = 0;
    assert(views.take(0) =~= Seq::<BetInfoView>::empty());
    proof {
        lemma_payout_nonnegative(views, Seq::empty(), 0);
    }
    while i < wagers.len()
        invariant
            i <= wagers.len(),
            views == wager_views(wagers@),
            total == wagers_staked(views.take(i as int)),
            wagers_staked(views) >= 0,
        decreases wagers.len() - i,
    {
        let legs = &wagers[i].bet_info;
        let ghost base = total;
        proof {
            assert(views[i as int] == wagers@[i as int]@);
            assert(views.take(i + 1).drop_last() =~= views.take(i as int));
            lemma_wagers_prefix(views, i + 1, 0);
            lemma_payout_nonnegative(views.take(i as int), legs@, 0);
        }
        let mut j: usize = 0;
        assert(legs@.take(0) =~= Seq::<BetConfig>::empty());
        while j < legs.len()
            invariant
                j <= legs.len(),
                views == wager_views(wagers@),
                total == base + legs_staked(legs@.take(j as int)),
                base + legs_staked(legs@) <= wagers_staked(views),
                base >= 0,
            decreases legs.len() - j,
        {
            proof {
                assert(legs@.take(j + 1).drop_last() =~= legs@.take(j as int));
                lemma_legs_prefix(legs@, j + 1, 0);
            }
            match total.checked_add(legs[j].amount) {
                Some(sum) => {
                    total = sum;
                },
                None => {
                    assert(legs_staked(legs@.take(j + 1)) == legs_staked(legs@.take(j as int))
                        + legs@[j as int].amount);
                    assert(wagers_staked(views) > u128::MAX);
                    return None;
                },
            }
            j = j + 1;
        }
        assert(legs@.take(j as int) =~= legs@);
        i = i + 1;
    }
    assert(views.take(i as int) =~= views);
    Some(total)
}

/// The first `k` legs pay and stake no more than all of them.
pub proof fn lemma_legs_prefix(legs: Seq<BetConfig>, k: int, n: int)
    requires
        0 <= k <= legs.len(),
    ensures
        legs_payout(legs.take(k), n) <= legs_payout(legs, n),
        legs_staked(legs.take(k)) <= legs_staked(legs),
    decreases legs.len() - k,
{
    if k == legs.len() {
        assert(legs.take(k) =~= legs);
    } else {
        lemma_legs_prefix(legs, k + 1, n);
        assert(legs.take(k + 1).drop_last() =~= legs.take(k));
        lemma_payout_nonnegative(Seq::empty(), seq![legs[k]], n);
        assert(seq![legs[k]].drop_last() =~= Seq::<BetConfig>::empty());
        assert(leg_payout(legs[k], n) >= 0);
    }
}

/// The first `k` wagers pay and stake no more than all of them.
pub proof fn lemma_wagers_prefix(wagers: Seq<BetInfoView>, k: int, n: int)
    requires
        0 <= k <= wagers.len(),
    ensures
        wagers_payout(wagers.take(k), n) <= wagers_payout(wagers, n),
        wagers_staked(wagers.take(k)) <= wagers_staked(wagers),
    decreases wagers.len() - k,
{
    if k == wagers.len() {
        assert(wagers.take(k) =~= wagers);
    } else {
        lemma_wagers_prefix(wagers, k + 1, n);
        assert(wagers.take(k + 1).drop_last() =~= wagers.take(k));
        lemma_payout_nonnegative(Seq::empty(), wagers[k].bet_info, n);
    }
}

} // verus!

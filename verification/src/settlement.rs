//! The settlement of a round in one room: what each player is paid for the
//! winning number, and the platform's fee on what the house keeps.

use vstd::prelude::*;
use crate::ledger::wager_views;
use crate::msg::BetConfig;
use crate::payout::{get_points_ratio_information, lemma_table_entry};
use crate::response::{get_payout_msg, payout_msg, transfer_views, TransferMsg, TransferMsgView};
use crate::solvency::{
    legs_payout, legs_staked, legs_valid, lemma_legs_payout_push, lemma_legs_prefix,
    lemma_payout_nonnegative, lemma_wagers_prefix, wagers_payout, wagers_staked, wagers_valid,
};
use crate::state::{AssetInfo, AssetInfoView, BetInfo, BetInfoView, Decimal, DECIMAL_FRACTIONAL};

verus! {

/// The part `fee` of `amount`, rounded down.
pub open spec fn fee_of(amount: int, fee: Decimal) -> int {
    amount * fee.atomics / (DECIMAL_FRACTIONAL as int)
}

/// The product of an amount and a decimal fraction, rounded down, as the
/// `*` of `cosmwasm_std` gives it for a `Uint128` and a `Decimal`: the amount
/// times the fraction's atomic units, divided by ten to the eighteenth. That
/// operator aborts when the result is too large for a `Uint128`, so such
/// inputs are left out.
#[verifier::external_body]
pub(crate) fn mul_decimal(amount: u128, fee: Decimal) -> (r: u128)
    requires
        fee_of(amount as int, fee) <= u128::MAX,
    ensures
        r == fee_of(amount as int, fee),
{
    let fraction = cosmwasm_std::Decimal::new(cosmwasm_std::Uint128::new(fee.atomics));
    (cosmwasm_std::Uint128::new(amount) * fraction).u128()
}

/// A fraction of at most one takes no more than the whole.
pub proof fn lemma_fee_bounded(amount: int, fee: Decimal)
    requires
        amount >= 0,
        fee.atomics <= DECIMAL_FRACTIONAL,
    ensures
        0 <= fee_of(amount, fee) <= amount,
{
    let d = DECIMAL_FRACTIONAL as int;
    let a = fee.atomics as int;
    assert(amount * a <= amount * d) by (nonlinear_arith)
        requires
            amount >= 0,
            0 <= a <= d,
    ;
    assert(amount * a >= 0) by (nonlinear_arith)
        requires
            amount >= 0,
            a >= 0,
    ;
    assert((amount * a) / d <= amount) by (nonlinear_arith)
        requires
            amount * a <= amount * d,
            d > 0,
    ;
    assert((amount * a) / d >= 0) by (nonlinear_arith)
        requires
            amount * a >= 0,
            d > 0,
    ;
}

/// The transfers that pay the players of a room for the winning number:
/// one for each wager that wins anything, in the order of the wagers.
pub open spec fn reward_msgs(denom: AssetInfoView, wagers: Seq<BetInfoView>, winner: int) -> Seq<
    TransferMsgView,
>
    decreases wagers.len(),
{
    if wagers.len() == 0 {
        Seq::empty()
    } else {
        let rest = reward_msgs(denom, wagers.drop_last(), winner);
        let reward = legs_payout(wagers.last().bet_info, winner);
        if reward > 0 {
            rest.push(payout_msg(denom, wagers.last().player, reward as u128))
        } else {
            rest
        }
    }
}

/// The platform's fee for a room: its part of what the house keeps, if the
/// house keeps anything.
pub open spec fn house_fee(wagers: Seq<BetInfoView>, winner: int, fee: Decimal) -> int {
    if wagers_staked(wagers) > wagers_payout(wagers, winner) {
        fee_of(wagers_staked(wagers) - wagers_payout(wagers, winner), fee)
    } else {
        0
    }
}

/// All transfers of a room's settlement: the players' rewards, then the
/// platform's fee to the admin if it is not zero.
pub open spec fn room_msgs(
    denom: AssetInfoView,
    admin: Seq<char>,
    wagers: Seq<BetInfoView>,
    winner: int,
    fee: Decimal,
) -> Seq<TransferMsgView> {
    let rewards = reward_msgs(denom, wagers, winner);
    if house_fee(wagers, winner, fee) > 0 {
        rewards.push(payout_msg(denom, admin, house_fee(wagers, winner, fee) as u128))
    } else {
        rewards
    }
}

/// The sum of the amounts of a list of transfers.
pub open spec fn msgs_total(msgs: Seq<TransferMsgView>) -> int
    decreases msgs.len(),
{
    if msgs.len() == 0 {
        0
    } else {
        msgs_total(msgs.drop_last()) + msgs.last().amount()
    }
}

/// The rewards that a room's settlement pays add up to what the wagers of
/// the room pay on the winning number: nothing is lost and nothing is added.
pub proof fn lemma_rewards_total(denom: AssetInfoView, wagers: Seq<BetInfoView>, winner: int)
    requires
        wagers_payout(wagers, winner) <= u128::MAX,
    ensures
        msgs_total(reward_msgs(denom, wagers, winner)) == wagers_payout(wagers, winner),
    decreases wagers.len(),
{
    if wagers.len() > 0 {
        let rest = wagers.drop_last();
        let last = wagers.last();
        lemma_payout_nonnegative(rest, last.bet_info, winner);
        lemma_rewards_total(denom, rest, winner);
        let reward = legs_payout(last.bet_info, winner);
        if reward > 0 {
            let m = payout_msg(denom, last.player, reward as u128);
            assert(reward_msgs(denom, rest, winner).push(m).drop_last() =~= reward_msgs(
                denom,
                rest,
                winner,
            ));
        }
    }
}

/// Whether a list of numbers holds `n`.
fn holds_point(points: &Vec<u32>, n: u32) -> (r: bool)
    ensures
        r == points@.contains(n),
{
    let mut i: usize = 0;
    while i < points.len()
        invariant
            i <= points.len(),
            forall|k: int| 0 <= k < i ==> points@[k] != n,
        decreases points.len() - i,
    {
        if points[i] == n {
            return true;
        }
        i = i + 1;
    }
    false
}

/// What the legs of one wager pay on the winning number, and the sum of
/// their amounts.
pub fn wager_reward(legs: &Vec<BetConfig>, winner: u32) -> (r: (u128, u128))
    requires
        legs_valid(legs@),
        legs_payout(legs@, winner as int) <= u128::MAX,
        legs_staked(legs@) <= u128::MAX,
    ensures
        r.0 == legs_payout(legs@, winner as int),
        r.1 == legs_staked(legs@),
{
    let mut reward: u128 = 0;
    let mut staked: u128 = 0;
    let mut i: usize = 0;
    assert(legs@.take(0) =~= Seq::<BetConfig>::empty());
    while i < legs.len()
        invariant
            i <= legs.len(),
            legs_valid(legs@),
            legs_payout(legs@, winner as int) <= u128::MAX,
            legs_staked(legs@) <= u128::MAX,
            reward == legs_payout(legs@.take(i as int), winner as int),
            staked == legs_staked(legs@.take(i as int)),
        decreases legs.len() - i,
    {
        let leg = legs[i];
        proof {
            assert(legs@.take(i + 1) =~= legs@.take(i as int).push(leg));
            lemma_legs_payout_push(legs@.take(i as int), leg, winner as int);
            lemma_legs_prefix(legs@, i + 1, winner as int);
            lemma_table_entry(leg.direction);
            lemma_payout_nonnegative(Seq::empty(), legs@.take(i as int), winner as int);
        }
        staked = staked + leg.amount;
        match get_points_ratio_information(&leg.direction) {
            Ok(info) => {
                if holds_point(&info.points, winner) {
                    reward = reward + leg.amount * (info.ratio as u128);
                }
            },
            Err(_) => {},
        }
        i = i + 1;
    }
    assert(legs@.take(i as int) =~= legs@);
    (reward, staked)
}

/// Settles one room for the winning number: appends to `out` a transfer for
/// each wager that wins, and then the platform's fee to `admin` if the house
/// keeps anything and the fee is not zero.
pub fn settle_room(
    denom: &AssetInfo,
    admin: &str,
    platform_fee: Decimal,
    wagers: &Vec<BetInfo>,
    winner: u32,
    out: &mut Vec<TransferMsg>,
)
    requires
        wagers_valid(wager_views(wagers@)),
        wagers_payout(wager_views(wagers@), winner as int) <= u128::MAX,
        wagers_staked(wager_views(wagers@)) <= u128::MAX,
        platform_fee.atomics <= DECIMAL_FRACTIONAL,
    ensures
        transfer_views(final(out)@) == transfer_views(old(out)@) + room_msgs(
            denom@,
            admin@,
            wager_views(wagers@),
            winner as int,
            platform_fee,
        ),
{
    let ghost views = wager_views(wagers@);
    let ghost before = transfer_views(out@);
    let mut total_bet_amount: u128 = 0;
    let mut user_winning_amount: u128 = 0;
    let mut i: usize = 0;
    proof {
        assert(views.take(0) =~= Seq::<BetInfoView>::empty());
        assert(before + reward_msgs(denom@, views.take(0), winner as int) =~= before);
    }
    while i < wagers.len()
        invariant
            i <= wagers.len(),
            views == wager_views(wagers@),
            wagers_valid(views),
            wagers_payout(views, winner as int) <= u128::MAX,
            wagers_staked(views) <= u128::MAX,
            total_bet_amount == wagers_staked(views.take(i as int)),
            user_winning_amount == wagers_payout(views.take(i as int), winner as int),
            transfer_views(out@) == before + reward_msgs(
                denom@,
                views.take(i as int),
                winner as int,
            ),
        decreases wagers.len() - i,
    {
        let ghost sent = transfer_views(out@);
        proof {
            assert(views[i as int] == wagers@[i as int]@);
            assert(views.take(i + 1).drop_last() =~= views.take(i as int));
            lemma_wagers_prefix(views, i + 1, winner as int);
            lemma_payout_nonnegative(views.take(i as int), views[i as int].bet_info, winner as int);
        }
        let (reward, staked) = wager_reward(&wagers[i].bet_info, winner);
        total_bet_amount = total_bet_amount + staked;
        user_winning_amount = user_winning_amount + reward;
        if reward > 0 {
            let msg = get_payout_msg(denom, wagers[i].player.as_str(), reward);
            out.push(msg);
            assert(transfer_views(out@) =~= sent.push(msg@));
        }
        i = i + 1;
        assert(transfer_views(out@) =~= before + reward_msgs(
            denom@,
            views.take(i as int),
            winner as int,
        ));
    }
    assert(views.take(i as int) =~= views);
    if total_bet_amount > user_winning_amount {
        let reward_for_admin_side: u128 = total_bet_amount - user_winning_amount;
        proof {
            lemma_fee_bounded(reward_for_admin_side as int, platform_fee);
        }
        let game_fee = mul_decimal(reward_for_admin_side, platform_fee);
        if game_fee > 0 {
            let ghost sent = transfer_views(out@);
            let msg = get_payout_msg(denom, admin, game_fee);
            out.push(msg);
            assert(transfer_views(out@) =~= sent.push(msg@));
        }
    }
    assert(transfer_views(out@) =~= before + room_msgs(
        denom@,
        admin@,
        views,
        winner as int,
        platform_fee,
    ));
}

} // verus!

//! The placing of a wager.

use vstd::prelude::*;
use crate::checks::{
    assert_min_max_limit, assert_not_double_bet, assert_not_haulted, elapsed, funds_check,
    room_index, seconds_since, validate_input_amount, validate_room_id,
};
use crate::env::{coin_views, CoinView, Env, MessageInfo};
use crate::error::ContractError;
use crate::ledger::wager_views;
use crate::msg::{direction_label, BetConfig};
use crate::payout::{covered_points, get_points_ratio_information, WHEEL_SIZE};
use crate::response::{
    attr, attribute_views, get_cw20_transfer_from_msg, response_of, transfer_views, Attribute,
    Response, ResponseView, TransferMsg, TransferMsgView,
};
use crate::solvency::{
    capped, legs_staked, legs_valid, validate_maximum_reward_exceed, wagers_payout, wagers_staked,
    worst_case, worst_number,
};
use crate::state::{AssetInfo, AssetInfoView, BetInfo, BetInfoView};
use crate::store::{Store, StoreView};
use crate::text::{decimal, u128_to_string, u64_to_string};

verus! {

/// The most numbers that the legs of one wager may cover together.
pub const MAXIMUM_SELECT: usize = 19;

/// How many numbers the legs of a wager cover, each leg counted for itself.
pub open spec fn total_points(legs: Seq<BetConfig>) -> int
    decreases legs.len(),
{
    if legs.len() == 0 {
        0
    } else {
        total_points(legs.drop_last()) + covered_points(legs.last().direction).len()
    }
}

/// The first of a wager's legs' faults, if there is one: a leg with an
/// invalid selection, or else amounts whose sum is too large for a `u128`.
pub open spec fn legs_fault(legs: Seq<BetConfig>) -> Option<ContractError> {
    if !legs_valid(legs) {
        Some(ContractError::InvalidSelection)
    } else if legs_staked(legs) > u128::MAX {
        Some(ContractError::Overflow)
    } else {
        None
    }
}

/// Goes through the legs of a wager: gives the sum of their amounts and
/// whether they cover more numbers than one wager may.
pub fn survey_legs(legs: &Vec<BetConfig>) -> (r: Result<(u128, bool), ContractError>)
    ensures
        match legs_fault(legs@) {
            Some(e) => r == Err::<(u128, bool), ContractError>(e),
            None => r == Ok::<(u128, bool), ContractError>(
                (legs_staked(legs@) as u128, total_points(legs@) > MAXIMUM_SELECT),
            ),
        },
{
    let mut total_bet_amount: u128 = 0;
    let mut over: bool = false;
    let mut total_point: usize = 0;
    let mut i: usize = 0;
    assert(legs@.take(0) =~= Seq::<BetConfig>::empty());
    while i < legs.len()
        invariant
            i <= legs.len(),
            legs_valid(legs@.take(i as int)),
            over <==> legs_staked(legs@.take(i as int)) > u128::MAX,
            !over ==> total_bet_amount == legs_staked(legs@.take(i as int)),
            total_point <= MAXIMUM_SELECT + 18,
            total_point > MAXIMUM_SELECT <==> total_points(legs@.take(i as int)) > MAXIMUM_SELECT,
            total_point <= MAXIMUM_SELECT ==> total_point == total_points(legs@.take(i as int)),
            total_points(legs@.take(i as int)) >= 0,
            legs_staked(legs@.take(i as int)) >= 0,
        decreases legs.len() - i,
    {
        let leg = legs[i];
        proof {
            assert(legs@.take(i + 1).drop_last() =~= legs@.take(i as int));
        }
        match get_points_ratio_information(&leg.direction) {
            Err(_) => {
                return Err(ContractError::InvalidSelection);
            },
            Ok(point_info) => {
                proof {
                    crate::payout::lemma_table_entry(leg.direction);
                    assert(covered_points(leg.direction).len() <= 18) by {
                        assert(crate::payout::multiplier(leg.direction) >= 2);
                        assert(crate::payout::multiplier(leg.direction) * covered_points(
                            leg.direction,
                        ).len() == 36);
                        assert(covered_points(leg.direction).len() <= 18) by (nonlinear_arith)
                            requires
                                crate::payout::multiplier(leg.direction) >= 2,
                                crate::payout::multiplier(leg.direction) * covered_points(
                                    leg.direction,
                                ).len() == 36,
                        ;
                    }
                }
                if total_point <= MAXIMUM_SELECT {
                    total_point = total_point + point_info.points.len();
                }
            },
        }
        if !over {
            match total_bet_amount.checked_add(leg.amount) {
                Some(sum) => {
                    total_bet_amount = sum;
                },
                None => {
                    over = true;
                },
            }
        }
        i = i + 1;
    }
    assert(legs@.take(i as int) =~= legs@);
    if over {
        return Err(ContractError::Overflow);
    }
    Ok((total_bet_amount, total_point > MAXIMUM_SELECT))
}

/// The attributes that describe the legs of a wager: for each leg its
/// amount and then the label of its selection.
pub open spec fn leg_attributes(legs: Seq<BetConfig>) -> Seq<(Seq<char>, Seq<char>)>
    decreases legs.len(),
{
    if legs.len() == 0 {
        Seq::empty()
    } else {
        leg_attributes(legs.drop_last()) + seq![
            ("amount"@, decimal(legs.last().amount as nat)),
            ("direction"@, direction_label(legs.last().direction)),
        ]
    }
}

/// The attributes that describe the legs of a wager.
pub fn leg_attribute_list(legs: &Vec<BetConfig>) -> (out: Vec<Attribute>)
    ensures
        attribute_views(out@) == leg_attributes(legs@),
{
    let mut out: Vec<Attribute> = Vec::new();
    let mut i: usize = 0;
    assert(legs@.take(0) =~= Seq::<BetConfig>::empty());
    assert(attribute_views(out@) =~= leg_attributes(legs@.take(0)));
    while i < legs.len()
        invariant
            i <= legs.len(),
            attribute_views(out@) == leg_attributes(legs@.take(i as int)),
        decreases legs.len() - i,
    {
        let ghost before = attribute_views(out@);
        let a = attr("amount", u128_to_string(legs[i].amount));
        let d = attr("direction", legs[i].direction.label());
        out.push(a);
        out.push(d);
        proof {
            assert(legs@.take(i + 1).drop_last() =~= legs@.take(i as int));
            assert(attribute_views(out@) =~= before + seq![
                ("amount"@, decimal(legs@[i as int].amount as nat)),
                ("direction"@, direction_label(legs@[i as int].direction)),
            ]);
        }
        i = i + 1;
    }
    assert(legs@.take(i as int) =~= legs@);
    out
}

/// Why a wager is refused, if it is: the first check that fails, in this
/// order. The round's duration has passed; the room does not exist; a leg
/// is faulty; the legs cover too many numbers; the pool is halted; the total
/// is outside the room's limits; the player already holds a wager in the
/// room and round; the funds are not the total; the asset service did not
/// tell what the pool holds; some number would cost more than the pool
/// holds; the stakes of the room and round would leave the range of `u128`.
pub open spec fn bet_refusal(
    s: StoreView,
    now: u64,
    sender: Seq<char>,
    room_id: u64,
    legs: Seq<BetConfig>,
    funds: Seq<CoinView>,
    balance: Option<u128>,
) -> Option<ContractError> {
    let total = legs_staked(legs);
    if s.round_started() && elapsed(now, s.round_start()) > s.config.next_round_seconds {
        Some(ContractError::RoundFinished)
    } else if !s.has_room(room_id) {
        Some(ContractError::RoomNotFound { room_id })
    } else if legs_fault(legs) is Some {
        legs_fault(legs)
    } else if total_points(legs) > MAXIMUM_SELECT {
        Some(ContractError::ExceedBetPoints)
    } else if s.state.is_haulted {
        Some(ContractError::Halted)
    } else if total < s.room(room_id).min_bet || total > s.room(room_id).max_bet {
        Some(
            ContractError::BetOutOfLimits {
                min_bet: s.room(room_id).min_bet,
                max_bet: s.room(room_id).max_bet,
            },
        )
    } else if s.has_wager(room_id, s.state.living_round, sender) {
        Some(ContractError::DuplicateWager)
    } else if funds_check(funds, total as u128, s.room(room_id).game_denom) is Err {
        Some(ContractError::InsufficientFunds)
    } else if balance is None {
        Some(ContractError::QueryFailed)
    } else if worst_case(s.open_wagers(room_id), legs) > balance->0 {
        Some(
            ContractError::InsufficientPoolCoverage {
                held: balance->0,
                number: worst_number(s.open_wagers(room_id), legs) as u32,
                worst_case: capped(worst_case(s.open_wagers(room_id), legs)),
            },
        )
    } else if wagers_staked(s.open_wagers(room_id)) + total > u128::MAX {
        Some(ContractError::Overflow)
    } else {
        None
    }
}

/// The wager that is entered for an admitted candidate.
pub open spec fn bet_record(
    s: StoreView,
    now: u64,
    sender: Seq<char>,
    room_id: u64,
    legs: Seq<BetConfig>,
) -> BetInfoView {
    BetInfoView {
        player: sender,
        round_id: s.state.living_round,
        room_id,
        bet_info: legs,
        bet_time: now,
    }
}

/// The room's reserve floor after a wager was admitted: the larger of the
/// floor before and the worst case with the new wager.
pub open spec fn raised_floor(s: StoreView, room_id: u64, legs: Seq<BetConfig>) -> int {
    let worst = worst_case(s.open_wagers(room_id), legs);
    if worst > s.reserve(room_id) {
        worst
    } else {
        s.reserve(room_id) as int
    }
}

/// How the state `t` after an admitted wager stands to the state `s` before
/// it: the round is open since `now` unless it was open already, the room's
/// reserve floor is raised, and the ledger holds the new wager besides those
/// it held.
pub open spec fn bet_applied(
    s: StoreView,
    t: StoreView,
    now: u64,
    sender: Seq<char>,
    room_id: u64,
    legs: Seq<BetConfig>,
) -> bool {
    &&& t.version == s.version
    &&& t.config == s.config
    &&& t.state == s.state
    &&& t.rooms == s.rooms
    &&& t.winner_number == s.winner_number
    &&& t.round_start_second == (if s.round_started() {
        s.round_start_second
    } else {
        s.round_start_second.push(now)
    })
    &&& t.minimum_reserve == s.minimum_reserve.update(
        room_id - 1,
        raised_floor(s, room_id, legs) as u128,
    )
    &&& exists|at: int|
        0 <= at <= s.bets.len() && t.bets == s.bets.insert(
            at,
            bet_record(s, now, sender, room_id, legs),
        )
}

/// What an admitted wager hands back: the action, the room and the legs as
/// attributes, and for a room of a token the transfer of the total from the
/// player to the pool.
pub open spec fn bet_response(
    s: StoreView,
    sender: Seq<char>,
    pool: Seq<char>,
    room_id: u64,
    legs: Seq<BetConfig>,
) -> ResponseView {
    ResponseView {
        attributes: seq![("action"@, "bet"@), ("room_id"@, decimal(room_id as nat))]
            + leg_attributes(legs),
        messages: match s.room(room_id).game_denom {
            AssetInfoView::Token { contract_addr } => seq![
                TransferMsgView::Cw20TransferFrom {
                    token_addr: contract_addr,
                    owner: sender,
                    recipient: pool,
                    amount: legs_staked(legs) as u128,
                },
            ],
            AssetInfoView::NativeToken { denom } => Seq::empty(),
        },
    }
}

/// What the placing of a wager does: it is refused for the first reason
/// that `bet_refusal` finds, and then nothing changes; or it is entered as
/// `bet_applied` says and answered as `bet_response` says.
pub open spec fn bet_outcome(
    s: StoreView,
    t: StoreView,
    now: u64,
    sender: Seq<char>,
    pool: Seq<char>,
    room_id: u64,
    legs: Seq<BetConfig>,
    funds: Seq<CoinView>,
    balance: Option<u128>,
    r: Result<ResponseView, ContractError>,
) -> bool {
    match bet_refusal(s, now, sender, room_id, legs, funds, balance) {
        Some(e) => r == Err::<ResponseView, ContractError>(e) && t == s,
        None => r == Ok::<ResponseView, ContractError>(
            bet_response(s, sender, pool, room_id, legs),
        ) && bet_applied(s, t, now, sender, room_id, legs),
    }
}

/// An admitted wager is in the ledger, so that a second wager of the same
/// player in the same room and round is refused as a duplicate if nothing
/// else refuses it first; and no reserve floor has fallen.
pub proof fn lemma_admitted_wager_is_recorded(
    s: StoreView,
    t: StoreView,
    now: u64,
    sender: Seq<char>,
    pool: Seq<char>,
    room_id: u64,
    legs: Seq<BetConfig>,
    funds: Seq<CoinView>,
    balance: Option<u128>,
    r: Result<ResponseView, ContractError>,
)
    requires
        s.wf(),
        bet_outcome(s, t, now, sender, pool, room_id, legs, funds, balance, r),
        r is Ok,
    ensures
        s.has_room(room_id),
        t.has_wager(room_id, t.state.living_round, sender),
        forall|other: u64| s.has_room(other) ==> t.reserve(other) >= s.reserve(other),
{
    let w = bet_record(s, now, sender, room_id, legs);
    let at = choose|at: int| 0 <= at <= s.bets.len() && t.bets == s.bets.insert(at, w);
    assert(t.bets[at] == w);
    crate::solvency::lemma_worst_below(s.open_wagers(room_id), legs, WHEEL_SIZE as int);
}

/// Places a wager for the caller in a room, in the open round.
///
/// The wager is refused for the first reason that `bet_refusal` finds, and
/// then nothing changes. Otherwise it is entered as `bet_applied` says, and
/// the pool stays solvent.
pub fn execute_bet(
    store: &mut Store,
    env: &Env,
    info: &MessageInfo,
    room_id: u64,
    bet_info: Vec<BetConfig>,
    balance: Option<u128>,
) -> (r: Result<Response, ContractError>)
    requires
        old(store).wf(),
    ensures
        final(store).wf(),
        bet_outcome(
            old(store)@,
            final(store)@,
            env.block.time.nanos / crate::env::NANOS_PER_SECOND,
            info.sender@,
            env.contract.address@,
            room_id,
            bet_info@,
            coin_views(info.funds@),
            balance,
            response_of(r),
        ),
{
    let ghost s = store@;
    let ghost legs = bet_info@;
    let crr_time = env.block.time.seconds();
    let living_round = store.state.living_round;
    let started: bool = store.round_start_second.len() as u64 > living_round;
    if started {
        let round_start_time = store.round_start_second[living_round as usize];
        if seconds_since(crr_time, round_start_time) > store.config.next_round_seconds {
            return Err(ContractError::RoundFinished);
        }
    }
    let room_info = match validate_room_id(store, room_id) {
        Ok(room) => room,
        Err(e) => {
            return Err(e);
        },
    };
    let (total_bet_amount, too_many) = match survey_legs(&bet_info) {
        Ok(found) => found,
        Err(e) => {
            return Err(e);
        },
    };
    proof {
        crate::solvency::lemma_payout_nonnegative(Seq::empty(), legs, 0);
    }
    if too_many {
        return Err(ContractError::ExceedBetPoints);
    }
    match assert_not_haulted(&store.state) {
        Ok(_) => {},
        Err(e) => {
            return Err(e);
        },
    }
    match assert_min_max_limit(total_bet_amount, &room_info) {
        Ok(_) => {},
        Err(e) => {
            return Err(e);
        },
    }
    match assert_not_double_bet(&store.bets, room_id, living_round, info.sender.as_str()) {
        Ok(_) => {},
        Err(e) => {
            return Err(e);
        },
    }
    match validate_input_amount(&info.funds, total_bet_amount, &room_info.game_denom) {
        Ok(_) => {},
        Err(e) => {
            return Err(ContractError::InsufficientFunds);
        },
    }
    let token_hold_amount = match balance {
        Some(held) => held,
        None => {
            return Err(ContractError::QueryFailed);
        },
    };
    let room_round_players = store.bets.scan(room_id, living_round);
    let at = room_index(store, room_id);
    let ghost open = s.open_wagers(room_id);
    proof {
        assert(wager_views(room_round_players@) == open);
        crate::store::lemma_room_wagers_valid(s.bets, room_id, living_round);
        assert(wagers_staked(open) <= u128::MAX);
        crate::solvency::lemma_payout_nonnegative(open, legs, 0);
    }
    let withdraw_limit_for_admin = match validate_maximum_reward_exceed(
        &room_round_players,
        &bet_info,
        token_hold_amount,
        store.minimum_reserve[at],
    ) {
        Ok(floor) => floor,
        Err(e) => {
            return Err(e);
        },
    };
    let within = match crate::solvency::staked_within(&room_round_players) {
        Some(staked_before) => staked_before.checked_add(total_bet_amount).is_some(),
        None => false,
    };
    if !within {
        return Err(ContractError::Overflow);
    }
    if !started {
        store.round_start_second.push(crr_time);
    }
    store.minimum_reserve.set(at, withdraw_limit_for_admin);
    let record = BetInfo {
        player: info.sender.clone(),
        round_id: living_round,
        room_id,
        bet_info: crate::state::clone_legs(&bet_info),
        bet_time: crr_time,
    };
    let ghost w = record@;
    assert(w == bet_record(s, crr_time, info.sender@, room_id, legs));
    let entered = store.bets.insert(record);
    let ghost t = store@;
    proof {
        assert(entered is Ok);
        let at_bets = choose|k: int| 0 <= k <= s.bets.len() && t.bets == s.bets.insert(k, w);
        crate::solvency::lemma_worst_below(open, legs, WHEEL_SIZE as int);
        assert forall|n: int| 0 <= n < WHEEL_SIZE implies #[trigger] wagers_payout(open, n)
            + crate::solvency::legs_payout(legs, n) <= withdraw_limit_for_admin by {
            assert(crate::solvency::liability(open, legs, n) <= worst_case(open, legs));
        }
        crate::store::lemma_wager_keeps_wf(s, t, w, at_bets, withdraw_limit_for_admin);
    }
    let mut attributes: Vec<Attribute> = Vec::new();
    attributes.push(attr("action", "bet".to_string()));
    attributes.push(attr("room_id", u64_to_string(room_id)));
    let mut bet_info_attributes = leg_attribute_list(&bet_info);
    let ghost head = attribute_views(attributes@);
    let ghost tail = attribute_views(bet_info_attributes@);
    attributes.append(&mut bet_info_attributes);
    assert(attribute_views(attributes@) =~= head + tail);
    assert(head =~= seq![("action"@, "bet"@), ("room_id"@, decimal(room_id as nat))]);
    let mut messages: Vec<TransferMsg> = Vec::new();
    match &room_info.game_denom {
        AssetInfo::Token { contract_addr } => {
            let msg = get_cw20_transfer_from_msg(
                contract_addr.as_str(),
                info.sender.as_str(),
                env.contract.address.as_str(),
                total_bet_amount,
            );
            messages.push(msg);
            assert(transfer_views(messages@) =~= seq![msg@]);
        },
        AssetInfo::NativeToken { denom: _ } => {
            assert(transfer_views(messages@) =~= Seq::<TransferMsgView>::empty());
        },
    }
    Ok(Response { attributes, messages })
}

} // verus!

//! The closing of a round: the draw of the winning number, the settlement
//! in every room, and the opening of the next round.

use vstd::prelude::*;
use crate::checks::{assert_is_distributor, elapsed, seconds_since};
use crate::env::{Env, MessageInfo};
use crate::error::ContractError;
use crate::ledger::wager_views;
use crate::payout::WHEEL_SIZE;
use crate::response::{
    attr, attribute_views, response_of, transfer_views, Attribute, Response, ResponseView,
    TransferMsg, TransferMsgView,
};
use crate::solvency::{wagers_payout, wagers_staked};
use crate::state::{BetInfoView, State};
use crate::store::{Store, StoreView};
use crate::text::{decimal, u64_to_string};

verus! {

/// The transfers that settle the open round in the first `rooms` rooms for
/// the winning number: room by room, each room's rewards and then its fee.
pub open spec fn settlement_msgs(s: StoreView, winner: int, rooms: int) -> Seq<TransferMsgView>
    decreases rooms,
{
    if rooms <= 0 {
        Seq::empty()
    } else {
        settlement_msgs(s, winner, rooms - 1) + crate::settlement::room_msgs(
            s.rooms[rooms - 1].game_denom,
            s.config.admin,
            s.open_wagers(rooms as u64),
            winner,
            s.config.platform_fee,
        )
    }
}

/// Whatever number wins, the rewards that a room pays at the settlement of
/// the open round add up to what its winning legs pay, and stay within the
/// room's reserve floor.
pub proof fn lemma_rewards_within_reserve(s: StoreView, room_id: u64, winner: int)
    requires
        s.wf(),
        s.has_room(room_id),
        0 <= winner < WHEEL_SIZE,
    ensures
        crate::settlement::msgs_total(
            crate::settlement::reward_msgs(
                s.room(room_id).game_denom,
                s.open_wagers(room_id),
                winner,
            ),
        ) == wagers_payout(s.open_wagers(room_id), winner),
        wagers_payout(s.open_wagers(room_id), winner) <= s.reserve(room_id),
{
    crate::settlement::lemma_rewards_total(
        s.room(room_id).game_denom,
        s.open_wagers(room_id),
        winner,
    );
}

/// Settles the open round in every room for the winning number: the
/// transfers to the winners and the platform's fees, room by room.
pub fn distribute_reward_to_users(store: &Store, winner: u32) -> (msgs: Vec<TransferMsg>)
    requires
        store.wf(),
        winner < WHEEL_SIZE,
    ensures
        transfer_views(msgs@) == settlement_msgs(store@, winner as int, store@.rooms.len() as int),
{
    let ghost s = store@;
    let mut transfer_msgs: Vec<TransferMsg> = Vec::new();
    let mut i: usize = 0;
    assert(transfer_views(transfer_msgs@) =~= settlement_msgs(s, winner as int, 0));
    assert(s.rooms.len() == store.rooms@.len());
    while i < store.rooms.len()
        invariant
            i <= store.rooms.len(),
            s == store@,
            store.wf(),
            winner < WHEEL_SIZE,
            transfer_views(transfer_msgs@) == settlement_msgs(s, winner as int, i as int),
        decreases store.rooms.len() - i,
    {
        let room_id: u64 = (i + 1) as u64;
        let players_info = store.bets.scan(room_id, store.state.living_round);
        proof {
            assert(s.rooms.len() == store.rooms@.len());
            assert(s.has_room(room_id));
            assert(s.rooms[i as int] == store.rooms@[i as int]@);
            assert(wager_views(players_info@) == s.open_wagers(room_id));
            crate::store::lemma_room_wagers_valid(s.bets, room_id, s.state.living_round);
            assert(wagers_payout(s.open_wagers(room_id), winner as int) <= s.reserve(room_id));
            assert(wagers_staked(s.open_wagers(room_id)) <= u128::MAX);
        }
        crate::settlement::settle_room(
            &store.rooms[i].game_denom,
            store.config.admin.as_str(),
            store.config.platform_fee,
            &players_info,
            winner,
            &mut transfer_msgs,
        );
        i = i + 1;
    }
    transfer_msgs
}

/// Why the open round cannot be closed, if it cannot: no wager has opened
/// it; or its duration has not passed since it opened; or the caller is not
/// the distributor.
pub open spec fn close_refusal(s: StoreView, now: u64, sender: Seq<char>) -> Option<ContractError> {
    if !s.round_started() {
        Some(ContractError::RoundNotStarted)
    } else if elapsed(now, s.round_start()) < s.config.next_round_seconds {
        Some(ContractError::RoundNotFinished)
    } else if sender != s.config.distributor {
        Some(ContractError::Unauthorized)
    } else {
        None
    }
}

/// How the state `t` after the closing of a round stands to the state `s`
/// before it: the winning number is recorded, the next round is the open
/// one, and every room's reserve floor is zero again.
pub open spec fn close_applied(s: StoreView, t: StoreView, winner: u32) -> bool {
    &&& t.version == s.version
    &&& t.config == s.config
    &&& t.state == (State { living_round: (s.state.living_round + 1) as u64, ..s.state })
    &&& t.state.living_round == s.state.living_round + 1
    &&& t.rooms == s.rooms
    &&& t.winner_number == s.winner_number.push(winner)
    &&& t.round_start_second == s.round_start_second
    &&& t.minimum_reserve == Seq::new(s.minimum_reserve.len(), |i: int| 0u128)
    &&& t.bets == s.bets
}

/// What the closing of a round hands back: the action, the winning number
/// and the round as attributes, and the transfers of the settlement.
pub open spec fn close_response(s: StoreView, winner: u32) -> ResponseView {
    ResponseView {
        attributes: seq![
            ("action"@, "close_round"@),
            ("winner"@, decimal(winner as nat)),
            ("round_id"@, decimal(s.state.living_round as nat)),
        ],
        messages: settlement_msgs(s, winner as int, s.rooms.len() as int),
    }
}

/// What the closing of a round with a winning number does: it is refused
/// for the first reason that `close_refusal` finds, and then nothing
/// changes; or the round is closed as `close_applied` says and answered as
/// `close_response` says.
pub open spec fn close_outcome(
    s: StoreView,
    t: StoreView,
    now: u64,
    sender: Seq<char>,
    winner: u32,
    r: Result<ResponseView, ContractError>,
) -> bool {
    match close_refusal(s, now, sender) {
        Some(e) => r == Err::<ResponseView, ContractError>(e) && t == s,
        None => r == Ok::<ResponseView, ContractError>(close_response(s, winner))
            && close_applied(s, t, winner),
    }
}

/// Every closing that succeeds moves the round counter up by exactly one,
/// and a closing that fails leaves it where it was. A closing fails if no
/// wager has opened the round, and if the round's duration has not passed
/// since its first wager.
pub proof fn lemma_close_advances_round(
    s: StoreView,
    t: StoreView,
    now: u64,
    sender: Seq<char>,
    winner: u32,
    r: Result<ResponseView, ContractError>,
)
    requires
        close_outcome(s, t, now, sender, winner, r),
    ensures
        r is Ok ==> t.state.living_round == s.state.living_round + 1,
        r is Err ==> t.state.living_round == s.state.living_round,
        !s.round_started() ==> r == Err::<ResponseView, ContractError>(
            ContractError::RoundNotStarted,
        ),
        s.round_started() && elapsed(now, s.round_start()) < s.config.next_round_seconds ==> r
            == Err::<ResponseView, ContractError>(ContractError::RoundNotFinished),
{
}

/// Closes the open round with a given winning number.
///
/// The closing is refused for the first reason that `close_refusal` finds,
/// and then nothing changes. Otherwise the round is settled in every room,
/// and the round counter goes up by one.
pub fn close_with_winner(store: &mut Store, env: &Env, info: &MessageInfo, winner: u32) -> (r:
    Result<Response, ContractError>)
    requires
        old(store).wf(),
        winner < WHEEL_SIZE,
    ensures
        final(store).wf(),
        close_outcome(
            old(store)@,
            final(store)@,
            env.block.time.nanos / crate::env::NANOS_PER_SECOND,
            info.sender@,
            winner,
            response_of(r),
        ),
{
    let ghost s = store@;
    let crr_time = env.block.time.seconds();
    let living_round = store.state.living_round;
    if store.round_start_second.len() as u64 <= living_round {
        return Err(ContractError::RoundNotStarted);
    }
    let round_start_time = store.round_start_second[living_round as usize];
    if seconds_since(crr_time, round_start_time) < store.config.next_round_seconds {
        return Err(ContractError::RoundNotFinished);
    }
    match assert_is_distributor(&store.config, info) {
        Ok(_) => {},
        Err(e) => {
            return Err(e);
        },
    }
    let transfer_messages = distribute_reward_to_users(store, winner);
    store.winner_number.push(winner);
    let closed: usize = store.winner_number.len();
    store.state.living_round = closed as u64;
    let mut at: usize = 0;
    while at < store.minimum_reserve.len()
        invariant
            at <= store.minimum_reserve.len(),
            store.minimum_reserve@.len() == s.minimum_reserve.len(),
            forall|k: int| 0 <= k < at ==> store.minimum_reserve@[k] == 0,
            store.version == old(store).version,
            store.config == old(store).config,
            store.rooms == old(store).rooms,
            store.bets == old(store).bets,
            store.round_start_second == old(store).round_start_second,
            store.winner_number@ == s.winner_number.push(winner),
            store.state == (State { living_round: (s.state.living_round + 1) as u64, ..s.state }),
        decreases store.minimum_reserve.len() - at,
    {
        store.minimum_reserve.set(at, 0);
        at = at + 1;
    }
    let ghost t = store@;
    proof {
        assert(t.minimum_reserve =~= Seq::new(s.minimum_reserve.len(), |i: int| 0u128));
        assert forall|room_id: u64| t.has_room(room_id) implies t.open_wagers(room_id)
            == Seq::<BetInfoView>::empty() by {
            crate::store::lemma_no_wagers_of_round(t.bets, room_id, t.state.living_round);
        }
        assert forall|room_id: u64, n: int|
            t.has_room(room_id) && 0 <= n < WHEEL_SIZE implies #[trigger] wagers_payout(
            t.open_wagers(room_id),
            n,
        ) <= t.reserve(room_id) by {
            assert(t.open_wagers(room_id) == Seq::<BetInfoView>::empty());
        }
        assert forall|room_id: u64| t.has_room(room_id) implies #[trigger] wagers_staked(
            t.open_wagers(room_id),
        ) <= u128::MAX by {
            assert(t.open_wagers(room_id) == Seq::<BetInfoView>::empty());
        }
    }
    let mut attributes: Vec<Attribute> = Vec::new();
    attributes.push(attr("action", "close_round".to_string()));
    attributes.push(attr("winner", u64_to_string(winner as u64)));
    attributes.push(attr("round_id", u64_to_string(living_round)));
    assert(attribute_views(attributes@) =~= close_response(s, winner).attributes);
    Ok(Response { attributes, messages: transfer_messages })
}

/// Closes the open round: draws the winning number from the block and the
/// caller, and settles the round with it as `close_with_winner` does.
pub fn execute_close(store: &mut Store, env: &Env, info: &MessageInfo) -> (r: Result<
    Response,
    ContractError,
>)
    requires
        old(store).wf(),
    ensures
        final(store).wf(),
        close_outcome(
            old(store)@,
            final(store)@,
            env.block.time.nanos / crate::env::NANOS_PER_SECOND,
            info.sender@,
            crate::rand::drawn_number(env.block.height, env.block.time.nanos, info.sender@),
            response_of(r),
        ),
{
    let winner = crate::rand::rand_generator(info, env);
    close_with_winner(store, env, info, winner)
}

} // verus!

//! The checks that the operations share: who may act, what funds came
//! with a call, which room is meant, and what the pool can spare.

use vstd::prelude::*;
use crate::env::{coin_views, Coin, CoinView, MessageInfo};
use crate::error::ContractError;
use crate::ledger::Ledger;
use crate::solvency::max_withdrawable;
use crate::state::{AssetInfo, AssetInfoView, Config, RoomConfig, State};
use crate::store::{Store, StoreView};
use crate::text::same_text;

verus! {

/// The seconds that have passed since `start`; none if `now` is earlier.
pub open spec fn elapsed(now: u64, start: u64) -> int {
    if now >= start {
        now - start
    } else {
        0
    }
}

/// The seconds that have passed since `start`.
pub fn seconds_since(now: u64, start: u64) -> (r: u64)
    ensures
        r == elapsed(now, start),
{
    if now >= start {
        now - start
    } else {
        0
    }
}

/// Fails if the pool is halted.
pub fn assert_not_haulted(state: &State) -> (r: Result<bool, ContractError>)
    ensures
        r == (if state.is_haulted {
            Err::<bool, ContractError>(ContractError::Halted)
        } else {
            Ok::<bool, ContractError>(true)
        }),
{
    if state.is_haulted {
        return Err(ContractError::Halted);
    }
    Ok(true)
}

/// Fails unless the caller is the pool's admin.
pub fn assert_is_admin(config: &Config, info: &MessageInfo) -> (r: Result<bool, ContractError>)
    ensures
        r == (if info.sender@ != config.admin@ {
            Err::<bool, ContractError>(ContractError::Unauthorized)
        } else {
            Ok::<bool, ContractError>(true)
        }),
{
    if info.sender != config.admin {
        return Err(ContractError::Unauthorized);
    }
    Ok(true)
}

/// Fails unless the caller is the pool's distributor.
pub fn assert_is_distributor(config: &Config, info: &MessageInfo) -> (r: Result<
    bool,
    ContractError,
>)
    ensures
        r == (if info.sender@ != config.distributor@ {
            Err::<bool, ContractError>(ContractError::Unauthorized)
        } else {
            Ok::<bool, ContractError>(true)
        }),
{
    if info.sender != config.distributor {
        return Err(ContractError::Unauthorized);
    }
    Ok(true)
}

/// What the check of a room's owner gives: a failure if the registry did
/// not answer, a refusal if it names another than the caller.
pub open spec fn owner_check(sender: Seq<char>, nft_owner: Option<Seq<char>>) -> Result<
    bool,
    ContractError,
> {
    match nft_owner {
        None => Err(ContractError::QueryFailed),
        Some(owner) => if sender != owner {
            Err(ContractError::Unauthorized)
        } else {
            Ok(true)
        },
    }
}

/// The text of an optional text.
pub open spec fn text_of(s: Option<String>) -> Option<Seq<char>> {
    match s {
        Some(t) => Some(t@),
        None => None,
    }
}

/// Fails unless the caller holds the room's ownership token, by the answer
/// of the ownership registry.
pub fn assert_is_room_owner(info: &MessageInfo, nft_owner: &Option<String>) -> (r: Result<
    bool,
    ContractError,
>)
    ensures
        r == owner_check(info.sender@, text_of(*nft_owner)),
{
    match nft_owner {
        None => Err(ContractError::QueryFailed),
        Some(room_owner) => {
            if info.sender != *room_owner {
                return Err(ContractError::Unauthorized);
            }
            Ok(true)
        },
    }
}

/// Why an act of a room's owner is refused before anything else is looked
/// at, if it is: the room does not exist, or the caller is not shown to
/// hold its ownership token.
pub open spec fn owner_refusal(
    s: StoreView,
    sender: Seq<char>,
    room_id: u64,
    nft_owner: Option<Seq<char>>,
) -> Option<ContractError> {
    if !s.has_room(room_id) {
        Some(ContractError::RoomNotFound { room_id })
    } else if owner_check(sender, nft_owner) is Err {
        Some(owner_check(sender, nft_owner)->Err_0)
    } else {
        None
    }
}

/// Fails unless the total of a wager is within the room's limits.
pub fn assert_min_max_limit(total_bet_amount: u128, room_info: &RoomConfig) -> (r: Result<
    bool,
    ContractError,
>)
    ensures
        r == (if total_bet_amount < room_info.min_bet || total_bet_amount > room_info.max_bet {
            Err::<bool, ContractError>(
                ContractError::BetOutOfLimits {
                    min_bet: room_info.min_bet,
                    max_bet: room_info.max_bet,
                },
            )
        } else {
            Ok::<bool, ContractError>(true)
        }),
{
    if total_bet_amount < room_info.min_bet || total_bet_amount > room_info.max_bet {
        return Err(
            ContractError::BetOutOfLimits {
                min_bet: room_info.min_bet,
                max_bet: room_info.max_bet,
            },
        );
    }
    Ok(true)
}

/// Fails if the player already holds a wager in the room and round.
pub fn assert_not_double_bet(bets: &Ledger, room_id: u64, living_round: u64, player: &str) -> (r:
    Result<bool, ContractError>)
    requires
        bets.wf(),
    ensures
        r == (if bets.has(room_id, living_round, player@) {
            Err::<bool, ContractError>(ContractError::DuplicateWager)
        } else {
            Ok::<bool, ContractError>(true)
        }),
{
    let bet_info = bets.may_load(room_id, living_round, player);
    if bet_info.is_some() {
        return Err(ContractError::DuplicateWager);
    }
    Ok(true)
}

/// The sum of the amounts of the coins of one denomination.
pub open spec fn funds_of(coins: Seq<CoinView>, denom: Seq<char>) -> int
    decreases coins.len(),
{
    if coins.len() == 0 {
        0
    } else {
        funds_of(coins.drop_last(), denom) + (if coins.last().denom == denom {
            coins.last().amount as int
        } else {
            0
        })
    }
}

/// The sum of the amounts of the coins of one denomination; `None` if it is
/// too large for a `u128`.
pub fn get_amount_for_denom(coins: &Vec<Coin>, denom: &str) -> (r: Option<u128>)
    ensures
        r == (if funds_of(coin_views(coins@), denom@) > u128::MAX {
            None
        } else {
            Some(funds_of(coin_views(coins@), denom@) as u128)
        }),
{
    let ghost views = coin_views(coins@);
    let mut amount: u128 = 0;
    let mut i: usize = 0;
    assert(views.take(0) =~= Seq::<CoinView>::empty());
    while i < coins.len()
        invariant
            i <= coins.len(),
            views == coin_views(coins@),
            amount == funds_of(views.take(i as int), denom@),
        decreases coins.len() - i,
    {
        proof {
            assert(views.take(i + 1).drop_last() =~= views.take(i as int));
            assert(views[i as int] == coins@[i as int]@);
        }
        if same_text(coins[i].denom.as_str(), denom) {
            match amount.checked_add(coins[i].amount) {
                Some(sum) => {
                    amount = sum;
                },
                None => {
                    proof {
                        lemma_funds_prefix(views, i + 1, denom@);
                    }
                    return None;
                },
            }
        }
        i = i + 1;
    }
    assert(views.take(i as int) =~= views);
    Some(amount)
}

/// The first `k` coins hold no more of a denomination than all of them.
pub proof fn lemma_funds_prefix(coins: Seq<CoinView>, k: int, denom: Seq<char>)
    requires
        0 <= k <= coins.len(),
    ensures
        0 <= funds_of(coins.take(k), denom) <= funds_of(coins, denom),
    decreases coins.len() - k,
{
    if k == coins.len() {
        assert(coins.take(k) =~= coins);
        lemma_funds_nonnegative(coins, denom);
    } else {
        lemma_funds_prefix(coins, k + 1, denom);
        assert(coins.take(k + 1).drop_last() =~= coins.take(k));
        lemma_funds_nonnegative(coins.take(k), denom);
    }
}

/// No sum of funds is negative.
pub proof fn lemma_funds_nonnegative(coins: Seq<CoinView>, denom: Seq<char>)
    ensures
        funds_of(coins, denom) >= 0,
    decreases coins.len(),
{
    if coins.len() > 0 {
        lemma_funds_nonnegative(coins.drop_last(), denom);
    }
}

/// What the check of the funds gives: in a room of a native coin the funds
/// of that coin must be the declared amount, no more and no less; a room of
/// a token takes its funds by a transfer and checks nothing here.
pub open spec fn funds_check(
    funds: Seq<CoinView>,
    amount: u128,
    game_denom: AssetInfoView,
) -> Result<(), ContractError> {
    match game_denom {
        AssetInfoView::Token { contract_addr } => Ok(()),
        AssetInfoView::NativeToken { denom } => if funds_of(funds, denom) != amount {
            Err(ContractError::InsufficientFunds)
        } else {
            Ok(())
        },
    }
}

/// Checks the funds that came with a call against the declared amount.
pub fn validate_input_amount(actual_funds: &Vec<Coin>, amount: u128, game_denom: &AssetInfo) -> (r:
    Result<(), ContractError>)
    ensures
        r == funds_check(coin_views(actual_funds@), amount, game_denom@),
{
    match game_denom {
        AssetInfo::Token { contract_addr: _ } => {
            return Ok(());
        },
        AssetInfo::NativeToken { denom } => {
            let actual = get_amount_for_denom(actual_funds, denom.as_str());
            proof {
                lemma_funds_nonnegative(coin_views(actual_funds@), denom@);
            }
            match actual {
                Some(sum) => {
                    if sum != amount {
                        return Err(ContractError::InsufficientFunds);
                    }
                    return Ok(());
                },
                None => {
                    return Err(ContractError::InsufficientFunds);
                },
            }
        },
    }
}

/// The place at which the room with the given id stands in the list of
/// rooms and in the list of reserve floors.
pub fn room_index(store: &Store, room_id: u64) -> (at: usize)
    requires
        store.wf(),
        store@.has_room(room_id),
    ensures
        at == room_id - 1,
        at < store.rooms@.len(),
        at < store.minimum_reserve@.len(),
{
    let count: usize = store.rooms.len();
    assert(room_id <= count) by {
        assert(store@.rooms.len() == store.rooms@.len());
    }
    (room_id - 1) as usize
}

/// The room with the given id, if there is one.
pub fn validate_room_id(store: &Store, room_id: u64) -> (r: Result<RoomConfig, ContractError>)
    requires
        store.wf(),
    ensures
        r is Ok <==> store@.has_room(room_id),
        r matches Ok(room) ==> room@ == store@.room(room_id),
        r matches Err(e) ==> e == (ContractError::RoomNotFound { room_id }),
{
    assert(store@.rooms.len() == store.rooms@.len());
    if room_id < 1 || room_id > store.rooms.len() as u64 {
        return Err(ContractError::RoomNotFound { room_id });
    }
    let at = room_index(store, room_id);
    assert(store@.rooms[at as int] == store.rooms@[at as int]@);
    Ok(store.rooms[at].clone())
}

/// What a pool that holds `balance` can spare beyond a reserve floor.
pub open spec fn withdrawable(balance: u128, reserve: u128) -> u128 {
    if balance >= reserve {
        (balance - reserve) as u128
    } else {
        0
    }
}

/// What the owner of a room may withdraw: what the pool holds of the room's
/// asset beyond the room's reserve floor.
pub fn get_withdrawal_amount(store: &Store, room_id: u64, balance: u128) -> (r: u128)
    requires
        store.wf(),
        store@.has_room(room_id),
    ensures
        r == (if balance >= store@.reserve(room_id) {
            balance - store@.reserve(room_id)
        } else {
            0
        }),
{
    let at = room_index(store, room_id);
    max_withdrawable(balance, store.minimum_reserve[at])
}

} // verus!

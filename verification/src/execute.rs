//! The operations that change the pool, by their kind. Each either succeeds
//! as a whole or leaves the state as it was.

use vstd::prelude::*;
use crate::bet::{bet_outcome, execute_bet};
use crate::checks::{text_of, validate_room_id};
use crate::close::{close_outcome, execute_close};
use crate::env::{coin_views, CoinView, Env, MessageInfo};
use crate::error::ContractError;
use crate::funds::{deposit_outcome, execute_deposit, execute_withdraw_from_pool, withdraw_outcome};
use crate::ledger::Ledger;
use crate::msg::{ExecuteMsg, ExecuteMsgView, InstantiateMsg, MigrateMsg};
use crate::response::{action_response, respond_action, response_of, Response, ResponseView};
use crate::settings::{
    add_room_outcome, bet_limit_outcome, change_room_outcome, execute_add_room,
    execute_change_room_config, execute_update_bet_limit, execute_update_config,
    update_config_outcome,
};
use crate::state::{AssetInfo, AssetInfoView, DECIMAL_FRACTIONAL, State};
use crate::store::{ContractVersion, Store, StoreView};
use crate::text::same_text;

verus! {

/// What the collaborators outside the pool answered for an invocation.
/// `None` stands for an answer that could not be had.
#[derive(Debug, Clone, PartialEq, Eq)]
pub struct HostAnswers {
    /// Who holds the ownership token of the room that the operation is
    /// about, by the ownership registry.
    pub nft_owner: Option<String>,
    /// How much the pool holds of the asset of the room that the operation
    /// is about, by the asset service.
    pub balance: Option<u128>,
}

/// The name under which the pool writes its state.
pub open spec fn contract_name() -> Seq<char> {
    "Cosmos-first-roulette-gaming"@
}

/// The version under which the pool writes its state.
pub open spec fn contract_version() -> Seq<char> {
    "0.1.0"@
}

/// Starts a pool with the given configuration: no rooms, no wagers, the
/// first round not opened. Fails if the fee is more than the whole.
pub fn instantiate(msg: InstantiateMsg) -> (r: Result<(Store, Response), ContractError>)
    ensures
        r is Err <==> msg.config.platform_fee.atomics > DECIMAL_FRACTIONAL,
        r matches Err(e) ==> e == ContractError::InvalidPlatformFee,
        r matches Ok(made) ==> {
            &&& made.0.wf()
            &&& made.0@ == (StoreView {
                version: (contract_name(), contract_version()),
                config: msg.config@,
                state: State { living_round: 0, is_haulted: false, room_id: 0 },
                rooms: Seq::empty(),
                minimum_reserve: Seq::empty(),
                round_start_second: Seq::empty(),
                winner_number: Seq::empty(),
                bets: Seq::empty(),
            })
            &&& made.1@ == action_response("init_contract"@)
        },
{
    if msg.config.platform_fee.atomics > DECIMAL_FRACTIONAL {
        return Err(ContractError::InvalidPlatformFee);
    }
    let store = Store {
        version: ContractVersion {
            contract: "Cosmos-first-roulette-gaming".to_string(),
            version: "0.1.0".to_string(),
        },
        config: msg.config,
        state: State { living_round: 0, is_haulted: false, room_id: 0 },
        rooms: Vec::new(),
        minimum_reserve: Vec::new(),
        round_start_second: Vec::new(),
        winner_number: Vec::new(),
        bets: Ledger::new(),
    };
    assert(store@.rooms =~= Seq::empty());
    assert(store@.minimum_reserve =~= Seq::empty());
    assert(store@.round_start_second =~= Seq::empty());
    assert(store@.winner_number =~= Seq::empty());
    Ok((store, respond_action("init_contract")))
}

/// Lets a migration pass if the state was written by this pool in this
/// version, and refuses it otherwise.
pub fn migrate(store: &Store, _msg: MigrateMsg) -> (r: Result<Response, ContractError>)
    ensures
        r is Ok <==> store@.version == (contract_name(), contract_version()),
        r matches Ok(resp) ==> resp@ == action_response("migrate_contract"@),
        r matches Err(e) ==> e == ContractError::CannotMigrate,
{
    if !same_text(store.version.contract.as_str(), "Cosmos-first-roulette-gaming") {
        return Err(ContractError::CannotMigrate);
    }
    if !same_text(store.version.version.as_str(), "0.1.0") {
        return Err(ContractError::CannotMigrate);
    }
    Ok(respond_action("migrate_contract"))
}

/// What an operation does, by its kind: see the outcome of each.
pub open spec fn execute_outcome(
    s: StoreView,
    t: StoreView,
    height: u64,
    nanos: u64,
    sender: Seq<char>,
    pool: Seq<char>,
    funds: Seq<CoinView>,
    msg: ExecuteMsgView,
    nft_owner: Option<Seq<char>>,
    balance: Option<u128>,
    r: Result<ResponseView, ContractError>,
) -> bool {
    let now = nanos / crate::env::NANOS_PER_SECOND;
    match msg {
        ExecuteMsgView::UpdateConfig { config } => update_config_outcome(s, t, sender, config, r),
        ExecuteMsgView::AddRoom { room_info } => add_room_outcome(
            s,
            t,
            sender,
            room_info,
            nft_owner,
            r,
        ),
        ExecuteMsgView::Bet { room_id, bet_info } => bet_outcome(
            s,
            t,
            now,
            sender,
            pool,
            room_id,
            bet_info,
            funds,
            balance,
            r,
        ),
        ExecuteMsgView::CloseRound {  } => close_outcome(
            s,
            t,
            now,
            sender,
            crate::rand::drawn_number(height, nanos, sender),
            r,
        ),
        ExecuteMsgView::WithdrawFromPool { room_id, amount } => t == s && withdraw_outcome(
            s,
            sender,
            room_id,
            amount,
            nft_owner,
            balance,
            r,
        ),
        ExecuteMsgView::Deposit { room_id, amount } => t == s && deposit_outcome(
            s,
            sender,
            pool,
            room_id,
            amount,
            funds,
            nft_owner,
            r,
        ),
        ExecuteMsgView::ChangeRoomConfig { room_id, room_name, nft_id } => change_room_outcome(
            s,
            t,
            sender,
            room_id,
            room_name,
            nft_id,
            r,
        ),
        ExecuteMsgView::UpdateBetLimit { room_id, max_bet, min_bet } => bet_limit_outcome(
            s,
            t,
            sender,
            room_id,
            max_bet,
            min_bet,
            nft_owner,
            r,
        ),
    }
}

/// No operation rewrites the past: whatever it is and however it ends, every
/// wager that the ledger held is still in it, the recorded winning numbers
/// stand, and neither the round counter nor the room counter has fallen.
pub proof fn lemma_history_is_kept(
    s: StoreView,
    t: StoreView,
    height: u64,
    nanos: u64,
    sender: Seq<char>,
    pool: Seq<char>,
    funds: Seq<CoinView>,
    msg: ExecuteMsgView,
    nft_owner: Option<Seq<char>>,
    balance: Option<u128>,
    r: Result<ResponseView, ContractError>,
)
    requires
        execute_outcome(s, t, height, nanos, sender, pool, funds, msg, nft_owner, balance, r),
    ensures
        forall|i: int| 0 <= i < s.bets.len() ==> t.bets.contains(#[trigger] s.bets[i]),
        s.winner_number.is_prefix_of(t.winner_number),
        s.state.living_round <= t.state.living_round,
        s.state.room_id <= t.state.room_id,
        r is Err ==> t == s,
{
    let now = nanos / crate::env::NANOS_PER_SECOND;
    match msg {
        ExecuteMsgView::Bet { room_id, bet_info } => {
            if r is Ok {
                let w = crate::bet::bet_record(s, now, sender, room_id, bet_info);
                let at = choose|at: int| 0 <= at <= s.bets.len() && t.bets == s.bets.insert(at, w);
                assert forall|i: int| 0 <= i < s.bets.len() implies t.bets.contains(
                    #[trigger] s.bets[i],
                ) by {
                    if i < at {
                        assert(t.bets[i] == s.bets[i]);
                    } else {
                        assert(t.bets[i + 1] == s.bets[i]);
                    }
                }
            }
        },
        _ => {},
    }
    assert forall|i: int| 0 <= i < s.bets.len() implies t.bets.contains(#[trigger] s.bets[i]) by {
        if t.bets == s.bets {
            assert(t.bets[i] == s.bets[i]);
        }
    }
}

/// Carries out an operation on the pool, with what the collaborators
/// answered for it. The operation either succeeds as a whole or changes
/// nothing.
pub fn execute(
    store: &mut Store,
    env: &Env,
    info: &MessageInfo,
    msg: ExecuteMsg,
    host: &HostAnswers,
) -> (r: Result<Response, ContractError>)
    requires
        old(store).wf(),
    ensures
        final(store).wf(),
        execute_outcome(
            old(store)@,
            final(store)@,
            env.block.height,
            env.block.time.nanos,
            info.sender@,
            env.contract.address@,
            coin_views(info.funds@),
            msg@,
            text_of(host.nft_owner),
            host.balance,
            response_of(r),
        ),
        r is Err ==> final(store)@ == old(store)@,
{
    match msg {
        ExecuteMsg::UpdateConfig { config } => execute_update_config(store, info, config),
        ExecuteMsg::AddRoom { room_info } => execute_add_room(
            store,
            info,
            room_info,
            &host.nft_owner,
        ),
        ExecuteMsg::Bet { room_id, bet_info } => execute_bet(
            store,
            env,
            info,
            room_id,
            bet_info,
            host.balance,
        ),
        ExecuteMsg::CloseRound {  } => execute_close(store, env, info),
        ExecuteMsg::WithdrawFromPool { room_id, amount } => execute_withdraw_from_pool(
            store,
            info,
            room_id,
            amount,
            host,
        ),
        ExecuteMsg::Deposit { room_id, amount } => execute_deposit(
            store,
            env,
            info,
            room_id,
            amount,
            host,
        ),
        ExecuteMsg::ChangeRoomConfig { room_id, room_name, nft_id } => execute_change_room_config(
            store,
            info,
            room_id,
            room_name,
            nft_id,
        ),
        ExecuteMsg::UpdateBetLimit { room_id, max_bet, min_bet } => execute_update_bet_limit(
            store,
            info,
            room_id,
            max_bet,
            min_bet,
            &host.nft_owner,
        ),
    }
}

/// What an operation needs to know from the collaborators before it can be
/// carried out.
#[derive(Debug, PartialEq, Eq)]
pub struct Lookups {
    /// The ownership token whose holder the ownership registry is to name.
    pub nft_id: Option<String>,
    /// The asset of which the asset service is to tell how much the pool
    /// holds.
    pub balance_of: Option<AssetInfo>,
}

/// The ownership token that an operation asks the registry about: that of
/// the room to be added, or that of the room that a withdrawal, a deposit or
/// a change of limits is about, if the room exists.
pub open spec fn wanted_nft(s: StoreView, msg: ExecuteMsgView) -> Option<Seq<char>> {
    match msg {
        ExecuteMsgView::AddRoom { room_info } => Some(room_info.nft_id),
        ExecuteMsgView::WithdrawFromPool { room_id, amount } => if s.has_room(room_id) {
            Some(s.room(room_id).nft_id)
        } else {
            None
        },
        ExecuteMsgView::Deposit { room_id, amount } => if s.has_room(room_id) {
            Some(s.room(room_id).nft_id)
        } else {
            None
        },
        ExecuteMsgView::UpdateBetLimit { room_id, max_bet, min_bet } => if s.has_room(room_id) {
            Some(s.room(room_id).nft_id)
        } else {
            None
        },
        _ => None,
    }
}

/// The asset whose balance an operation asks the asset service for: that of
/// the room that a wager or a withdrawal is about, if the room exists.
pub open spec fn wanted_balance(s: StoreView, msg: ExecuteMsgView) -> Option<AssetInfoView> {
    match msg {
        ExecuteMsgView::Bet { room_id, bet_info } => if s.has_room(room_id) {
            Some(s.room(room_id).game_denom)
        } else {
            None
        },
        ExecuteMsgView::WithdrawFromPool { room_id, amount } => if s.has_room(room_id) {
            Some(s.room(room_id).game_denom)
        } else {
            None
        },
        _ => None,
    }
}

/// Says what is to be asked of the collaborators for an operation.
pub fn lookups_for(store: &Store, msg: &ExecuteMsg) -> (r: Lookups)
    requires
        store.wf(),
    ensures
        text_of(r.nft_id) == wanted_nft(store@, msg@),
        match r.balance_of {
            Some(denom) => wanted_balance(store@, msg@) == Some(denom@),
            None => wanted_balance(store@, msg@) is None,
        },
{
    match msg {
        ExecuteMsg::AddRoom { room_info } => Lookups {
            nft_id: Some(room_info.nft_id.clone()),
            balance_of: None,
        },
        ExecuteMsg::Bet { room_id, bet_info: _ } => match validate_room_id(store, *room_id) {
            Ok(room) => Lookups { nft_id: None, balance_of: Some(room.game_denom) },
            Err(_) => Lookups { nft_id: None, balance_of: None },
        },
        ExecuteMsg::WithdrawFromPool { room_id, amount: _ } => match validate_room_id(
            store,
            *room_id,
        ) {
            Ok(room) => Lookups { nft_id: Some(room.nft_id), balance_of: Some(room.game_denom) },
            Err(_) => Lookups { nft_id: None, balance_of: None },
        },
        ExecuteMsg::Deposit { room_id, amount: _ } => match validate_room_id(store, *room_id) {
            Ok(room) => Lookups { nft_id: Some(room.nft_id), balance_of: None },
            Err(_) => Lookups { nft_id: None, balance_of: None },
        },
        ExecuteMsg::UpdateBetLimit { room_id, max_bet: _, min_bet: _ } => match validate_room_id(
            store,
            *room_id,
        ) {
            Ok(room) => Lookups { nft_id: Some(room.nft_id), balance_of: None },
            Err(_) => Lookups { nft_id: None, balance_of: None },
        },
        _ => Lookups { nft_id: None, balance_of: None },
    }
}

} // verus!

//! The questions that the pool answers. None changes the state.

use vstd::prelude::*;
use crate::env::Env;
use crate::error::ContractError;
use crate::checks::{get_withdrawal_amount, text_of, validate_room_id, withdrawable};
use crate::ledger::{
    first_n, in_room_round, room_player_page, room_round_page, round_page, wager_views,
};
use crate::listing::{
    ascending_ids, ascending_page, descending_ids, descending_page, effective_limit, page_limit,
};
use crate::msg::{
    AllStateResponse, BetsInfoResponse, ConfigResponse, QueryMsg, QueryMsgView, RoomInfoResponse,
    RoomsInfoResponse, RoundOffset, StateResponse, Winner, WinnerListResponse, WinnerResponse,
    WithdrawResponse,
};
use crate::state::{AssetInfo, BetInfoView, ConfigView, RoomConfig, RoomConfigView, State};
use crate::store::{room_views, Store, StoreView};

verus! {

/// The number that stands for a round without a winner.
pub const NO_WINNER: u32 = 40;

/// The pool's configuration.
pub fn query_config(store: &Store) -> (r: ConfigResponse)
    ensures
        r.config@ == store@.config,
{
    ConfigResponse { config: store.config.clone() }
}

/// The pool's counters.
pub fn query_state(store: &Store) -> (r: StateResponse)
    ensures
        r.state == store@.state,
{
    StateResponse { state: store.state }
}

/// When the open round opened, in seconds; zero if no wager has opened it.
pub open spec fn open_round_start(s: StoreView) -> u64 {
    if s.round_started() {
        s.round_start()
    } else {
        0
    }
}

/// The pool's counters and configuration, the time of the block and the
/// time at which the open round opened.
pub fn query_all_state(store: &Store, env: &Env) -> (r: AllStateResponse)
    requires
        store.wf(),
    ensures
        r.state == store@.state,
        r.config@ == store@.config,
        r.crr_time == env.block.time.nanos / crate::env::NANOS_PER_SECOND,
        r.round_start_second == open_round_start(store@),
{
    let living_round = store.state.living_round;
    let round_start_second: u64 = if store.round_start_second.len() as u64 > living_round {
        store.round_start_second[living_round as usize]
    } else {
        0
    };
    AllStateResponse {
        state: store.state,
        config: store.config.clone(),
        crr_time: env.block.time.seconds(),
        round_start_second,
    }
}

/// The room with the given id.
pub fn query_room_info(store: &Store, room_id: u64) -> (r: Result<RoomInfoResponse, ContractError>)
    requires
        store.wf(),
    ensures
        r is Ok <==> store@.has_room(room_id),
        r matches Ok(resp) ==> resp.room@ == store@.room(room_id),
        r matches Err(e) ==> e == (ContractError::RoomNotFound { room_id }),
{
    match validate_room_id(store, room_id) {
        Ok(room) => Ok(RoomInfoResponse { room }),
        Err(e) => Err(e),
    }
}

/// The rooms with the given ids.
pub open spec fn rooms_of(s: StoreView, ids: Seq<u64>) -> Seq<RoomConfigView> {
    Seq::new(ids.len(), |i: int| s.rooms[ids[i] - 1])
}

/// One page of the rooms, in the order of the decimal texts of their ids,
/// after the room that the cursor names.
pub fn query_get_rooms(store: &Store, start_after: Option<u64>, limit: Option<u32>) -> (r:
    RoomsInfoResponse)
    requires
        store.wf(),
    ensures
        room_views(r.rooms@) == rooms_of(
            store@,
            ascending_ids(1, store@.rooms.len(), start_after, page_limit(limit)),
        ),
{
    let limit = effective_limit(limit);
    let count: usize = store.rooms.len();
    assert(store@.rooms.len() == store.rooms@.len());
    let ids = ascending_page(1, count as u64, start_after, limit);
    let mut rooms: Vec<RoomConfig> = Vec::new();
    let mut i: usize = 0;
    while i < ids.len()
        invariant
            i <= ids.len(),
            count == store.rooms.len(),
            store@.rooms.len() == store.rooms@.len(),
            forall|k: int| 0 <= k < ids@.len() ==> 1 <= #[trigger] ids@[k] < 1 + count,
            room_views(rooms@) == rooms_of(store@, ids@.take(i as int)),
        decreases ids.len() - i,
    {
        let ghost before = room_views(rooms@);
        let at: usize = (ids[i] - 1) as usize;
        let room = store.rooms[at].clone();
        assert(store@.rooms[at as int] == store.rooms@[at as int]@);
        let ghost added = room@;
        rooms.push(room);
        assert(room_views(rooms@) =~= before.push(added));
        assert(added == store@.rooms[ids@[i as int] - 1]);
        i = i + 1;
        assert(rooms_of(store@, ids@.take(i as int)) =~= rooms_of(
            store@,
            ids@.take(i - 1),
        ).push(added));
    }
    assert(ids@.take(i as int) =~= ids@);
    RoomsInfoResponse { rooms }
}

/// One page of the wagers of a room and round, ascending by player, after
/// the player that the cursor names.
pub fn query_get_players_for_one_round_one_room(
    store: &Store,
    room_id: u64,
    round_id: u64,
    start_after: &Option<String>,
    limit: Option<u32>,
) -> (r: BetsInfoResponse)
    ensures
        wager_views(r.bets_info@) == first_n(
            store@.bets.filter(room_round_page(room_id, round_id, text_of(*start_after))),
            page_limit(limit) as int,
        ),
{
    let limit = effective_limit(limit);
    let start: Option<&str> = match start_after {
        Some(p) => Some(p.as_str()),
        None => None,
    };
    let bets_info = store.bets.page_of_room_round(room_id, round_id, start, limit);
    BetsInfoResponse { bets_info }
}

/// One page of the wagers of a player in a room, ascending by round, after
/// the round that the cursor names.
pub fn query_player_infos_for_room(
    store: &Store,
    room_id: u64,
    player: &str,
    start_after: Option<u64>,
    limit: Option<u32>,
) -> (r: BetsInfoResponse)
    ensures
        wager_views(r.bets_info@) == first_n(
            store@.bets.filter(room_player_page(room_id, player@, start_after)),
            page_limit(limit) as int,
        ),
{
    let limit = effective_limit(limit);
    let bets_info = store.bets.page_of_room_player(room_id, player, start_after, limit);
    BetsInfoResponse { bets_info }
}

/// The room and player of an optional cursor.
pub open spec fn offset_of(c: Option<RoundOffset>) -> Option<(u64, Seq<char>)> {
    match c {
        Some(o) => Some((o.room_id, o.player@)),
        None => None,
    }
}

/// One page of the wagers of a round in all rooms, ascending by room and
/// then by player, after the room and player that the cursor names.
pub fn query_game_info_for_round(
    store: &Store,
    round_id: u64,
    start_after: &Option<RoundOffset>,
    limit: Option<u32>,
) -> (r: BetsInfoResponse)
    ensures
        wager_views(r.bets_info@) == first_n(
            store@.bets.filter(round_page(round_id, offset_of(*start_after))),
            page_limit(limit) as int,
        ),
{
    let limit = effective_limit(limit);
    let start: Option<(u64, &str)> = match start_after {
        Some(o) => Some((o.room_id, o.player.as_str())),
        None => None,
    };
    let bets_info = store.bets.page_of_round(round_id, start, limit);
    BetsInfoResponse { bets_info }
}

/// All wagers of a room and round, ascending by player.
pub fn query_all_members_one_round_room(store: &Store, room_id: u64, round_id: u64) -> (r:
    BetsInfoResponse)
    ensures
        wager_views(r.bets_info@) == store@.bets.filter(in_room_round(room_id, round_id)),
{
    BetsInfoResponse { bets_info: store.bets.scan(room_id, round_id) }
}

/// What the owner of a room may withdraw at most: nothing if the room does
/// not exist; else what the pool holds beyond the room's reserve floor, if
/// the asset service told what the pool holds.
pub open spec fn maximum_withdrawal(s: StoreView, room_id: u64, balance: Option<u128>) -> Result<
    u128,
    ContractError,
> {
    if !s.has_room(room_id) {
        Ok(0)
    } else if balance is None {
        Err(ContractError::QueryFailed)
    } else {
        Ok(withdrawable(balance->0, s.reserve(room_id)))
    }
}

/// What the owner of a room may withdraw at most.
pub fn query_maximum_withdrwal(store: &Store, room_id: u64, balance: Option<u128>) -> (r: Result<
    WithdrawResponse,
    ContractError,
>)
    requires
        store.wf(),
    ensures
        match maximum_withdrawal(store@, room_id, balance) {
            Ok(amount) => r == Ok::<WithdrawResponse, ContractError>(WithdrawResponse { amount }),
            Err(e) => r == Err::<WithdrawResponse, ContractError>(e),
        },
{
    match validate_room_id(store, room_id) {
        Ok(_) => match balance {
            Some(held) => Ok(
                WithdrawResponse { amount: get_withdrawal_amount(store, room_id, held) },
            ),
            None => Err(ContractError::QueryFailed),
        },
        Err(_) => Ok(WithdrawResponse { amount: 0 }),
    }
}

/// The winning number of a round: the recorded one of a closed round, and
/// the number that stands for none of any other.
pub open spec fn winner_of(s: StoreView, round_id: u64) -> Winner {
    Winner {
        winner: if round_id < s.winner_number.len() {
            s.winner_number[round_id as int]
        } else {
            NO_WINNER
        },
        round_id,
    }
}

/// The winning number of a round.
pub fn query_winner_round(store: &Store, round_id: u64) -> (r: WinnerResponse)
    ensures
        r.winner == winner_of(store@, round_id),
{
    let count: usize = store.winner_number.len();
    if round_id < count as u64 {
        WinnerResponse {
            winner: Winner { winner: store.winner_number[round_id as usize], round_id },
        }
    } else {
        WinnerResponse { winner: Winner { winner: NO_WINNER, round_id } }
    }
}

/// The winners of the rounds with the given ids.
pub open spec fn winners_of(s: StoreView, ids: Seq<u64>) -> Seq<Winner> {
    Seq::new(ids.len(), |i: int| winner_of(s, ids[i]))
}

/// One page of the winning numbers of the closed rounds whose ids come
/// after the cursor in the order of their decimal texts, the last first.
pub fn query_get_round_lists(store: &Store, start_after: Option<u64>, limit: Option<u32>) -> (r:
    WinnerListResponse)
    ensures
        r.winner_list@ == winners_of(
            store@,
            descending_ids(0, store@.winner_number.len(), start_after, None, page_limit(limit)),
        ),
{
    let limit = effective_limit(limit);
    let count: usize = store.winner_number.len();
    let ids = descending_page(0, count as u64, start_after, limit);
    let mut winner_list: Vec<Winner> = Vec::new();
    let mut i: usize = 0;
    while i < ids.len()
        invariant
            i <= ids.len(),
            count == store.winner_number.len(),
            forall|k: int| 0 <= k < ids@.len() ==> 0 <= #[trigger] ids@[k] < count,
            winner_list@ == winners_of(store@, ids@.take(i as int)),
        decreases ids.len() - i,
    {
        let id = ids[i];
        winner_list.push(Winner { winner: store.winner_number[id as usize], round_id: id });
        i = i + 1;
        assert(winner_list@ =~= winners_of(store@, ids@.take(i as int)));
    }
    assert(ids@.take(i as int) =~= ids@);
    WinnerListResponse { winner_list }
}

/// The answer to a question.
#[derive(Debug, PartialEq, Eq)]
pub enum QueryResponse {
    Config(ConfigResponse),
    State(StateResponse),
    AllState(AllStateResponse),
    Room(RoomInfoResponse),
    Rooms(RoomsInfoResponse),
    Bets(BetsInfoResponse),
    Withdraw(WithdrawResponse),
    Winner(WinnerResponse),
    WinnerList(WinnerListResponse),
}

/// What the contracts see of a `QueryResponse`: its texts and lists as sequences.
pub enum QueryResponseView {
    Config(ConfigView),
    State(State),
    AllState { state: State, config: ConfigView, crr_time: u64, round_start_second: u64 },
    Room(RoomConfigView),
    Rooms(Seq<RoomConfigView>),
    Bets(Seq<BetInfoView>),
    Withdraw(u128),
    Winner(Winner),
    WinnerList(Seq<Winner>),
}

impl View for QueryResponse {
    type V = QueryResponseView;

    open spec fn view(&self) -> QueryResponseView {
        match self {
            QueryResponse::Config(r) => QueryResponseView::Config(r.config@),
            QueryResponse::State(r) => QueryResponseView::State(r.state),
            QueryResponse::AllState(r) => QueryResponseView::AllState {
                state: r.state,
                config: r.config@,
                crr_time: r.crr_time,
                round_start_second: r.round_start_second,
            },
            QueryResponse::Room(r) => QueryResponseView::Room(r.room@),
            QueryResponse::Rooms(r) => QueryResponseView::Rooms(room_views(r.rooms@)),
            QueryResponse::Bets(r) => QueryResponseView::Bets(wager_views(r.bets_info@)),
            QueryResponse::Withdraw(r) => QueryResponseView::Withdraw(r.amount),
            QueryResponse::Winner(r) => QueryResponseView::Winner(r.winner),
            QueryResponse::WinnerList(r) => QueryResponseView::WinnerList(r.winner_list@),
        }
    }
}

/// The answer that a state gives to a question at a time, with what the
/// asset service told of the pool's holdings.
pub open spec fn query_answer(
    s: StoreView,
    now: u64,
    msg: QueryMsgView,
    balance: Option<u128>,
) -> Result<QueryResponseView, ContractError> {
    match msg {
        QueryMsgView::Config {  } => Ok(QueryResponseView::Config(s.config)),
        QueryMsgView::State {  } => Ok(QueryResponseView::State(s.state)),
        QueryMsgView::AllState {  } => Ok(
            QueryResponseView::AllState {
                state: s.state,
                config: s.config,
                crr_time: now,
                round_start_second: open_round_start(s),
            },
        ),
        QueryMsgView::GetRoom { room_id } => if s.has_room(room_id) {
            Ok(QueryResponseView::Room(s.room(room_id)))
        } else {
            Err(ContractError::RoomNotFound { room_id })
        },
        QueryMsgView::GetRooms { start_after, limit } => Ok(
            QueryResponseView::Rooms(
                rooms_of(s, ascending_ids(1, s.rooms.len(), start_after, page_limit(limit))),
            ),
        ),
        QueryMsgView::GetPlayersForOneRoundOneRoom { room_id, round_id, start_after, limit } => Ok(
            QueryResponseView::Bets(
                first_n(
                    s.bets.filter(room_round_page(room_id, round_id, start_after)),
                    page_limit(limit) as int,
                ),
            ),
        ),
        QueryMsgView::GetPlayerInfosForRoom { room_id, player, start_after, limit } => Ok(
            QueryResponseView::Bets(
                first_n(
                    s.bets.filter(room_player_page(room_id, player, start_after)),
                    page_limit(limit) as int,
                ),
            ),
        ),
        QueryMsgView::GetMaximumWithdrawlFromRoom { room_id } => match maximum_withdrawal(
            s,
            room_id,
            balance,
        ) {
            Ok(amount) => Ok(QueryResponseView::Withdraw(amount)),
            Err(e) => Err(e),
        },
        QueryMsgView::GetWinnerRound { round_id } => Ok(
            QueryResponseView::Winner(winner_of(s, round_id)),
        ),
        QueryMsgView::GetWinnerLists { start_after, limit } => Ok(
            QueryResponseView::WinnerList(
                winners_of(
                    s,
                    descending_ids(0, s.winner_number.len(), start_after, None, page_limit(limit)),
                ),
            ),
        ),
        QueryMsgView::GetGameInfoForRound { round_id, start_after, limit } => Ok(
            QueryResponseView::Bets(
                first_n(s.bets.filter(round_page(round_id, start_after)), page_limit(limit) as int),
            ),
        ),
    }
}

/// The answer to a question, as its view.
pub open spec fn answer_of(r: Result<QueryResponse, ContractError>) -> Result<
    QueryResponseView,
    ContractError,
> {
    match r {
        Ok(resp) => Ok(resp@),
        Err(e) => Err(e),
    }
}

/// Answers a question about the pool.
pub fn query(store: &Store, env: &Env, msg: QueryMsg, balance: Option<u128>) -> (r: Result<
    QueryResponse,
    ContractError,
>)
    requires
        store.wf(),
    ensures
        answer_of(r) == query_answer(
            store@,
            env.block.time.nanos / crate::env::NANOS_PER_SECOND,
            msg@,
            balance,
        ),
{
    match msg {
        QueryMsg::Config {  } => Ok(QueryResponse::Config(query_config(store))),
        QueryMsg::State {  } => Ok(QueryResponse::State(query_state(store))),
        QueryMsg::AllState {  } => Ok(QueryResponse::AllState(query_all_state(store, env))),
        QueryMsg::GetRoom { room_id } => match query_room_info(store, room_id) {
            Ok(resp) => Ok(QueryResponse::Room(resp)),
            Err(e) => Err(e),
        },
        QueryMsg::GetRooms { start_after, limit } => Ok(
            QueryResponse::Rooms(query_get_rooms(store, start_after, limit)),
        ),
        QueryMsg::GetPlayersForOneRoundOneRoom { room_id, round_id, start_after, limit } => Ok(
            QueryResponse::Bets(
                query_get_players_for_one_round_one_room(
                    store,
                    room_id,
                    round_id,
                    &start_after,
                    limit,
                ),
            ),
        ),
        QueryMsg::GetPlayerInfosForRoom { room_id, player, start_after, limit } => Ok(
            QueryResponse::Bets(
                query_player_infos_for_room(store, room_id, player.as_str(), start_after, limit),
            ),
        ),
        QueryMsg::GetMaximumWithdrawlFromRoom { room_id } => match query_maximum_withdrwal(
            store,
            room_id,
            balance,
        ) {
            Ok(resp) => Ok(QueryResponse::Withdraw(resp)),
            Err(e) => Err(e),
        },
        QueryMsg::GetWinnerRound { round_id } => Ok(
            QueryResponse::Winner(query_winner_round(store, round_id)),
        ),
        QueryMsg::GetWinnerLists { start_after, limit } => Ok(
            QueryResponse::WinnerList(query_get_round_lists(store, start_after, limit)),
        ),
        QueryMsg::GetGameInfoForRound { round_id, start_after, limit } => Ok(
            QueryResponse::Bets(query_game_info_for_round(store, round_id, &start_after, limit)),
        ),
    }
}

/// The asset whose balance a question asks the asset service for: that of
/// the room whose maximum withdrawal is asked, if the room exists.
pub fn balance_lookup_for(store: &Store, msg: &QueryMsg) -> (r: Option<AssetInfo>)
    requires
        store.wf(),
    ensures
        match r {
            Some(denom) => msg@ matches QueryMsgView::GetMaximumWithdrawlFromRoom { room_id }
                && store@.has_room(room_id) && denom@ == store@.room(room_id).game_denom,
            None => !(msg@ matches QueryMsgView::GetMaximumWithdrawlFromRoom { room_id }
                && store@.has_room(room_id)),
        },
{
    match msg {
        QueryMsg::GetMaximumWithdrawlFromRoom { room_id } => match validate_room_id(
            store,
            *room_id,
        ) {
            Ok(room) => Some(room.game_denom),
            Err(_) => None,
        },
        _ => None,
    }
}

} // verus!

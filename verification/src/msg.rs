use vstd::prelude::*;
use vstd::std_specs::convert::FromSpecImpl;
use crate::state::{BetInfo, Config, ConfigView, RoomConfig, RoomConfigView, State};

verus! {

/// What a leg of a wager is placed on.
#[derive(Debug, Clone, Copy, PartialEq, Eq, Structural)]
pub enum Direction {
    Odd,
    Even,
    FirstHalf,
    SecondHalf,
    Red,
    Black,
    Row { id: u32 },
    Column { id: u32 },
    FirstOfThird,
    SecondOfThird,
    ThirdOfThird,
    Single { id: u32 },
    Zero,
    DoubleZero,
}

/// One leg of a wager.
#[derive(Debug, Clone, Copy, PartialEq, Eq, Structural)]
pub struct BetConfig {
    pub direction: Direction,
    pub amount: u128,
}

/// The wheel numbers that a selection pays on, and the factor it pays.
#[derive(Debug, Clone, PartialEq, Eq)]
pub struct PointRatioInfo {
    pub points: Vec<u32>,
    pub ratio: u32,
}

/// The label of a selection, as it appears among a response's attributes.
pub open spec fn direction_label(d: Direction) -> Seq<char> {
    match d {
        Direction::Odd => "odd"@,
        Direction::Even => "even"@,
        Direction::FirstHalf => "first_half"@,
        Direction::SecondHalf => "second_half"@,
        Direction::Red => "red"@,
        Direction::Black => "black"@,
        Direction::Row { id: _ } => "row"@,
        Direction::Column { id: _ } => "column"@,
        Direction::FirstOfThird => "first_of_third"@,
        Direction::SecondOfThird => "second of third"@,
        Direction::ThirdOfThird => "third of third"@,
        Direction::Single { id: _ } => "single"@,
        Direction::Zero => "zero"@,
        Direction::DoubleZero => "zero_zero"@,
    }
}

impl Direction {
    /// The label of this selection.
    pub fn label(&self) -> (s: String)
        ensures
            s@ == direction_label(*self),
    {
        match self {
            Direction::Odd => "odd".to_string(),
            Direction::Even => "even".to_string(),
            Direction::FirstHalf => "first_half".to_string(),
            Direction::SecondHalf => "second_half".to_string(),
            Direction::Red => "red".to_string(),
            Direction::Black => "black".to_string(),
            Direction::Row { id: _ } => "row".to_string(),
            Direction::Column { id: _ } => "column".to_string(),
            Direction::FirstOfThird => "first_of_third".to_string(),
            Direction::SecondOfThird => "second of third".to_string(),
            Direction::ThirdOfThird => "third of third".to_string(),
            Direction::Single { id: _ } => "single".to_string(),
            Direction::Zero => "zero".to_string(),
            Direction::DoubleZero => "zero_zero".to_string(),
        }
    }
}

impl From<Direction> for String {
    fn from(d: Direction) -> (s: String)
        ensures
            s@ == direction_label(d),
    {
        d.label()
    }
}

impl FromSpecImpl<Direction> for String {
    open spec fn obeys_from_spec() -> bool {
        false
    }

    open spec fn from_spec(d: Direction) -> String {
        arbitrary()
    }
}

/// What starts the pool: its first configuration.
#[derive(Debug, PartialEq, Eq)]
pub struct InstantiateMsg {
    pub config: Config,
}

/// The operations that change the pool.
#[derive(Debug, PartialEq, Eq)]
pub enum ExecuteMsg {
    UpdateConfig { config: Config },
    AddRoom { room_info: RoomConfig },
    Bet { room_id: u64, bet_info: Vec<BetConfig> },
    CloseRound {  },
    WithdrawFromPool { room_id: u64, amount: u128 },
    Deposit { room_id: u64, amount: u128 },
    ChangeRoomConfig { room_id: u64, room_name: String, nft_id: String },
    UpdateBetLimit { room_id: u64, max_bet: u128, min_bet: u128 },
}

/// What the contracts see of an `ExecuteMsg`: its texts and lists as sequences.
pub enum ExecuteMsgView {
    UpdateConfig { config: ConfigView },
    AddRoom { room_info: RoomConfigView },
    Bet { room_id: u64, bet_info: Seq<BetConfig> },
    CloseRound {  },
    WithdrawFromPool { room_id: u64, amount: u128 },
    Deposit { room_id: u64, amount: u128 },
    ChangeRoomConfig { room_id: u64, room_name: Seq<char>, nft_id: Seq<char> },
    UpdateBetLimit { room_id: u64, max_bet: u128, min_bet: u128 },
}

impl View for ExecuteMsg {
    type V = ExecuteMsgView;

    open spec fn view(&self) -> ExecuteMsgView {
        match self {
            ExecuteMsg::UpdateConfig { config } => ExecuteMsgView::UpdateConfig { config: config@ },
            ExecuteMsg::AddRoom { room_info } => ExecuteMsgView::AddRoom { room_info: room_info@ },
            ExecuteMsg::Bet { room_id, bet_info } => ExecuteMsgView::Bet {
                room_id: *room_id,
                bet_info: bet_info@,
            },
            ExecuteMsg::CloseRound {  } => ExecuteMsgView::CloseRound {  },
            ExecuteMsg::WithdrawFromPool { room_id, amount } => ExecuteMsgView::WithdrawFromPool {
                room_id: *room_id,
                amount: *amount,
            },
            ExecuteMsg::Deposit { room_id, amount } => ExecuteMsgView::Deposit {
                room_id: *room_id,
                amount: *amount,
            },
            ExecuteMsg::ChangeRoomConfig { room_id, room_name, nft_id } => {
                ExecuteMsgView::ChangeRoomConfig {
                    room_id: *room_id,
                    room_name: room_name@,
                    nft_id: nft_id@,
                }
            },
            ExecuteMsg::UpdateBetLimit { room_id, max_bet, min_bet } => {
                ExecuteMsgView::UpdateBetLimit {
                    room_id: *room_id,
                    max_bet: *max_bet,
                    min_bet: *min_bet,
                }
            },
        }
    }
}

/// The questions that the pool answers.
#[derive(Debug, PartialEq, Eq)]
pub enum QueryMsg {
    Config {  },
    State {  },
    AllState {  },
    GetRoom { room_id: u64 },
    GetRooms { start_after: Option<u64>, limit: Option<u32> },
    GetPlayersForOneRoundOneRoom {
        room_id: u64,
        round_id: u64,
        start_after: Option<String>,
        limit: Option<u32>,
    },
    GetPlayerInfosForRoom {
        room_id: u64,
        player: String,
        start_after: Option<u64>,
        limit: Option<u32>,
    },
    GetMaximumWithdrawlFromRoom { room_id: u64 },
    GetWinnerRound { round_id: u64 },
    GetWinnerLists { start_after: Option<u64>, limit: Option<u32> },
    GetGameInfoForRound { round_id: u64, start_after: Option<RoundOffset>, limit: Option<u32> },
}

/// What the contracts see of a `QueryMsg`: its texts and lists as sequences.
pub enum QueryMsgView {
    Config {  },
    State {  },
    AllState {  },
    GetRoom { room_id: u64 },
    GetRooms { start_after: Option<u64>, limit: Option<u32> },
    GetPlayersForOneRoundOneRoom {
        room_id: u64,
        round_id: u64,
        start_after: Option<Seq<char>>,
        limit: Option<u32>,
    },
    GetPlayerInfosForRoom {
        room_id: u64,
        player: Seq<char>,
        start_after: Option<u64>,
        limit: Option<u32>,
    },
    GetMaximumWithdrawlFromRoom { room_id: u64 },
    GetWinnerRound { round_id: u64 },
    GetWinnerLists { start_after: Option<u64>, limit: Option<u32> },
    GetGameInfoForRound {
        round_id: u64,
        start_after: Option<(u64, Seq<char>)>,
        limit: Option<u32>,
    },
}

impl View for QueryMsg {
    type V = QueryMsgView;

    open spec fn view(&self) -> QueryMsgView {
        match self {
            QueryMsg::Config {  } => QueryMsgView::Config {  },
            QueryMsg::State {  } => QueryMsgView::State {  },
            QueryMsg::AllState {  } => QueryMsgView::AllState {  },
            QueryMsg::GetRoom { room_id } => QueryMsgView::GetRoom { room_id: *room_id },
            QueryMsg::GetRooms { start_after, limit } => QueryMsgView::GetRooms {
                start_after: *start_after,
                limit: *limit,
            },
            QueryMsg::GetPlayersForOneRoundOneRoom { room_id, round_id, start_after, limit } => {
                QueryMsgView::GetPlayersForOneRoundOneRoom {
                    room_id: *room_id,
                    round_id: *round_id,
                    start_after: match start_after {
                        Some(p) => Some(p@),
                        None => None,
                    },
                    limit: *limit,
                }
            },
            QueryMsg::GetPlayerInfosForRoom { room_id, player, start_after, limit } => {
                QueryMsgView::GetPlayerInfosForRoom {
                    room_id: *room_id,
                    player: player@,
                    start_after: *start_after,
                    limit: *limit,
                }
            },
            QueryMsg::GetMaximumWithdrawlFromRoom { room_id } => {
                QueryMsgView::GetMaximumWithdrawlFromRoom { room_id: *room_id }
            },
            QueryMsg::GetWinnerRound { round_id } => QueryMsgView::GetWinnerRound {
                round_id: *round_id,
            },
            QueryMsg::GetWinnerLists { start_after, limit } => QueryMsgView::GetWinnerLists {
                start_after: *start_after,
                limit: *limit,
            },
            QueryMsg::GetGameInfoForRound { round_id, start_after, limit } => {
                QueryMsgView::GetGameInfoForRound {
                    round_id: *round_id,
                    start_after: match start_after {
                        Some(c) => Some((c.room_id, c.player@)),
                        None => None,
                    },
                    limit: *limit,
                }
            },
        }
    }
}

/// A cursor into the wagers of a round: the room and player of the last
/// wager that was seen.
#[derive(Debug, Clone, PartialEq, Eq)]
pub struct RoundOffset {
    pub room_id: u64,
    pub player: String,
}

/// What a migration is asked with.
#[derive(Debug, Clone, Copy, PartialEq, Eq, Structural)]
pub struct MigrateMsg {}

/// The answer to the question for the configuration.
#[derive(Debug, PartialEq, Eq)]
pub struct ConfigResponse {
    pub config: Config,
}

/// The answer to the question for the counters.
#[derive(Debug, Clone, Copy, PartialEq, Eq, Structural)]
pub struct StateResponse {
    pub state: State,
}

/// The answer to the question for the whole state: the counters, the
/// configuration, the time of the block and the opening of the round.
#[derive(Debug, PartialEq, Eq)]
pub struct AllStateResponse {
    pub state: State,
    pub config: Config,
    pub crr_time: u64,
    pub round_start_second: u64,
}

/// The answer to the question for one room.
#[derive(Debug, PartialEq, Eq)]
pub struct RoomInfoResponse {
    pub room: RoomConfig,
}

/// The answer to the question for a page of rooms.
#[derive(Debug, PartialEq, Eq)]
pub struct RoomsInfoResponse {
    pub rooms: Vec<RoomConfig>,
}

/// The answer to a question for wagers.
#[derive(Debug, PartialEq, Eq)]
pub struct BetsInfoResponse {
    pub bets_info: Vec<BetInfo>,
}

/// The answer to the question for what the owner may withdraw.
#[derive(Debug, Clone, Copy, PartialEq, Eq, Structural)]
pub struct WithdrawResponse {
    pub amount: u128,
}

/// The winning number of a round.
#[derive(Debug, Clone, Copy, PartialEq, Eq, Structural)]
pub struct Winner {
    pub winner: u32,
    pub round_id: u64,
}

/// The answer to the question for the winning number of a round.
#[derive(Debug, Clone, Copy, PartialEq, Eq, Structural)]
pub struct WinnerResponse {
    pub winner: Winner,
}

/// The answer to the question for a page of winning numbers.
#[derive(Debug, PartialEq, Eq)]
pub struct WinnerListResponse {
    pub winner_list: Vec<Winner>,
}

} // verus!

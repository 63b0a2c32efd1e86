//! The data that the pool keeps: its configuration, its counters, its rooms
//! and the wagers placed in them.

use vstd::prelude::*;
use crate::msg::BetConfig;

verus! {

/// One whole, in the atomic units of a `Decimal`.
pub const DECIMAL_FRACTIONAL: u128 = 1_000_000_000_000_000_000;

/// A fixed-point number with 18 fractional digits, held as its atomic units.
#[derive(Debug, Clone, Copy, PartialEq, Eq, Structural)]
pub struct Decimal {
    pub atomics: u128,
}

impl Decimal {
    /// The fraction zero.
    pub fn zero() -> (d: Decimal)
        ensures
            d.atomics == 0,
    {
        Decimal { atomics: 0 }
    }

    /// The whole.
    pub fn one() -> (d: Decimal)
        ensures
            d.atomics == DECIMAL_FRACTIONAL,
    {
        Decimal { atomics: DECIMAL_FRACTIONAL }
    }

    /// So many hundredths.
    pub fn percent(x: u64) -> (d: Decimal)
        ensures
            d.atomics == x * (DECIMAL_FRACTIONAL / 100),
    {
        Decimal { atomics: (x as u128) * (DECIMAL_FRACTIONAL / 100) }
    }

    /// The fraction `numerator / denominator`, rounded down to 18 digits.
    pub fn from_ratio(numerator: u128, denominator: u128) -> (d: Decimal)
        requires
            denominator != 0,
            numerator * DECIMAL_FRACTIONAL <= u128::MAX,
        ensures
            d.atomics == numerator * DECIMAL_FRACTIONAL / (denominator as int),
    {
        Decimal { atomics: numerator * DECIMAL_FRACTIONAL / denominator }
    }

    /// The fraction in atomic units.
    pub fn atomics(&self) -> (a: u128)
        ensures
            a == self.atomics,
    {
        self.atomics
    }
}

/// The pool-wide configuration.
#[derive(Debug, PartialEq, Eq)]
pub struct Config {
    pub admin: String,
    pub nft_contract: String,
    pub next_round_seconds: u64,
    pub distributor: String,
    pub platform_fee: Decimal,
}

/// What the contracts see of a `Config`: its texts and lists as sequences.
pub struct ConfigView {
    pub admin: Seq<char>,
    pub nft_contract: Seq<char>,
    pub next_round_seconds: u64,
    pub distributor: Seq<char>,
    pub platform_fee: Decimal,
}

impl View for Config {
    type V = ConfigView;

    open spec fn view(&self) -> ConfigView {
        ConfigView {
            admin: self.admin@,
            nft_contract: self.nft_contract@,
            next_round_seconds: self.next_round_seconds,
            distributor: self.distributor@,
            platform_fee: self.platform_fee,
        }
    }
}

impl Clone for Config {
    fn clone(&self) -> (r: Self)
        ensures
            r@ == self@,
    {
        Config {
            admin: self.admin.clone(),
            nft_contract: self.nft_contract.clone(),
            next_round_seconds: self.next_round_seconds,
            distributor: self.distributor.clone(),
            platform_fee: self.platform_fee,
        }
    }
}

/// The pool's counters: the round that is open, whether the pool is halted,
/// and how many rooms there are.
#[derive(Debug, Clone, Copy, PartialEq, Eq, Structural)]
pub struct State {
    pub living_round: u64,
    pub is_haulted: bool,
    pub room_id: u64,
}

/// The asset in which a room settles.
#[derive(Debug, PartialEq, Eq)]
pub enum AssetInfo {
    /// A token kept by a token contract.
    Token { contract_addr: String },
    /// A native coin.
    NativeToken { denom: String },
}

/// What the contracts see of an `AssetInfo`: its texts and lists as sequences.
pub enum AssetInfoView {
    Token { contract_addr: Seq<char> },
    NativeToken { denom: Seq<char> },
}

impl View for AssetInfo {
    type V = AssetInfoView;

    open spec fn view(&self) -> AssetInfoView {
        match self {
            AssetInfo::Token { contract_addr } => AssetInfoView::Token {
                contract_addr: contract_addr@,
            },
            AssetInfo::NativeToken { denom } => AssetInfoView::NativeToken { denom: denom@ },
        }
    }
}

impl Clone for AssetInfo {
    fn clone(&self) -> (r: Self)
        ensures
            r@ == self@,
    {
        match self {
            AssetInfo::Token { contract_addr } => AssetInfo::Token {
                contract_addr: contract_addr.clone(),
            },
            AssetInfo::NativeToken { denom } => AssetInfo::NativeToken { denom: denom.clone() },
        }
    }
}

/// A room: its name, its asset, the token whose holder owns it, and the
/// limits on the total of one wager.
#[derive(Debug, PartialEq, Eq)]
pub struct RoomConfig {
    pub room_name: String,
    pub game_denom: AssetInfo,
    pub nft_id: String,
    pub max_bet: u128,
    pub min_bet: u128,
}

/// What the contracts see of a `RoomConfig`: its texts and lists as sequences.
pub struct RoomConfigView {
    pub room_name: Seq<char>,
    pub game_denom: AssetInfoView,
    pub nft_id: Seq<char>,
    pub max_bet: u128,
    pub min_bet: u128,
}

impl View for RoomConfig {
    type V = RoomConfigView;

    open spec fn view(&self) -> RoomConfigView {
        RoomConfigView {
            room_name: self.room_name@,
            game_denom: self.game_denom@,
            nft_id: self.nft_id@,
            max_bet: self.max_bet,
            min_bet: self.min_bet,
        }
    }
}

impl Clone for RoomConfig {
    fn clone(&self) -> (r: Self)
        ensures
            r@ == self@,
    {
        RoomConfig {
            room_name: self.room_name.clone(),
            game_denom: self.game_denom.clone(),
            nft_id: self.nft_id.clone(),
            max_bet: self.max_bet,
            min_bet: self.min_bet,
        }
    }
}

/// One player's wager in one room and round.
#[derive(Debug, PartialEq, Eq)]
pub struct BetInfo {
    pub player: String,
    pub round_id: u64,
    pub room_id: u64,
    pub bet_info: Vec<BetConfig>,
    pub bet_time: u64,
}

/// What the contracts see of a `BetInfo`: its texts and lists as sequences.
pub struct BetInfoView {
    pub player: Seq<char>,
    pub round_id: u64,
    pub room_id: u64,
    pub bet_info: Seq<BetConfig>,
    pub bet_time: u64,
}

impl View for BetInfo {
    type V = BetInfoView;

    open spec fn view(&self) -> BetInfoView {
        BetInfoView {
            player: self.player@,
            round_id: self.round_id,
            room_id: self.room_id,
            bet_info: self.bet_info@,
            bet_time: self.bet_time,
        }
    }
}

impl Clone for BetInfo {
    fn clone(&self) -> (r: Self)
        ensures
            r@ == self@,
    {
        BetInfo {
            player: self.player.clone(),
            round_id: self.round_id,
            room_id: self.room_id,
            bet_info: clone_legs(&self.bet_info),
            bet_time: self.bet_time,
        }
    }
}

/// A copy of the legs of a wager.
pub fn clone_legs(legs: &Vec<BetConfig>) -> (r: Vec<BetConfig>)
    ensures
        r@ == legs@,
{
    let mut out: Vec<BetConfig> = Vec::new();
    let mut i: usize = 0;
    while i < legs.len()
        invariant
            i <= legs.len(),
            out@ == legs@.take(i as int),
        decreases legs.len() - i,
    {
        out.push(legs[i]);
        i = i + 1;
        assert(out@ =~= legs@.take(i as int));
    }
    assert(legs@.take(legs.len() as int) =~= legs@);
    out
}

/// The key under which a wager is kept: room, round and player.
pub type BetInfoKey = (u64, u64, String);

/// The key of the wager that `player` holds in a room and round.
pub fn bet_info_key(room_id: u64, round_id: u64, player: &String) -> (key: BetInfoKey)
    ensures
        key.0 == room_id,
        key.1 == round_id,
        key.2@ == player@,
{
    (room_id, round_id, player.clone())
}

} // verus!

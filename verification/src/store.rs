//! The whole state of the pool, handed to every operation, and what always
//! holds of it.

use vstd::prelude::*;
use crate::ledger::{ascending, holds_wager, in_room_round, lemma_filter_member, Ledger};
use crate::payout::WHEEL_SIZE;
use crate::solvency::{
    legs_payout, legs_staked, legs_valid, lemma_wagers_payout_add, wagers_payout, wagers_staked,
    wagers_valid,
};
use crate::state::{
    BetInfoView, Config, ConfigView, RoomConfig, RoomConfigView, State, DECIMAL_FRACTIONAL,
};

verus! {

/// The name and version under which the pool's state was written.
#[derive(Debug, Clone, PartialEq, Eq)]
pub struct ContractVersion {
    pub contract: String,
    pub version: String,
}

/// The state of the pool.
#[derive(Debug, PartialEq, Eq)]
pub struct Store {
    /// Under which name and version the state was written.
    pub version: ContractVersion,
    pub config: Config,
    pub state: State,
    /// The rooms; the room with id `i` stands at place `i - 1`.
    pub rooms: Vec<RoomConfig>,
    /// The reserve floor of each room: the most that the room's wagers of
    /// the open round can cost.
    pub minimum_reserve: Vec<u128>,
    /// When each round was opened by its first wager, in seconds; the open
    /// round has an entry once it has a wager.
    pub round_start_second: Vec<u64>,
    /// The winning number of each closed round.
    pub winner_number: Vec<u32>,
    /// All accepted wagers.
    pub bets: Ledger,
}

/// What the contracts see of a `Store`: its texts and lists as sequences.
pub struct StoreView {
    pub version: (Seq<char>, Seq<char>),
    pub config: ConfigView,
    pub state: State,
    pub rooms: Seq<RoomConfigView>,
    pub minimum_reserve: Seq<u128>,
    pub round_start_second: Seq<u64>,
    pub winner_number: Seq<u32>,
    pub bets: Seq<BetInfoView>,
}

/// The rooms of a list, each as its view.
pub open spec fn room_views(rooms: Seq<RoomConfig>) -> Seq<RoomConfigView> {
    rooms.map_values(|r: RoomConfig| r@)
}

impl View for Store {
    type V = StoreView;

    open spec fn view(&self) -> StoreView {
        StoreView {
            version: (self.version.contract@, self.version.version@),
            config: self.config@,
            state: self.state,
            rooms: room_views(self.rooms@),
            minimum_reserve: self.minimum_reserve@,
            round_start_second: self.round_start_second@,
            winner_number: self.winner_number@,
            bets: self.bets@,
        }
    }
}

/// The wagers of a room and round, in the ledger's order.
pub open spec fn room_wagers(bets: Seq<BetInfoView>, room_id: u64, round_id: u64) -> Seq<
    BetInfoView,
> {
    bets.filter(in_room_round(room_id, round_id))
}

impl StoreView {
    /// Whether the open round has a wager, and so a time at which it opened.
    pub open spec fn round_started(self) -> bool {
        self.round_start_second.len() > self.state.living_round
    }

    /// When the open round opened.
    pub open spec fn round_start(self) -> u64
        recommends
            self.round_started(),
    {
        self.round_start_second[self.state.living_round as int]
    }

    /// Whether a room with this id exists.
    pub open spec fn has_room(self, room_id: u64) -> bool {
        1 <= room_id <= self.rooms.len()
    }

    /// The room with this id.
    pub open spec fn room(self, room_id: u64) -> RoomConfigView
        recommends
            self.has_room(room_id),
    {
        self.rooms[room_id - 1]
    }

    /// The reserve floor of the room with this id.
    pub open spec fn reserve(self, room_id: u64) -> u128
        recommends
            self.has_room(room_id),
    {
        self.minimum_reserve[room_id - 1]
    }

    /// Whether the ledger holds a wager of this room, round and player.
    pub open spec fn has_wager(self, room_id: u64, round_id: u64, player: Seq<char>) -> bool {
        holds_wager(self.bets, room_id, round_id, player)
    }

    /// The wagers of a room in the open round.
    pub open spec fn open_wagers(self, room_id: u64) -> Seq<BetInfoView> {
        room_wagers(self.bets, room_id, self.state.living_round)
    }

    /// What always holds of the pool's state.
    ///
    /// The counters count the rooms and the closed rounds; the fee is a
    /// fraction of at most one; the ledger is in order; every wager is of an
    /// existing room and of a round that has been opened, and holds valid
    /// selections only. And the pool is solvent: whatever number wins, what
    /// a room's wagers of the open round pay is within the room's reserve
    /// floor.
    pub open spec fn wf(self) -> bool {
        &&& self.rooms.len() == self.state.room_id
        &&& self.minimum_reserve.len() == self.rooms.len()
        &&& self.winner_number.len() == self.state.living_round
        &&& forall|i: int|
            0 <= i < self.winner_number.len() ==> #[trigger] self.winner_number[i] < WHEEL_SIZE
        &&& self.state.living_round <= self.round_start_second.len() <= self.state.living_round
            + 1
        &&& self.config.platform_fee.atomics <= DECIMAL_FRACTIONAL
        &&& ascending(self.bets)
        &&& forall|i: int|
            0 <= i < self.bets.len() ==> {
                &&& self.has_room((#[trigger] self.bets[i]).room_id)
                &&& self.bets[i].round_id <= self.state.living_round
                &&& legs_valid(self.bets[i].bet_info)
            }
        &&& forall|room_id: u64, n: int|
            self.has_room(room_id) && 0 <= n < WHEEL_SIZE ==> #[trigger] wagers_payout(
                self.open_wagers(room_id),
                n,
            ) <= self.reserve(room_id)
        &&& forall|room_id: u64|
            self.has_room(room_id) ==> #[trigger] wagers_staked(self.open_wagers(room_id))
                <= u128::MAX
    }
}

impl Store {
    /// What always holds of the pool's state: see `StoreView::wf`.
    pub open spec fn wf(&self) -> bool {
        self@.wf()
    }

    /// Whether the state is well formed. A state that was put together from
    /// stored parts is to pass this before any operation is carried out on
    /// it.
    pub fn is_well_formed(&self) -> (ok: bool)
        ensures
            ok == self.wf(),
    {
        let ghost s = self@;
        let count: usize = self.rooms.len();
        let closed: usize = self.winner_number.len();
        let starts: usize = self.round_start_second.len();
        assert(s.rooms.len() == self.rooms@.len());
        if count as u64 != self.state.room_id || self.minimum_reserve.len() != count {
            return false;
        }
        if closed as u64 != self.state.living_round {
            return false;
        }
        if starts < closed || starts - closed > 1 {
            return false;
        }
        if self.config.platform_fee.atomics > DECIMAL_FRACTIONAL {
            return false;
        }
        let mut i: usize = 0;
        while i < closed
            invariant
                i <= closed,
                closed == self.winner_number.len(),
                forall|k: int| 0 <= k < i ==> #[trigger] self.winner_number@[k] < WHEEL_SIZE,
            decreases closed - i,
        {
            if self.winner_number[i] >= WHEEL_SIZE {
                return false;
            }
            i = i + 1;
        }
        if !self.bets.is_ascending() {
            return false;
        }
        let total: usize = self.bets.records.len();
        let mut j: usize = 0;
        while j < total
            invariant
                j <= total,
                total == self.bets.records.len(),
                s == self@,
                s.rooms.len() == count,
                forall|k: int|
                    0 <= k < j ==> {
                        &&& s.has_room((#[trigger] s.bets[k]).room_id)
                        &&& s.bets[k].round_id <= s.state.living_round
                        &&& legs_valid(s.bets[k].bet_info)
                    },
            decreases total - j,
        {
            let w = &self.bets.records[j];
            assert(s.bets[j as int] == w@);
            if w.room_id < 1 || w.room_id > count as u64 || w.round_id > self.state.living_round {
                return false;
            }
            if !crate::solvency::legs_are_valid(&w.bet_info) {
                return false;
            }
            j = j + 1;
        }
        let empty: Vec<crate::msg::BetConfig> = Vec::new();
        let mut room: usize = 0;
        while room < count
            invariant
                room <= count,
                count == self.rooms.len(),
                count == self.minimum_reserve.len(),
                s == self@,
                s.rooms.len() == count,
                empty@.len() == 0,
                forall|k: int|
                    0 <= k < s.bets.len() ==> legs_valid((#[trigger] s.bets[k]).bet_info),
                forall|room_id: u64, n: int|
                    1 <= room_id <= room && 0 <= n < WHEEL_SIZE ==> #[trigger] wagers_payout(
                        s.open_wagers(room_id),
                        n,
                    ) <= s.reserve(room_id),
                forall|room_id: u64|
                    1 <= room_id <= room ==> #[trigger] wagers_staked(s.open_wagers(room_id))
                        <= u128::MAX,
            decreases count - room,
        {
            let room_id: u64 = (room + 1) as u64;
            let players = self.bets.scan(room_id, self.state.living_round);
            let ghost open = s.open_wagers(room_id);
            proof {
                assert(crate::ledger::wager_views(players@) == open);
                lemma_room_wagers_valid(s.bets, room_id, s.state.living_round);
                assert(legs_valid(empty@));
                assert forall|n: int| crate::solvency::liability(open, empty@, n)
                    == wagers_payout(open, n) by {}
            }
            match crate::solvency::validate_maximum_reward_exceed(
                &players,
                &empty,
                self.minimum_reserve[room],
                0,
            ) {
                Ok(_) => {},
                Err(_) => {
                    proof {
                        let n = choose|n: int|
                            0 <= n < WHEEL_SIZE && #[trigger] crate::solvency::liability(
                                open,
                                empty@,
                                n,
                            ) > self.minimum_reserve@[room as int];
                        assert(wagers_payout(s.open_wagers(room_id), n) > s.reserve(room_id));
                    }
                    return false;
                },
            }
            if crate::solvency::staked_within(&players).is_none() {
                assert(wagers_staked(s.open_wagers(room_id)) > u128::MAX);
                return false;
            }
            proof {
                assert forall|n: int| 0 <= n < WHEEL_SIZE implies wagers_payout(open, n)
                    <= s.reserve(room_id) by {
                    assert(crate::solvency::liability(open, empty@, n) <= s.reserve(room_id));
                }
            }
            room = room + 1;
        }
        true
    }
}

/// In a well-formed state every room is solvent within its reserve floor:
/// whatever number wins, what the room's wagers of the open round pay is
/// within the floor, and so within a `u128`.
pub proof fn lemma_reserve_covers_every_outcome(s: StoreView, room_id: u64, n: int)
    requires
        s.wf(),
        s.has_room(room_id),
        0 <= n < WHEEL_SIZE,
    ensures
        wagers_payout(s.open_wagers(room_id), n) <= s.reserve(room_id),
{
}

/// In a well-formed state nobody holds two wagers in one room and round.
pub proof fn lemma_one_wager_each(s: StoreView, i: int, j: int)
    requires
        s.wf(),
        0 <= i < s.bets.len(),
        0 <= j < s.bets.len(),
        i != j,
    ensures
        !crate::ledger::same_key(s.bets[i], s.bets[j]),
{
    if crate::ledger::same_key(s.bets[i], s.bets[j]) {
        crate::ledger::lemma_key_lt_irreflexive(s.bets[i], s.bets[j]);
        crate::ledger::lemma_key_lt_irreflexive(s.bets[j], s.bets[i]);
    }
}

/// A change of the configuration or of the rooms' settings that keeps the
/// fee within the whole and the number of rooms as it was keeps the state
/// well formed.
pub proof fn lemma_settings_keep_wf(s: StoreView, t: StoreView)
    requires
        s.wf(),
        t.config.platform_fee.atomics <= DECIMAL_FRACTIONAL,
        t.rooms.len() == s.rooms.len(),
        t.state == s.state,
        t.minimum_reserve == s.minimum_reserve,
        t.round_start_second == s.round_start_second,
        t.winner_number == s.winner_number,
        t.bets == s.bets,
    ensures
        t.wf(),
{
    assert forall|i: int| 0 <= i < t.bets.len() implies {
        &&& t.has_room((#[trigger] t.bets[i]).room_id)
        &&& t.bets[i].round_id <= t.state.living_round
        &&& legs_valid(t.bets[i].bet_info)
    } by {
        assert(s.has_room(s.bets[i].room_id));
    }
    assert forall|room_id: u64, n: int|
        t.has_room(room_id) && 0 <= n < WHEEL_SIZE implies #[trigger] wagers_payout(
        t.open_wagers(room_id),
        n,
    ) <= t.reserve(room_id) by {
        assert(s.has_room(room_id));
        assert(wagers_payout(s.open_wagers(room_id), n) <= s.reserve(room_id));
    }
    assert forall|room_id: u64| t.has_room(room_id) implies #[trigger] wagers_staked(
        t.open_wagers(room_id),
    ) <= u128::MAX by {
        assert(s.has_room(room_id));
        assert(wagers_staked(s.open_wagers(room_id)) <= u128::MAX);
    }
}

/// A wager that is entered into the ledger joins the wagers of its own room
/// and round and of no other: there the payout on every number grows by what
/// its legs pay, and the stake by what its legs stake.
pub proof fn lemma_insert_room_wagers(
    bets: Seq<BetInfoView>,
    at: int,
    w: BetInfoView,
    room_id: u64,
    round_id: u64,
    n: int,
)
    requires
        0 <= at <= bets.len(),
    ensures
        w.room_id == room_id && w.round_id == round_id ==> {
            &&& wagers_payout(room_wagers(bets.insert(at, w), room_id, round_id), n)
                == wagers_payout(room_wagers(bets, room_id, round_id), n) + legs_payout(
                w.bet_info,
                n,
            )
            &&& wagers_staked(room_wagers(bets.insert(at, w), room_id, round_id))
                == wagers_staked(room_wagers(bets, room_id, round_id)) + legs_staked(w.bet_info)
        },
        !(w.room_id == room_id && w.round_id == round_id) ==> room_wagers(
            bets.insert(at, w),
            room_id,
            round_id,
        ) == room_wagers(bets, room_id, round_id),
{
    let pred = in_room_round(room_id, round_id);
    let head = bets.take(at);
    let tail = bets.skip(at);
    let one = seq![w];
    assert(bets =~= head + tail);
    assert(bets.insert(at, w) =~= (head + one) + tail);
    Seq::filter_distributes_over_add(head, tail, pred);
    Seq::filter_distributes_over_add(head + one, tail, pred);
    Seq::filter_distributes_over_add(head, one, pred);
    reveal_with_fuel(Seq::filter, 2);
    assert(one.drop_last() =~= Seq::<BetInfoView>::empty());
    if w.room_id == room_id && w.round_id == round_id {
        assert(one.filter(pred) =~= one);
        lemma_wagers_payout_add(head.filter(pred), tail.filter(pred), n);
        lemma_wagers_payout_add(head.filter(pred) + one, tail.filter(pred), n);
        lemma_wagers_payout_add(head.filter(pred), one, n);
        reveal_with_fuel(wagers_payout, 2);
        reveal_with_fuel(wagers_staked, 2);
        assert(wagers_payout(one, n) == legs_payout(w.bet_info, n));
        assert(wagers_staked(one) == legs_staked(w.bet_info));
    } else {
        assert(one.filter(pred) =~= Seq::<BetInfoView>::empty());
        assert(head.filter(pred) + one.filter(pred) =~= head.filter(pred));
    }
}

/// A state stays well formed when a wager of the open round is entered into
/// the ledger and the reserve floor of its room is set to a floor that
/// covers, on every number, what the room's wagers pay with the new one.
pub proof fn lemma_wager_keeps_wf(
    s: StoreView,
    t: StoreView,
    w: BetInfoView,
    at: int,
    floor: u128,
)
    requires
        s.wf(),
        s.has_room(w.room_id),
        w.round_id == s.state.living_round,
        legs_valid(w.bet_info),
        0 <= at <= s.bets.len(),
        t.bets == s.bets.insert(at, w),
        ascending(t.bets),
        t.config == s.config,
        t.state == s.state,
        t.rooms == s.rooms,
        t.winner_number == s.winner_number,
        s.state.living_round <= t.round_start_second.len() <= s.state.living_round + 1,
        t.minimum_reserve == s.minimum_reserve.update(w.room_id - 1, floor),
        forall|n: int|
            0 <= n < WHEEL_SIZE ==> #[trigger] wagers_payout(s.open_wagers(w.room_id), n)
                + legs_payout(w.bet_info, n) <= floor,
        wagers_staked(s.open_wagers(w.room_id)) + legs_staked(w.bet_info) <= u128::MAX,
    ensures
        t.wf(),
{
    let round = s.state.living_round;
    assert forall|i: int| 0 <= i < t.bets.len() implies {
        &&& t.has_room((#[trigger] t.bets[i]).room_id)
        &&& t.bets[i].round_id <= t.state.living_round
        &&& legs_valid(t.bets[i].bet_info)
    } by {
        if i < at {
            assert(t.bets[i] == s.bets[i]);
        } else if i > at {
            assert(t.bets[i] == s.bets[i - 1]);
        }
    }
    assert forall|other: u64, n: int|
        t.has_room(other) && 0 <= n < WHEEL_SIZE implies #[trigger] wagers_payout(
        t.open_wagers(other),
        n,
    ) <= t.reserve(other) by {
        lemma_insert_room_wagers(s.bets, at, w, other, round, n);
        assert(s.has_room(other));
        assert(wagers_payout(s.open_wagers(other), n) <= s.reserve(other));
    }
    assert forall|other: u64| t.has_room(other) implies #[trigger] wagers_staked(
        t.open_wagers(other),
    ) <= u128::MAX by {
        lemma_insert_room_wagers(s.bets, at, w, other, round, 0);
        assert(s.has_room(other));
        assert(wagers_staked(s.open_wagers(other)) <= u128::MAX);
    }
}

/// A round that no wager is of has no wagers in any room.
pub proof fn lemma_no_wagers_of_round(bets: Seq<BetInfoView>, room_id: u64, round_id: u64)
    requires
        forall|i: int| 0 <= i < bets.len() ==> (#[trigger] bets[i]).round_id != round_id,
    ensures
        room_wagers(bets, room_id, round_id) == Seq::<BetInfoView>::empty(),
{
    let f = room_wagers(bets, room_id, round_id);
    if f.len() > 0 {
        lemma_filter_member(bets, in_room_round(room_id, round_id), 0);
    }
    assert(f =~= Seq::<BetInfoView>::empty());
}

/// A room that no wager is of has no wagers in any round.
pub proof fn lemma_no_wagers_of_room(bets: Seq<BetInfoView>, room_id: u64, round_id: u64)
    requires
        forall|i: int| 0 <= i < bets.len() ==> (#[trigger] bets[i]).room_id != room_id,
    ensures
        room_wagers(bets, room_id, round_id) == Seq::<BetInfoView>::empty(),
{
    let f = room_wagers(bets, room_id, round_id);
    if f.len() > 0 {
        lemma_filter_member(bets, in_room_round(room_id, round_id), 0);
    }
    assert(f =~= Seq::<BetInfoView>::empty());
}

/// The wagers of a room and round hold valid selections if all wagers do.
pub proof fn lemma_room_wagers_valid(bets: Seq<BetInfoView>, room_id: u64, round_id: u64)
    requires
        forall|i: int| 0 <= i < bets.len() ==> legs_valid((#[trigger] bets[i]).bet_info),
    ensures
        wagers_valid(room_wagers(bets, room_id, round_id)),
{
    let f = room_wagers(bets, room_id, round_id);
    assert forall|i: int| 0 <= i < f.len() implies legs_valid(#[trigger] f[i].bet_info) by {
        lemma_filter_member(bets, in_room_round(room_id, round_id), i);
    }
}

} // verus!

//! The wager ledger: every accepted wager, at most one for a room, round and
//! player, kept in the order of its key. Nothing is ever changed or removed.

use vstd::prelude::*;
use crate::error::ContractError;
use crate::state::{BetInfo, BetInfoView};
use crate::text::{text_lt, text_side, Side, lemma_bytes_lt_transitive, lemma_bytes_lt_irreflexive};
use vstd::utf8::encode_utf8;

verus! {

/// The order of the keys: by room, then by round, then byte-wise by player.
pub open spec fn key_lt(a: BetInfoView, b: BetInfoView) -> bool {
    a.room_id < b.room_id || (a.room_id == b.room_id && (a.round_id < b.round_id || (a.round_id
        == b.round_id && text_lt(a.player, b.player))))
}

/// Whether two wagers are of the same room, round and player.
pub open spec fn same_key(a: BetInfoView, b: BetInfoView) -> bool {
    a.room_id == b.room_id && a.round_id == b.round_id && a.player == b.player
}

/// Whether each wager's key comes before the keys of all that follow it.
pub open spec fn ascending(s: Seq<BetInfoView>) -> bool {
    forall|i: int, j: int| 0 <= i < j < s.len() ==> key_lt(#[trigger] s[i], #[trigger] s[j])
}

/// The wagers of one room and round.
pub open spec fn in_room_round(room_id: u64, round_id: u64) -> spec_fn(BetInfoView) -> bool {
    room_round_page(room_id, round_id, None)
}

/// The wagers of one player in one room.
pub open spec fn in_room_by_player(room_id: u64, player: Seq<char>) -> spec_fn(
    BetInfoView,
) -> bool {
    room_player_page(room_id, player, None)
}

/// The order of the keys is transitive.
pub proof fn lemma_key_lt_transitive(a: BetInfoView, b: BetInfoView, c: BetInfoView)
    requires
        key_lt(a, b),
        key_lt(b, c),
    ensures
        key_lt(a, c),
{
    if a.room_id == b.room_id && b.room_id == c.room_id && a.round_id == b.round_id && b.round_id
        == c.round_id {
        lemma_bytes_lt_transitive(
            encode_utf8(a.player),
            encode_utf8(b.player),
            encode_utf8(c.player),
        );
    }
}

/// A wager's key does not come before the key of a wager of the same room,
/// round and player.
pub proof fn lemma_key_lt_irreflexive(a: BetInfoView, b: BetInfoView)
    requires
        same_key(a, b),
    ensures
        !key_lt(a, b),
{
    lemma_bytes_lt_irreflexive(encode_utf8(a.player));
}

/// What is picked out of an ascending sequence is ascending.
pub proof fn lemma_filter_ascending(s: Seq<BetInfoView>, pred: spec_fn(BetInfoView) -> bool)
    requires
        ascending(s),
    ensures
        ascending(s.filter(pred)),
    decreases s.len(),
{
    reveal(Seq::filter);
    if s.len() > 0 {
        let rest = s.drop_last();
        lemma_filter_ascending(rest, pred);
        let f = rest.filter(pred);
        if pred(s.last()) {
            assert forall|i: int, j: int| 0 <= i < j < f.len() + 1 implies key_lt(
                #[trigger] f.push(s.last())[i],
                #[trigger] f.push(s.last())[j],
            ) by {
                if j == f.len() {
                    lemma_filter_member(rest, pred, i);
                    let k = choose|k: int| 0 <= k < rest.len() && rest[k] == f[i];
                    assert(key_lt(s[k], s[s.len() - 1]));
                }
            }
        }
    }
}

/// Each wager that was picked out satisfies the predicate and stands in the
/// sequence it was picked from.
pub proof fn lemma_filter_member(
    s: Seq<BetInfoView>,
    pred: spec_fn(BetInfoView) -> bool,
    i: int,
)
    requires
        0 <= i < s.filter(pred).len(),
    ensures
        pred(s.filter(pred)[i]),
        exists|k: int| 0 <= k < s.len() && s[k] == s.filter(pred)[i],
    decreases s.len(),
{
    reveal(Seq::filter);
    let rest = s.drop_last();
    let f = rest.filter(pred);
    if i < f.len() {
        lemma_filter_member(rest, pred, i);
        let k = choose|k: int| 0 <= k < rest.len() && rest[k] == f[i];
        assert(s[k] == s.filter(pred)[i]);
    } else {
        assert(s[s.len() - 1] == s.filter(pred)[i]);
    }
}

/// Whether a list of wagers holds one of this room, round and player.
pub open spec fn holds_wager(
    wagers: Seq<BetInfoView>,
    room_id: u64,
    round_id: u64,
    player: Seq<char>,
) -> bool {
    exists|i: int|
        0 <= i < wagers.len() && (#[trigger] wagers[i]).room_id == room_id && wagers[i].round_id
            == round_id && wagers[i].player == player
}

/// The wagers of a list, each as its view.
pub open spec fn wager_views(v: Seq<BetInfo>) -> Seq<BetInfoView> {
    v.map_values(|r: BetInfo| r@)
}

/// The first `n` items of a sequence, or all of it if it has no more.
pub open spec fn first_n(s: Seq<BetInfoView>, n: int) -> Seq<BetInfoView> {
    if 0 <= n < s.len() {
        s.take(n)
    } else {
        s
    }
}

/// The wagers of one room and round whose player comes after the cursor.
pub open spec fn room_round_page(room_id: u64, round_id: u64, after: Option<Seq<char>>) -> spec_fn(
    BetInfoView,
) -> bool {
    |w: BetInfoView|
        w.room_id == room_id && w.round_id == round_id && (after matches Some(p) ==> text_lt(
            p,
            w.player,
        ))
}

/// The wagers of one player in one room whose round comes after the cursor.
pub open spec fn room_player_page(room_id: u64, player: Seq<char>, after: Option<u64>) -> spec_fn(
    BetInfoView,
) -> bool {
    |w: BetInfoView|
        w.room_id == room_id && w.player == player && (after matches Some(t) ==> t < w.round_id)
}

/// The wagers of one round, in all rooms, whose room and player come after
/// the cursor.
pub open spec fn round_page(round_id: u64, after: Option<(u64, Seq<char>)>) -> spec_fn(
    BetInfoView,
) -> bool {
    |w: BetInfoView|
        w.round_id == round_id && (after matches Some(c) ==> (c.0 < w.room_id || (c.0 == w.room_id
            && text_lt(c.1, w.player))))
}

/// The ledger of accepted wagers.
#[derive(Debug, PartialEq, Eq)]
pub struct Ledger {
    pub records: Vec<BetInfo>,
}

impl View for Ledger {
    type V = Seq<BetInfoView>;

    open spec fn view(&self) -> Seq<BetInfoView> {
        wager_views(self.records@)
    }
}

/// Which wagers a scan picks out of the ledger.
enum Pick<'a> {
    RoomRound(u64, u64, Option<&'a str>),
    RoomPlayer(u64, &'a str, Option<u64>),
    Round(u64, Option<(u64, &'a str)>),
}

impl<'a> Pick<'a> {
    spec fn pred(self) -> spec_fn(BetInfoView) -> bool {
        match self {
            Pick::RoomRound(room_id, round_id, after) => room_round_page(
                room_id,
                round_id,
                match after {
                    Some(p) => Some(p@),
                    None => None,
                },
            ),
            Pick::RoomPlayer(room_id, player, after) => room_player_page(room_id, player@, after),
            Pick::Round(round_id, after) => round_page(
                round_id,
                match after {
                    Some(c) => Some((c.0, c.1@)),
                    None => None,
                },
            ),
        }
    }

    fn picks(&self, w: &BetInfo) -> (r: bool)
        ensures
            r == (self.pred())(w@),
    {
        match self {
            Pick::RoomRound(room_id, round_id, after) => {
                w.room_id == *room_id && w.round_id == *round_id && match after {
                    Some(p) => text_side(p, w.player.as_str()) == Side::Before,
                    None => true,
                }
            },
            Pick::RoomPlayer(room_id, player, after) => {
                w.room_id == *room_id && text_side(w.player.as_str(), player) == Side::Same
                    && match after {
                    Some(t) => *t < w.round_id,
                    None => true,
                }
            },
            Pick::Round(round_id, after) => {
                w.round_id == *round_id && match after {
                    Some(c) => c.0 < w.room_id || (c.0 == w.room_id && text_side(
                        c.1,
                        w.player.as_str(),
                    ) == Side::Before),
                    None => true,
                }
            },
        }
    }
}

/// How a wager's key stands to a room, round and player.
fn key_side(record: &BetInfo, room_id: u64, round_id: u64, player: &str) -> (r: Side)
    ensures
        r == Side::Same <==> (record.room_id == room_id && record.round_id == round_id
            && record.player@ == player@),
        r == Side::Before <==> (record.room_id < room_id || (record.room_id == room_id && (
        record.round_id < round_id || (record.round_id == round_id && text_lt(
            record.player@,
            player@,
        ))))),
{
    if record.room_id < room_id {
        Side::Before
    } else if record.room_id > room_id {
        Side::After
    } else if record.round_id < round_id {
        Side::Before
    } else if record.round_id > round_id {
        Side::After
    } else {
        text_side(record.player.as_str(), player)
    }
}

impl Ledger {
    /// The ledger's invariant: the wagers stand in the order of their keys,
    /// so no two are of the same room, round and player.
    pub open spec fn wf(&self) -> bool {
        ascending(self@)
    }

    /// Whether the ledger holds a wager of this room, round and player.
    pub open spec fn has(&self, room_id: u64, round_id: u64, player: Seq<char>) -> bool {
        holds_wager(self@, room_id, round_id, player)
    }

    /// An empty ledger.
    pub fn new() -> (r: Ledger)
        ensures
            r@ == Seq::<BetInfoView>::empty(),
            r.wf(),
    {
        let r = Ledger { records: Vec::new() };
        assert(r@ =~= Seq::<BetInfoView>::empty());
        r
    }

    /// How many wagers the ledger holds.
    pub fn len(&self) -> (n: usize)
        ensures
            n == self@.len(),
    {
        self.records.len()
    }

    /// The wager of a room, round and player, if there is one.
    pub fn may_load(&self, room_id: u64, round_id: u64, player: &str) -> (r: Option<BetInfo>)
        requires
            self.wf(),
        ensures
            r is Some <==> self.has(room_id, round_id, player@),
            r matches Some(w) ==> self@.contains(w@) && w.room_id == room_id && w.round_id
                == round_id && w.player@ == player@,
    {
        let mut i: usize = 0;
        while i < self.records.len()
            invariant
                i <= self.records.len(),
                forall|k: int|
                    0 <= k < i ==> !((#[trigger] self@[k]).room_id == room_id && self@[k].round_id
                        == round_id && self@[k].player == player@),
            decreases self.records.len() - i,
        {
            let side = key_side(&self.records[i], room_id, round_id, player);
            assert(self@[i as int] == self.records@[i as int]@);
            if side == Side::Same {
                let w = self.records[i].clone();
                assert(self@[i as int] == w@);
                return Some(w);
            }
            i = i + 1;
        }
        None
    }

    /// The first `limit` of the wagers that `pick` picks, in the ledger's order.
    fn collect(&self, pick: &Pick, limit: usize) -> (out: Vec<BetInfo>)
        ensures
            wager_views(out@) == first_n(self@.filter(pick.pred()), limit as int),
    {
        let ghost pred = pick.pred();
        let mut out: Vec<BetInfo> = Vec::new();
        let mut i: usize = 0;
        proof {
            reveal(Seq::filter);
            assert(self@.take(0) =~= Seq::<BetInfoView>::empty());
            assert(wager_views(out@) =~= self@.take(0).filter(pred));
        }
        while i < self.records.len() && out.len() < limit
            invariant
                i <= self.records.len(),
                pred == pick.pred(),
                out.len() <= limit,
                wager_views(out@) == self@.take(i as int).filter(pred),
            decreases self.records.len() - i,
        {
            let ghost before = wager_views(out@);
            proof {
                reveal(Seq::filter);
                assert(self@.take(i + 1).drop_last() =~= self@.take(i as int));
                assert(self@.take(i + 1).last() == self.records@[i as int]@);
            }
            if pick.picks(&self.records[i]) {
                let w = self.records[i].clone();
                out.push(w);
                assert(wager_views(out@) =~= before.push(w@));
            }
            i = i + 1;
        }
        proof {
            let whole = self@.filter(pred);
            let head = self@.take(i as int);
            let tail = self@.skip(i as int);
            assert(self@ =~= head + tail);
            Seq::filter_distributes_over_add(head, tail, pred);
            if i == self.records.len() {
                assert(head =~= self@);
            } else {
                assert(whole.take(limit as int) =~= head.filter(pred));
            }
        }
        out
    }

    /// All wagers of a room and round, ascending by player.
    pub fn scan(&self, room_id: u64, round_id: u64) -> (out: Vec<BetInfo>)
        ensures
            wager_views(out@) == self@.filter(in_room_round(room_id, round_id)),
    {
        let total: usize = self.records.len();
        let out = self.collect(&Pick::RoomRound(room_id, round_id, None), total);
        proof {
            self@.lemma_filter_len(in_room_round(room_id, round_id));
        }
        out
    }

    /// All wagers of a player in a room, ascending by round.
    pub fn scan_by_player(&self, room_id: u64, player: &str) -> (out: Vec<BetInfo>)
        ensures
            wager_views(out@) == self@.filter(in_room_by_player(room_id, player@)),
    {
        let total: usize = self.records.len();
        let out = self.collect(&Pick::RoomPlayer(room_id, player, None), total);
        proof {
            self@.lemma_filter_len(in_room_by_player(room_id, player@));
        }
        out
    }

    /// One page of the wagers of a room and round: the first `limit` whose
    /// player comes after the cursor, ascending by player.
    pub fn page_of_room_round(
        &self,
        room_id: u64,
        round_id: u64,
        after: Option<&str>,
        limit: usize,
    ) -> (out: Vec<BetInfo>)
        ensures
            wager_views(out@) == first_n(
                self@.filter(
                    room_round_page(
                        room_id,
                        round_id,
                        match after {
                            Some(p) => Some(p@),
                            None => None,
                        },
                    ),
                ),
                limit as int,
            ),
    {
        self.collect(&Pick::RoomRound(room_id, round_id, after), limit)
    }

    /// One page of a player's wagers in a room: the first `limit` whose
    /// round comes after the cursor, ascending by round.
    pub fn page_of_room_player(
        &self,
        room_id: u64,
        player: &str,
        after: Option<u64>,
        limit: usize,
    ) -> (out: Vec<BetInfo>)
        ensures
            wager_views(out@) == first_n(
                self@.filter(room_player_page(room_id, player@, after)),
                limit as int,
            ),
    {
        self.collect(&Pick::RoomPlayer(room_id, player, after), limit)
    }

    /// One page of the wagers of a round in all rooms: the first `limit`
    /// whose room and player come after the cursor, ascending by room and
    /// then by player.
    pub fn page_of_round(&self, round_id: u64, after: Option<(u64, &str)>, limit: usize) -> (out:
        Vec<BetInfo>)
        ensures
            wager_views(out@) == first_n(
                self@.filter(
                    round_page(
                        round_id,
                        match after {
                            Some(c) => Some((c.0, c.1@)),
                            None => None,
                        },
                    ),
                ),
                limit as int,
            ),
    {
        self.collect(&Pick::Round(round_id, after), limit)
    }

    /// Whether the wagers stand in the order of their keys.
    pub fn is_ascending(&self) -> (ok: bool)
        ensures
            ok == self.wf(),
    {
        if self.records.len() < 2 {
            return true;
        }
        let mut i: usize = 1;
        while i < self.records.len()
            invariant
                1 <= i <= self.records.len(),
                forall|a: int, b: int|
                    0 <= a < b < i ==> key_lt(#[trigger] self@[a], #[trigger] self@[b]),
            decreases self.records.len() - i,
        {
            let prev = &self.records[i - 1];
            let side = key_side(
                prev,
                self.records[i].room_id,
                self.records[i].round_id,
                self.records[i].player.as_str(),
            );
            assert(self@[i - 1] == self.records@[i - 1]@);
            assert(self@[i as int] == self.records@[i as int]@);
            if side != Side::Before {
                assert(!key_lt(self@[i - 1], self@[i as int]));
                return false;
            }
            proof {
                assert forall|a: int, b: int| 0 <= a < b < i + 1 implies key_lt(
                    #[trigger] self@[a],
                    #[trigger] self@[b],
                ) by {
                    if b == i && a < i - 1 {
                        lemma_key_lt_transitive(self@[a], self@[i - 1], self@[i as int]);
                    }
                }
            }
            i = i + 1;
        }
        true
    }

    /// Enters a wager. Fails, and changes nothing, if the ledger already
    /// holds one of the same room, round and player.
    pub fn insert(&mut self, record: BetInfo) -> (r: Result<(), ContractError>)
        requires
            old(self).wf(),
        ensures
            final(self).wf(),
            r is Err <==> old(self).has(record.room_id, record.round_id, record.player@),
            r matches Err(e) ==> e == ContractError::DuplicateWager && final(self)@ == old(self)@,
            r is Ok ==> exists|at: int|
                0 <= at <= old(self)@.len() && final(self)@ == old(self)@.insert(at, record@),
    {
        let mut i: usize = 0;
        while i < self.records.len()
            invariant
                i <= self.records.len(),
                *self == *old(self),
                old(self).wf(),
                forall|k: int| 0 <= k < i ==> key_lt(#[trigger] self@[k], record@),
            ensures
                i <= self.records.len(),
                i < self.records.len() ==> key_lt(record@, self@[i as int]),
            decreases self.records.len() - i,
        {
            let side = key_side(
                &self.records[i],
                record.room_id,
                record.round_id,
                record.player.as_str(),
            );
            assert(self@[i as int] == self.records@[i as int]@);
            match side {
                Side::Same => {
                    return Err(ContractError::DuplicateWager);
                },
                Side::Before => {
                    i = i + 1;
                },
                Side::After => {
                    proof {
                        crate::text::lemma_text_trichotomy(self@[i as int].player, record.player@);
                    }
                    break ;
                },
            }
        }
        proof {
            let s = self@;
            let w = record@;
            assert forall|k: int| i <= k < s.len() implies key_lt(w, #[trigger] s[k]) by {
                if k > i {
                    lemma_key_lt_transitive(w, s[i as int], s[k]);
                }
            }
            assert(!old(self).has(record.room_id, record.round_id, record.player@)) by {
                assert forall|k: int| 0 <= k < s.len() implies !same_key(#[trigger] s[k], w) by {
                    if same_key(s[k], w) {
                        lemma_key_lt_irreflexive(s[k], w);
                        lemma_key_lt_irreflexive(w, s[k]);
                    }
                }
            }
        }
        let ghost before = self@;
        let ghost w = record@;
        self.records.insert(i, record);
        proof {
            assert(self@ =~= before.insert(i as int, w));
            assert forall|a: int, b: int| 0 <= a < b < self@.len() implies key_lt(
                #[trigger] self@[a],
                #[trigger] self@[b],
            ) by {
                if a < i && b > i {
                    lemma_key_lt_transitive(self@[a], w, self@[b]);
                }
            }
        }
        Ok(())
    }
}

/// What a scan of a room and round finds in an ascending ledger are the
/// wagers of that room and round, ascending by player.
pub proof fn lemma_scan_ascends_by_player(
    bets: Seq<BetInfoView>,
    room_id: u64,
    round_id: u64,
    i: int,
    j: int,
)
    requires
        ascending(bets),
        0 <= i < j < bets.filter(in_room_round(room_id, round_id)).len(),
    ensures
        bets.filter(in_room_round(room_id, round_id))[i].room_id == room_id,
        bets.filter(in_room_round(room_id, round_id))[i].round_id == round_id,
        text_lt(
            bets.filter(in_room_round(room_id, round_id))[i].player,
            bets.filter(in_room_round(room_id, round_id))[j].player,
        ),
{
    let pred = in_room_round(room_id, round_id);
    lemma_filter_ascending(bets, pred);
    lemma_filter_member(bets, pred, i);
    lemma_filter_member(bets, pred, j);
}

/// What a scan by player finds in an ascending ledger are the wagers of
/// that player in that room, ascending by round.
pub proof fn lemma_scan_ascends_by_round(
    bets: Seq<BetInfoView>,
    room_id: u64,
    player: Seq<char>,
    i: int,
    j: int,
)
    requires
        ascending(bets),
        0 <= i < j < bets.filter(in_room_by_player(room_id, player)).len(),
    ensures
        bets.filter(in_room_by_player(room_id, player))[i].room_id == room_id,
        bets.filter(in_room_by_player(room_id, player))[i].player == player,
        bets.filter(in_room_by_player(room_id, player))[i].round_id < bets.filter(
            in_room_by_player(room_id, player),
        )[j].round_id,
{
    let pred = in_room_by_player(room_id, player);
    lemma_filter_ascending(bets, pred);
    lemma_filter_member(bets, pred, i);
    lemma_filter_member(bets, pred, j);
    lemma_bytes_lt_irreflexive(encode_utf8(player));
}

/// Of two wagers that an ascending ledger holds at different places, one is
/// of another room, round or player than the other: nobody holds two wagers
/// in one room and round.
pub proof fn lemma_no_double_wager(ledger: Ledger, i: int, j: int)
    requires
        ledger.wf(),
        0 <= i < ledger@.len(),
        0 <= j < ledger@.len(),
        i != j,
    ensures
        !same_key(ledger@[i], ledger@[j]),
{
    if same_key(ledger@[i], ledger@[j]) {
        lemma_key_lt_irreflexive(ledger@[i], ledger@[j]);
        lemma_key_lt_irreflexive(ledger@[j], ledger@[i]);
    }
}

} // verus!

//! The operations on the configuration and on the rooms.

use vstd::prelude::*;
use crate::checks::{
    assert_is_admin, assert_is_room_owner, owner_refusal, room_index, text_of, validate_room_id,
};
use crate::env::MessageInfo;
use crate::error::ContractError;
use crate::payout::WHEEL_SIZE;
use crate::response::{
    action_response, attr, respond_action, response_of, Attribute, Response, ResponseView,
    TransferMsg,
};
use crate::solvency::{wagers_payout, wagers_staked};
use crate::state::{
    BetInfoView, Config, ConfigView, DECIMAL_FRACTIONAL, RoomConfig, RoomConfigView, State,
};
use crate::store::{Store, StoreView};
use crate::text::{decimal, u128_to_string, u64_to_string};

verus! {

/// What the replacing of the configuration does: it is refused if the
/// caller is not the admin, or else if the new fee is more than the whole,
/// and then nothing changes; or the new configuration stands.
pub open spec fn update_config_outcome(
    s: StoreView,
    t: StoreView,
    sender: Seq<char>,
    config: ConfigView,
    r: Result<ResponseView, ContractError>,
) -> bool {
    if sender != s.config.admin {
        r == Err::<ResponseView, ContractError>(ContractError::Unauthorized) && t == s
    } else if config.platform_fee.atomics > DECIMAL_FRACTIONAL {
        r == Err::<ResponseView, ContractError>(ContractError::InvalidPlatformFee) && t == s
    } else {
        r == Ok::<ResponseView, ContractError>(action_response("update_config"@)) && t == (
        StoreView { config, ..s })
    }
}

/// Replaces the pool's configuration. Only the admin may; the new fee must
/// be a fraction of at most one.
pub fn execute_update_config(store: &mut Store, info: &MessageInfo, config: Config) -> (r: Result<
    Response,
    ContractError,
>)
    requires
        old(store).wf(),
    ensures
        final(store).wf(),
        update_config_outcome(old(store)@, final(store)@, info.sender@, config@, response_of(r)),
{
    match assert_is_admin(&store.config, info) {
        Ok(_) => {},
        Err(e) => {
            return Err(e);
        },
    }
    if config.platform_fee.atomics > DECIMAL_FRACTIONAL {
        return Err(ContractError::InvalidPlatformFee);
    }
    store.config = config;
    proof {
        crate::store::lemma_settings_keep_wf(old(store)@, store@);
    }
    Ok(respond_action("update_config"))
}

/// What the adding of a room does: it is refused if the caller is not the
/// admin, or else if the ownership registry did not answer for the room's
/// ownership token, and then nothing changes; or the room is added with the
/// next id and a reserve floor of zero.
pub open spec fn add_room_outcome(
    s: StoreView,
    t: StoreView,
    sender: Seq<char>,
    room_info: RoomConfigView,
    nft_owner: Option<Seq<char>>,
    r: Result<ResponseView, ContractError>,
) -> bool {
    if sender != s.config.admin {
        r == Err::<ResponseView, ContractError>(ContractError::Unauthorized) && t == s
    } else if nft_owner is None {
        r == Err::<ResponseView, ContractError>(ContractError::QueryFailed) && t == s
    } else {
        &&& r == Ok::<ResponseView, ContractError>(action_response("add_room"@))
        &&& t.state.room_id == s.state.room_id + 1
        &&& t == (StoreView {
            state: State { room_id: t.state.room_id, ..s.state },
            rooms: s.rooms.push(room_info),
            minimum_reserve: s.minimum_reserve.push(0),
            ..s
        })
    }
}

/// Adds a room. Only the admin may, and the ownership registry must know
/// the room's ownership token. The new room gets the next id and a reserve
/// floor of zero.
pub fn execute_add_room(
    store: &mut Store,
    info: &MessageInfo,
    room_info: RoomConfig,
    nft_owner: &Option<String>,
) -> (r: Result<Response, ContractError>)
    requires
        old(store).wf(),
    ensures
        final(store).wf(),
        add_room_outcome(
            old(store)@,
            final(store)@,
            info.sender@,
            room_info@,
            text_of(*nft_owner),
            response_of(r),
        ),
{
    let ghost s = store@;
    match assert_is_admin(&store.config, info) {
        Ok(_) => {},
        Err(e) => {
            return Err(e);
        },
    }
    if nft_owner.is_none() {
        return Err(ContractError::QueryFailed);
    }
    store.rooms.push(room_info);
    store.minimum_reserve.push(0);
    let count: usize = store.rooms.len();
    store.state.room_id = count as u64;
    let ghost t = store@;
    proof {
        let new_id = t.state.room_id;
        assert(t.rooms =~= s.rooms.push(room_info@));
        assert forall|room_id: u64| t.has_room(room_id) implies t.open_wagers(room_id) == (
        if room_id == new_id {
            Seq::<BetInfoView>::empty()
        } else {
            s.open_wagers(room_id)
        }) by {
            if room_id == new_id {
                crate::store::lemma_no_wagers_of_room(t.bets, room_id, t.state.living_round);
            }
        }
        assert forall|room_id: u64, n: int|
            t.has_room(room_id) && 0 <= n < WHEEL_SIZE implies #[trigger] wagers_payout(
            t.open_wagers(room_id),
            n,
        ) <= t.reserve(room_id) by {
            if room_id != new_id {
                assert(s.has_room(room_id));
                assert(wagers_payout(s.open_wagers(room_id), n) <= s.reserve(room_id));
            }
        }
        assert forall|room_id: u64| t.has_room(room_id) implies #[trigger] wagers_staked(
            t.open_wagers(room_id),
        ) <= u128::MAX by {
            if room_id != new_id {
                assert(s.has_room(room_id));
                assert(wagers_staked(s.open_wagers(room_id)) <= u128::MAX);
            }
        }
    }
    Ok(respond_action("add_room"))
}

/// What the renaming of a room does: it is refused if the caller is not the
/// admin, or else if the room does not exist, and then nothing changes; or
/// the room gets the new name and ownership token.
pub open spec fn change_room_outcome(
    s: StoreView,
    t: StoreView,
    sender: Seq<char>,
    room_id: u64,
    room_name: Seq<char>,
    nft_id: Seq<char>,
    r: Result<ResponseView, ContractError>,
) -> bool {
    if sender != s.config.admin {
        r == Err::<ResponseView, ContractError>(ContractError::Unauthorized) && t == s
    } else if !s.has_room(room_id) {
        r == Err::<ResponseView, ContractError>(ContractError::RoomNotFound { room_id }) && t == s
    } else {
        &&& r == Ok::<ResponseView, ContractError>(
            ResponseView {
                attributes: seq![
                    ("action"@, "room_update"@),
                    ("room_name"@, room_name),
                    ("nft_id"@, nft_id),
                ],
                messages: Seq::empty(),
            },
        )
        &&& t == (StoreView {
            rooms: s.rooms.update(
                room_id - 1,
                RoomConfigView { room_name, nft_id, ..s.room(room_id) },
            ),
            ..s
        })
    }
}

/// Gives a room another name and another ownership token. Only the admin
/// may.
pub fn execute_change_room_config(
    store: &mut Store,
    info: &MessageInfo,
    room_id: u64,
    room_name: String,
    nft_id: String,
) -> (r: Result<Response, ContractError>)
    requires
        old(store).wf(),
    ensures
        final(store).wf(),
        change_room_outcome(
            old(store)@,
            final(store)@,
            info.sender@,
            room_id,
            room_name@,
            nft_id@,
            response_of(r),
        ),
{
    let ghost s = store@;
    match assert_is_admin(&store.config, info) {
        Ok(_) => {},
        Err(e) => {
            return Err(e);
        },
    }
    let room_info = match validate_room_id(store, room_id) {
        Ok(room) => room,
        Err(e) => {
            return Err(e);
        },
    };
    let at = room_index(store, room_id);
    let changed = RoomConfig {
        room_name: room_name.clone(),
        game_denom: room_info.game_denom,
        nft_id: nft_id.clone(),
        max_bet: room_info.max_bet,
        min_bet: room_info.min_bet,
    };
    store.rooms.set(at, changed);
    proof {
        assert(store@.rooms =~= s.rooms.update(at as int, changed@));
        crate::store::lemma_settings_keep_wf(s, store@);
    }
    let mut attributes: Vec<Attribute> = Vec::new();
    attributes.push(attr("action", "room_update".to_string()));
    attributes.push(attr("room_name", room_name));
    attributes.push(attr("nft_id", nft_id));
    let messages: Vec<TransferMsg> = Vec::new();
    let r = Response { attributes, messages };
    proof {
        assert(r@.attributes =~= seq![
            ("action"@, "room_update"@),
            ("room_name"@, room_name@),
            ("nft_id"@, nft_id@),
        ]);
        assert(r@.messages =~= Seq::empty());
    }
    Ok(r)
}

/// What the setting of a room's limits does: the owner's act is refused,
/// and then nothing changes; or the room gets the new limits.
pub open spec fn bet_limit_outcome(
    s: StoreView,
    t: StoreView,
    sender: Seq<char>,
    room_id: u64,
    max_bet: u128,
    min_bet: u128,
    nft_owner: Option<Seq<char>>,
    r: Result<ResponseView, ContractError>,
) -> bool {
    match owner_refusal(s, sender, room_id, nft_owner) {
        Some(e) => r == Err::<ResponseView, ContractError>(e) && t == s,
        None => {
            &&& r == Ok::<ResponseView, ContractError>(
                ResponseView {
                    attributes: seq![
                        ("action"@, "room_update"@),
                        ("room_id"@, decimal(room_id as nat)),
                        ("max_bet"@, decimal(max_bet as nat)),
                        ("min_bet"@, decimal(min_bet as nat)),
                    ],
                    messages: Seq::empty(),
                },
            )
            &&& t == (StoreView {
                rooms: s.rooms.update(
                    room_id - 1,
                    RoomConfigView { max_bet, min_bet, ..s.room(room_id) },
                ),
                ..s
            })
        },
    }
}

/// Sets the limits on the total of one wager in a room. Only the room's
/// owner may.
pub fn execute_update_bet_limit(
    store: &mut Store,
    info: &MessageInfo,
    room_id: u64,
    max_bet: u128,
    min_bet: u128,
    nft_owner: &Option<String>,
) -> (r: Result<Response, ContractError>)
    requires
        old(store).wf(),
    ensures
        final(store).wf(),
        bet_limit_outcome(
            old(store)@,
            final(store)@,
            info.sender@,
            room_id,
            max_bet,
            min_bet,
            text_of(*nft_owner),
            response_of(r),
        ),
{
    let ghost s = store@;
    let room_info = match validate_room_id(store, room_id) {
        Ok(room) => room,
        Err(e) => {
            return Err(e);
        },
    };
    match assert_is_room_owner(info, nft_owner) {
        Ok(_) => {},
        Err(e) => {
            return Err(e);
        },
    }
    let at = room_index(store, room_id);
    let changed = RoomConfig {
        room_name: room_info.room_name,
        game_denom: room_info.game_denom,
        nft_id: room_info.nft_id,
        max_bet,
        min_bet,
    };
    store.rooms.set(at, changed);
    proof {
        assert(store@.rooms =~= s.rooms.update(at as int, changed@));
        crate::store::lemma_settings_keep_wf(s, store@);
    }
    let mut attributes: Vec<Attribute> = Vec::new();
    attributes.push(attr("action", "room_update".to_string()));
    attributes.push(attr("room_id", u64_to_string(room_id)));
    attributes.push(attr("max_bet", u128_to_string(max_bet)));
    attributes.push(attr("min_bet", u128_to_string(min_bet)));
    let messages: Vec<TransferMsg> = Vec::new();
    let r = Response { attributes, messages };
    proof {
        assert(r@.attributes =~= seq![
            ("action"@, "room_update"@),
            ("room_id"@, decimal(room_id as nat)),
            ("max_bet"@, decimal(max_bet as nat)),
            ("min_bet"@, decimal(min_bet as nat)),
        ]);
        assert(r@.messages =~= Seq::empty());
    }
    Ok(r)
}

} // verus!

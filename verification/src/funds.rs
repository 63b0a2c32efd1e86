//! The owner's withdrawals from the pool and deposits into it.

use vstd::prelude::*;
use crate::checks::{
    assert_is_room_owner, funds_check, get_withdrawal_amount, owner_refusal, text_of,
    validate_input_amount, validate_room_id, withdrawable,
};
use crate::env::{coin_views, CoinView, Env, MessageInfo};
use crate::error::ContractError;
use crate::execute::HostAnswers;
use crate::response::{
    attr, get_cw20_transfer_from_msg, get_payout_msg, payout_msg, response_of, transfer_views,
    Attribute, Response, ResponseView, TransferMsg, TransferMsgView,
};
use crate::state::{AssetInfo, AssetInfoView};
use crate::store::{Store, StoreView};
use crate::text::{decimal, u128_to_string, u64_to_string};

verus! {

/// Why a withdrawal is refused, if it is: the owner's act is refused; the
/// asset service did not tell what the pool holds; or the amount is more
/// than the pool holds beyond the room's reserve floor.
pub open spec fn withdraw_refusal(
    s: StoreView,
    sender: Seq<char>,
    room_id: u64,
    amount: u128,
    nft_owner: Option<Seq<char>>,
    balance: Option<u128>,
) -> Option<ContractError> {
    if owner_refusal(s, sender, room_id, nft_owner) is Some {
        owner_refusal(s, sender, room_id, nft_owner)
    } else if balance is None {
        Some(ContractError::QueryFailed)
    } else if withdrawable(balance->0, s.reserve(room_id)) < amount {
        Some(
            ContractError::WithdrawalExceedsAvailable {
                requested: amount,
                available: withdrawable(balance->0, s.reserve(room_id)),
            },
        )
    } else {
        None
    }
}

/// What a withdrawal hands back: the transfer of the amount to the owner,
/// and the owner, the room and the amount as attributes.
pub open spec fn withdraw_response(
    s: StoreView,
    sender: Seq<char>,
    room_id: u64,
    amount: u128,
) -> ResponseView {
    ResponseView {
        attributes: seq![
            ("withdrawer"@, sender),
            ("room_id"@, decimal(room_id as nat)),
            ("amount"@, decimal(amount as nat)),
        ],
        messages: seq![payout_msg(s.room(room_id).game_denom, sender, amount)],
    }
}

/// What a withdrawal does: it is refused for the first reason that
/// `withdraw_refusal` finds, or answered as `withdraw_response` says.
pub open spec fn withdraw_outcome(
    s: StoreView,
    sender: Seq<char>,
    room_id: u64,
    amount: u128,
    nft_owner: Option<Seq<char>>,
    balance: Option<u128>,
    r: Result<ResponseView, ContractError>,
) -> bool {
    match withdraw_refusal(s, sender, room_id, amount, nft_owner, balance) {
        Some(e) => r == Err::<ResponseView, ContractError>(e),
        None => r == Ok::<ResponseView, ContractError>(
            withdraw_response(s, sender, room_id, amount),
        ),
    }
}

/// No withdrawal of anything succeeds for more than the pool holds beyond
/// the room's reserve floor.
pub proof fn lemma_withdrawal_bound(
    s: StoreView,
    sender: Seq<char>,
    room_id: u64,
    amount: u128,
    nft_owner: Option<Seq<char>>,
    balance: Option<u128>,
    r: Result<ResponseView, ContractError>,
)
    requires
        withdraw_outcome(s, sender, room_id, amount, nft_owner, balance, r),
        r is Ok,
        amount > 0,
    ensures
        balance is Some,
        amount <= balance->0 - s.reserve(room_id),
{
}

/// Pays the owner of a room out of the pool. The amount is never more than
/// what the pool holds beyond the room's reserve floor. The state does not
/// change.
pub fn execute_withdraw_from_pool(
    store: &Store,
    info: &MessageInfo,
    room_id: u64,
    amount: u128,
    host: &HostAnswers,
) -> (r: Result<Response, ContractError>)
    requires
        store.wf(),
    ensures
        withdraw_outcome(
            store@,
            info.sender@,
            room_id,
            amount,
            text_of(host.nft_owner),
            host.balance,
            response_of(r),
        ),
        r is Ok ==> host.balance is Some && amount <= withdrawable(
            host.balance->0,
            store@.reserve(room_id),
        ),
{
    let room_info = match validate_room_id(store, room_id) {
        Ok(room) => room,
        Err(e) => {
            return Err(e);
        },
    };
    match assert_is_room_owner(info, &host.nft_owner) {
        Ok(_) => {},
        Err(e) => {
            return Err(e);
        },
    }
    let balance = match host.balance {
        Some(held) => held,
        None => {
            return Err(ContractError::QueryFailed);
        },
    };
    let withdrawal_amount = get_withdrawal_amount(store, room_id, balance);
    if withdrawal_amount < amount {
        return Err(
            ContractError::WithdrawalExceedsAvailable {
                requested: amount,
                available: withdrawal_amount,
            },
        );
    }
    let transfer_msg = get_payout_msg(&room_info.game_denom, info.sender.as_str(), amount);
    let mut messages: Vec<TransferMsg> = Vec::new();
    messages.push(transfer_msg);
    let mut attributes: Vec<Attribute> = Vec::new();
    attributes.push(attr("withdrawer", info.sender.clone()));
    attributes.push(attr("room_id", u64_to_string(room_id)));
    attributes.push(attr("amount", u128_to_string(amount)));
    let r = Response { attributes, messages };
    proof {
        let want = withdraw_response(store@, info.sender@, room_id, amount);
        assert(r@.attributes =~= want.attributes);
        assert(r@.messages =~= want.messages);
    }
    Ok(r)
}

/// Why a deposit is refused, if it is: the owner's act is refused, or the
/// funds are not the declared amount.
pub open spec fn deposit_refusal(
    s: StoreView,
    sender: Seq<char>,
    room_id: u64,
    amount: u128,
    funds: Seq<CoinView>,
    nft_owner: Option<Seq<char>>,
) -> Option<ContractError> {
    if owner_refusal(s, sender, room_id, nft_owner) is Some {
        owner_refusal(s, sender, room_id, nft_owner)
    } else if funds_check(funds, amount, s.room(room_id).game_denom) is Err {
        Some(ContractError::InsufficientFunds)
    } else {
        None
    }
}

/// What a deposit hands back: the action, the room and the amount as
/// attributes, and for a room of a token the transfer of the amount from the
/// owner to the pool.
pub open spec fn deposit_response(
    s: StoreView,
    sender: Seq<char>,
    pool: Seq<char>,
    room_id: u64,
    amount: u128,
) -> ResponseView {
    ResponseView {
        attributes: seq![
            ("action"@, "deposit"@),
            ("room_id"@, decimal(room_id as nat)),
            ("amount"@, decimal(amount as nat)),
        ],
        messages: match s.room(room_id).game_denom {
            AssetInfoView::Token { contract_addr } => seq![
                TransferMsgView::Cw20TransferFrom {
                    token_addr: contract_addr,
                    owner: sender,
                    recipient: pool,
                    amount,
                },
            ],
            AssetInfoView::NativeToken { denom } => Seq::empty(),
        },
    }
}

/// What a deposit does: it is refused for the first reason that
/// `deposit_refusal` finds, or answered as `deposit_response` says.
pub open spec fn deposit_outcome(
    s: StoreView,
    sender: Seq<char>,
    pool: Seq<char>,
    room_id: u64,
    amount: u128,
    funds: Seq<CoinView>,
    nft_owner: Option<Seq<char>>,
    r: Result<ResponseView, ContractError>,
) -> bool {
    match deposit_refusal(s, sender, room_id, amount, funds, nft_owner) {
        Some(e) => r == Err::<ResponseView, ContractError>(e),
        None => r == Ok::<ResponseView, ContractError>(
            deposit_response(s, sender, pool, room_id, amount),
        ),
    }
}

/// Takes a deposit of the room's owner into the pool. The state does not
/// change: no reserve floor is lowered.
pub fn execute_deposit(
    store: &Store,
    env: &Env,
    info: &MessageInfo,
    room_id: u64,
    amount: u128,
    host: &HostAnswers,
) -> (r: Result<Response, ContractError>)
    requires
        store.wf(),
    ensures
        deposit_outcome(
            store@,
            info.sender@,
            env.contract.address@,
            room_id,
            amount,
            coin_views(info.funds@),
            text_of(host.nft_owner),
            response_of(r),
        ),
{
    let room_info = match validate_room_id(store, room_id) {
        Ok(room) => room,
        Err(e) => {
            return Err(e);
        },
    };
    match assert_is_room_owner(info, &host.nft_owner) {
        Ok(_) => {},
        Err(e) => {
            return Err(e);
        },
    }
    match validate_input_amount(&info.funds, amount, &room_info.game_denom) {
        Ok(_) => {},
        Err(e) => {
            return Err(ContractError::InsufficientFunds);
        },
    }
    let mut attributes: Vec<Attribute> = Vec::new();
    attributes.push(attr("action", "deposit".to_string()));
    attributes.push(attr("room_id", u64_to_string(room_id)));
    attributes.push(attr("amount", u128_to_string(amount)));
    let mut messages: Vec<TransferMsg> = Vec::new();
    match &room_info.game_denom {
        AssetInfo::Token { contract_addr } => {
            let msg = get_cw20_transfer_from_msg(
                contract_addr.as_str(),
                info.sender.as_str(),
                env.contract.address.as_str(),
                amount,
            );
            messages.push(msg);
            assert(transfer_views(messages@) =~= seq![msg@]);
        },
        AssetInfo::NativeToken { denom: _ } => {
            assert(transfer_views(messages@) =~= Seq::<TransferMsgView>::empty());
        },
    }
    let r = Response { attributes, messages };
    proof {
        let want = deposit_response(
            store@,
            info.sender@,
            env.contract.address@,
            room_id,
            amount,
        );
        assert(r@.attributes =~= want.attributes);
    }
    Ok(r)
}

} // verus!

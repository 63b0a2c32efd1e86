//! What an operation hands back: attributes that describe it and the
//! transfers that the asset service is to carry out.

use vstd::prelude::*;
use crate::error::ContractError;
use crate::state::{AssetInfo, AssetInfoView};

verus! {

/// A transfer that an operation asks for. The pool decides who receives
/// and how much; the asset service moves the funds.
#[derive(Debug, PartialEq, Eq)]
pub enum TransferMsg {
    /// The token contract moves `amount` of the pool's tokens to `recipient`.
    Cw20Transfer { token_addr: String, recipient: String, amount: u128 },
    /// The token contract moves `amount` of `owner`'s tokens to `recipient`.
    Cw20TransferFrom { token_addr: String, owner: String, recipient: String, amount: u128 },
    /// The token contract burns `amount` of `owner`'s tokens.
    Cw20BurnFrom { token_addr: String, owner: String, amount: u128 },
    /// The bank sends `amount` of the native coin `denom` to `to_address`.
    BankSend { to_address: String, denom: String, amount: u128 },
}

/// What the contracts see of a `TransferMsg`: its texts and lists as sequences.
pub enum TransferMsgView {
    Cw20Transfer { token_addr: Seq<char>, recipient: Seq<char>, amount: u128 },
    Cw20TransferFrom {
        token_addr: Seq<char>,
        owner: Seq<char>,
        recipient: Seq<char>,
        amount: u128,
    },
    Cw20BurnFrom { token_addr: Seq<char>, owner: Seq<char>, amount: u128 },
    BankSend { to_address: Seq<char>, denom: Seq<char>, amount: u128 },
}

impl View for TransferMsg {
    type V = TransferMsgView;

    open spec fn view(&self) -> TransferMsgView {
        match self {
            TransferMsg::Cw20Transfer { token_addr, recipient, amount } => {
                TransferMsgView::Cw20Transfer {
                    token_addr: token_addr@,
                    recipient: recipient@,
                    amount: *amount,
                }
            },
            TransferMsg::Cw20TransferFrom { token_addr, owner, recipient, amount } => {
                TransferMsgView::Cw20TransferFrom {
                    token_addr: token_addr@,
                    owner: owner@,
                    recipient: recipient@,
                    amount: *amount,
                }
            },
            TransferMsg::Cw20BurnFrom { token_addr, owner, amount } => {
                TransferMsgView::Cw20BurnFrom {
                    token_addr: token_addr@,
                    owner: owner@,
                    amount: *amount,
                }
            },
            TransferMsg::BankSend { to_address, denom, amount } => TransferMsgView::BankSend {
                to_address: to_address@,
                denom: denom@,
                amount: *amount,
            },
        }
    }
}

impl TransferMsgView {
    /// The amount that the transfer moves.
    pub open spec fn amount(self) -> u128 {
        match self {
            TransferMsgView::Cw20Transfer { amount, .. } => amount,
            TransferMsgView::Cw20TransferFrom { amount, .. } => amount,
            TransferMsgView::Cw20BurnFrom { amount, .. } => amount,
            TransferMsgView::BankSend { amount, .. } => amount,
        }
    }
}

/// The transfers of a list, each as its view.
pub open spec fn transfer_views(msgs: Seq<TransferMsg>) -> Seq<TransferMsgView> {
    msgs.map_values(|m: TransferMsg| m@)
}

/// Asks the token contract `token_addr` to move `amount` of the pool's
/// tokens to `recipient`.
pub fn get_cw20_transfer_msg(token_addr: &str, recipient: &str, amount: u128) -> (msg: TransferMsg)
    ensures
        msg@ == (TransferMsgView::Cw20Transfer {
            token_addr: token_addr@,
            recipient: recipient@,
            amount,
        }),
{
    TransferMsg::Cw20Transfer {
        token_addr: token_addr.to_string(),
        recipient: recipient.to_string(),
        amount,
    }
}

/// Asks the token contract `token_addr` to move `amount` of `owner`'s tokens
/// to `recipient`.
pub fn get_cw20_transfer_from_msg(
    token_addr: &str,
    owner: &str,
    recipient: &str,
    amount: u128,
) -> (msg: TransferMsg)
    ensures
        msg@ == (TransferMsgView::Cw20TransferFrom {
            token_addr: token_addr@,
            owner: owner@,
            recipient: recipient@,
            amount,
        }),
{
    TransferMsg::Cw20TransferFrom {
        token_addr: token_addr.to_string(),
        owner: owner.to_string(),
        recipient: recipient.to_string(),
        amount,
    }
}

/// Asks the token contract `token_addr` to burn `amount` of `owner`'s tokens.
pub fn get_cw20_burn_from_msg(token_addr: &str, owner: &str, amount: u128) -> (msg: TransferMsg)
    ensures
        msg@ == (TransferMsgView::Cw20BurnFrom { token_addr: token_addr@, owner: owner@, amount }),
{
    TransferMsg::Cw20BurnFrom {
        token_addr: token_addr.to_string(),
        owner: owner.to_string(),
        amount,
    }
}

/// Asks the bank to send `amount` of the native coin `denom` to `recipient`.
pub fn get_bank_transfer_to_msg(recipient: &str, denom: &str, amount: u128) -> (msg: TransferMsg)
    ensures
        msg@ == (TransferMsgView::BankSend { to_address: recipient@, denom: denom@, amount }),
{
    TransferMsg::BankSend { to_address: recipient.to_string(), denom: denom.to_string(), amount }
}

/// The transfer that pays `amount` out of the pool in the asset `denom`.
pub open spec fn payout_msg(
    denom: AssetInfoView,
    recipient: Seq<char>,
    amount: u128,
) -> TransferMsgView {
    match denom {
        AssetInfoView::Token { contract_addr } => TransferMsgView::Cw20Transfer {
            token_addr: contract_addr,
            recipient,
            amount,
        },
        AssetInfoView::NativeToken { denom } => TransferMsgView::BankSend {
            to_address: recipient,
            denom,
            amount,
        },
    }
}

/// Pays `amount` out of the pool to `recipient`, in the asset `denom`.
pub fn get_payout_msg(denom: &AssetInfo, recipient: &str, amount: u128) -> (msg: TransferMsg)
    ensures
        msg@ == payout_msg(denom@, recipient@, amount),
{
    match denom {
        AssetInfo::Token { contract_addr } => get_cw20_transfer_msg(
            contract_addr.as_str(),
            recipient,
            amount,
        ),
        AssetInfo::NativeToken { denom } => get_bank_transfer_to_msg(
            recipient,
            denom.as_str(),
            amount,
        ),
    }
}

/// A key and a value that describe what an operation did.
#[derive(Debug, PartialEq, Eq)]
pub struct Attribute {
    pub key: String,
    pub value: String,
}

/// Builds an attribute.
pub fn attr(key: &str, value: String) -> (a: Attribute)
    ensures
        a.key@ == key@,
        a.value@ == value@,
{
    Attribute { key: key.to_string(), value }
}

/// The attributes of a list, each as its key and value.
pub open spec fn attribute_views(attrs: Seq<Attribute>) -> Seq<(Seq<char>, Seq<char>)> {
    attrs.map_values(|a: Attribute| (a.key@, a.value@))
}

/// What an operation hands back.
#[derive(Debug, PartialEq, Eq)]
pub struct Response {
    pub attributes: Vec<Attribute>,
    pub messages: Vec<TransferMsg>,
}

/// What the contracts see of a `Response`: its texts and lists as sequences.
pub struct ResponseView {
    pub attributes: Seq<(Seq<char>, Seq<char>)>,
    pub messages: Seq<TransferMsgView>,
}

impl View for Response {
    type V = ResponseView;

    open spec fn view(&self) -> ResponseView {
        ResponseView {
            attributes: attribute_views(self.attributes@),
            messages: transfer_views(self.messages@),
        }
    }
}

/// The result of an operation, a response as its view.
pub open spec fn response_of(r: Result<Response, ContractError>) -> Result<
    ResponseView,
    ContractError,
> {
    match r {
        Ok(resp) => Ok(resp@),
        Err(e) => Err(e),
    }
}

/// A response with one attribute, the action, and no transfers.
pub open spec fn action_response(action: Seq<char>) -> ResponseView {
    ResponseView { attributes: seq![("action"@, action)], messages: Seq::empty() }
}

/// A response with one attribute, the action, and no transfers.
pub fn respond_action(action: &str) -> (r: Response)
    ensures
        r@ == action_response(action@),
{
    let mut attributes: Vec<Attribute> = Vec::new();
    attributes.push(attr("action", action.to_string()));
    let messages: Vec<TransferMsg> = Vec::new();
    let r = Response { attributes, messages };
    assert(r@.attributes =~= action_response(action@).attributes);
    assert(r@.messages =~= action_response(action@).messages);
    r
}

} // verus!

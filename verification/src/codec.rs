use vstd::prelude::*;
use crate::msgs::HookMsg;

verus! {

/// What the wire decoder makes of a payload: the decoded hook variant, or
/// `None` where the bytes decode to no recognized variant at all.  The
/// outcome depends on the payload bytes alone.
pub uninterp spec fn hook_of(payload: Seq<u8>) -> Option<HookMsg>;

/// The wire form of a ledger transfer request for `amount` tokens to
/// `recipient`.  The bytes depend on the recipient and amount alone.
pub uninterp spec fn transfer_payload(recipient: Seq<char>, amount: u128) -> Seq<u8>;

/// Relies on `cosmwasm_std::from_binary` (serde decoding of
/// `astroport::generator_proxy::Cw20HookMsg`): the decode is a pure
/// function of the payload bytes, and `Deposit` is the only variant.
#[verifier::external_body]
pub(crate) fn decode_hook(payload: &Vec<u8>) -> (r: Option<HookMsg>)
    ensures
        r == hook_of(payload@),
{
    let binary = cosmwasm_std::Binary(payload.clone());
    match cosmwasm_std::from_binary::<astroport::generator_proxy::Cw20HookMsg>(&binary) {
        Ok(astroport::generator_proxy::Cw20HookMsg::Deposit {}) => Some(HookMsg::Deposit),
        Err(_) => None,
    }
}

/// Relies on `cosmwasm_std::to_binary` (serde encoding of
/// `cw20::Cw20ExecuteMsg::Transfer`): the encoding is a pure function of
/// the recipient and the amount.
#[verifier::external_body]
fn encode_transfer(recipient: &String, amount: u128) -> (r: Option<Vec<u8>>)
    ensures
        r matches Some(b) ==> b@ == transfer_payload(recipient@, amount),
{
    let msg = cw20::Cw20ExecuteMsg::Transfer {
        recipient: recipient.clone(),
        amount: cosmwasm_std::Uint128::new(amount),
    };
    match cosmwasm_std::to_binary(&msg) {
        Ok(binary) => Some(binary.0),
        Err(_) => None,
    }
}

/// The wire form of `Request::Cw20Transfer`, for the host to place into
/// the message it dispatches to the token ledger.  Returns `None` only
/// where the encoder itself rejects the value.
pub fn cw20_transfer_wire(recipient: &String, amount: u128) -> (r: Option<Vec<u8>>)
    ensures
        r matches Some(b) ==> b@ == transfer_payload(recipient@, amount),
{
    encode_transfer(recipient, amount)
}

} // verus!

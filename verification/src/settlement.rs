//! Settlement: the instruction that hands an asset to a party.

use crate::asset::{Asset, AssetModel, AssetType, DenomModel};
use crate::error::ContractError;
use crate::identity::Identity;
use crate::msg::{Instruction, InstructionModel};
use cosmwasm_std::{to_json_binary, StdError, Uint128};
use cw20::Cw20ExecuteMsg;
use vstd::prelude::*;
use vstd::string::*;

verus! {

/// The bytes that ask a token contract to transfer `amount` to `recipient`.
pub uninterp spec fn transfer_payload(recipient: Seq<char>, amount: u128) -> Seq<u8>;

/// `to_json_binary` of `Cw20ExecuteMsg::Transfer`: the encoded request to
/// transfer `amount` to `recipient`. It always succeeds, since the encoder
/// has no failing path for a text and an amount. Nothing is claimed of the
/// bytes but that the same recipient and amount give the same bytes.
#[verifier::external_body]
fn encode_transfer(recipient: &str, amount: u128) -> (encoded: Result<Vec<u8>, StdError>)
    ensures
        encoded is Ok,
        encoded->Ok_0@ == transfer_payload(recipient@, amount),
{
    let request = Cw20ExecuteMsg::Transfer {
        recipient: recipient.to_string(),
        amount: Uint128::new(amount),
    };
    to_json_binary(&request).map(|binary| binary.0)
}

/// The instruction that hands `asset` to `party`: for a native unit a send,
/// for a token a call of the token's contract with the request to transfer.
pub open spec fn instruction_for(party: Seq<char>, asset: AssetModel) -> InstructionModel {
    match asset.denom {
        DenomModel::Native(symbol) => InstructionModel::Send {
            to_address: party,
            denom: symbol,
            amount: asset.amount,
        },
        DenomModel::Cw20(address) => InstructionModel::Execute {
            contract_addr: address,
            msg: transfer_payload(party, asset.amount),
        },
    }
}

/// The call of the token contract at `contract_addr` with an encoded
/// request, or the error that kept the request from being encoded.
pub fn token_call(contract_addr: &str, encoded: Result<Vec<u8>, StdError>) -> (call: Result<
    Instruction,
    ContractError,
>)
    ensures
        match encoded {
            Ok(bytes) => call is Ok && call->Ok_0@ == (InstructionModel::Execute {
                contract_addr: contract_addr@,
                msg: bytes@,
            }),
            Err(error) => call is Err && call->Err_0 == ContractError::Std(error),
        },
{
    match encoded {
        Ok(bytes) => Ok(Instruction::Execute { contract_addr: contract_addr.to_owned(), msg: bytes }),
        Err(error) => Err(ContractError::Std(error)),
    }
}

/// The instruction that hands `asset` to `party`.
pub fn transfer_instruction(party: &Identity, asset: &Asset) -> (made: Result<
    Instruction,
    ContractError,
>)
    ensures
        made is Ok,
        made->Ok_0@ == instruction_for(party@, asset@),
{
    match &asset.denom {
        AssetType::Native(symbol) => Ok(
            Instruction::Send {
                to_address: party.to_text(),
                denom: symbol.clone(),
                amount: asset.amount,
            },
        ),
        AssetType::Cw20(address) => {
            let encoded = encode_transfer(party.as_str(), asset.amount);
            token_call(address.as_str(), encoded)
        },
    }
}

} // verus!

//! The ways in which an operation of the escrow fails.

use crate::asset::{decimal, decimal_text, AssetType};
use cosmwasm_std::StdError;
use vstd::prelude::*;
use vstd::string::*;

verus! {

/// Why an operation was refused. A refused operation emits no instruction.
#[derive(Debug, PartialEq)]
pub enum ContractError {
    /// An error of the store or of the encoder, handed on as it came.
    Std(StdError),
    Unauthorized {},
    /// A deposit or an acceptance came without funds.
    NoFundsWithDeposit {},
    NoNativeForExchange {},
    /// The funds offered are not of the unit that the offer asks for.
    ExchangeIncorrectDenom { expected: AssetType, received: AssetType },
    /// The funds offered are of the right unit, but not of the amount that
    /// the offer asks for.
    ExchangeIncorrectAmount { expected_amount: u128, provided_amount: u128 },
    /// A name is too long to be an identity.
    InvalidAddress { address: String },
    /// The ledger holds no deposit with this identifier where it was looked
    /// for.
    DepositNotFound { id: u64 },
    /// The ledger holds more than one deposit with this identifier.
    DuplicateDeposit { id: u64 },
    /// Every identifier has been issued.
    IdentifiersExhausted {},
    /// A deposit is to be held under an identifier that was never issued.
    UnknownIdentifier { id: u64 },
}

/// `StdError`'s `Display`, through `to_string`: the text of an error of the
/// store or of the encoder. Nothing is claimed of the text.
#[verifier::external_body]
fn std_error_text(error: &StdError) -> (text: String) {
    error.to_string()
}

/// The text that says why an operation was refused; for an error of the
/// store or of the encoder, which words its text itself, there is none to
/// state.
pub open spec fn error_text(error: ContractError) -> Option<Seq<char>> {
    match error {
        ContractError::Std(_) => None,
        ContractError::Unauthorized {  } => Some("Unauthorized"@),
        ContractError::NoFundsWithDeposit {  } => Some("No funds provided during deposit"@),
        ContractError::NoNativeForExchange {  } => Some("No native token provided for exchange"@),
        ContractError::ExchangeIncorrectDenom { expected, received } => Some(
            "Offer expected tokens: "@ + expected@.name() + ", user provided tokens: "@
                + received@.name(),
        ),
        ContractError::ExchangeIncorrectAmount { expected_amount, provided_amount } => Some(
            "Incorrect amount has been provided, exchange expected "@ + decimal(
                expected_amount as nat,
            ) + " while user provided "@ + decimal(provided_amount as nat),
        ),
        ContractError::InvalidAddress { address } => Some("Invalid address: "@ + address@),
        ContractError::DepositNotFound { id } => Some(
            "No deposit with given ID was found: "@ + decimal(id as nat),
        ),
        ContractError::DuplicateDeposit { id } => Some(
            "Something went wrong; More then 1 deposit with searched ID: "@ + decimal(id as nat),
        ),
        ContractError::IdentifiersExhausted {  } => Some("No identifier is left to issue"@),
        ContractError::UnknownIdentifier { id } => Some(
            "Deposit held under an ID that was never issued: "@ + decimal(id as nat),
        ),
    }
}

fn with_number(words: &str, number: u128) -> (text: String)
    ensures
        text@ == words@ + decimal(number as nat),
{
    let mut text = words.to_owned();
    let numeral = decimal_text(number);
    text.append(numeral.as_str());
    text
}

impl ContractError {
    /// The text that says why an operation was refused.
    pub fn to_text(&self) -> (text: String)
        ensures
            error_text(*self) is Some ==> text@ == error_text(*self)->0,
    {
        match self {
            ContractError::Std(error) => std_error_text(error),
            ContractError::Unauthorized {  } => "Unauthorized".to_owned(),
            ContractError::NoFundsWithDeposit {  } => "No funds provided during deposit".to_owned(),
            ContractError::NoNativeForExchange {  } => {
                "No native token provided for exchange".to_owned()
            },
            ContractError::ExchangeIncorrectDenom { expected, received } => {
                let mut text = "Offer expected tokens: ".to_owned();
                let expected_name = expected.to_text();
                text.append(expected_name.as_str());
                text.append(", user provided tokens: ");
                let received_name = received.to_text();
                text.append(received_name.as_str());
                text
            },
            ContractError::ExchangeIncorrectAmount { expected_amount, provided_amount } => {
                let mut text = with_number(
                    "Incorrect amount has been provided, exchange expected ",
                    *expected_amount,
                );
                text.append(" while user provided ");
                let provided = decimal_text(*provided_amount);
                text.append(provided.as_str());
                text
            },
            ContractError::InvalidAddress { address } => {
                let mut text = "Invalid address: ".to_owned();
                text.append(address.as_str());
                text
            },
            ContractError::DepositNotFound { id } => with_number(
                "No deposit with given ID was found: ",
                *id as u128,
            ),
            ContractError::DuplicateDeposit { id } => with_number(
                "Something went wrong; More then 1 deposit with searched ID: ",
                *id as u128,
            ),
            ContractError::IdentifiersExhausted {  } => "No identifier is left to issue".to_owned(),
            ContractError::UnknownIdentifier { id } => with_number(
                "Deposit held under an ID that was never issued: ",
                *id as u128,
            ),
        }
    }
}

} // verus!

//! What the escrow is asked and what it answers: requests, the funds that
//! come with them, and responses with the instructions they carry.

use crate::asset::Asset;
use crate::identity::Identity;
use crate::state::{Deposit, DepositModel, ID};
use vstd::prelude::*;

verus! {

/// An amount of a native unit that came with a request.
#[derive(Debug, PartialEq, Eq)]
pub struct Coin {
    pub denom: String,
    pub amount: u128,
}

/// Who sent a request, and the funds that came with it.
#[derive(Debug, PartialEq, Eq)]
pub struct MessageInfo {
    pub sender: Identity,
    pub funds: Vec<Coin>,
}

/// A request to set the escrow up.
#[derive(Debug, PartialEq, Eq)]
pub struct InstantiateMsg {
    pub fee_address: String,
    /// A fee as a fraction, in units of ten to the minus eighteen.
    pub optional_service_fee: u128,
}

/// What a token contract reports when tokens were sent to the escrow: who
/// sent them, how many, and what the sender asks for.
#[derive(Debug, PartialEq, Eq)]
pub struct Cw20Receive {
    pub sender: String,
    pub amount: u128,
    pub msg: ReceiveCw20Msg,
}

/// A request that changes the ledger or settles an offer.
#[derive(Debug, PartialEq, Eq)]
pub enum ExecuteMsg {
    /// Tokens were sent, for a deposit or to accept an offer.
    Receive(Cw20Receive),
    /// Deposit the native funds sent along, with an offer.
    Deposit {
        /// What the depositor wants in return.
        exchange: Asset,
        /// The only party whose acceptance the depositor wants.
        from: Option<String>,
    },
    /// Take a deposit back; with no identifier, all of the sender's.
    Withdraw { id: Option<ID> },
    /// Accept the offer of the deposit, paying with the native funds sent
    /// along.
    AcceptExchange { deposit_id: ID },
}

/// What the sender of tokens asks for.
#[derive(Debug, PartialEq, Eq)]
pub enum ReceiveCw20Msg {
    /// Deposit the tokens, with an offer.
    Deposit {
        /// What the depositor wants in return.
        exchange: Asset,
        /// The only party whose acceptance the depositor wants.
        from: Option<String>,
    },
    /// Accept the offer of the deposit, paying with the tokens.
    AcceptExchange { deposit_id: ID },
}

/// A question about the ledger.
#[derive(Debug, PartialEq, Eq)]
pub enum QueryMsg {
    /// All deposits of one owner.
    DepositsBySender { address: String },
    /// The deposit with the given identifier.
    DepositById { id: ID },
}

/// The deposits of one owner, each with its identifier.
#[derive(Debug, PartialEq, Eq)]
pub struct DepositsBySenderResponse {
    pub deposits: Vec<(ID, Deposit)>,
}

/// A deposit and its owner.
#[derive(Debug, PartialEq, Eq)]
pub struct DepositByIdResponse {
    pub sender: Identity,
    pub deposit: Deposit,
}

/// The answer to a question about the ledger.
#[derive(Debug, PartialEq, Eq)]
pub enum QueryResponse {
    DepositsBySender(DepositsBySenderResponse),
    DepositById(DepositByIdResponse),
}

/// An instruction as a mathematical value.
pub enum InstructionModel {
    Send { to_address: Seq<char>, denom: Seq<char>, amount: u128 },
    Execute { contract_addr: Seq<char>, msg: Seq<u8> },
}

/// A transfer that the host is to carry out once the operation is done.
#[derive(Debug, PartialEq, Eq)]
pub enum Instruction {
    /// Send an amount of a native unit to a party.
    Send { to_address: String, denom: String, amount: u128 },
    /// Call a token contract with an encoded request, and no funds.
    Execute { contract_addr: String, msg: Vec<u8> },
}

impl View for Instruction {
    type V = InstructionModel;

    open spec fn view(&self) -> InstructionModel {
        match self {
            Instruction::Send { to_address, denom, amount } => InstructionModel::Send {
                to_address: to_address@,
                denom: denom@,
                amount: *amount,
            },
            Instruction::Execute { contract_addr, msg } => InstructionModel::Execute {
                contract_addr: contract_addr@,
                msg: msg@,
            },
        }
    }
}

/// A named value that a response reports.
#[derive(Debug, PartialEq, Eq)]
pub struct Attribute {
    pub key: String,
    pub value: String,
}

impl View for Attribute {
    type V = (Seq<char>, Seq<char>);

    open spec fn view(&self) -> (Seq<char>, Seq<char>) {
        (self.key@, self.value@)
    }
}

/// A response as a mathematical value.
pub struct ResponseModel {
    pub messages: Seq<InstructionModel>,
    pub attributes: Seq<(Seq<char>, Seq<char>)>,
}

/// What an operation answers: the instructions for the host, in the order
/// in which they are to be carried out, and what the operation reports.
#[derive(Debug, PartialEq, Eq)]
pub struct Response {
    pub messages: Vec<Instruction>,
    pub attributes: Vec<Attribute>,
}

/// A list of instructions as a mathematical value.
pub open spec fn instructions_model(list: Seq<Instruction>) -> Seq<InstructionModel> {
    Seq::new(list.len(), |i: int| list[i]@)
}

/// A list of attributes as a mathematical value.
pub open spec fn attributes_model(list: Seq<Attribute>) -> Seq<(Seq<char>, Seq<char>)> {
    Seq::new(list.len(), |i: int| list[i]@)
}

impl View for Response {
    type V = ResponseModel;

    open spec fn view(&self) -> ResponseModel {
        ResponseModel {
            messages: instructions_model(self.messages@),
            attributes: attributes_model(self.attributes@),
        }
    }
}

impl Response {
    /// The response with no instruction and no attribute.
    pub fn new() -> (response: Response)
        ensures
            response@.messages == Seq::<InstructionModel>::empty(),
            response@.attributes == Seq::<(Seq<char>, Seq<char>)>::empty(),
    {
        let response = Response { messages: Vec::new(), attributes: Vec::new() };
        assert(response@.messages =~= Seq::<InstructionModel>::empty());
        assert(response@.attributes =~= Seq::<(Seq<char>, Seq<char>)>::empty());
        response
    }

    /// The response with one more attribute at its end.
    pub fn add_attribute(self, key: &str, value: String) -> (response: Response)
        ensures
            response@.messages == self@.messages,
            response@.attributes == self@.attributes.push((key@, value@)),
    {
        let mut response = self;
        response.attributes.push(Attribute { key: key.to_owned(), value });
        assert(response@.attributes =~= self@.attributes.push((key@, value@)));
        assert(response@.messages =~= self@.messages);
        response
    }

    /// The response with the given instructions after its own.
    pub fn add_messages(self, messages: Vec<Instruction>) -> (response: Response)
        ensures
            response@.messages == self@.messages + instructions_model(messages@),
            response@.attributes == self@.attributes,
    {
        let mut response = self;
        let mut rest = messages;
        response.messages.append(&mut rest);
        assert(response@.messages =~= self@.messages + instructions_model(messages@));
        assert(response@.attributes =~= self@.attributes);
        response
    }
}

} // verus!

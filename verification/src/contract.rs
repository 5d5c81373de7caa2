//! The operations of the escrow: deposit, withdraw, accept an exchange, and
//! the questions about the ledger.

use crate::asset::{asset_text, Asset, AssetModel, DenomModel};
use crate::error::ContractError;
use crate::identity::Identity;
use crate::msg::{
    instructions_model, Coin, Cw20Receive, DepositByIdResponse, DepositsBySenderResponse,
    ExecuteMsg, InstantiateMsg, Instruction, InstructionModel, MessageInfo, QueryMsg,
    QueryResponse, ReceiveCw20Msg, Response, ResponseModel,
};
use crate::settlement::{instruction_for, transfer_instruction};
use crate::state::{
    add_deposit, all_deposits, entries_model, get_deposits, held_by, listing_model, load_deposit,
    remove_deposit, set_fee_config, without_owner, Deposit, DepositModel, Ledger, Offer,
    OfferModel, ID,
};
use crate::store::{key_fits, percent_fee};
use vstd::prelude::*;
use vstd::string::*;

verus! {

/// The two instructions that settle an exchange: the first hands
/// `first_asset` to `first_party`, the second `second_asset` to
/// `second_party`.
pub open spec fn settlement(
    first_party: Seq<char>,
    first_asset: AssetModel,
    second_party: Seq<char>,
    second_asset: AssetModel,
) -> Seq<InstructionModel> {
    seq![
        instruction_for(first_party, first_asset),
        instruction_for(second_party, second_asset),
    ]
}

/// Builds the two instructions that settle an exchange, in this order: the
/// first asset to the first party, the second asset to the second party.
///
/// To settle an accepted offer, the first pair is the depositor with the
/// funds that the accepting party paid, the second the accepting party with
/// the escrowed asset.
pub fn create_exchange_messages(
    first_party: &Identity,
    first_asset: &Asset,
    second_party: &Identity,
    second_asset: &Asset,
) -> (made: Result<Vec<Instruction>, ContractError>)
    ensures
        made is Ok,
        instructions_model(made->Ok_0@) == settlement(
            first_party@,
            first_asset@,
            second_party@,
            second_asset@,
        ),
{
    let first_message = transfer_instruction(first_party, first_asset)?;
    let second_message = transfer_instruction(second_party, second_asset)?;
    let mut messages: Vec<Instruction> = Vec::new();
    messages.push(first_message);
    messages.push(second_message);
    assert(instructions_model(messages@) =~= seq![first_message@, second_message@]);
    Ok(messages)
}

/// Whether `error` says that funds of the unit `offered` came where the
/// offer asks for the unit `wanted`.
pub open spec fn is_incorrect_denom(
    error: ContractError,
    wanted: DenomModel,
    offered: DenomModel,
) -> bool {
    error matches ContractError::ExchangeIncorrectDenom { expected, received } && expected@
        == wanted && received@ == offered
}

/// Holds the funds that were offered against what the offer asks for: they
/// settle it only if they are of the same unit, by kind and by name, and of
/// the same amount.
pub fn check_exchange(wanted: &Asset, offered: &Asset) -> (checked: Result<(), ContractError>)
    ensures
        wanted@ == offered@ <==> checked is Ok,
        wanted@.denom != offered@.denom ==> checked is Err && is_incorrect_denom(
            checked->Err_0,
            wanted@.denom,
            offered@.denom,
        ),
        wanted@.denom == offered@.denom && wanted.amount != offered.amount ==> checked is Err
            && checked->Err_0 == (ContractError::ExchangeIncorrectAmount {
            expected_amount: wanted.amount,
            provided_amount: offered.amount,
        }),
{
    if !wanted.denom.same_as(&offered.denom) {
        return Err(
            ContractError::ExchangeIncorrectDenom {
                expected: wanted.denom.clone(),
                received: offered.denom.clone(),
            },
        );
    }
    if wanted.amount != offered.amount {
        return Err(
            ContractError::ExchangeIncorrectAmount {
                expected_amount: wanted.amount,
                provided_amount: offered.amount,
            },
        );
    }
    Ok(())
}

/// Finds the one entry of a list of deposits that has the identifier `id`.
/// It fails with `DepositNotFound` where none has it, and with
/// `DuplicateDeposit` where more than one has it.
pub fn find_by_id(entries: &Vec<(Identity, ID, Deposit)>, id: ID) -> (found: Result<
    usize,
    ContractError,
>)
    ensures
        match found {
            Ok(at) => at < entries.len() && entries[at as int].1 == id && forall|i: int|
                0 <= i < entries.len() && i != at ==> (#[trigger] entries[i]).1 != id,
            Err(error) => {
                ||| error == (ContractError::DepositNotFound { id }) && forall|i: int|
                    0 <= i < entries.len() ==> (#[trigger] entries[i]).1 != id
                ||| error == (ContractError::DuplicateDeposit { id }) && exists|i: int, j: int|
                    0 <= i < j < entries.len() && (#[trigger] entries[i]).1 == id
                        && (#[trigger] entries[j]).1 == id
            },
        },
{
    let mut first: Option<usize> = None;
    let mut at: usize = 0;
    while at < entries.len()
        invariant
            0 <= at <= entries.len(),
            match first {
                Some(seen) => seen < at && entries[seen as int].1 == id && forall|i: int|
                    0 <= i < at && i != seen ==> (#[trigger] entries[i]).1 != id,
                None => forall|i: int| 0 <= i < at ==> (#[trigger] entries[i]).1 != id,
            },
        decreases entries.len() - at,
    {
        if entries[at].1 == id {
            match first {
                Some(seen) => {
                    assert(entries[seen as int].1 == id && entries[at as int].1 == id);
                    return Err(ContractError::DuplicateDeposit { id });
                },
                None => {
                    first = Some(at);
                },
            }
        }
        at += 1;
    }
    match first {
        Some(seen) => Ok(seen),
        None => Err(ContractError::DepositNotFound { id }),
    }
}

/// The owner of the deposit with the identifier `id`, if there is such a
/// deposit.
pub open spec fn holder(deposits: Map<(Seq<char>, u64), DepositModel>, id: u64) -> Option<
    Seq<char>,
> {
    if exists|owner: Seq<char>| deposits.contains_key((owner, id)) {
        Some(choose|owner: Seq<char>| deposits.contains_key((owner, id)))
    } else {
        None
    }
}

/// The deposit with the identifier `id`, and its owner. It fails with
/// `DepositNotFound` where the ledger holds no such deposit.
pub fn deposit_by_id(ledger: &Ledger, search_id: ID) -> (found: Result<
    DepositByIdResponse,
    ContractError,
>)
    requires
        ledger.wf(),
    ensures
        match holder(ledger.deposits(), search_id) {
            Some(owner) => found is Ok && found->Ok_0.sender@ == owner && found->Ok_0.deposit@
                == ledger.deposits()[(owner, search_id)],
            None => found is Err && found->Err_0 == (ContractError::DepositNotFound {
                id: search_id,
            }),
        },
{
    let entries = all_deposits(ledger)?;
    let ghost listed = entries_model(entries@);
    match find_by_id(&entries, search_id) {
        Ok(at) => {
            proof {
                assert(listed[at as int].1 == search_id);
                assert(ledger.deposits().contains_key((listed[at as int].0, search_id)));
            }
            Ok(
                DepositByIdResponse {
                    sender: entries[at].0.clone(),
                    deposit: entries[at].2.clone(),
                },
            )
        },
        Err(error) => {
            proof {
                if error == (ContractError::DuplicateDeposit { id: search_id }) {
                    let (i, j) = choose|i: int, j: int|
                        0 <= i < j < entries.len() && (#[trigger] entries[i]).1 == search_id
                            && (#[trigger] entries[j]).1 == search_id;
                    assert(ledger.deposits().contains_key((listed[i].0, listed[i].1)));
                    assert(ledger.deposits().contains_key((listed[j].0, listed[j].1)));
                    assert((listed[i].0, listed[i].1) != (listed[j].0, listed[j].1));
                    assert(false);
                } else {
                    if exists|owner: Seq<char>|
                        ledger.deposits().contains_key((owner, search_id)) {
                        let owner = choose|owner: Seq<char>|
                            ledger.deposits().contains_key((owner, search_id));
                        let i = choose|i: int|
                            0 <= i < listed.len() && #[trigger] listed[i].0 == owner
                                && listed[i].1 == search_id;
                        assert(entries[i].1 == search_id);
                    }
                }
            }
            Err(error)
        },
    }
}

/// What accepting the offer of the deposit `id` with the funds `offered`
/// comes to.
///
/// It fails with `DepositNotFound` where there is no such deposit, with
/// `ExchangeIncorrectDenom` where the funds are not of the unit that the
/// offer asks for, and with `ExchangeIncorrectAmount` where they are of that
/// unit but of another amount; the deposits are then as before. Otherwise
/// the deposit leaves the ledger, and the response carries the two
/// instructions that settle the exchange: the funds to the depositor, then
/// the escrowed asset to the accepting party.
pub open spec fn accepted(
    before: Map<(Seq<char>, u64), DepositModel>,
    after: Map<(Seq<char>, u64), DepositModel>,
    sender: Seq<char>,
    id: u64,
    offered: AssetModel,
    result: Result<Response, ContractError>,
) -> bool {
    &&& (forall|owner: Seq<char>| !before.contains_key((owner, id))) ==> after == before
        && result is Err && result->Err_0 == (ContractError::DepositNotFound { id })
    &&& forall|owner: Seq<char>| #[trigger]
        before.contains_key((owner, id)) ==> accepted_from(
            before,
            after,
            owner,
            sender,
            id,
            offered,
            result,
        )
}

/// What accepting the offer of the deposit that `owner` holds under `id`
/// comes to.
pub open spec fn accepted_from(
    before: Map<(Seq<char>, u64), DepositModel>,
    after: Map<(Seq<char>, u64), DepositModel>,
    owner: Seq<char>,
    sender: Seq<char>,
    id: u64,
    offered: AssetModel,
    result: Result<Response, ContractError>,
) -> bool {
    let held = before[(owner, id)];
    let wanted = held.offer.exchange;
    if wanted.denom != offered.denom {
        after == before && result is Err && is_incorrect_denom(
            result->Err_0,
            wanted.denom,
            offered.denom,
        )
    } else if wanted.amount != offered.amount {
        after == before && result is Err && result->Err_0
            == (ContractError::ExchangeIncorrectAmount {
            expected_amount: wanted.amount,
            provided_amount: offered.amount,
        })
    } else {
        after == before.remove((owner, id)) && result is Ok && result->Ok_0@ == (ResponseModel {
            messages: settlement(owner, offered, sender, held.deposit),
            attributes: seq![
                ("exchange"@, "completed"@),
                ("deposit-sender"@, owner),
                ("original-deposit"@, asset_text(held.deposit)),
                ("expected"@, asset_text(wanted)),
                ("accepted-by"@, sender),
            ],
        })
    }
}

/// Accepts the offer of the deposit `deposit_id` on behalf of `sender`, who
/// pays with `offer_funds`.
///
/// The offer is settled only by funds of exactly the unit and the amount it
/// asks for, and once only: a settled deposit leaves the ledger. The party
/// that an offer names in `from` is not compared with `sender`.
pub fn accept_exchange(
    ledger: &mut Ledger,
    sender: &Identity,
    deposit_id: ID,
    offer_funds: &Asset,
) -> (result: Result<Response, ContractError>)
    requires
        old(ledger).wf(),
    ensures
        final(ledger).wf(),
        final(ledger).issued() == old(ledger).issued(),
        final(ledger).fee() == old(ledger).fee(),
        accepted(
            old(ledger).deposits(),
            final(ledger).deposits(),
            sender@,
            deposit_id,
            offer_funds@,
            result,
        ),
{
    let DepositByIdResponse { sender: deposit_sender, deposit } = deposit_by_id(
        ledger,
        deposit_id,
    )?;
    check_exchange(&deposit.offer.exchange, offer_funds)?;
    let exchange_messages = create_exchange_messages(
        &deposit_sender,
        offer_funds,
        sender,
        &deposit.deposit,
    )?;
    let response = Response::new().add_messages(exchange_messages).add_attribute(
        "exchange",
        "completed".to_owned(),
    ).add_attribute("deposit-sender", deposit_sender.to_text()).add_attribute(
        "original-deposit",
        deposit.deposit.to_text(),
    ).add_attribute("expected", deposit.offer.exchange.to_text()).add_attribute(
        "accepted-by",
        sender.to_text(),
    );
    proof {
        let owner = deposit_sender@;
        let held = ledger.deposits()[(owner, deposit_id)];
        assert(response@.attributes =~= seq![
            ("exchange"@, "completed"@),
            ("deposit-sender"@, owner),
            ("original-deposit"@, asset_text(held.deposit)),
            ("expected"@, asset_text(held.offer.exchange)),
            ("accepted-by"@, sender@),
        ]);
        assert(response@.messages =~= instructions_model(exchange_messages@));
    }
    let removed = remove_deposit(ledger, &deposit_sender, Some(deposit_id));
    Ok(response)
}

/// The deposits that a withdrawal takes out: the one under `id`, or all of
/// `owner`'s where no identifier is given. There is none to name where
/// `owner` holds no deposit under `id`.
pub open spec fn withdrawn(
    deposits: Map<(Seq<char>, u64), DepositModel>,
    owner: Seq<char>,
    id: Option<u64>,
) -> Option<Seq<(u64, DepositModel)>> {
    match id {
        Some(id) => if deposits.contains_key((owner, id)) {
            Some(seq![(id, deposits[(owner, id)])])
        } else {
            None
        },
        None => Some(held_by(deposits, owner)),
    }
}

/// The instructions that hand each escrowed asset of `list` back to `owner`,
/// in the order of the list.
pub open spec fn refunds(owner: Seq<char>, list: Seq<(u64, DepositModel)>) -> Seq<
    InstructionModel,
> {
    Seq::new(list.len(), |i: int| instruction_for(owner, list[i].1.deposit))
}

/// The ledger after a withdrawal.
pub open spec fn after_withdrawal(
    deposits: Map<(Seq<char>, u64), DepositModel>,
    owner: Seq<char>,
    id: Option<u64>,
) -> Map<(Seq<char>, u64), DepositModel> {
    match id {
        Some(id) => deposits.remove((owner, id)),
        None => without_owner(deposits, owner),
    }
}

/// What a withdrawal comes to.
///
/// It fails, with `DepositNotFound`, only where an identifier is given under
/// which `sender` holds no deposit; the ledger is then as before. Otherwise
/// the deposits named are taken out of the ledger and the response carries
/// one instruction for each, which hands the escrowed asset back to
/// `sender`.
pub open spec fn withdrew(
    before: Map<(Seq<char>, u64), DepositModel>,
    after: Map<(Seq<char>, u64), DepositModel>,
    sender: Seq<char>,
    id: Option<u64>,
    result: Result<Response, ContractError>,
) -> bool {
    match withdrawn(before, sender, id) {
        None => after == before && result is Err && result->Err_0
            == (ContractError::DepositNotFound { id: id->0 }),
        Some(list) => after == after_withdrawal(before, sender, id) && result is Ok
            && result->Ok_0@ == (ResponseModel {
            messages: refunds(sender, list),
            attributes: seq![("action"@, "withdraw"@), ("sender"@, sender)],
        }),
    }
}

/// Hands back to `sender` the deposit it holds under `deposit_id`, or, where
/// no identifier is given, every deposit it holds. To withdraw nothing is
/// no error.
pub fn withdraw(ledger: &mut Ledger, sender: &Identity, deposit_id: Option<ID>) -> (result: Result<
    Response,
    ContractError,
>)
    requires
        old(ledger).wf(),
    ensures
        final(ledger).wf(),
        final(ledger).issued() == old(ledger).issued(),
        final(ledger).fee() == old(ledger).fee(),
        withdrew(old(ledger).deposits(), final(ledger).deposits(), sender@, deposit_id, result),
{
    let taken = match deposit_id {
        Some(id) => {
            let deposit = load_deposit(ledger, sender, id)?;
            let mut taken: Vec<(ID, Deposit)> = Vec::new();
            taken.push((id, deposit));
            assert(listing_model(taken@) =~= seq![(id, deposit@)]);
            taken
        },
        None => get_deposits(ledger, sender)?,
    };
    let ghost list = listing_model(taken@);
    assert(withdrawn(ledger.deposits(), sender@, deposit_id) == Some(list));
    let mut msgs: Vec<Instruction> = Vec::new();
    let mut done: usize = 0;
    while done < taken.len()
        invariant
            0 <= done <= taken.len(),
            list == listing_model(taken@),
            *ledger == *old(ledger),
            ledger.wf(),
            withdrawn(ledger.deposits(), sender@, deposit_id) == Some(list),
            msgs.len() == done,
            forall|i: int|
                0 <= i < done ==> instruction_for(sender@, (#[trigger] list[i]).1.deposit)
                    == msgs[i]@,
        decreases taken.len() - done,
    {
        let msg = transfer_instruction(sender, &taken[done].1.deposit)?;
        msgs.push(msg);
        done += 1;
    }
    let removed = remove_deposit(ledger, sender, deposit_id);
    let response = Response::new().add_messages(msgs).add_attribute(
        "action",
        "withdraw".to_owned(),
    ).add_attribute("sender", sender.to_text());
    proof {
        assert(response@.attributes =~= seq![("action"@, "withdraw"@), ("sender"@, sender@)]);
        assert(response@.messages =~= refunds(sender@, list));
    }
    Ok(response)
}

/// Whether `error` says that `name` is no identity.
pub open spec fn is_invalid_address(error: ContractError, name: Seq<char>) -> bool {
    error matches ContractError::InvalidAddress { address } && address@ == name
}

/// A name that may be there, as a mathematical value.
pub open spec fn name_model(name: Option<String>) -> Option<Seq<char>> {
    match name {
        Some(name) => Some(name@),
        None => None,
    }
}

/// Whether two ledgers hold the same deposits, have issued the same
/// identifiers and have the same fee configuration.
pub open spec fn same_books(before: Ledger, after: Ledger) -> bool {
    &&& after.deposits() == before.deposits()
    &&& after.issued() == before.issued()
    &&& after.fee() == before.fee()
}

/// What a deposit comes to.
///
/// It fails with `InvalidAddress` where the party that the offer is
/// restricted to is no identity, and with `IdentifiersExhausted` where no
/// identifier is left; the ledger is then as before. Otherwise the ledger
/// holds the deposit under `sender` and the next identifier, which is then
/// issued, and the response reports the deposit.
pub open spec fn deposited(
    before: Ledger,
    after: Ledger,
    sender: Seq<char>,
    deposit: AssetModel,
    exchange: AssetModel,
    from: Option<Seq<char>>,
    result: Result<Response, ContractError>,
) -> bool {
    if from is Some && !key_fits(from->0) {
        &&& same_books(before, after)
        &&& result is Err
        &&& is_invalid_address(result->Err_0, from->0)
    } else if before.issued() == u64::MAX {
        &&& same_books(before, after)
        &&& result is Err
        &&& result->Err_0 is IdentifiersExhausted
    } else {
        &&& after.fee() == before.fee()
        &&& after.issued() == before.issued() + 1
        &&& !before.deposits().contains_key((sender, before.issued()))
        &&& after.deposits() == before.deposits().insert(
            (sender, before.issued()),
            DepositModel { deposit, offer: OfferModel { exchange, from } },
        )
        &&& result is Ok
        &&& result->Ok_0@ == ResponseModel {
            messages: Seq::empty(),
            attributes: seq![
                ("execute"@, "deposit"@),
                ("sender"@, sender),
                ("deposit"@, asset_text(deposit)),
                ("exchange"@, asset_text(exchange)),
            ],
        }
    }
}

/// Puts `escrow` into escrow for `sender`, with the offer to exchange it
/// for `exchange`, from the party `from` only where one is named.
pub fn deposit(
    ledger: &mut Ledger,
    sender: &Identity,
    escrow: Asset,
    exchange: Asset,
    from: Option<String>,
) -> (result: Result<Response, ContractError>)
    requires
        old(ledger).wf(),
    ensures
        final(ledger).wf(),
        deposited(
            *old(ledger),
            *final(ledger),
            sender@,
            escrow@,
            exchange@,
            name_model(from),
            result,
        ),
{
    let from = match from {
        Some(name) => match Identity::new(name.as_str()) {
            Some(party) => Some(party.to_text()),
            None => {
                return Err(ContractError::InvalidAddress { address: name });
            },
        },
        None => None,
    };
    let response = Response::new().add_attribute("execute", "deposit".to_owned()).add_attribute(
        "sender",
        sender.to_text(),
    ).add_attribute("deposit", escrow.to_text()).add_attribute("exchange", exchange.to_text());
    proof {
        assert(response@.attributes =~= seq![
            ("execute"@, "deposit"@),
            ("sender"@, sender@),
            ("deposit"@, asset_text(escrow@)),
            ("exchange"@, asset_text(exchange@)),
        ]);
    }
    let offer = Deposit { deposit: escrow, offer: Offer { exchange, from } };
    add_deposit(ledger, sender, &offer)?;
    Ok(response)
}

/// The deposits of the owner `address`, each with its identifier, in
/// ascending order of identifier. It fails with `InvalidAddress` where
/// `address` is no identity.
pub fn deposits_by_sender(ledger: &Ledger, address: String) -> (found: Result<
    DepositsBySenderResponse,
    ContractError,
>)
    requires
        ledger.wf(),
    ensures
        match found {
            Ok(response) => key_fits(address@) && listing_model(response.deposits@) == held_by(
                ledger.deposits(),
                address@,
            ),
            Err(error) => !key_fits(address@) && is_invalid_address(error, address@),
        },
{
    let owner = match Identity::new(address.as_str()) {
        Some(owner) => owner,
        None => {
            return Err(ContractError::InvalidAddress { address });
        },
    };
    Ok(DepositsBySenderResponse { deposits: get_deposits(ledger, &owner)? })
}

/// What a question about the ledger is answered with.
pub open spec fn answered(
    deposits: Map<(Seq<char>, u64), DepositModel>,
    msg: QueryMsg,
    result: Result<QueryResponse, ContractError>,
) -> bool {
    match msg {
        QueryMsg::DepositsBySender { address } => if key_fits(address@) {
            result matches Ok(QueryResponse::DepositsBySender(response)) && listing_model(
                response.deposits@,
            ) == held_by(deposits, address@)
        } else {
            result is Err && is_invalid_address(result->Err_0, address@)
        },
        QueryMsg::DepositById { id } => match holder(deposits, id) {
            Some(owner) => result matches Ok(QueryResponse::DepositById(response))
                && response.sender@ == owner && response.deposit@ == deposits[(owner, id)],
            None => result is Err && result->Err_0 == (ContractError::DepositNotFound { id }),
        },
    }
}

/// Answers a question about the ledger.
pub fn query(ledger: &Ledger, msg: QueryMsg) -> (result: Result<QueryResponse, ContractError>)
    requires
        ledger.wf(),
    ensures
        answered(ledger.deposits(), msg, result),
{
    match msg {
        QueryMsg::DepositsBySender { address } => {
            Ok(QueryResponse::DepositsBySender(deposits_by_sender(ledger, address)?))
        },
        QueryMsg::DepositById { id } => Ok(QueryResponse::DepositById(deposit_by_id(ledger, id)?)),
    }
}

/// The native asset that a coin is.
pub open spec fn native_funds(coin: Coin) -> AssetModel {
    AssetModel { denom: DenomModel::Native(coin.denom@), amount: coin.amount }
}

/// What a report of tokens received comes to.
///
/// It fails with `InvalidAddress` where the party that sent the tokens is no
/// identity. Otherwise the tokens, counted in the unit of the token contract
/// that reports them, are deposited or offered on that party's behalf.
pub open spec fn received(
    before: Ledger,
    after: Ledger,
    info: MessageInfo,
    cw20_msg: Cw20Receive,
    result: Result<Response, ContractError>,
) -> bool {
    if !key_fits(cw20_msg.sender@) {
        same_books(before, after) && result is Err && is_invalid_address(
            result->Err_0,
            cw20_msg.sender@,
        )
    } else {
        let funds = AssetModel { denom: DenomModel::Cw20(info.sender@), amount: cw20_msg.amount };
        match cw20_msg.msg {
            ReceiveCw20Msg::Deposit { exchange, from } => deposited(
                before,
                after,
                cw20_msg.sender@,
                funds,
                exchange@,
                name_model(from),
                result,
            ),
            ReceiveCw20Msg::AcceptExchange { deposit_id } => {
                &&& after.issued() == before.issued()
                &&& after.fee() == before.fee()
                &&& accepted(
                    before.deposits(),
                    after.deposits(),
                    cw20_msg.sender@,
                    deposit_id,
                    funds,
                    result,
                )
            },
        }
    }
}

/// Handles a report of tokens received: the tokens are deposited, or offered
/// to accept an exchange, on behalf of the party that sent them.
pub fn receive_cw20(ledger: &mut Ledger, info: MessageInfo, cw20_msg: Cw20Receive) -> (result:
    Result<Response, ContractError>)
    requires
        old(ledger).wf(),
    ensures
        final(ledger).wf(),
        received(*old(ledger), *final(ledger), info, cw20_msg, result),
{
    let sender = match Identity::new(cw20_msg.sender.as_str()) {
        Some(sender) => sender,
        None => {
            return Err(ContractError::InvalidAddress { address: cw20_msg.sender });
        },
    };
    let funds = Asset::new_cw20(cw20_msg.amount, info.sender.as_str());
    match cw20_msg.msg {
        ReceiveCw20Msg::Deposit { exchange, from } => deposit(
            ledger,
            &sender,
            funds,
            exchange,
            from,
        ),
        ReceiveCw20Msg::AcceptExchange { deposit_id } => accept_exchange(
            ledger,
            &sender,
            deposit_id,
            &funds,
        ),
    }
}

/// What a request comes to.
///
/// A deposit and an acceptance take the first of the native funds sent
/// along, and fail with `NoFundsWithDeposit` where none were sent.
pub open spec fn executed(
    before: Ledger,
    after: Ledger,
    info: MessageInfo,
    msg: ExecuteMsg,
    result: Result<Response, ContractError>,
) -> bool {
    match msg {
        ExecuteMsg::Receive(cw20_msg) => received(before, after, info, cw20_msg, result),
        ExecuteMsg::Deposit { exchange, from } => if info.funds@.len() == 0 {
            same_books(before, after) && result is Err && result->Err_0 is NoFundsWithDeposit
        } else {
            deposited(
                before,
                after,
                info.sender@,
                native_funds(info.funds@[0]),
                exchange@,
                name_model(from),
                result,
            )
        },
        ExecuteMsg::Withdraw { id } => {
            &&& after.issued() == before.issued()
            &&& after.fee() == before.fee()
            &&& withdrew(before.deposits(), after.deposits(), info.sender@, id, result)
        },
        ExecuteMsg::AcceptExchange { deposit_id } => if info.funds@.len() == 0 {
            same_books(before, after) && result is Err && result->Err_0 is NoFundsWithDeposit
        } else {
            &&& after.issued() == before.issued()
            &&& after.fee() == before.fee()
            &&& accepted(
                before.deposits(),
                after.deposits(),
                info.sender@,
                deposit_id,
                native_funds(info.funds@[0]),
                result,
            )
        },
    }
}

/// Carries out a request on behalf of its sender.
pub fn execute(ledger: &mut Ledger, info: MessageInfo, msg: ExecuteMsg) -> (result: Result<
    Response,
    ContractError,
>)
    requires
        old(ledger).wf(),
    ensures
        final(ledger).wf(),
        executed(*old(ledger), *final(ledger), info, msg, result),
{
    match msg {
        ExecuteMsg::Receive(cw20_msg) => receive_cw20(ledger, info, cw20_msg),
        ExecuteMsg::Deposit { exchange, from } => {
            if info.funds.len() == 0 {
                return Err(ContractError::NoFundsWithDeposit {});
            }
            let funds = Asset::new_native(info.funds[0].amount, info.funds[0].denom.as_str());
            deposit(ledger, &info.sender, funds, exchange, from)
        },
        ExecuteMsg::Withdraw { id } => withdraw(ledger, &info.sender, id),
        ExecuteMsg::AcceptExchange { deposit_id } => {
            if info.funds.len() == 0 {
                return Err(ContractError::NoFundsWithDeposit {});
            }
            let funds = Asset::new_native(info.funds[0].amount, info.funds[0].denom.as_str());
            accept_exchange(ledger, &info.sender, deposit_id, &funds)
        },
    }
}

/// What setting the escrow up comes to.
///
/// It fails, with `InvalidAddress`, only where the address given is no
/// identity; the fee configuration is then as before. Otherwise the fee
/// configuration names the address and a fee of one hundredth. The deposits
/// and the counter stay as they are.
pub open spec fn instantiated(
    before: Ledger,
    after: Ledger,
    msg: InstantiateMsg,
    result: Result<Response, ContractError>,
) -> bool {
    &&& after.deposits() == before.deposits()
    &&& after.issued() == before.issued()
    &&& if !key_fits(msg.fee_address@) {
        &&& after.fee() == before.fee()
        &&& result is Err
        &&& is_invalid_address(result->Err_0, msg.fee_address@)
    } else {
        &&& after.fee() == Some((msg.fee_address@, percent_fee(1)))
        &&& result is Ok
        &&& result->Ok_0@ == ResponseModel {
            messages: Seq::empty(),
            attributes: seq![
                ("instantiate"@, "over-the-counter"@),
                ("fee-address"@, msg.fee_address@),
            ],
        }
    }
}

/// Sets the escrow up: a fee of one hundredth goes to the address given.
pub fn instantiate(ledger: &mut Ledger, msg: InstantiateMsg) -> (result: Result<
    Response,
    ContractError,
>)
    requires
        old(ledger).wf(),
    ensures
        final(ledger).wf(),
        instantiated(*old(ledger), *final(ledger), msg, result),
{
    let fee_address = match Identity::new(msg.fee_address.as_str()) {
        Some(fee_address) => fee_address,
        None => {
            return Err(ContractError::InvalidAddress { address: msg.fee_address });
        },
    };
    set_fee_config(ledger, &fee_address, 1)?;
    let response = Response::new().add_attribute(
        "instantiate",
        "over-the-counter".to_owned(),
    ).add_attribute("fee-address", msg.fee_address);
    proof {
        assert(response@.attributes =~= seq![
            ("instantiate"@, "over-the-counter"@),
            ("fee-address"@, msg.fee_address@),
        ]);
    }
    Ok(response)
}

} // verus!

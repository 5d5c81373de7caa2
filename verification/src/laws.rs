//! What holds of the escrow over all ledgers and all requests.

use crate::asset::{AssetModel, DenomModel};
use crate::contract::{
    accepted, deposited, executed, holder, is_incorrect_denom, native_funds, refunds, same_books,
    settlement, withdrawn, withdrew,
};
use crate::error::ContractError;
use crate::msg::{ExecuteMsg, InstructionModel, MessageInfo, Response};
use crate::settlement::instruction_for;
use crate::state::{held_by, lists_deposits, without_owner, DepositModel, Ledger};
use crate::store::key_fits;
use vstd::prelude::*;

verus! {

/// A deposit succeeds whenever an identifier is left and the party that the
/// offer is restricted to, if one is named, is an identity. It is then held
/// under the sender and the number of identifiers issued before, which no
/// deposit was held under, and the counter has gone up by one.
pub proof fn lemma_deposit_succeeds(
    before: Ledger,
    after: Ledger,
    sender: Seq<char>,
    escrow: AssetModel,
    exchange: AssetModel,
    from: Option<Seq<char>>,
    result: Result<Response, ContractError>,
)
    requires
        before.wf(),
        from is None || key_fits(from->0),
        before.issued() < u64::MAX,
        deposited(before, after, sender, escrow, exchange, from, result),
    ensures
        result is Ok,
        after.issued() == before.issued() + 1,
        after.deposits().contains_key((sender, before.issued())),
        after.deposits()[(sender, before.issued())].deposit == escrow,
        after.deposits()[(sender, before.issued())].offer.exchange == exchange,
        after.deposits()[(sender, before.issued())].offer.from == from,
        forall|key: (Seq<char>, u64)| #[trigger]
            before.deposits().contains_key(key) ==> after.deposits().contains_key(key)
                && after.deposits()[key] == before.deposits()[key],
        forall|key: (Seq<char>, u64)| #[trigger]
            after.deposits().contains_key(key) ==> key == (sender, before.issued())
                || before.deposits().contains_key(key),
{
}

/// Identifiers are unique: over any run of successful deposits, each on the
/// ledger that the one before it left, the identifiers given to the
/// deposits grow strictly, so no two of them are equal.
///
/// `ledgers` holds the ledger before the first deposit and then the ledger
/// after each; the deposit at `i` is made by `senders[i]` and answered with
/// `responses[i]`.
pub proof fn lemma_identifiers_increase(
    ledgers: Seq<Ledger>,
    senders: Seq<Seq<char>>,
    escrows: Seq<AssetModel>,
    exchanges: Seq<AssetModel>,
    parties: Seq<Option<Seq<char>>>,
    responses: Seq<Response>,
)
    requires
        ledgers.len() == senders.len() + 1,
        escrows.len() == senders.len(),
        exchanges.len() == senders.len(),
        parties.len() == senders.len(),
        responses.len() == senders.len(),
        forall|i: int|
            0 <= i < senders.len() ==> deposited(
                #[trigger] ledgers[i],
                ledgers[i + 1],
                senders[i],
                escrows[i],
                exchanges[i],
                parties[i],
                Ok(responses[i]),
            ),
    ensures
        forall|i: int|
            0 <= i < senders.len() ==> (#[trigger] ledgers[i + 1]).deposits().contains_key(
                (senders[i], ledgers[i].issued()),
            ),
        forall|i: int, j: int|
            0 <= i < j < senders.len() ==> (#[trigger] ledgers[i]).issued() < (
            #[trigger] ledgers[j]).issued(),
{
    assert forall|i: int| 0 <= i < senders.len() implies (#[trigger] ledgers[i + 1]).issued()
        == ledgers[i].issued() + 1 && ledgers[i + 1].deposits().contains_key(
        (senders[i], ledgers[i].issued()),
    ) by {
        assert(deposited(
            ledgers[i],
            ledgers[i + 1],
            senders[i],
            escrows[i],
            exchanges[i],
            parties[i],
            Ok(responses[i]),
        ));
    }
    assert forall|i: int, j: int| 0 <= i < j < senders.len() implies (#[trigger] ledgers[i]).issued()
        < (#[trigger] ledgers[j]).issued() by {
        lemma_issued_grows(ledgers, i, j);
    }
}

proof fn lemma_issued_grows(ledgers: Seq<Ledger>, i: int, j: int)
    requires
        0 <= i <= j < ledgers.len(),
        forall|k: int|
            0 <= k < ledgers.len() - 1 ==> (#[trigger] ledgers[k + 1]).issued() == ledgers[k].issued()
                + 1,
    ensures
        ledgers[j].issued() == ledgers[i].issued() + (j - i),
    decreases j - i,
{
    if i < j {
        lemma_issued_grows(ledgers, i, j - 1);
        assert(ledgers[(j - 1) + 1].issued() == ledgers[j - 1].issued() + 1);
    }
}

/// No request takes an identifier back: whatever is asked, the counter
/// afterwards is the counter before or one more, and a deposit that is held
/// afterwards was held before or is held under the identifier that the
/// counter stood at.
pub proof fn lemma_identifiers_are_not_reused(
    before: Ledger,
    after: Ledger,
    info: MessageInfo,
    msg: ExecuteMsg,
    result: Result<Response, ContractError>,
)
    requires
        before.wf(),
        executed(before, after, info, msg, result),
    ensures
        after.issued() == before.issued() || after.issued() == before.issued() + 1,
        forall|owner: Seq<char>, id: u64| #[trigger]
            after.deposits().contains_key((owner, id)) ==> before.deposits().contains_key(
                (owner, id),
            ) || (id == before.issued() && after.issued() == before.issued() + 1),
{
    assert forall|owner: Seq<char>, id: u64| #[trigger]
        after.deposits().contains_key((owner, id)) implies before.deposits().contains_key(
        (owner, id),
    ) || (id == before.issued() && after.issued() == before.issued() + 1) by {
        let key = (owner, id);
        assert(key.0 == owner && key.1 == id);
    }
}

/// The owner of a deposit is the only holder of its identifier.
pub proof fn lemma_holder_is_owner(ledger: Ledger, owner: Seq<char>, id: u64)
    requires
        ledger.wf(),
        ledger.deposits().contains_key((owner, id)),
    ensures
        holder(ledger.deposits(), id) == Some(owner),
{
    let found = choose|found: Seq<char>| ledger.deposits().contains_key((found, id));
    assert(ledger.deposits().contains_key((found, id)));
}

/// Ownership isolates: a party that asks for the deposit under an
/// identifier that another party holds is refused with `DepositNotFound`,
/// and the ledger is as before.
pub proof fn lemma_withdraw_of_another(
    before: Ledger,
    after: Ledger,
    owner: Seq<char>,
    sender: Seq<char>,
    id: u64,
    result: Result<Response, ContractError>,
)
    requires
        before.wf(),
        before.deposits().contains_key((owner, id)),
        sender != owner,
        withdrew(before.deposits(), after.deposits(), sender, Some(id), result),
    ensures
        result is Err,
        result->Err_0 == (ContractError::DepositNotFound { id }),
        after.deposits() == before.deposits(),
{
    if before.deposits().contains_key((sender, id)) {
        assert(sender == owner);
    }
}

/// An exchange is settled by the exact asset only: where the deposit is
/// there, accepting succeeds if and only if the funds offered are of the
/// unit and of the amount that the offer asks for. Funds of another unit
/// are refused with `ExchangeIncorrectDenom`, funds of that unit and another
/// amount with `ExchangeIncorrectAmount`, and the deposits are then as
/// before.
pub proof fn lemma_exact_match(
    before: Ledger,
    after: Ledger,
    owner: Seq<char>,
    sender: Seq<char>,
    id: u64,
    offered: AssetModel,
    result: Result<Response, ContractError>,
)
    requires
        before.wf(),
        before.deposits().contains_key((owner, id)),
        accepted(before.deposits(), after.deposits(), sender, id, offered, result),
    ensures
        result is Ok <==> offered == before.deposits()[(owner, id)].offer.exchange,
        result is Err ==> after.deposits() == before.deposits(),
        offered.denom != before.deposits()[(owner, id)].offer.exchange.denom ==> result is Err
            && is_incorrect_denom(
            result->Err_0,
            before.deposits()[(owner, id)].offer.exchange.denom,
            offered.denom,
        ),
        offered.denom == before.deposits()[(owner, id)].offer.exchange.denom && offered.amount
            != before.deposits()[(owner, id)].offer.exchange.amount ==> result is Err
            && result->Err_0 == (ContractError::ExchangeIncorrectAmount {
            expected_amount: before.deposits()[(owner, id)].offer.exchange.amount,
            provided_amount: offered.amount,
        }),
{
    lemma_holder_is_owner(before, owner, id);
}

/// An exchange is settled once: where accepting succeeds, the ledger holds
/// every deposit it held but the accepted one, and no deposit under that
/// identifier any more, so that accepting it again, with whatever funds and
/// by whomever, is refused with `DepositNotFound`.
pub proof fn lemma_settled_once(
    before: Ledger,
    between: Ledger,
    after: Ledger,
    owner: Seq<char>,
    sender: Seq<char>,
    id: u64,
    offered: AssetModel,
    response: Response,
    next_sender: Seq<char>,
    next_offered: AssetModel,
    next_result: Result<Response, ContractError>,
)
    requires
        before.wf(),
        before.deposits().contains_key((owner, id)),
        accepted(before.deposits(), between.deposits(), sender, id, offered, Ok(response)),
        accepted(
            between.deposits(),
            after.deposits(),
            next_sender,
            id,
            next_offered,
            next_result,
        ),
    ensures
        between.deposits() == before.deposits().remove((owner, id)),
        response@.messages == settlement(
            owner,
            offered,
            sender,
            before.deposits()[(owner, id)].deposit,
        ),
        forall|holder: Seq<char>| !between.deposits().contains_key((holder, id)),
        next_result is Err,
        next_result->Err_0 == (ContractError::DepositNotFound { id }),
        after.deposits() == between.deposits(),
{
    lemma_holder_is_owner(before, owner, id);
    assert forall|holder: Seq<char>| !between.deposits().contains_key((holder, id)) by {
        if between.deposits().contains_key((holder, id)) {
            assert(before.deposits().contains_key((holder, id)));
            assert(holder == owner);
        }
    }
}

/// A request to accept an exchange with funds that do not match the offer
/// in both unit and amount is refused, and the ledger is as before: where
/// the deposit is there and funds were sent, the request fails unless the
/// first of the funds is the asset that the offer asks for.
pub proof fn lemma_mismatch_leaves_ledger(
    before: Ledger,
    after: Ledger,
    owner: Seq<char>,
    info: MessageInfo,
    deposit_id: u64,
    result: Result<Response, ContractError>,
)
    requires
        before.wf(),
        before.deposits().contains_key((owner, deposit_id)),
        info.funds@.len() > 0,
        native_funds(info.funds@[0]) != before.deposits()[(owner, deposit_id)].offer.exchange,
        executed(before, after, info, ExecuteMsg::AcceptExchange { deposit_id }, result),
    ensures
        result is Err,
        result->Err_0 is ExchangeIncorrectDenom || result->Err_0 is ExchangeIncorrectAmount,
        same_books(before, after),
{
    lemma_holder_is_owner(before, owner, deposit_id);
}

/// A refused request changes nothing: whatever is asked and whyever it is
/// refused, the ledger holds the same deposits, has issued the same
/// identifiers and has the same fee configuration as before.
pub proof fn lemma_refusal_changes_nothing(
    before: Ledger,
    after: Ledger,
    info: MessageInfo,
    msg: ExecuteMsg,
    result: Result<Response, ContractError>,
)
    requires
        before.wf(),
        executed(before, after, info, msg, result),
        result is Err,
    ensures
        same_books(before, after),
{
}

/// The deposits of an owner can be listed whenever some list of them is at
/// hand, and the listing is that list.
pub proof fn lemma_held_by(
    deposits: Map<(Seq<char>, u64), DepositModel>,
    owner: Seq<char>,
    list: Seq<(u64, DepositModel)>,
)
    requires
        lists_deposits(list, deposits, owner),
    ensures
        held_by(deposits, owner) == list,
{
    crate::state::lemma_listing_unique(held_by(deposits, owner), list, deposits, owner);
}

/// A withdrawal without an identifier is complete: it succeeds, the ledger
/// then holds nothing of the owner any more and everything else as before,
/// and the response carries one instruction for each deposit that the owner
/// held, in ascending order of identifier, which hands the escrowed asset
/// back to the owner.
pub proof fn lemma_withdraw_all(
    before: Ledger,
    after: Ledger,
    sender: Seq<char>,
    list: Seq<(u64, DepositModel)>,
    result: Result<Response, ContractError>,
)
    requires
        before.wf(),
        lists_deposits(list, before.deposits(), sender),
        withdrew(before.deposits(), after.deposits(), sender, None, result),
    ensures
        result is Ok,
        forall|id: u64| !after.deposits().contains_key((sender, id)),
        forall|key: (Seq<char>, u64)|
            key.0 != sender ==> (after.deposits().contains_key(key)
                <==> before.deposits().contains_key(key)),
        forall|key: (Seq<char>, u64)| #[trigger]
            after.deposits().contains_key(key) ==> after.deposits()[key] == before.deposits()[key],
        result->Ok_0@.messages.len() == list.len(),
        forall|i: int|
            0 <= i < list.len() ==> instruction_for(sender, (#[trigger] list[i]).1.deposit)
                == result->Ok_0@.messages[i],
{
    lemma_held_by(before.deposits(), sender, list);
    assert(withdrawn(before.deposits(), sender, None) == Some(list));
    assert(after.deposits() == without_owner(before.deposits(), sender));
}

/// To withdraw nothing is no error: a withdrawal without an identifier by a
/// party that holds no deposit succeeds, carries no instruction, and leaves
/// the ledger as it was.
pub proof fn lemma_withdraw_nothing(
    before: Ledger,
    after: Ledger,
    sender: Seq<char>,
    result: Result<Response, ContractError>,
)
    requires
        before.wf(),
        forall|id: u64| !before.deposits().contains_key((sender, id)),
        withdrew(before.deposits(), after.deposits(), sender, None, result),
    ensures
        result is Ok,
        result->Ok_0@.messages == Seq::<InstructionModel>::empty(),
        after.deposits() == before.deposits(),
{
    let nothing = Seq::<(u64, DepositModel)>::empty();
    assert(lists_deposits(nothing, before.deposits(), sender));
    lemma_held_by(before.deposits(), sender, nothing);
    assert(refunds(sender, nothing) =~= Seq::<InstructionModel>::empty());
    assert forall|key: (Seq<char>, u64)| before.deposits().contains_key(key) implies key.0
        != sender by {
        assert(key == (key.0, key.1));
    }
    assert(without_owner(before.deposits(), sender) =~= before.deposits());
}

/// What goes into escrow comes out of it: where a deposit is followed by
/// its owner's withdrawal of it, the withdrawal succeeds and hands back the
/// asset that was deposited, to the owner, and the ledger holds the
/// deposits it held before the two.
pub proof fn lemma_deposit_then_withdraw(
    before: Ledger,
    between: Ledger,
    after: Ledger,
    sender: Seq<char>,
    escrow: AssetModel,
    exchange: AssetModel,
    from: Option<Seq<char>>,
    receipt: Response,
    result: Result<Response, ContractError>,
)
    requires
        before.wf(),
        deposited(before, between, sender, escrow, exchange, from, Ok(receipt)),
        withdrew(between.deposits(), after.deposits(), sender, Some(before.issued()), result),
    ensures
        result is Ok,
        result->Ok_0@.messages == seq![instruction_for(sender, escrow)],
        after.deposits() == before.deposits(),
{
    let id = before.issued();
    assert(!before.deposits().contains_key((sender, id)));
    assert(between.deposits().contains_key((sender, id)));
    assert(after.deposits() =~= before.deposits());
    assert(result->Ok_0@.messages =~= seq![instruction_for(sender, escrow)]);
}

/// Settlement pairs in a fixed order: where both assets are native, the
/// first instruction sends the first asset to the first party and the
/// second sends the second asset to the second party.
pub proof fn lemma_settlement_order(
    first_party: Seq<char>,
    first_unit: Seq<char>,
    first_amount: u128,
    second_party: Seq<char>,
    second_unit: Seq<char>,
    second_amount: u128,
)
    ensures
        settlement(
            first_party,
            AssetModel { denom: DenomModel::Native(first_unit), amount: first_amount },
            second_party,
            AssetModel { denom: DenomModel::Native(second_unit), amount: second_amount },
        ) == seq![
            InstructionModel::Send {
                to_address: first_party,
                denom: first_unit,
                amount: first_amount,
            },
            InstructionModel::Send {
                to_address: second_party,
                denom: second_unit,
                amount: second_amount,
            },
        ],
{
}

} // verus!

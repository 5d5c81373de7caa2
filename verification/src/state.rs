//! The deposit ledger: deposits by owner and identifier, and the counter
//! that issues the identifiers.

use crate::asset::{Asset, AssetModel, AssetType, DenomModel};
use crate::error::ContractError;
use crate::identity::Identity;
use crate::store::{
    all_rows, empty_store, intact, key_before, key_fits, lists_all, lists_owner, load_count,
    load_fee,
    load_row, percent_fee, remove_row, rows_of, save_count, save_fee, save_row, stored_count,
    stored_fee, stored_rows, Row, RowModel,
};
use cosmwasm_std::MemoryStorage;
use vstd::prelude::*;
use vstd::string::*;

verus! {

/// The identifier of a deposit.
pub type ID = u64;

/// An offer as a mathematical value.
pub struct OfferModel {
    pub exchange: AssetModel,
    pub from: Option<Seq<char>>,
}

/// A deposit as a mathematical value.
pub struct DepositModel {
    pub deposit: AssetModel,
    pub offer: OfferModel,
}

/// What a depositor wants in return, and from whom.
#[derive(Debug, PartialEq, Eq)]
pub struct Offer {
    /// The asset that settles the offer.
    pub exchange: Asset,
    /// The only party that the depositor wants to settle with, if any.
    pub from: Option<String>,
}

impl View for Offer {
    type V = OfferModel;

    open spec fn view(&self) -> OfferModel {
        OfferModel {
            exchange: self.exchange@,
            from: match self.from {
                Some(party) => Some(party@),
                None => None,
            },
        }
    }
}

impl Clone for Offer {
    fn clone(&self) -> (copy: Self)
        ensures
            copy@ == self@,
    {
        let from = match &self.from {
            Some(party) => Some(party.clone()),
            None => None,
        };
        Offer { exchange: self.exchange.clone(), from }
    }
}

/// An escrowed asset with the offer made for it.
#[derive(Debug, PartialEq, Eq)]
pub struct Deposit {
    /// The asset held in escrow.
    pub deposit: Asset,
    pub offer: Offer,
}

impl View for Deposit {
    type V = DepositModel;

    open spec fn view(&self) -> DepositModel {
        DepositModel { deposit: self.deposit@, offer: self.offer@ }
    }
}

impl Clone for Deposit {
    fn clone(&self) -> (copy: Self)
        ensures
            copy@ == self@,
    {
        Deposit { deposit: self.deposit.clone(), offer: self.offer.clone() }
    }
}

/// The unit that a row writes as a flag and a name.
pub open spec fn denom_of(token: bool, name: Seq<char>) -> DenomModel {
    if token {
        DenomModel::Cw20(name)
    } else {
        DenomModel::Native(name)
    }
}

/// The row that stands for a deposit in the store.
pub open spec fn row_of(deposit: DepositModel) -> RowModel {
    (
        deposit.deposit.denom is Cw20,
        deposit.deposit.denom.name(),
        deposit.deposit.amount,
        deposit.offer.exchange.denom is Cw20,
        deposit.offer.exchange.denom.name(),
        deposit.offer.exchange.amount,
        deposit.offer.from,
    )
}

/// The deposit that a row of the store stands for.
pub open spec fn deposit_of(row: RowModel) -> DepositModel {
    DepositModel {
        deposit: AssetModel { denom: denom_of(row.0, row.1), amount: row.2 },
        offer: OfferModel {
            exchange: AssetModel { denom: denom_of(row.3, row.4), amount: row.5 },
            from: row.6,
        },
    }
}

/// Reading a row back gives the deposit that was written.
pub proof fn lemma_row_round_trip(deposit: DepositModel)
    ensures
        deposit_of(row_of(deposit)) == deposit,
{
}

fn is_token(denom: &AssetType) -> (token: bool)
    ensures
        token == (denom@ is Cw20),
{
    match denom {
        AssetType::Native(_) => false,
        AssetType::Cw20(_) => true,
    }
}

fn denom_from(token: bool, name: &String) -> (denom: AssetType)
    ensures
        denom@ == denom_of(token, name@),
{
    if token {
        AssetType::Cw20(name.clone())
    } else {
        AssetType::Native(name.clone())
    }
}

impl Deposit {
    /// The row that stands for the deposit in the store.
    pub fn to_row(&self) -> (row: Row)
        ensures
            row.deep_view() == row_of(self@),
    {
        let from = match &self.offer.from {
            Some(party) => Some(party.clone()),
            None => None,
        };
        (
            is_token(&self.deposit.denom),
            self.deposit.denom.to_text(),
            self.deposit.amount,
            is_token(&self.offer.exchange.denom),
            self.offer.exchange.denom.to_text(),
            self.offer.exchange.amount,
            from,
        )
    }

    /// The deposit that a row of the store stands for.
    pub fn from_row(row: &Row) -> (deposit: Deposit)
        ensures
            deposit@ == deposit_of(row.deep_view()),
    {
        let from = match &row.6 {
            Some(party) => Some(party.clone()),
            None => None,
        };
        Deposit {
            deposit: Asset { denom: denom_from(row.0, &row.1), amount: row.2 },
            offer: Offer {
                exchange: Asset { denom: denom_from(row.3, &row.4), amount: row.5 },
                from,
            },
        }
    }
}

/// The deposits that a map of rows stands for.
pub open spec fn deposits_of_rows(rows: Map<(Seq<char>, u64), RowModel>) -> Map<
    (Seq<char>, u64),
    DepositModel,
> {
    Map::new(
        |key: (Seq<char>, u64)| rows.contains_key(key),
        |key: (Seq<char>, u64)| deposit_of(rows[key]),
    )
}

/// The ledger with no deposit in it.
pub open spec fn no_deposits() -> Map<(Seq<char>, u64), DepositModel> {
    Map::empty()
}

/// What is left of `deposits` once every deposit of `owner` is taken out.
pub open spec fn without_owner(
    deposits: Map<(Seq<char>, u64), DepositModel>,
    owner: Seq<char>,
) -> Map<(Seq<char>, u64), DepositModel> {
    Map::new(
        |key: (Seq<char>, u64)| deposits.contains_key(key) && key.0 != owner,
        |key: (Seq<char>, u64)| deposits[key],
    )
}

/// A list of deposits with their identifiers, as a mathematical value.
pub open spec fn listing_model(list: Seq<(u64, Deposit)>) -> Seq<(u64, DepositModel)> {
    Seq::new(list.len(), |i: int| (list[i].0, list[i].1@))
}

/// Whether `list` holds the deposits of `owner`: each of them once, with its
/// identifier, in ascending order of identifier.
pub open spec fn lists_deposits(
    list: Seq<(u64, DepositModel)>,
    deposits: Map<(Seq<char>, u64), DepositModel>,
    owner: Seq<char>,
) -> bool {
    &&& forall|i: int, j: int| 0 <= i < j < list.len() ==> list[i].0 < list[j].0
    &&& forall|i: int|
        0 <= i < list.len() ==> deposits.contains_key((owner, #[trigger] list[i].0))
            && deposits[(owner, list[i].0)] == list[i].1
    &&& forall|id: u64| #[trigger]
        deposits.contains_key((owner, id)) ==> exists|i: int|
            0 <= i < list.len() && #[trigger] list[i].0 == id
}

/// The deposits of `owner` with their identifiers, in ascending order of
/// identifier.
pub open spec fn held_by(deposits: Map<(Seq<char>, u64), DepositModel>, owner: Seq<char>) -> Seq<
    (u64, DepositModel),
> {
    choose|list: Seq<(u64, DepositModel)>| lists_deposits(list, deposits, owner)
}

proof fn lemma_ascending_unique(a: Seq<u64>, b: Seq<u64>)
    requires
        forall|i: int, j: int| 0 <= i < j < a.len() ==> a[i] < a[j],
        forall|i: int, j: int| 0 <= i < j < b.len() ==> b[i] < b[j],
        forall|i: int| 0 <= i < a.len() ==> b.contains(#[trigger] a[i]),
        forall|j: int| 0 <= j < b.len() ==> a.contains(#[trigger] b[j]),
    ensures
        a == b,
    decreases a.len(),
{
    if a.len() == 0 {
        if b.len() > 0 {
            assert(a.contains(b[0]));
        }
        assert(a =~= b);
    } else if b.len() == 0 {
        assert(b.contains(a[0]));
    } else {
        let top = a.last();
        let other_top = b.last();
        assert(b.contains(top));
        assert(a.contains(other_top));
        let at = choose|j: int| 0 <= j < b.len() && b[j] == top;
        let other_at = choose|i: int| 0 <= i < a.len() && a[i] == other_top;
        assert(top == other_top) by {
            if at < b.len() - 1 {
                assert(b[at] < b[b.len() - 1]);
            }
            if other_at < a.len() - 1 {
                assert(a[other_at] < a[a.len() - 1]);
            }
        }
        let shorter = a.drop_last();
        let other_shorter = b.drop_last();
        assert forall|i: int| 0 <= i < shorter.len() implies other_shorter.contains(
            #[trigger] shorter[i],
        ) by {
            assert(b.contains(a[i]));
            let j = choose|j: int| 0 <= j < b.len() && b[j] == a[i];
            assert(a[i] < a[a.len() - 1]);
            assert(j < b.len() - 1);
            assert(other_shorter[j] == shorter[i]);
        }
        assert forall|j: int| 0 <= j < other_shorter.len() implies shorter.contains(
            #[trigger] other_shorter[j],
        ) by {
            assert(a.contains(b[j]));
            let i = choose|i: int| 0 <= i < a.len() && a[i] == b[j];
            assert(b[j] < b[b.len() - 1]);
            assert(i < a.len() - 1);
            assert(shorter[i] == other_shorter[j]);
        }
        lemma_ascending_unique(shorter, other_shorter);
        assert(a =~= shorter.push(top));
        assert(b =~= other_shorter.push(other_top));
    }
}

/// A ledger lists the deposits of an owner in one way only.
pub proof fn lemma_listing_unique(
    a: Seq<(u64, DepositModel)>,
    b: Seq<(u64, DepositModel)>,
    deposits: Map<(Seq<char>, u64), DepositModel>,
    owner: Seq<char>,
)
    requires
        lists_deposits(a, deposits, owner),
        lists_deposits(b, deposits, owner),
    ensures
        a == b,
{
    let a_ids = Seq::new(a.len(), |i: int| a[i].0);
    let b_ids = Seq::new(b.len(), |i: int| b[i].0);
    assert forall|i: int| 0 <= i < a_ids.len() implies b_ids.contains(#[trigger] a_ids[i]) by {
        assert(deposits.contains_key((owner, a[i].0)));
        let j = choose|j: int| 0 <= j < b.len() && #[trigger] b[j].0 == a[i].0;
        assert(b_ids[j] == a_ids[i]);
    }
    assert forall|j: int| 0 <= j < b_ids.len() implies a_ids.contains(#[trigger] b_ids[j]) by {
        assert(deposits.contains_key((owner, b[j].0)));
        let i = choose|i: int| 0 <= i < a.len() && #[trigger] a[i].0 == b[j].0;
        assert(a_ids[i] == b_ids[j]);
    }
    lemma_ascending_unique(a_ids, b_ids);
    assert(a.len() == a_ids.len());
    assert(b.len() == b_ids.len());
    assert forall|i: int| 0 <= i < a.len() implies a[i] == b[i] by {
        assert(a_ids[i] == b_ids[i]);
        assert(a[i].0 == b[i].0);
        assert(deposits.contains_key((owner, a[i].0)));
        assert(a[i].1 == deposits[(owner, a[i].0)]);
        assert(b[i].1 == deposits[(owner, b[i].0)]);
    }
    assert(a =~= b);
}

/// A list of deposits with their owners and identifiers, as a mathematical
/// value.
pub open spec fn entries_model(list: Seq<(Identity, u64, Deposit)>) -> Seq<
    (Seq<char>, u64, DepositModel),
> {
    Seq::new(list.len(), |i: int| (list[i].0@, list[i].1, list[i].2@))
}

/// Whether `list` holds the deposits of a ledger: each of them once, with
/// its owner and its identifier.
pub open spec fn lists_ledger(
    list: Seq<(Seq<char>, u64, DepositModel)>,
    deposits: Map<(Seq<char>, u64), DepositModel>,
) -> bool {
    &&& forall|i: int, j: int|
        0 <= i < j < list.len() ==> (list[i].0, list[i].1) != (list[j].0, list[j].1)
    &&& forall|i: int|
        0 <= i < list.len() ==> deposits.contains_key((#[trigger] list[i].0, list[i].1))
            && deposits[(list[i].0, list[i].1)] == list[i].2
    &&& forall|owner: Seq<char>, id: u64| #[trigger]
        deposits.contains_key((owner, id)) ==> exists|i: int|
            0 <= i < list.len() && #[trigger] list[i].0 == owner && list[i].1 == id
}

/// Whether a list of deposits is in the order in which the ledger is
/// walked: by the length of the owner's name, then by the name, then by the
/// identifier.
pub open spec fn in_key_order(list: Seq<(Seq<char>, u64, DepositModel)>) -> bool {
    forall|i: int, j: int|
        0 <= i < j < list.len() ==> key_before(
            (#[trigger] list[i].0, list[i].1),
            (#[trigger] list[j].0, list[j].1),
        )
}

/// The escrow's books: the deposits that are held, each under its owner and
/// its identifier, and the number of identifiers issued so far.
pub struct Ledger {
    store: MemoryStorage,
}

impl Ledger {
    /// The deposits held, by owner and identifier.
    pub closed spec fn deposits(&self) -> Map<(Seq<char>, u64), DepositModel> {
        deposits_of_rows(stored_rows(self.store))
    }

    /// The number of identifiers issued so far, which is the next identifier.
    pub closed spec fn issued(&self) -> u64 {
        match stored_count(self.store) {
            Some(count) => count,
            None => 0,
        }
    }

    /// The fee configuration, if one was set: the address that fees go to,
    /// and the fee as a fraction in units of ten to the minus eighteen.
    pub closed spec fn fee(&self) -> Option<(Seq<char>, u128)> {
        stored_fee(self.store)
    }

    /// Whether everything in the store can be read back.
    pub closed spec fn readable(&self) -> bool {
        intact(self.store)
    }

    /// The ledger's invariant: every deposit is held under an identifier that
    /// was issued, no identifier is held twice, and every owner is an
    /// identity.
    pub open spec fn wf(&self) -> bool {
        &&& self.readable()
        &&& forall|owner: Seq<char>, id: u64| #[trigger]
            self.deposits().contains_key((owner, id)) ==> id < self.issued() && key_fits(owner)
        &&& forall|first: Seq<char>, second: Seq<char>, id: u64|
            #[trigger] self.deposits().contains_key((first, id))
                && #[trigger] self.deposits().contains_key((second, id)) ==> first == second
    }

    /// The number of identifiers issued so far.
    pub fn count(&self) -> (count: u64)
        requires
            self.wf(),
        ensures
            count == self.issued(),
    {
        match load_count(&self.store) {
            Ok(Some(count)) => count,
            _ => 0,
        }
    }

    /// The ledger that holds nothing and has issued nothing.
    pub fn new() -> (ledger: Ledger)
        ensures
            ledger.wf(),
            ledger.deposits() == no_deposits(),
            ledger.issued() == 0,
            ledger.fee() is None,
    {
        let ledger = Ledger { store: empty_store() };
        assert(ledger.deposits() =~= no_deposits());
        ledger
    }
}

/// Issues the next identifier: the number of identifiers issued before.
///
/// It fails, with `IdentifiersExhausted`, only where no identifier is left;
/// the ledger is then as before.
pub fn next_id(ledger: &mut Ledger) -> (issued: Result<ID, ContractError>)
    requires
        old(ledger).wf(),
    ensures
        final(ledger).wf(),
        final(ledger).deposits() == old(ledger).deposits(),
        final(ledger).fee() == old(ledger).fee(),
        old(ledger).issued() < u64::MAX <==> issued is Ok,
        match issued {
            Ok(id) => id == old(ledger).issued() && final(ledger).issued() == id + 1,
            Err(error) => final(ledger).issued() == old(ledger).issued()
                && error is IdentifiersExhausted,
        },
{
    let id = ledger.count();
    if id == u64::MAX {
        return Err(ContractError::IdentifiersExhausted {});
    }
    let saved = save_count(&mut ledger.store, id + 1);
    assert(ledger.deposits() == old(ledger).deposits());
    match saved {
        Ok(()) => Ok(id),
        Err(error) => Err(ContractError::Std(error)),
    }
}

/// Puts a deposit into the ledger under `sender` and the next identifier,
/// which it returns and which is then issued.
///
/// It fails, with `IdentifiersExhausted`, only where no identifier is left;
/// the ledger is then as before.
pub fn add_deposit(ledger: &mut Ledger, sender: &Identity, deposit: &Deposit) -> (added: Result<
    ID,
    ContractError,
>)
    requires
        old(ledger).wf(),
    ensures
        final(ledger).wf(),
        final(ledger).fee() == old(ledger).fee(),
        old(ledger).issued() < u64::MAX <==> added is Ok,
        match added {
            Ok(id) => {
                &&& id == old(ledger).issued()
                &&& final(ledger).issued() == id + 1
                &&& !old(ledger).deposits().contains_key((sender@, id))
                &&& final(ledger).deposits() == old(ledger).deposits().insert(
                    (sender@, id),
                    deposit@,
                )
            },
            Err(error) => {
                &&& final(ledger).deposits() == old(ledger).deposits()
                &&& final(ledger).issued() == old(ledger).issued()
                &&& error is IdentifiersExhausted
            },
        },
{
    let id = next_id(ledger)?;
    let row = deposit.to_row();
    let saved = save_row(&mut ledger.store, sender.as_str(), id, &row);
    proof {
        lemma_row_round_trip(deposit@);
        assert(ledger.deposits() =~= old(ledger).deposits().insert((sender@, id), deposit@));
    }
    match saved {
        Ok(()) => Ok(id),
        Err(error) => Err(ContractError::Std(error)),
    }
}

/// Takes out of the ledger the deposit that `address` holds under `id`, or,
/// where no identifier is given, every deposit that `address` holds. A
/// deposit that is not there is not missed.
pub fn remove_deposit(ledger: &mut Ledger, address: &Identity, id: Option<ID>) -> (removed: Result<
    (),
    ContractError,
>)
    requires
        old(ledger).wf(),
    ensures
        removed is Ok,
        final(ledger).wf(),
        final(ledger).issued() == old(ledger).issued(),
        final(ledger).fee() == old(ledger).fee(),
        final(ledger).deposits() == match id {
            Some(id) => old(ledger).deposits().remove((address@, id)),
            None => without_owner(old(ledger).deposits(), address@),
        },
{
    let owner = address.as_str();
    match id {
        Some(id) => {
            remove_row(&mut ledger.store, owner, id);
            assert(ledger.deposits() =~= old(ledger).deposits().remove((address@, id)));
        },
        None => {
            let found = match rows_of(&ledger.store, owner) {
                Ok(found) => found,
                Err(error) => {
                    return Err(ContractError::Std(error));
                },
            };
            let ghost list = found.deep_view();
            let ghost before = stored_rows(ledger.store);
            let mut done: usize = 0;
            while done < found.len()
                invariant
                    0 <= done <= found.len(),
                    list == found.deep_view(),
                    owner@ == address@,
                    key_fits(owner@),
                    lists_owner(list, before, owner@),
                    before == stored_rows(old(ledger).store),
                    intact(ledger.store),
                    stored_count(ledger.store) == stored_count(old(ledger).store),
                    stored_fee(ledger.store) == stored_fee(old(ledger).store),
                    forall|key: (Seq<char>, u64)|
                        stored_rows(ledger.store).contains_key(key) <==> before.contains_key(key)
                            && !(key.0 == owner@ && exists|i: int|
                            0 <= i < done && #[trigger] list[i].0 == key.1),
                    forall|key: (Seq<char>, u64)|
                        stored_rows(ledger.store).contains_key(key) ==> stored_rows(
                            ledger.store,
                        )[key] == before[key],
                decreases found.len() - done,
            {
                let id = found[done].0;
                assert(list[done as int].0 == id);
                remove_row(&mut ledger.store, owner, id);
                done += 1;
            }
            proof {
                let after = stored_rows(ledger.store);
                assert forall|key: (Seq<char>, u64)|
                    after.contains_key(key) <==> before.contains_key(key) && key.0
                        != owner@ by {
                    if before.contains_key(key) && key.0 == owner@ {
                        assert(key == (owner@, key.1));
                        assert(before.contains_key((owner@, key.1)));
                    }
                }
                assert(ledger.deposits() =~= without_owner(old(ledger).deposits(), address@));
            }
        },
    }
    Ok(())
}

/// The deposits that `address` holds, each with its identifier, in ascending
/// order of identifier.
pub fn get_deposits(ledger: &Ledger, address: &Identity) -> (found: Result<
    Vec<(ID, Deposit)>,
    ContractError,
>)
    requires
        ledger.wf(),
    ensures
        found is Ok,
        lists_deposits(listing_model(found->Ok_0@), ledger.deposits(), address@),
        listing_model(found->Ok_0@) == held_by(ledger.deposits(), address@),
{
    let rows = match rows_of(&ledger.store, address.as_str()) {
        Ok(rows) => rows,
        Err(error) => {
            return Err(ContractError::Std(error));
        },
    };
    let ghost list = rows.deep_view();
    let mut deposits: Vec<(ID, Deposit)> = Vec::new();
    let mut done: usize = 0;
    while done < rows.len()
        invariant
            0 <= done <= rows.len(),
            list == rows.deep_view(),
            deposits.len() == done,
            forall|i: int|
                0 <= i < done ==> (#[trigger] deposits[i]).0 == list[i].0 && deposits[i].1@
                    == deposit_of(list[i].1),
        decreases rows.len() - done,
    {
        let deposit = Deposit::from_row(&rows[done].1);
        deposits.push((rows[done].0, deposit));
        done += 1;
    }
    proof {
        let listed = listing_model(deposits@);
        assert(listed.len() == list.len());
        assert forall|i: int| 0 <= i < listed.len() implies listed[i].0 == list[i].0 && listed[i].1
            == deposit_of(list[i].1) by {
            assert(deposits[i].0 == list[i].0);
        }
        assert forall|id: u64| #[trigger]
            ledger.deposits().contains_key((address@, id)) implies exists|i: int|
            0 <= i < listed.len() && #[trigger] listed[i].0 == id by {
            let i = choose|i: int| 0 <= i < list.len() && #[trigger] list[i].0 == id;
            assert(listed[i].0 == id);
        }
        lemma_listing_unique(
            listed,
            held_by(ledger.deposits(), address@),
            ledger.deposits(),
            address@,
        );
    }
    Ok(deposits)
}

/// The deposit that `owner` holds under `id`. It fails with
/// `DepositNotFound` where the owner holds none under that identifier.
pub fn load_deposit(ledger: &Ledger, owner: &Identity, id: ID) -> (loaded: Result<
    Deposit,
    ContractError,
>)
    requires
        ledger.wf(),
    ensures
        match loaded {
            Ok(deposit) => ledger.deposits().contains_key((owner@, id)) && deposit@
                == ledger.deposits()[(owner@, id)],
            Err(error) => !ledger.deposits().contains_key((owner@, id)) && error
                == (ContractError::DepositNotFound { id }),
        },
{
    match load_row(&ledger.store, owner.as_str(), id) {
        Ok(Some(row)) => Ok(Deposit::from_row(&row)),
        Ok(None) => Err(ContractError::DepositNotFound { id }),
        Err(error) => Err(ContractError::Std(error)),
    }
}

/// Every deposit of the ledger, with its owner and its identifier, in the
/// order in which the ledger is walked.
pub fn all_deposits(ledger: &Ledger) -> (found: Result<Vec<(Identity, ID, Deposit)>, ContractError>)
    requires
        ledger.wf(),
    ensures
        found is Ok,
        lists_ledger(entries_model(found->Ok_0@), ledger.deposits()),
        in_key_order(entries_model(found->Ok_0@)),
{
    let rows = match all_rows(&ledger.store) {
        Ok(rows) => rows,
        Err(error) => {
            return Err(ContractError::Std(error));
        },
    };
    let ghost list = rows.deep_view();
    let mut entries: Vec<(Identity, ID, Deposit)> = Vec::new();
    let mut done: usize = 0;
    while done < rows.len()
        invariant
            0 <= done <= rows.len(),
            ledger.wf(),
            list == rows.deep_view(),
            lists_all(list, stored_rows(ledger.store)),
            entries.len() == done,
            forall|i: int|
                0 <= i < done ==> (#[trigger] entries[i]).0@ == list[i].0 && entries[i].1
                    == list[i].1 && entries[i].2@ == deposit_of(list[i].2),
        decreases rows.len() - done,
    {
        assert(ledger.deposits().contains_key((list[done as int].0, list[done as int].1)));
        let owner = match Identity::new(rows[done].0.as_str()) {
            Some(owner) => owner,
            None => {
                return Err(ContractError::InvalidAddress { address: rows[done].0.clone() });
            },
        };
        let deposit = Deposit::from_row(&rows[done].2);
        entries.push((owner, rows[done].1, deposit));
        done += 1;
    }
    proof {
        let listed = entries_model(entries@);
        assert(listed.len() == list.len());
        assert forall|i: int| 0 <= i < listed.len() implies listed[i].0 == list[i].0
            && listed[i].1 == list[i].1 && listed[i].2 == deposit_of(list[i].2) by {
            assert(entries[i].0@ == list[i].0);
        }
        assert forall|owner: Seq<char>, id: u64| #[trigger]
            ledger.deposits().contains_key((owner, id)) implies exists|i: int|
            0 <= i < listed.len() && #[trigger] listed[i].0 == owner && listed[i].1 == id by {
            let i = choose|i: int|
                0 <= i < list.len() && #[trigger] list[i].0 == owner && list[i].1 == id;
            assert(listed[i].0 == owner);
        }
        assert forall|i: int| 0 <= i < listed.len() implies ledger.deposits().contains_key(
            (#[trigger] listed[i].0, listed[i].1),
        ) && ledger.deposits()[(listed[i].0, listed[i].1)] == listed[i].2 by {
            assert(stored_rows(ledger.store).contains_key((list[i].0, list[i].1)));
        }
        assert forall|i: int, j: int| 0 <= i < j < listed.len() implies key_before(
            (#[trigger] listed[i].0, listed[i].1),
            (#[trigger] listed[j].0, listed[j].1),
        ) by {
            assert(key_before((list[i].0, list[i].1), (list[j].0, list[j].1)));
        }
    }
    Ok(entries)
}

/// Where fees go, and how much is taken.
#[derive(Debug, PartialEq, Eq)]
pub struct FeeConfig {
    pub fee_address: String,
    /// The fee as a fraction, in units of ten to the minus eighteen.
    pub service_fee: u128,
}

/// Sets the fee configuration: fees of `percent` hundredths go to
/// `fee_address`. The deposits and the counter stay as they are.
pub fn set_fee_config(ledger: &mut Ledger, fee_address: &Identity, percent: u64) -> (set: Result<
    (),
    ContractError,
>)
    requires
        old(ledger).wf(),
    ensures
        set is Ok,
        final(ledger).wf(),
        final(ledger).deposits() == old(ledger).deposits(),
        final(ledger).issued() == old(ledger).issued(),
        final(ledger).fee() == Some((fee_address@, percent_fee(percent))),
{
    let saved = save_fee(&mut ledger.store, fee_address.as_str(), percent);
    assert(ledger.deposits() == old(ledger).deposits());
    match saved {
        Ok(()) => Ok(()),
        Err(error) => Err(ContractError::Std(error)),
    }
}

/// The fee configuration, if one was set.
pub fn fee_config(ledger: &Ledger) -> (found: Result<Option<FeeConfig>, ContractError>)
    requires
        ledger.wf(),
    ensures
        found is Ok,
        match found->Ok_0 {
            Some(config) => ledger.fee() == Some((config.fee_address@, config.service_fee)),
            None => ledger.fee() is None,
        },
{
    match load_fee(&ledger.store) {
        Ok(Some((fee_address, service_fee))) => Ok(Some(FeeConfig { fee_address, service_fee })),
        Ok(None) => Ok(None),
        Err(error) => Err(ContractError::Std(error)),
    }
}

/// Whether a list of deposits can be the content of a ledger that has issued
/// `issued` identifiers: each identifier in it was issued, and none is there
/// twice.
pub open spec fn restorable(issued: u64, list: Seq<(Seq<char>, u64, DepositModel)>) -> bool {
    &&& forall|i: int| 0 <= i < list.len() ==> (#[trigger] list[i]).1 < issued
    &&& forall|i: int, j: int|
        0 <= i < j < list.len() ==> (#[trigger] list[i]).1 != (#[trigger] list[j]).1
}

/// Whether `error` says why a list of deposits cannot be the content of a
/// ledger that has issued `issued` identifiers: it names an identifier of
/// the list that was not issued, or one that is in the list twice.
pub open spec fn is_restore_refusal(
    error: ContractError,
    issued: u64,
    list: Seq<(Seq<char>, u64, DepositModel)>,
) -> bool {
    match error {
        ContractError::UnknownIdentifier { id } => id >= issued && exists|i: int|
            0 <= i < list.len() && (#[trigger] list[i]).1 == id,
        ContractError::DuplicateDeposit { id } => exists|i: int, j: int|
            0 <= i < j < list.len() && (#[trigger] list[i]).1 == id && (#[trigger] list[j]).1
                == id,
        _ => false,
    }
}

/// The ledger that has issued `issued` identifiers and holds the deposits
/// of `entries`, each under its owner and its identifier, and no fee
/// configuration.
///
/// It fails only where the list cannot be the content of such a ledger:
/// with `UnknownIdentifier` where an identifier of the list was not issued,
/// with `DuplicateDeposit` where one is there twice.
pub fn restore(issued: u64, entries: &Vec<(Identity, ID, Deposit)>) -> (restored: Result<
    Ledger,
    ContractError,
>)
    ensures
        restorable(issued, entries_model(entries@)) <==> restored is Ok,
        match restored {
            Ok(ledger) => {
                &&& ledger.wf()
                &&& ledger.issued() == issued
                &&& ledger.fee() is None
                &&& lists_ledger(entries_model(entries@), ledger.deposits())
            },
            Err(error) => is_restore_refusal(error, issued, entries_model(entries@)),
        },
{
    let ghost list = entries_model(entries@);
    let mut checked: usize = 0;
    while checked < entries.len()
        invariant
            0 <= checked <= entries.len(),
            list == entries_model(entries@),
            restorable(issued, list.take(checked as int)),
        decreases entries.len() - checked,
    {
        let id = entries[checked].1;
        assert(list[checked as int].1 == id);
        if id >= issued {
            return Err(ContractError::UnknownIdentifier { id });
        }
        let mut seen: usize = 0;
        while seen < checked
            invariant
                0 <= seen <= checked < entries.len(),
                list == entries_model(entries@),
                id == list[checked as int].1,
                forall|i: int| 0 <= i < seen ==> (#[trigger] list[i]).1 != id,
            decreases checked - seen,
        {
            if entries[seen].1 == id {
                assert(list[seen as int].1 == list[checked as int].1);
                return Err(ContractError::DuplicateDeposit { id });
            }
            seen += 1;
        }
        proof {
            lemma_restorable_prefix(issued, list, checked as int);
        }
        checked += 1;
    }
    assert(list.take(checked as int) =~= list);
    let mut ledger = Ledger { store: empty_store() };
    let mut done: usize = 0;
    while done < entries.len()
        invariant
            0 <= done <= entries.len(),
            list == entries_model(entries@),
            restorable(issued, list),
            intact(ledger.store),
            stored_count(ledger.store) is None,
            stored_fee(ledger.store) is None,
            forall|i: int| 0 <= i < done ==> key_fits((#[trigger] list[i]).0),
            forall|key: (Seq<char>, u64)|
                stored_rows(ledger.store).contains_key(key) <==> exists|i: int|
                    0 <= i < done && (#[trigger] list[i]).0 == key.0 && list[i].1 == key.1,
            forall|i: int|
                0 <= i < done ==> stored_rows(ledger.store)[((#[trigger] list[i]).0, list[i].1)]
                    == row_of(list[i].2),
        decreases entries.len() - done,
    {
        let id = entries[done].1;
        let row = entries[done].2.to_row();
        let ghost rows_before = stored_rows(ledger.store);
        match save_row(&mut ledger.store, entries[done].0.as_str(), id, &row) {
            Ok(()) => {},
            Err(error) => {
                return Err(ContractError::Std(error));
            },
        }
        proof {
            let next = done + 1;
            assert forall|key: (Seq<char>, u64)|
                stored_rows(ledger.store).contains_key(key) <==> exists|i: int|
                    0 <= i < next && (#[trigger] list[i]).0 == key.0 && list[i].1 == key.1 by {
                if key == (list[done as int].0, id) {
                    assert(list[done as int].0 == key.0 && list[done as int].1 == key.1);
                } else if rows_before.contains_key(key) {
                    let i = choose|i: int|
                        0 <= i < done && (#[trigger] list[i]).0 == key.0 && list[i].1 == key.1;
                    assert(0 <= i < next && list[i].0 == key.0 && list[i].1 == key.1);
                }
            }
            assert forall|i: int| 0 <= i < next implies stored_rows(ledger.store)[(
                (#[trigger] list[i]).0,
                list[i].1,
            )] == row_of(list[i].2) by {
                if i < done {
                    assert(list[i].1 != list[done as int].1);
                }
            }
        }
        done += 1;
    }
    match save_count(&mut ledger.store, issued) {
        Ok(()) => {},
        Err(error) => {
            return Err(ContractError::Std(error));
        },
    }
    proof {
        assert forall|i: int| 0 <= i < list.len() implies ledger.deposits().contains_key(
            (#[trigger] list[i].0, list[i].1),
        ) && ledger.deposits()[(list[i].0, list[i].1)] == list[i].2 by {
            assert(stored_rows(ledger.store).contains_key((list[i].0, list[i].1)));
            lemma_row_round_trip(list[i].2);
        }
        assert forall|owner: Seq<char>, id: u64| #[trigger]
            ledger.deposits().contains_key((owner, id)) implies id < ledger.issued() && key_fits(
            owner,
        ) && exists|i: int|
            0 <= i < list.len() && #[trigger] list[i].0 == owner && list[i].1 == id by {
            let i = choose|i: int|
                0 <= i < done && (#[trigger] list[i]).0 == owner && list[i].1 == id;
        }
        assert forall|first: Seq<char>, second: Seq<char>, id: u64|
            #[trigger] ledger.deposits().contains_key((first, id))
                && #[trigger] ledger.deposits().contains_key((second, id)) implies first
            == second by {
            let i = choose|i: int|
                0 <= i < done && (#[trigger] list[i]).0 == first && list[i].1 == id;
            let j = choose|j: int|
                0 <= j < done && (#[trigger] list[j]).0 == second && list[j].1 == id;
            if i < j {
                assert(list[i].1 != list[j].1);
            } else if j < i {
                assert(list[j].1 != list[i].1);
            }
        }
    }
    Ok(ledger)
}

proof fn lemma_restorable_prefix(issued: u64, list: Seq<(Seq<char>, u64, DepositModel)>, upto: int)
    requires
        0 <= upto < list.len(),
        restorable(issued, list.take(upto)),
        list[upto].1 < issued,
        forall|i: int| 0 <= i < upto ==> (#[trigger] list[i]).1 != list[upto].1,
    ensures
        restorable(issued, list.take(upto + 1)),
{
    let shorter = list.take(upto);
    let longer = list.take(upto + 1);
    assert forall|i: int| 0 <= i < longer.len() implies (#[trigger] longer[i]).1 < issued by {
        if i < upto {
            assert(shorter[i].1 < issued);
        }
    }
    assert forall|i: int, j: int| 0 <= i < j < longer.len() implies (#[trigger] longer[i]).1 != (
    #[trigger] longer[j]).1 by {
        if j < upto {
            assert(shorter[i].1 != shorter[j].1);
        }
    }
}

} // verus!

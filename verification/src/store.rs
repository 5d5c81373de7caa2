//! The keyed store under the ledger: the identifier counter and the deposit
//! rows, kept in a `cosmwasm_std::MemoryStorage` through the typed accessors
//! of `cw_storage_plus`.
//!
//! Nothing in this file is proved. Each function states what the accessor it
//! calls does to the store, and the rest of the library is proved from those
//! statements.

use cosmwasm_std::{Addr, Decimal, MemoryStorage, Order, StdError};
use cw_storage_plus::Item;
use vstd::prelude::*;
use vstd::string::*;

verus! {

/// `cosmwasm_std::MemoryStorage`, a store of bytes under keys of bytes, kept
/// in memory. What it holds is spoken of through `stored_rows`,
/// `stored_count` and `stored_fee` only.
#[verifier::external_type_specification]
#[verifier::external_body]
pub struct ExMemoryStorage(MemoryStorage);

/// `cosmwasm_std::StdError`, the error of the store and of the encoder. It
/// is handed on as it comes; nothing is known of what it holds.
#[verifier::external_type_specification]
#[verifier::external_body]
pub struct ExStdError(StdError);

/// A deposit as the store holds it: for the escrowed asset and then for the
/// wanted asset, whether it is a token, its unit's name and its amount; last
/// the party the offer is restricted to.
pub type Row = (bool, String, u128, bool, String, u128, Option<String>);

/// A row as a mathematical value.
pub type RowModel = (bool, Seq<char>, u128, bool, Seq<char>, u128, Option<Seq<char>>);

/// The deposit rows that the store holds, by owner and identifier.
pub uninterp spec fn stored_rows(store: MemoryStorage) -> Map<(Seq<char>, u64), RowModel>;

/// The identifier counter that the store holds, if it holds one.
pub uninterp spec fn stored_count(store: MemoryStorage) -> Option<u64>;

/// The fee configuration that the store holds, if it holds one: the address
/// that fees go to, and the fee as a fraction in units of ten to the minus
/// eighteen.
pub uninterp spec fn stored_fee(store: MemoryStorage) -> Option<(Seq<char>, u128)>;

/// Whether every entry that the store holds for the counter, for the fee
/// configuration or for a deposit can be read back: a store that is not
/// intact holds, under the key of the counter, under the key of the fee
/// configuration or among the keys of the deposits, a key or bytes that the
/// accessors did not write and cannot decode.
pub uninterp spec fn intact(store: MemoryStorage) -> bool;

/// Whether an owner's name can be part of a key: the accessors of
/// `cw_storage_plus` write the length of a name in two bytes.
pub open spec fn key_fits(owner: Seq<char>) -> bool {
    vstd::utf8::encode_utf8(owner).len() <= 0xFFFF
}

/// The rows of a store that holds none.
pub open spec fn no_rows() -> Map<(Seq<char>, u64), RowModel> {
    Map::empty()
}

/// Whether `list` is what the store holds for `owner`: every row of that
/// owner once, in ascending order of identifier.
pub open spec fn lists_owner(
    list: Seq<(u64, RowModel)>,
    rows: Map<(Seq<char>, u64), RowModel>,
    owner: Seq<char>,
) -> bool {
    &&& forall|i: int, j: int| 0 <= i < j < list.len() ==> list[i].0 < list[j].0
    &&& forall|i: int|
        0 <= i < list.len() ==> rows.contains_key((owner, #[trigger] list[i].0)) && rows[(
            owner,
            list[i].0,
        )] == list[i].1
    &&& forall|id: u64| #[trigger]
        rows.contains_key((owner, id)) ==> exists|i: int|
            0 <= i < list.len() && #[trigger] list[i].0 == id
}

/// Whether the text `x` comes before the text `y` of the same length, byte
/// by byte: at the first place where they differ, `x` has the smaller byte.
pub open spec fn bytes_before(x: Seq<u8>, y: Seq<u8>) -> bool {
    exists|at: int|
        0 <= at < x.len() && at < y.len() && x.subrange(0, at) == y.subrange(0, at) && x[at]
            < y[at]
}

/// Whether the row of `a` comes before the row of `b` when the store is
/// walked. The store keeps its keys in the order of their bytes, and a key
/// writes the length of the owner's name, the name and the identifier: so
/// the shorter name comes first, among names of one length the one that
/// comes first byte by byte, and under one name the smaller identifier.
pub open spec fn key_before(a: (Seq<char>, u64), b: (Seq<char>, u64)) -> bool {
    let x = vstd::utf8::encode_utf8(a.0);
    let y = vstd::utf8::encode_utf8(b.0);
    x.len() < y.len() || (x.len() == y.len() && (bytes_before(x, y) || (x == y && a.1 < b.1)))
}

/// Whether `list` is what the store holds: every row once, under its key,
/// in the order of the keys.
pub open spec fn lists_all(
    list: Seq<(Seq<char>, u64, RowModel)>,
    rows: Map<(Seq<char>, u64), RowModel>,
) -> bool {
    &&& forall|i: int, j: int|
        0 <= i < j < list.len() ==> (list[i].0, list[i].1) != (list[j].0, list[j].1)
    &&& forall|i: int, j: int|
        0 <= i < j < list.len() ==> key_before(
            (#[trigger] list[i].0, list[i].1),
            (#[trigger] list[j].0, list[j].1),
        )
    &&& forall|i: int|
        0 <= i < list.len() ==> rows.contains_key((#[trigger] list[i].0, list[i].1)) && rows[(
            list[i].0,
            list[i].1,
        )] == list[i].2
    &&& forall|owner: Seq<char>, id: u64| #[trigger]
        rows.contains_key((owner, id)) ==> exists|i: int|
            0 <= i < list.len() && #[trigger] list[i].0 == owner && list[i].1 == id
}

/// `MemoryStorage::new`: the store that holds nothing, so neither a counter
/// nor a row, and nothing that could fail to be read.
#[verifier::external_body]
pub(crate) fn empty_store() -> (store: MemoryStorage)
    ensures
        stored_rows(store) == no_rows(),
        stored_count(store) is None,
        stored_fee(store) is None,
        intact(store),
{
    MemoryStorage::new()
}

/// `Item::may_load` on the counter: the counter that the store holds, or
/// nothing where it holds none. It fails only on bytes that are no counter,
/// which an intact store does not hold.
#[verifier::external_body]
pub(crate) fn load_count(store: &MemoryStorage) -> (loaded: Result<Option<u64>, StdError>)
    ensures
        intact(*store) ==> loaded is Ok,
        loaded is Ok ==> loaded->Ok_0 == stored_count(*store),
{
    Item::<u64>::new("id_count").may_load(store)
}

/// `Item::save` on the counter: the store then holds `count` as its counter.
/// It always succeeds, since the encoder has no failing path for a number.
/// The rows and the fee configuration are under other keys and stay as they
/// are.
#[verifier::external_body]
pub(crate) fn save_count(store: &mut MemoryStorage, count: u64) -> (saved: Result<(), StdError>)
    ensures
        stored_rows(*final(store)) == stored_rows(*old(store)),
        stored_fee(*final(store)) == stored_fee(*old(store)),
        intact(*old(store)) ==> intact(*final(store)),
        saved is Ok,
        stored_count(*final(store)) == Some(count),
{
    Item::<u64>::new("id_count").save(store, &count)
}

/// `Map::may_load` under the key of `owner` and `id`: the row that the store
/// holds there, or nothing where it holds none. It fails only on bytes that
/// are no row, which an intact store does not hold.
#[verifier::external_body]
pub(crate) fn load_row(store: &MemoryStorage, owner: &str, id: u64) -> (loaded: Result<
    Option<Row>,
    StdError,
>)
    requires
        key_fits(owner@),
    ensures
        intact(*store) ==> loaded is Ok,
        loaded is Ok ==> match loaded->Ok_0 {
            Some(row) => stored_rows(*store).contains_key((owner@, id)) && stored_rows(
                *store,
            )[(owner@, id)] == row.deep_view(),
            None => !stored_rows(*store).contains_key((owner@, id)),
        },
{
    cw_storage_plus::Map::<(&Addr, u64), Row>::new("deposits").may_load(store, (&Addr::unchecked(owner), id))
}

/// `Map::save` under the key of `owner` and `id`: the store then holds `row`
/// there, in place of what it held there before. It always succeeds, since
/// the encoder has no failing path for flags, texts and amounts. The
/// counter, the fee configuration and the other rows stay as they are.
#[verifier::external_body]
pub(crate) fn save_row(store: &mut MemoryStorage, owner: &str, id: u64, row: &Row) -> (saved:
    Result<(), StdError>)
    requires
        key_fits(owner@),
    ensures
        stored_count(*final(store)) == stored_count(*old(store)),
        stored_fee(*final(store)) == stored_fee(*old(store)),
        intact(*old(store)) ==> intact(*final(store)),
        saved is Ok,
        stored_rows(*final(store)) == stored_rows(*old(store)).insert(
            (owner@, id),
            row.deep_view(),
        ),
{
    cw_storage_plus::Map::<(&Addr, u64), Row>::new("deposits").save(store, (&Addr::unchecked(owner), id), row)
}

/// `Map::remove` under the key of `owner` and `id`: the store no longer holds
/// a row there. The counter, the fee configuration and the other rows stay
/// as they are.
#[verifier::external_body]
pub(crate) fn remove_row(store: &mut MemoryStorage, owner: &str, id: u64)
    requires
        key_fits(owner@),
    ensures
        stored_count(*final(store)) == stored_count(*old(store)),
        stored_fee(*final(store)) == stored_fee(*old(store)),
        intact(*old(store)) ==> intact(*final(store)),
        stored_rows(*final(store)) == stored_rows(*old(store)).remove((owner@, id)),
{
    cw_storage_plus::Map::<(&Addr, u64), Row>::new("deposits").remove(store, (&Addr::unchecked(owner), id))
}

/// `Map::prefix` and `Prefix::range` over all of it, ascending: the rows of
/// `owner`, each with its identifier, the smallest identifier first. It fails
/// only on bytes that are no row, which an intact store does not hold.
#[verifier::external_body]
pub(crate) fn rows_of(store: &MemoryStorage, owner: &str) -> (found: Result<
    Vec<(u64, Row)>,
    StdError,
>)
    requires
        key_fits(owner@),
    ensures
        intact(*store) ==> found is Ok,
        found is Ok ==> lists_owner(found->Ok_0.deep_view(), stored_rows(*store), owner@),
{
    cw_storage_plus::Map::<(&Addr, u64), Row>::new("deposits").prefix(&Addr::unchecked(owner)).range(
        store,
        None,
        None,
        Order::Ascending,
    ).collect()
}

/// `Map::range` over all of it, ascending: every row with its owner and its
/// identifier, in the order of the keys. On a key that is shorter than the length written in it the
/// decoder of keys does not return, so the store has to be intact; the call
/// then succeeds.
#[verifier::external_body]
pub(crate) fn all_rows(store: &MemoryStorage) -> (found: Result<Vec<(String, u64, Row)>, StdError>)
    requires
        intact(*store),
    ensures
        found is Ok,
        lists_all(found->Ok_0.deep_view(), stored_rows(*store)),
{
    cw_storage_plus::Map::<(&Addr, u64), Row>::new("deposits").range(
        store,
        None,
        None,
        Order::Ascending,
    ).map(|item| item.map(|((owner, id), row)| (owner.into_string(), id, row))).collect()
}

/// The fee that `Decimal::percent` makes of a number of hundredths, in units
/// of ten to the minus eighteen.
pub open spec fn percent_fee(percent: u64) -> u128 {
    (percent * 10_000_000_000_000_000) as u128
}

/// `Item::save` on the fee configuration, with the fee that
/// `Decimal::percent` makes of `percent`: the store then holds `address` and
/// that fee as its fee configuration. It always succeeds, since the encoder
/// has no failing path for texts. The counter and the rows stay as they
/// are.
#[verifier::external_body]
pub(crate) fn save_fee(store: &mut MemoryStorage, address: &str, percent: u64) -> (saved: Result<
    (),
    StdError,
>)
    ensures
        stored_rows(*final(store)) == stored_rows(*old(store)),
        stored_count(*final(store)) == stored_count(*old(store)),
        intact(*old(store)) ==> intact(*final(store)),
        saved is Ok,
        stored_fee(*final(store)) == Some((address@, percent_fee(percent))),
{
    Item::<(Addr, Decimal)>::new("fee_config").save(
        store,
        &(Addr::unchecked(address), Decimal::percent(percent)),
    )
}

/// `Item::may_load` on the fee configuration: the address and the fee that
/// the store holds, or nothing where it holds none. It fails only on bytes
/// that are no fee configuration, which an intact store does not hold.
#[verifier::external_body]
pub(crate) fn load_fee(store: &MemoryStorage) -> (loaded: Result<Option<(String, u128)>, StdError>)
    ensures
        intact(*store) ==> loaded is Ok,
        loaded is Ok ==> loaded->Ok_0.deep_view() == stored_fee(*store),
{
    Item::<(Addr, Decimal)>::new("fee_config").may_load(store).map(
        |found| found.map(|(address, fee)| (address.into_string(), fee.atomics().u128())),
    )
}

} // verus!

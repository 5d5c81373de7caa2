//! Assets: an amount of a native unit or of a token issued by a contract.

use vstd::prelude::*;
use vstd::string::*;

verus! {

/// The unit of an asset, as a mathematical value.
pub enum DenomModel {
    Native(Seq<char>),
    Cw20(Seq<char>),
}

impl DenomModel {
    /// The symbol of a native unit, or the address of a token contract.
    pub open spec fn name(self) -> Seq<char> {
        match self {
            DenomModel::Native(symbol) => symbol,
            DenomModel::Cw20(address) => address,
        }
    }
}

/// An asset as a mathematical value.
pub struct AssetModel {
    pub denom: DenomModel,
    pub amount: u128,
}

/// The unit an asset is counted in: a native unit named by its symbol, or a
/// token named by the address of the contract that issues it.
#[derive(Debug, PartialEq, Eq)]
pub enum AssetType {
    Native(String),
    Cw20(String),
}

impl View for AssetType {
    type V = DenomModel;

    open spec fn view(&self) -> DenomModel {
        match self {
            AssetType::Native(symbol) => DenomModel::Native(symbol@),
            AssetType::Cw20(address) => DenomModel::Cw20(address@),
        }
    }
}

impl Clone for AssetType {
    fn clone(&self) -> (copy: Self)
        ensures
            copy@ == self@,
    {
        match self {
            AssetType::Native(symbol) => AssetType::Native(symbol.clone()),
            AssetType::Cw20(address) => AssetType::Cw20(address.clone()),
        }
    }
}

impl AssetType {
    /// The text a unit is shown as: its symbol or its contract address.
    pub fn to_text(&self) -> (text: String)
        ensures
            text@ == self@.name(),
    {
        match self {
            AssetType::Native(symbol) => symbol.clone(),
            AssetType::Cw20(address) => address.clone(),
        }
    }

    /// Whether two units are of the same kind and carry the same name.
    pub fn same_as(&self, other: &AssetType) -> (same: bool)
        ensures
            same == (self@ == other@),
    {
        match self {
            AssetType::Native(symbol) => match other {
                AssetType::Native(other_symbol) => *symbol == *other_symbol,
                AssetType::Cw20(_) => false,
            },
            AssetType::Cw20(address) => match other {
                AssetType::Native(_) => false,
                AssetType::Cw20(other_address) => *address == *other_address,
            },
        }
    }
}

/// An amount of one unit.
#[derive(Debug, PartialEq, Eq)]
pub struct Asset {
    pub denom: AssetType,
    pub amount: u128,
}

impl View for Asset {
    type V = AssetModel;

    open spec fn view(&self) -> AssetModel {
        AssetModel { denom: self.denom@, amount: self.amount }
    }
}

impl Clone for Asset {
    fn clone(&self) -> (copy: Self)
        ensures
            copy@ == self@,
    {
        Asset { denom: self.denom.clone(), amount: self.amount }
    }
}

/// The decimal digit that stands for `d`.
pub open spec fn digit(d: int) -> char {
    if d == 0 {
        '0'
    } else if d == 1 {
        '1'
    } else if d == 2 {
        '2'
    } else if d == 3 {
        '3'
    } else if d == 4 {
        '4'
    } else if d == 5 {
        '5'
    } else if d == 6 {
        '6'
    } else if d == 7 {
        '7'
    } else if d == 8 {
        '8'
    } else {
        '9'
    }
}

/// The decimal numeral of `n`, without leading zeros.
pub open spec fn decimal(n: nat) -> Seq<char>
    decreases n,
{
    if n < 10 {
        seq![digit(n as int)]
    } else {
        decimal(n / 10).push(digit((n % 10) as int))
    }
}

/// The text an asset is shown as: its amount, directly followed by its unit.
pub open spec fn asset_text(asset: AssetModel) -> Seq<char> {
    decimal(asset.amount as nat) + asset.denom.name()
}

fn digit_text(d: u128) -> (text: &'static str)
    requires
        d < 10,
    ensures
        text@ == seq![digit(d as int)],
{
    proof {
        reveal_strlit("0");
        reveal_strlit("1");
        reveal_strlit("2");
        reveal_strlit("3");
        reveal_strlit("4");
        reveal_strlit("5");
        reveal_strlit("6");
        reveal_strlit("7");
        reveal_strlit("8");
        reveal_strlit("9");
    }
    let text = if d == 0 {
        "0"
    } else if d == 1 {
        "1"
    } else if d == 2 {
        "2"
    } else if d == 3 {
        "3"
    } else if d == 4 {
        "4"
    } else if d == 5 {
        "5"
    } else if d == 6 {
        "6"
    } else if d == 7 {
        "7"
    } else if d == 8 {
        "8"
    } else {
        "9"
    };
    assert(text@ =~= seq![digit(d as int)]);
    text
}

/// Writes `n` as a decimal numeral.
pub fn decimal_text(n: u128) -> (text: String)
    ensures
        text@ == decimal(n as nat),
    decreases n,
{
    if n < 10 {
        digit_text(n).to_owned()
    } else {
        let mut text = decimal_text(n / 10);
        text.append(digit_text(n % 10));
        assert(text@ =~= decimal((n / 10) as nat).push(digit((n % 10) as int)));
        text
    }
}

impl Asset {
    /// An amount of the native unit with the given symbol.
    pub fn new_native(amount: u128, denom: &str) -> (asset: Self)
        ensures
            asset@ == (AssetModel { denom: DenomModel::Native(denom@), amount }),
    {
        Asset { amount, denom: AssetType::Native(denom.to_owned()) }
    }

    /// An amount of the token that the contract at the given address issues.
    pub fn new_cw20(amount: u128, denom: &str) -> (asset: Self)
        ensures
            asset@ == (AssetModel { denom: DenomModel::Cw20(denom@), amount }),
    {
        Asset { amount, denom: AssetType::Cw20(denom.to_owned()) }
    }

    /// The text the asset is shown as: its amount, directly followed by its
    /// unit.
    pub fn to_text(&self) -> (text: String)
        ensures
            text@ == asset_text(self@),
    {
        let mut text = decimal_text(self.amount);
        let unit = self.denom.to_text();
        text.append(unit.as_str());
        text
    }
}

} // verus!

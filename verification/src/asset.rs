//! Assets held by the venue: a typed amount-bearing value, either a native
//! currency named by its denomination or a token issued by a contract.

use vstd::prelude::*;

verus! {

/// The identity of an asset. Amounts are accounted identically for both
/// variants; only transfer handling differs (native funds arrive with the
/// call, token funds must be pulled).
#[derive(Debug)]
pub enum AssetInfo {
    NativeToken { denom: String },
    Token { contract_addr: String },
}

impl AssetInfo {
    /// Two asset identities are the same exactly when they are the same
    /// variant with the same identifying name.
    pub open spec fn spec_equal(&self, other: &AssetInfo) -> bool {
        match (self, other) {
            (AssetInfo::NativeToken { denom: a }, AssetInfo::NativeToken { denom: b }) => a@ == b@,
            (
                AssetInfo::Token { contract_addr: a },
                AssetInfo::Token { contract_addr: b },
            ) => a@ == b@,
            _ => false,
        }
    }

    /// Decides `spec_equal`.
    pub fn equal(&self, other: &AssetInfo) -> (r: bool)
        ensures
            r == self.spec_equal(other),
    {
        match (self, other) {
            (AssetInfo::NativeToken { denom: a }, AssetInfo::NativeToken { denom: b }) => a.eq(b),
            (AssetInfo::Token { contract_addr: a }, AssetInfo::Token { contract_addr: b }) => a.eq(
                b,
            ),
            _ => false,
        }
    }

    /// Whether the asset is a native currency, whose deposits arrive attached
    /// to the call and are already reflected in the pool balance.
    pub fn is_native_token(&self) -> (r: bool)
        ensures
            r == (*self is NativeToken),
    {
        match self {
            AssetInfo::NativeToken { .. } => true,
            AssetInfo::Token { .. } => false,
        }
    }
}

impl Clone for AssetInfo {
    fn clone(&self) -> (res: Self)
        ensures
            res == *self,
    {
        match self {
            AssetInfo::NativeToken { denom } => AssetInfo::NativeToken { denom: denom.clone() },
            AssetInfo::Token { contract_addr } => AssetInfo::Token {
                contract_addr: contract_addr.clone(),
            },
        }
    }
}

/// An asset identity together with an amount in its minor (atomic) unit.
#[derive(Debug)]
pub struct Asset {
    pub info: AssetInfo,
    pub amount: u128,
}

impl Clone for Asset {
    fn clone(&self) -> (res: Self)
        ensures
            res == *self,
    {
        Asset { info: self.info.clone(), amount: self.amount }
    }
}

/// A native-currency asset of the given amount and denomination.
pub fn create_coin_asset(amount: u128, denom: &str) -> (r: Asset)
    ensures
        r.amount == amount,
        r.info matches AssetInfo::NativeToken { denom: d } && d@ == denom@,
{
    Asset { info: AssetInfo::NativeToken { denom: denom.to_owned() }, amount }
}

/// A contract-issued token asset of the given amount, named by the issuing
/// contract's address.
pub fn create_token_asset(amount: u128, contract_addr: String) -> (r: Asset)
    ensures
        r.amount == amount,
        r.info matches AssetInfo::Token { contract_addr: a } && a == contract_addr,
{
    Asset { info: AssetInfo::Token { contract_addr }, amount }
}

} // verus!

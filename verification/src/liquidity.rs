//! Market liquidity assets and their balance rule: what amount of one asset
//! is in balance with a given amount of the other, both priced in a common
//! base currency.

use crate::math::{
    checked_multiply_ratio, checked_pow10, lemma_pow10_at_least_one, pow10,
    CheckedMultiplyRatioError,
};
use vstd::arithmetic::div_mod::{lemma_div_denominator, lemma_div_multiples_vanish};
use vstd::prelude::*;

verus! {

/// How a liquidity balance computation fails.
#[derive(Debug, PartialEq, Eq, Structural)]
pub enum MarketLiquidityError {
    /// Checked arithmetic overflowed.
    OverflowError {},
    /// A ratio was taken against a zero base price.
    DivideByZeroError {},
    /// Less borrow asset was provided than balances the collateral side.
    BorrowAssetImbalance { expected_balance: u128, provided_balance: u128 },
    /// Less collateral asset was provided than balances the borrow side.
    CollateralAssetImbalance { expected_balance: u128, provided_balance: u128 },
}

impl MarketLiquidityError {
    /// An imbalance report for the borrow side.
    pub fn borrow_asset_imbalance(provided_balance: u128, expected_balance: u128) -> (r: Self)
        ensures
            r == (MarketLiquidityError::BorrowAssetImbalance { expected_balance, provided_balance }),
    {
        MarketLiquidityError::BorrowAssetImbalance { expected_balance, provided_balance }
    }

    /// An imbalance report for the collateral side.
    pub fn collateral_asset_imbalance(provided_balance: u128, expected_balance: u128) -> (r: Self)
        ensures
            r == (MarketLiquidityError::CollateralAssetImbalance {
                expected_balance,
                provided_balance,
            }),
    {
        MarketLiquidityError::CollateralAssetImbalance { expected_balance, provided_balance }
    }
}

/// The amount of an asset with price `self_base_price` and `self_decimals`
/// decimal places that balances `rhs_amount` of an asset with price
/// `rhs_base_price` and `rhs_decimals` decimal places: the compared amount is
/// first brought to this asset's decimal scale, then converted by the ratio
/// of the two base prices.
pub open spec fn spec_balance_with(
    self_base_price: u128,
    self_decimals: u8,
    rhs_amount: u128,
    rhs_base_price: u128,
    rhs_decimals: u8,
) -> Result<u128, MarketLiquidityError> {
    let adjusted: Result<int, MarketLiquidityError> = if self_decimals > rhs_decimals {
        let factor = pow10((self_decimals - rhs_decimals) as nat);
        if factor > u128::MAX {
            Err(MarketLiquidityError::OverflowError {})
        } else if rhs_amount * factor > u128::MAX {
            Err(MarketLiquidityError::OverflowError {})
        } else {
            Ok(rhs_amount * factor)
        }
    } else if self_decimals < rhs_decimals {
        let factor = pow10((rhs_decimals - self_decimals) as nat);
        if factor > u128::MAX {
            Err(MarketLiquidityError::OverflowError {})
        } else {
            Ok(rhs_amount as int / factor as int)
        }
    } else {
        Ok(rhs_amount as int)
    };
    match adjusted {
        Err(e) => Err(e),
        Ok(adjusted_base) => {
            if self_base_price == 0 {
                Err(MarketLiquidityError::DivideByZeroError {})
            } else if adjusted_base * rhs_base_price / self_base_price as int > u128::MAX {
                Err(MarketLiquidityError::OverflowError {})
            } else {
                Ok((adjusted_base * rhs_base_price / self_base_price as int) as u128)
            }
        },
    }
}

/// An asset priced against a common base currency, with the ratio rule that
/// decides what amount of it balances an amount of another such asset.
pub trait LiquidityAssetRatio: Sized {
    /// Amount of currency in the minor (atomic) unit.
    spec fn spec_amount(&self) -> u128;

    /// The asset's price in the base currency.
    spec fn spec_base_price(&self) -> u128;

    /// Decimal places used for one major unit.
    spec fn spec_decimals(&self) -> u8;

    /// Amount of currency in the minor (atomic) unit.
    fn amount(&self) -> (r: u128)
        ensures
            r == self.spec_amount(),
    ;

    /// The asset's price in the base currency.
    fn base_price(&self) -> (r: u128)
        ensures
            r == self.spec_base_price(),
    ;

    /// Decimal places used for one major unit.
    fn decimals(&self) -> (r: u8)
        ensures
            r == self.spec_decimals(),
    ;

    /// The amount of this asset that would be in balance with the compared
    /// asset, by decimal-scale adjustment and the ratio of base prices.
    fn balance_with(&self, rhs: &Self) -> (r: Result<u128, MarketLiquidityError>)
        ensures
            r == spec_balance_with(
                self.spec_base_price(),
                self.spec_decimals(),
                rhs.spec_amount(),
                rhs.spec_base_price(),
                rhs.spec_decimals(),
            ),
    {
        let self_decimals = self.decimals();
        let rhs_decimals = rhs.decimals();
        let adjusted_base: u128 = if self_decimals > rhs_decimals {
            let factor = match checked_pow10((self_decimals - rhs_decimals) as u32) {
                Some(f) => f,
                None => {
                    return Err(MarketLiquidityError::OverflowError {});
                },
            };
            match rhs.amount().checked_mul(factor) {
                Some(v) => v,
                None => {
                    return Err(MarketLiquidityError::OverflowError {});
                },
            }
        } else if self_decimals < rhs_decimals {
            let factor = match checked_pow10((rhs_decimals - self_decimals) as u32) {
                Some(f) => f,
                None => {
                    return Err(MarketLiquidityError::OverflowError {});
                },
            };
            proof {
                lemma_pow10_at_least_one((rhs_decimals - self_decimals) as nat);
            }
            rhs.amount() / factor
        } else {
            rhs.amount()
        };
        match checked_multiply_ratio(adjusted_base, rhs.base_price(), self.base_price()) {
            Ok(v) => Ok(v),
            Err(CheckedMultiplyRatioError::DivideByZero) => Err(
                MarketLiquidityError::DivideByZeroError {},
            ),
            Err(CheckedMultiplyRatioError::Overflow) => Err(MarketLiquidityError::OverflowError {}),
        }
    }
}

/// A pair of liquidity assets: the one to borrow and the one pledged as
/// collateral.
pub trait MarketAssetLiquidity<TCurrency: LiquidityAssetRatio> {
    /// The asset offered for borrowing.
    fn get_borrow_asset(&self) -> TCurrency;

    /// The asset pledged as collateral.
    fn get_collateral_asset(&self) -> TCurrency;
}

/// Balance queries over a pair of liquidity assets.
pub trait MarketAssetLiquidityRatio<TCurrency: LiquidityAssetRatio>: MarketAssetLiquidity<
    TCurrency,
> {
    /// The borrow-asset amount in balance with the given collateral amount.
    fn get_lp_borrow_asset_amount(&self, collateral_asset_amount: TCurrency) -> Result<
        u128,
        MarketLiquidityError,
    > {
        self.get_borrow_asset().balance_with(&collateral_asset_amount)
    }

    /// The collateral-asset amount in balance with the given borrow amount.
    fn get_lp_collateral_asset_amount(&self, borrow_asset_amount: TCurrency) -> Result<
        u128,
        MarketLiquidityError,
    > {
        self.get_collateral_asset().balance_with(&borrow_asset_amount)
    }
}

/// A single asset on the market, within a liquidity pool: either the asset to
/// borrow or the asset to lend.
///
/// Its amount is expressed in the minor (atomic) unit; one major unit is
/// `10^decimals` minor units.
#[derive(Debug)]
pub struct MarketAsset {
    /// A price in the base market currency.
    pub base_price: u128,
    /// Decimal places required for a major unit.
    pub decimals: u8,
    /// Amount in the minor (atomic) unit.
    pub amount: u128,
}

impl MarketAsset {
    /// An asset with the given amount, base price and decimal places.
    pub fn new(amount: u128, base_price: u128, decimals: u8) -> (r: Self)
        ensures
            r.amount == amount,
            r.base_price == base_price,
            r.decimals == decimals,
    {
        MarketAsset { amount, base_price, decimals }
    }

    /// Parses a base price written as a decimal number into minor units with
    /// the given decimal places; see [`spec_parse_base_price`]. Anything but
    /// digits with at most one dot and at most eighteen fractional digits,
    /// and any value too large for 128 bits, parses to zero.
    pub fn parse_base_price(base_price_str: &str, decimals: u8) -> (r: u128)
        ensures
            r == spec_parse_base_price(base_price_str@, decimals),
    {
        parse_base_price_impl(base_price_str, decimals)
    }

    /// Replaces the amount.
    pub fn set_amount(&mut self, amount: u128)
        ensures
            final(self).amount == amount,
            final(self).base_price == old(self).base_price,
            final(self).decimals == old(self).decimals,
    {
        self.amount = amount;
    }
}

impl Default for MarketAsset {
    /// A zero amount of an asset with three decimal places at a unit price.
    fn default() -> (r: Self)
        ensures
            r.amount == 0,
            r.base_price == 1,
            r.decimals == 3,
    {
        MarketAsset::new(0, 1, 3)
    }
}

impl LiquidityAssetRatio for MarketAsset {
    open spec fn spec_amount(&self) -> u128 {
        self.amount
    }

    open spec fn spec_base_price(&self) -> u128 {
        self.base_price
    }

    open spec fn spec_decimals(&self) -> u8 {
        self.decimals
    }

    fn amount(&self) -> u128 {
        self.amount
    }

    fn base_price(&self) -> u128 {
        self.base_price
    }

    fn decimals(&self) -> u8 {
        self.decimals
    }
}

/// The outcome a balance check of a liquidity pair must have: each side must
/// carry at least the amount that balances the other side.
pub open spec fn spec_is_balanced(borrow: MarketAsset, collateral: MarketAsset) -> Result<
    (),
    MarketLiquidityError,
> {
    match spec_balance_with(
        borrow.base_price,
        borrow.decimals,
        collateral.amount,
        collateral.base_price,
        collateral.decimals,
    ) {
        Err(e) => Err(e),
        Ok(expected_borrow) => match spec_balance_with(
            collateral.base_price,
            collateral.decimals,
            borrow.amount,
            borrow.base_price,
            borrow.decimals,
        ) {
            Err(e) => Err(e),
            Ok(expected_collateral) => {
                if expected_borrow > borrow.amount {
                    Err(
                        MarketLiquidityError::BorrowAssetImbalance {
                            expected_balance: expected_borrow,
                            provided_balance: borrow.amount,
                        },
                    )
                } else if expected_collateral > collateral.amount {
                    Err(
                        MarketLiquidityError::CollateralAssetImbalance {
                            expected_balance: expected_collateral,
                            provided_balance: collateral.amount,
                        },
                    )
                } else {
                    Ok(())
                }
            },
        },
    }
}

/// The two sides of a market's liquidity: the borrow asset and the collateral
/// asset.
#[derive(Debug)]
pub struct MarketLiquidity {
    pub borrow_asset: MarketAsset,
    pub collateral_asset: MarketAsset,
}

impl MarketLiquidity {
    /// A liquidity pair of the two given assets.
    pub fn new(borrow_asset: MarketAsset, collateral_asset: MarketAsset) -> (r: Self)
        ensures
            r.borrow_asset == borrow_asset,
            r.collateral_asset == collateral_asset,
    {
        MarketLiquidity { borrow_asset, collateral_asset }
    }

    /// Checks that the two sides balance: each side carries at least the
    /// amount that, by decimal scale and base price, matches the other side.
    pub fn is_balanced(&self) -> (r: Result<(), MarketLiquidityError>)
        ensures
            r == spec_is_balanced(self.borrow_asset, self.collateral_asset),
    {
        let expected_borrow_asset_amount = match self.borrow_asset.balance_with(
            &self.collateral_asset,
        ) {
            Ok(v) => v,
            Err(e) => {
                return Err(e);
            },
        };
        let expected_collateral_asset_amount = match self.collateral_asset.balance_with(
            &self.borrow_asset,
        ) {
            Ok(v) => v,
            Err(e) => {
                return Err(e);
            },
        };
        if expected_borrow_asset_amount > self.borrow_asset.amount {
            return Err(
                MarketLiquidityError::borrow_asset_imbalance(
                    self.borrow_asset.amount,
                    expected_borrow_asset_amount,
                ),
            );
        }
        if expected_collateral_asset_amount > self.collateral_asset.amount {
            return Err(
                MarketLiquidityError::collateral_asset_imbalance(
                    self.collateral_asset.amount,
                    expected_collateral_asset_amount,
                ),
            );
        }
        Ok(())
    }
}

/// A decimal digit.
pub open spec fn is_digit(c: char) -> bool {
    48 <= c as u32 <= 57
}

/// Every character of the sequence is a decimal digit.
pub open spec fn all_digits(s: Seq<char>) -> bool {
    forall|i: int| 0 <= i < s.len() ==> is_digit(#[trigger] s[i])
}

/// The integer a run of decimal digits denotes.
pub open spec fn digits_val(s: Seq<char>) -> int
    decreases s.len(),
{
    if s.len() == 0 {
        0
    } else {
        digits_val(s.drop_last()) * 10 + (s.last() as u32 - 48)
    }
}

/// The position of the first dot in the sequence at or after `k`, or -1.
pub open spec fn find_dot(s: Seq<char>, k: int) -> int
    decreases s.len() - k,
{
    if k < 0 || k >= s.len() {
        -1
    } else if s[k] == '.' {
        k
    } else {
        find_dot(s, k + 1)
    }
}

/// The value a parsed price string denotes, scaled to minor units: the whole
/// part times `10^decimals`, plus the fractional digits scaled by the same
/// power and floored. A string that is not a plain decimal number with at
/// most eighteen fractional digits, or whose scaled value exceeds 128 bits,
/// denotes zero.
pub open spec fn spec_parse_base_price(s: Seq<char>, decimals: u8) -> int {
    let d = find_dot(s, 0);
    if d < 0 {
        spec_price_from_parts(s, Seq::<char>::empty(), decimals)
    } else {
        let whole = s.subrange(0, d);
        let frac = s.subrange(d + 1, s.len() as int);
        if frac.len() == 0 {
            0
        } else {
            spec_price_from_parts(whole, frac, decimals)
        }
    }
}

/// The scaled value of a split price string; zero where a part is malformed
/// or the value does not fit.
pub open spec fn spec_price_from_parts(whole: Seq<char>, frac: Seq<char>, decimals: u8) -> int {
    if whole.len() == 0 || !all_digits(whole) {
        0
    } else if frac.len() > 18 || !all_digits(frac) {
        0
    } else {
        let v = digits_val(whole) * pow10(decimals as nat) + digits_val(frac) * pow10(
            decimals as nat,
        ) / pow10(frac.len()) as int;
        if v > u128::MAX {
            0
        } else {
            v
        }
    }
}

/// Under `all_digits`, a digit run denotes a value at least that of each of
/// its prefixes, and never below zero.
proof fn lemma_digits_val_monotone(s: Seq<char>, k: int)
    requires
        0 <= k <= s.len(),
        all_digits(s),
    ensures
        0 <= digits_val(s.subrange(0, k)) <= digits_val(s),
    decreases s.len() - k,
{
    if k == s.len() {
        assert(s.subrange(0, k) =~= s);
        lemma_digits_val_nonneg(s);
    } else {
        lemma_digits_val_monotone(s, k + 1);
        let shorter = s.subrange(0, k);
        let longer = s.subrange(0, k + 1);
        assert(longer.drop_last() =~= shorter);
        assert(is_digit(longer.last()));
        lemma_digits_val_nonneg(shorter);
        assert(digits_val(longer) == digits_val(shorter) * 10 + (longer.last() as u32 - 48));
        assert(digits_val(shorter) <= digits_val(shorter) * 10) by (nonlinear_arith)
            requires
                digits_val(shorter) >= 0,
        ;
    }
}

/// A run of digits denotes a nonnegative value.
proof fn lemma_digits_val_nonneg(s: Seq<char>)
    requires
        all_digits(s),
    ensures
        digits_val(s) >= 0,
    decreases s.len(),
{
    if s.len() > 0 {
        assert(all_digits(s.drop_last())) by {
            assert(forall|i: int|
                0 <= i < s.len() - 1 ==> s.drop_last()[i] == #[trigger] s[i]);
        }
        lemma_digits_val_nonneg(s.drop_last());
        assert(is_digit(s.last()));
        assert(digits_val(s.drop_last()) * 10 >= 0) by (nonlinear_arith)
            requires
                digits_val(s.drop_last()) >= 0,
        ;
    }
}

/// A run of `n` digits denotes a value below `10^n`.
proof fn lemma_digits_val_bound(s: Seq<char>)
    requires
        all_digits(s),
    ensures
        digits_val(s) < pow10(s.len()),
    decreases s.len(),
{
    if s.len() == 0 {
    } else {
        assert(all_digits(s.drop_last())) by {
            assert(forall|i: int|
                0 <= i < s.len() - 1 ==> s.drop_last()[i] == #[trigger] s[i]);
        }
        lemma_digits_val_bound(s.drop_last());
        lemma_digits_val_nonneg(s.drop_last());
        assert(is_digit(s.last()));
        assert(digits_val(s.drop_last()) * 10 + 9 < pow10(s.drop_last().len()) * 10)
            by (nonlinear_arith)
            requires
                digits_val(s.drop_last()) < pow10(s.drop_last().len()),
                digits_val(s.drop_last()) >= 0,
        ;
        assert(pow10(s.len()) == 10 * pow10(s.drop_last().len()));
    }
}

/// If every character at or after `k` up to `i` is no dot and `s[i]` is one,
/// the first dot from `k` stands at `i`.
proof fn lemma_find_dot_hit(s: Seq<char>, k: int, i: int)
    requires
        0 <= k <= i < s.len(),
        s[i] == '.',
        forall|j: int| k <= j < i ==> #[trigger] s[j] != '.',
    ensures
        find_dot(s, k) == i,
    decreases i - k,
{
    if k < i {
        lemma_find_dot_hit(s, k + 1, i);
    }
}

/// If no character at or after `k` is a dot, there is no first dot from `k`.
proof fn lemma_find_dot_miss(s: Seq<char>, k: int)
    requires
        0 <= k,
        forall|j: int| k <= j < s.len() ==> #[trigger] s[j] != '.',
    ensures
        find_dot(s, k) == -1,
    decreases s.len() - k,
{
    if k < s.len() {
        lemma_find_dot_miss(s, k + 1);
    }
}

/// Parses `s[start..end]` as a run of decimal digits. `None` where a
/// character is no digit or the value does not fit in 128 bits.
fn parse_digits(s: &str, start: usize, end: usize) -> (r: Option<u128>)
    requires
        start <= end <= s@.len(),
    ensures
        r matches Some(v) ==> all_digits(s@.subrange(start as int, end as int)) && v == digits_val(
            s@.subrange(start as int, end as int),
        ),
        r is None ==> !all_digits(s@.subrange(start as int, end as int)) || digits_val(
            s@.subrange(start as int, end as int),
        ) > u128::MAX,
{
    let ghost seg = s@.subrange(start as int, end as int);
    let mut acc: u128 = 0;
    let mut i: usize = start;
    while i < end
        invariant
            start <= i <= end <= s@.len(),
            seg == s@.subrange(start as int, end as int),
            all_digits(s@.subrange(start as int, i as int)),
            acc == digits_val(s@.subrange(start as int, i as int)),
        decreases end - i,
    {
        let c = s.get_char(i);
        let code = c as u32;
        if code < 48 || code > 57 {
            proof {
                assert(seg[i - start] == s@[i as int]);
                assert(!is_digit(seg[i - start]));
            }
            return None;
        }
        let digit = (code - 48) as u128;
        let ghost prefix = s@.subrange(start as int, i as int);
        let ghost extended = s@.subrange(start as int, i + 1 as int);
        proof {
            assert(extended.drop_last() =~= prefix);
            assert(extended.last() == s@[i as int]);
            assert(digits_val(extended) == digits_val(prefix) * 10 + (s@[i as int] as u32 - 48));
            assert(all_digits(extended)) by {
                assert(forall|j: int| 0 <= j < extended.len() - 1 ==> extended[j] == #[trigger] prefix[j]);
            }
        }
        let scaled = match acc.checked_mul(10) {
            Some(v) => v,
            None => {
                proof {
                    overflow_means_none(s, start, end, i, acc, digit);
                }
                return None;
            },
        };
        acc = match scaled.checked_add(digit) {
            Some(v) => v,
            None => {
                proof {
                    overflow_means_none(s, start, end, i, acc, digit);
                }
                return None;
            },
        };
        i = i + 1;
    }
    proof {
        assert(s@.subrange(start as int, i as int) =~= seg);
    }
    Some(acc)
}

/// When the accumulated value can no longer grow by one digit within 128
/// bits, the whole run's value cannot fit either.
proof fn overflow_means_none(s: &str, start: usize, end: usize, i: usize, acc: u128, digit: u128)
    requires
        start <= i < end <= s@.len(),
        acc == digits_val(s@.subrange(start as int, i as int)),
        is_digit(s@[i as int]),
        digit == s@[i as int] as u32 - 48,
        acc * 10 + digit > u128::MAX,
    ensures
        !all_digits(s@.subrange(start as int, end as int)) || digits_val(
            s@.subrange(start as int, end as int),
        ) > u128::MAX,
{
    let seg = s@.subrange(start as int, end as int);
    if all_digits(seg) {
        let extended = s@.subrange(start as int, i + 1 as int);
        assert(extended.drop_last() =~= s@.subrange(start as int, i as int));
        assert(extended.last() == s@[i as int]);
        assert(digits_val(extended) == acc * 10 + digit);
        assert(extended =~= seg.subrange(0, i + 1 - start));
        lemma_digits_val_monotone(seg, i + 1 - start);
        assert(digits_val(seg.subrange(0, i + 1 - start)) <= digits_val(seg));
    }
}

/// Exact body behind [`MarketAsset::parse_base_price`].
fn parse_base_price_impl(s: &str, decimals: u8) -> (r: u128)
    ensures
        r == spec_parse_base_price(s@, decimals),
{
    let n = s.unicode_len();
    let mut dot: Option<usize> = None;
    let mut i: usize = 0;
    while i < n
        invariant
            0 <= i <= n == s@.len(),
            dot is None ==> forall|j: int| 0 <= j < i ==> #[trigger] s@[j] != '.',
            dot matches Some(d) ==> 0 <= d < i && s@[d as int] == '.' && (forall|j: int|
                0 <= j < d ==> #[trigger] s@[j] != '.'),
        decreases n - i,
    {
        if dot.is_none() {
            let c = s.get_char(i);
            if c == '.' {
                dot = Some(i);
            }
        }
        i = i + 1;
    }
    match dot {
        None => {
            proof {
                lemma_find_dot_miss(s@, 0);
                assert(s@.subrange(0, n as int) =~= s@);
                assert(s@.subrange(n as int, n as int) =~= Seq::<char>::empty());
            }
            price_from_parts(s, 0, n, n, n, decimals)
        },
        Some(d) => {
            proof {
                lemma_find_dot_hit(s@, 0, d as int);
            }
            if d + 1 == n {
                return 0;
            }
            price_from_parts(s, 0, d, d + 1, n, decimals)
        },
    }
}

/// Computes the scaled value of the split price string, with the whole part
/// at `s[ws..we]` and the fractional part at `s[fs..fe]`.
fn price_from_parts(s: &str, ws: usize, we: usize, fs: usize, fe: usize, decimals: u8) -> (r: u128)
    requires
        ws <= we <= s@.len(),
        fs <= fe <= s@.len(),
    ensures
        r == spec_price_from_parts(
            s@.subrange(ws as int, we as int),
            s@.subrange(fs as int, fe as int),
            decimals,
        ),
{
    let ghost whole = s@.subrange(ws as int, we as int);
    let ghost frac = s@.subrange(fs as int, fe as int);
    if we == ws {
        return 0;
    }
    let whole_val = match parse_digits(s, ws, we) {
        Some(v) => v,
        None => {
            proof {
                if all_digits(whole) {
                    lemma_whole_overflow_means_zero(whole, frac, decimals);
                }
            }
            return 0;
        },
    };
    if fe - fs > 18 {
        return 0;
    }
    let frac_val = match parse_digits(s, fs, fe) {
        Some(v) => v,
        None => {
            proof {
                if all_digits(frac) {
                    lemma_digits_val_bound(frac);
                    lemma_pow10_increases_to_max(frac.len() as nat);
                }
            }
            return 0;
        },
    };
    let frac_len = fe - fs;
    let frac_term: u128 = if decimals as usize >= frac_len {
        let exp = decimals as u32 - frac_len as u32;
        proof {
            lemma_frac_term_scale_up(frac_val, decimals as nat, frac_len as nat);
        }
        match checked_pow10(exp) {
            Some(factor) => {
                match frac_val.checked_mul(factor) {
                    Some(v) => v,
                    None => {
                        proof {
                            lemma_value_over_max(whole, frac, decimals, frac_val * pow10((decimals - frac_len) as nat));
                        }
                        return 0;
                    },
                }
            },
            None => {
                if frac_val == 0 {
                    proof {
                        lemma_pow10_at_least_one(frac.len() as nat);
                        assert(digits_val(frac) * pow10(decimals as nat) / pow10(
                            frac.len(),
                        ) as int == 0) by (nonlinear_arith)
                            requires
                                digits_val(frac) == 0,
                                pow10(frac.len() as nat) >= 1,
                        ;
                    }
                    0
                } else {
                    proof {
                        assert(frac_val * pow10((decimals - frac_len) as nat) > u128::MAX)
                            by (nonlinear_arith)
                            requires
                                frac_val >= 1,
                                pow10((decimals - frac_len) as nat) > u128::MAX,
                        ;
                        lemma_value_over_max(whole, frac, decimals, frac_val * pow10((decimals - frac_len) as nat));
                    }
                    return 0;
                }
            },
        }
    } else {
        let exp = frac_len as u32 - decimals as u32;
        let factor = match checked_pow10(exp) {
            Some(f) => f,
            None => {
                proof {
                    lemma_pow10_increases_to_max(exp as nat);
                    assert(false);
                }
                1
            },
        };
        proof {
            lemma_pow10_at_least_one(exp as nat);
            lemma_frac_term_scale_down(frac_val, decimals as nat, frac_len as nat);
        }
        frac_val / factor
    };
    let whole_scaled = match checked_pow10(decimals as u32) {
        Some(p) => {
            match whole_val.checked_mul(p) {
                Some(v) => v,
                None => {
                    proof {
                        lemma_value_dominated(whole, frac, decimals);
                    }
                    return 0;
                },
            }
        },
        None => {
            if whole_val == 0 {
                proof {
                    assert(digits_val(whole) * pow10(decimals as nat) == 0) by (nonlinear_arith)
                        requires
                            digits_val(whole) == 0,
                    ;
                }
                0
            } else {
                proof {
                    assert(whole_val * pow10(decimals as nat) > u128::MAX) by (nonlinear_arith)
                        requires
                            whole_val >= 1,
                            pow10(decimals as nat) > u128::MAX,
                    ;
                    lemma_value_dominated(whole, frac, decimals);
                }
                return 0;
            }
        },
    };
    match whole_scaled.checked_add(frac_term) {
        Some(v) => v,
        None => {
            return 0;
        },
    }
}

/// Scaling up: with at least as many target decimals as fractional digits,
/// the fractional term is an exact product.
proof fn lemma_frac_term_scale_up(frac_val: u128, decimals: nat, frac_len: nat)
    requires
        decimals >= frac_len,
        frac_val >= 0,
    ensures
        frac_val * pow10(decimals) / pow10(frac_len) as int == frac_val * pow10(
            (decimals - frac_len) as nat,
        ),
{
    lemma_pow10_adds((decimals - frac_len) as nat, frac_len);
    lemma_pow10_at_least_one(frac_len);
    lemma_pow10_at_least_one((decimals - frac_len) as nat);
    let a = pow10((decimals - frac_len) as nat) as int;
    let b = pow10(frac_len) as int;
    assert(frac_val * (a * b) == (frac_val * a) * b) by (nonlinear_arith);
    lemma_div_multiples_vanish(frac_val * a, b);
    assert(b * (frac_val * a) == (frac_val * a) * b) by (nonlinear_arith);
}

/// Scaling down: with fewer target decimals than fractional digits, the
/// fractional term is a floored division by the excess power of ten.
proof fn lemma_frac_term_scale_down(frac_val: u128, decimals: nat, frac_len: nat)
    requires
        decimals < frac_len,
    ensures
        frac_val * pow10(decimals) / pow10(frac_len) as int == frac_val as int / pow10(
            (frac_len - decimals) as nat,
        ) as int,
{
    lemma_pow10_adds(decimals, (frac_len - decimals) as nat);
    lemma_pow10_at_least_one(decimals);
    lemma_pow10_at_least_one((frac_len - decimals) as nat);
    let a = pow10(decimals) as int;
    let b = pow10((frac_len - decimals) as nat) as int;
    lemma_div_denominator(frac_val * a, a, b);
    lemma_div_multiples_vanish(frac_val as int, a);
    assert(a * frac_val == frac_val * a) by (nonlinear_arith);
}

/// 10^18 and everything beyond it exceeds no 128-bit value: powers of ten up
/// to eighteen digits fit.
proof fn lemma_pow10_increases_to_max(e: nat)
    requires
        e <= 18,
    ensures
        pow10(e) <= u128::MAX,
    decreases e,
{
    reveal_with_fuel(pow10, 19);
    crate::math::lemma_pow10_increases(e, 18);
}

/// An overflowing whole part pushes the scaled value over 128 bits.
proof fn lemma_whole_overflow_means_zero(whole: Seq<char>, frac: Seq<char>, decimals: u8)
    requires
        all_digits(whole),
        digits_val(whole) > u128::MAX,
    ensures
        spec_price_from_parts(whole, frac, decimals) == 0,
{
    if whole.len() == 0 || frac.len() > 18 || !all_digits(frac) {
    } else {
        lemma_value_dominated_general(whole, frac, decimals);
    }
}

/// The scaled value is at least the scaled whole part, which is at least the
/// whole part itself.
proof fn lemma_value_dominated_general(whole: Seq<char>, frac: Seq<char>, decimals: u8)
    requires
        all_digits(whole),
        all_digits(frac),
    ensures
        digits_val(whole) * pow10(decimals as nat) + digits_val(frac) * pow10(decimals as nat)
            / pow10(frac.len()) as int >= digits_val(whole),
{
    lemma_digits_val_nonneg(whole);
    lemma_digits_val_nonneg(frac);
    lemma_pow10_at_least_one(decimals as nat);
    lemma_pow10_at_least_one(frac.len() as nat);
    assert(digits_val(whole) * pow10(decimals as nat) >= digits_val(whole)) by (nonlinear_arith)
        requires
            digits_val(whole) >= 0,
            pow10(decimals as nat) >= 1,
    ;
    assert(digits_val(frac) * pow10(decimals as nat) / pow10(frac.len()) as int >= 0)
        by (nonlinear_arith)
        requires
            digits_val(frac) >= 0,
            pow10(decimals as nat) >= 1,
            pow10(frac.len() as nat) >= 1,
    ;
}

/// If the scaled whole part alone exceeds 128 bits, the parse denotes zero.
proof fn lemma_value_dominated(whole: Seq<char>, frac: Seq<char>, decimals: u8)
    requires
        all_digits(whole),
        all_digits(frac),
        digits_val(whole) * pow10(decimals as nat) > u128::MAX,
    ensures
        spec_price_from_parts(whole, frac, decimals) == 0,
{
    if whole.len() == 0 || frac.len() > 18 {
    } else {
        lemma_digits_val_nonneg(frac);
        lemma_pow10_at_least_one(decimals as nat);
        lemma_pow10_at_least_one(frac.len() as nat);
        assert(digits_val(frac) * pow10(decimals as nat) / pow10(frac.len()) as int >= 0)
            by (nonlinear_arith)
            requires
                digits_val(frac) >= 0,
                pow10(decimals as nat) >= 1,
                pow10(frac.len() as nat) >= 1,
        ;
    }
}

/// If the fractional term alone exceeds 128 bits, the parse denotes zero.
proof fn lemma_value_over_max(whole: Seq<char>, frac: Seq<char>, decimals: u8, frac_term: int)
    requires
        all_digits(whole),
        all_digits(frac),
        decimals as nat >= frac.len(),
        frac_term == digits_val(frac) * pow10((decimals as nat - frac.len()) as nat),
        frac_term > u128::MAX,
    ensures
        spec_price_from_parts(whole, frac, decimals) == 0,
{
    if whole.len() == 0 || frac.len() > 18 {
    } else {
        lemma_digits_val_nonneg(whole);
        lemma_pow10_at_least_one(decimals as nat);
        assert(digits_val(whole) * pow10(decimals as nat) >= 0) by (nonlinear_arith)
            requires
                digits_val(whole) >= 0,
                pow10(decimals as nat) >= 1,
        ;
        lemma_frac_term_scale_up_seq(frac, decimals);
    }
}

/// [`lemma_frac_term_scale_up`] restated over a digit sequence.
proof fn lemma_frac_term_scale_up_seq(frac: Seq<char>, decimals: u8)
    requires
        all_digits(frac),
        decimals as nat >= frac.len(),
    ensures
        digits_val(frac) * pow10(decimals as nat) / pow10(frac.len()) as int == digits_val(frac)
            * pow10((decimals as nat - frac.len()) as nat),
{
    lemma_digits_val_nonneg(frac);
    lemma_pow10_adds((decimals as nat - frac.len()) as nat, frac.len() as nat);
    lemma_pow10_at_least_one(frac.len() as nat);
    let fv = digits_val(frac);
    let a = pow10((decimals as nat - frac.len()) as nat) as int;
    let b = pow10(frac.len() as nat) as int;
    assert(fv * (a * b) == (fv * a) * b) by (nonlinear_arith);
    lemma_div_multiples_vanish(fv * a, b);
    assert(b * (fv * a) == (fv * a) * b) by (nonlinear_arith);
}

/// Powers of ten add exponents multiplicatively.
proof fn lemma_pow10_adds(a: nat, b: nat)
    ensures
        pow10(a + b) == pow10(a) * pow10(b),
    decreases a,
{
    if a == 0 {
        assert(pow10(a + b) == pow10(b));
        assert(pow10(a) * pow10(b) == pow10(b)) by (nonlinear_arith)
            requires
                pow10(a) == 1,
        ;
    } else {
        lemma_pow10_adds((a - 1) as nat, b);
        assert(((a - 1) as nat) + b == (a + b - 1) as nat);
        assert(pow10(a + b) == 10 * pow10((a + b - 1) as nat));
        assert(pow10((a + b - 1) as nat) == pow10((a - 1) as nat) * pow10(b));
        assert(pow10(a) == 10 * pow10((a - 1) as nat));
        assert(pow10(a + b) == pow10(a) * pow10(b)) by (nonlinear_arith)
            requires
                pow10(a + b) == 10 * pow10((a + b - 1) as nat),
                pow10((a + b - 1) as nat) == pow10((a - 1) as nat) * pow10(b),
                pow10(a) == 10 * pow10((a - 1) as nat),
        ;
    }
}

} // verus!

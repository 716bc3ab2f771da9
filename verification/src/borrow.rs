//! Borrowing terms: what a borrower may draw against pledged collateral, and
//! at what interest cost.

use crate::asset::Asset;
use vstd::prelude::*;

verus! {

/// The terms derived for a borrow request: the borrowable amount, the
/// interest cost, and the repayment owed. Derived on demand, never persisted.
#[derive(Debug)]
pub struct BorrowingTerms {
    pub borrow: Asset,
    pub interest: Asset,
    pub repayment: Asset,
}

/// The query answer carrying a derived [`BorrowingTerms`].
#[derive(Debug)]
pub struct BorrowingTermsResponse {
    pub borrow: Asset,
    pub interest: Asset,
    pub repayment: Asset,
}

impl From<BorrowingTerms> for BorrowingTermsResponse {
    fn from(borrowing_terms: BorrowingTerms) -> (r: Self) {
        Self {
            borrow: borrowing_terms.borrow,
            interest: borrowing_terms.interest,
            repayment: borrowing_terms.repayment,
        }
    }
}

impl vstd::std_specs::convert::FromSpecImpl<BorrowingTerms> for BorrowingTermsResponse {
    open spec fn obeys_from_spec() -> bool {
        true
    }

    open spec fn from_spec(borrowing_terms: BorrowingTerms) -> Self {
        BorrowingTermsResponse {
            borrow: borrowing_terms.borrow,
            interest: borrowing_terms.interest,
            repayment: borrowing_terms.repayment,
        }
    }
}

/// The remaining time until the automated-market-maker phase ends, as a
/// year-fraction derived from block heights, together with its floored square
/// root, the form the pricing formula consumes.
#[derive(Clone, Copy, Debug, PartialEq, Eq, Structural)]
pub struct ExpiryTime {
    pub time_to_expiry: u128,
    pub sqrt_time_to_expiry: u128,
}

} // verus!

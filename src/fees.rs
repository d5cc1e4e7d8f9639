use crate::error::DextikError;
use vstd::prelude::*;

verus! {

/// The largest royalty rate, in basis points (100%).
pub const MAX_ROYALTY_BPS: u16 = 10000;

/// The organizer's share of a sale: `floor(sale_price * royalty_bps / 10000)`.
pub open spec fn royalty_of(sale_price: u64, royalty_bps: u16) -> int {
    (sale_price as int * royalty_bps as int) / 10000
}

/// Splits a sale price into the organizer's royalty and the seller's proceeds.
///
/// The two parts always add up to the sale price exactly.
pub fn split(sale_price: u64, royalty_bps: u16) -> (r: Result<(u64, u64), DextikError>)
    ensures
        royalty_bps > MAX_ROYALTY_BPS ==> r == Err::<(u64, u64), DextikError>(
            DextikError::InvalidRoyalty,
        ),
        royalty_bps <= MAX_ROYALTY_BPS ==> (r matches Ok((royalty, proceeds)) && royalty
            == royalty_of(sale_price, royalty_bps) && proceeds == sale_price - royalty
            && royalty + proceeds == sale_price),
{
    if royalty_bps > MAX_ROYALTY_BPS {
        return Err(DextikError::InvalidRoyalty);
    }
    proof {
        assert(sale_price as int * royalty_bps as int <= u64::MAX as int * 10000)
            by (nonlinear_arith)
            requires
                royalty_bps <= 10000,
        ;
    }
    let product: u128 = sale_price as u128 * royalty_bps as u128;
    let royalty_wide: u128 = product / 10000;
    proof {
        assert(product <= sale_price as int * 10000) by (nonlinear_arith)
            requires
                product == sale_price as int * royalty_bps as int,
                royalty_bps <= 10000,
        ;
        assert(royalty_wide <= sale_price as int) by (nonlinear_arith)
            requires
                royalty_wide == product / 10000,
                product <= sale_price as int * 10000,
        ;
    }
    let royalty = royalty_wide as u64;
    Ok((royalty, sale_price - royalty))
}

} // verus!

//! Asset metadata: the record assembled from the `decimals` / `name` /
//! `symbol` / `totalSupply` reads of one token contract.
//!
//! The four reads run independently; their results are joined here into one
//! record only when every read succeeded.  A partial failure fails the
//! whole fetch, so a default value is never substituted silently.

use vstd::prelude::*;

use crate::addr::{hex_encode, hex_str_of};
use crate::retry::FetchError;

verus! {

/// Metadata of one token contract: hex address, decimal precision, name,
/// symbol, and raw (unnormalized) total supply.
#[derive(Debug)]
pub struct Asset {
    pub t: String,
    pub d: u8,
    pub name: String,
    pub symbol: String,
    pub ts: u128,
}

impl Asset {
    pub fn new(t: String, d: u8, name: String, symbol: String, ts: u128) -> (a: Asset)
        ensures
            a.t == t,
            a.d == d,
            a.name == name,
            a.symbol == symbol,
            a.ts == ts,
    {
        Asset { t, d, name, symbol, ts }
    }
}

/// Joins the four independent reads of one contract into an `Asset`: all
/// must have succeeded, else the first error (in the fixed order decimals,
/// name, symbol, total supply) fails the whole fetch.  The address is
/// rendered as lower-case hex.
pub fn assemble_asset(
    address: &Vec<u8>,
    d: Result<u8, FetchError>,
    name: Result<String, FetchError>,
    symbol: Result<String, FetchError>,
    ts: Result<u128, FetchError>,
) -> (r: Result<Asset, FetchError>)
    ensures
        r is Ok <==> d is Ok && name is Ok && symbol is Ok && ts is Ok,
        r is Ok ==> ({
            let a = r->Ok_0;
            &&& a.t@ == hex_str_of(address@)
            &&& a.d == d->Ok_0
            &&& a.name == name->Ok_0
            &&& a.symbol == symbol->Ok_0
            &&& a.ts == ts->Ok_0
        }),
        r is Err ==> r->Err_0 == if d is Err {
            d->Err_0
        } else if name is Err {
            name->Err_0
        } else if symbol is Err {
            symbol->Err_0
        } else {
            ts->Err_0
        },
{
    match (d, name, symbol, ts) {
        (Ok(d), Ok(name), Ok(symbol), Ok(ts)) => {
            let t = hex_encode(address);
            Ok(Asset { t, d, name, symbol, ts })
        },
        (Err(e), _, _, _) => Err(e),
        (_, Err(e), _, _) => Err(e),
        (_, _, Err(e), _) => Err(e),
        (_, _, _, Err(e)) => Err(e),
    }
}

} // verus!

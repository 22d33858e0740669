//! Market symbol parsing: the stable ticker-to-index mapping of each
//! venue.

use vstd::prelude::*;
use vstd::string::StrSliceExecFns;

verus! {

/// A symbol list failed to parse for the named venue.
#[derive(Clone, PartialEq, Eq, Debug)]
pub struct ParseMarketsError(pub String);

impl ParseMarketsError {
    /// Human-readable message naming the venue that failed.
    pub fn to_string(&self) -> (r: String)
        ensures
            r@ == "Unable to parse markets: "@ + self.0@,
    {
        let mut s = String::new();
        s.append("Unable to parse markets: ");
        s.append(self.0.as_str());
        s
    }
}

/// Whether two strings hold the same characters.
pub fn str_eq_chars(a: &str, b: &str) -> (r: bool)
    ensures
        r == (a@ == b@),
{
    let n = a.unicode_len();
    let m = b.unicode_len();
    if n != m {
        proof {
            assert(a@ != b@);
        }
        return false;
    }
    let mut i: usize = 0;
    while i < n
        invariant
            0 <= i <= n,
            n == a@.len(),
            n == b@.len(),
            forall|k: int| 0 <= k < i ==> a@[k] == b@[k],
        decreases n - i,
    {
        if a.get_char(i) != b.get_char(i) {
            return false;
        }
        i = i + 1;
    }
    proof {
        assert(a@ =~= b@);
    }
    true
}

/// The venue-M market index of a symbol.
pub open spec fn mango_market_id(s: Seq<char>) -> Option<u16> {
    if s == "BTC"@ {
        Some(0u16)
    } else if s == "SOL"@ {
        Some(2u16)
    } else if s == "ETH"@ {
        Some(3u16)
    } else if s == "RNDR"@ {
        Some(4u16)
    } else {
        None
    }
}

/// The venue-D market index of a symbol.
pub open spec fn drift_market_id(s: Seq<char>) -> Option<u16> {
    if s == "SOL"@ {
        Some(0u16)
    } else if s == "BTC"@ {
        Some(1u16)
    } else if s == "ETH"@ {
        Some(2u16)
    } else if s == "RNDR"@ {
        Some(12u16)
    } else {
        None
    }
}

/// Map ticker symbols to venue-M market indexes; fails on the first
/// unknown symbol.
pub fn parse_mango_markets_into_ids(markets: &Vec<String>) -> (r: Result<
    Vec<u16>,
    ParseMarketsError,
>)
    ensures
        match r {
            Ok(ids) => ids@.len() == markets@.len() && forall|i: int|
                0 <= i < markets@.len() ==> mango_market_id(markets@[i]@) == Some(
                    #[trigger] ids@[i],
                ),
            Err(e) => e.0@ == "mango"@ && exists|i: int|
                0 <= i < markets@.len() && mango_market_id(#[trigger] markets@[i]@) is None,
        },
{
    let mut ids: Vec<u16> = Vec::new();
    let n = markets.len();
    let mut i: usize = 0;
    while i < n
        invariant
            0 <= i <= n,
            n == markets@.len(),
            ids@.len() == i,
            forall|k: int|
                0 <= k < i ==> mango_market_id(markets@[k]@) == Some(#[trigger] ids@[k]),
        decreases n - i,
    {
        let m = &markets[i];
        let id: u16 = if str_eq_chars(m.as_str(), "BTC") {
            0
        } else if str_eq_chars(m.as_str(), "SOL") {
            2
        } else if str_eq_chars(m.as_str(), "ETH") {
            3
        } else if str_eq_chars(m.as_str(), "RNDR") {
            4
        } else {
            return Err(ParseMarketsError(String::from_str("mango")));
        };
        ids.push(id);
        i = i + 1;
    }
    Ok(ids)
}

/// Map ticker symbols to venue-D market indexes; fails on the first
/// unknown symbol.
pub fn parse_drift_markets_into_ids(markets: &Vec<String>) -> (r: Result<
    Vec<u16>,
    ParseMarketsError,
>)
    ensures
        match r {
            Ok(ids) => ids@.len() == markets@.len() && forall|i: int|
                0 <= i < markets@.len() ==> drift_market_id(markets@[i]@) == Some(
                    #[trigger] ids@[i],
                ),
            Err(e) => e.0@ == "drift"@ && exists|i: int|
                0 <= i < markets@.len() && drift_market_id(#[trigger] markets@[i]@) is None,
        },
{
    let mut ids: Vec<u16> = Vec::new();
    let n = markets.len();
    let mut i: usize = 0;
    while i < n
        invariant
            0 <= i <= n,
            n == markets@.len(),
            ids@.len() == i,
            forall|k: int|
                0 <= k < i ==> drift_market_id(markets@[k]@) == Some(#[trigger] ids@[k]),
        decreases n - i,
    {
        let m = &markets[i];
        let id: u16 = if str_eq_chars(m.as_str(), "SOL") {
            0
        } else if str_eq_chars(m.as_str(), "BTC") {
            1
        } else if str_eq_chars(m.as_str(), "ETH") {
            2
        } else if str_eq_chars(m.as_str(), "RNDR") {
            12
        } else {
            return Err(ParseMarketsError(String::from_str("drift")));
        };
        ids.push(id);
        i = i + 1;
    }
    Ok(ids)
}

} // verus!

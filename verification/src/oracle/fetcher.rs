//! Identifiers of price sources.

use vstd::prelude::*;
use crate::text::{str_eq, str_to_uppercase, uppercase_spec};

verus! {

/// The CoinGecko coin id of an upper-case ticker symbol, if it is listed
/// (ZUSD is not: it must never borrow another stablecoin's price).
pub open spec fn coingecko_id_spec(sym: Seq<char>) -> Option<Seq<char>> {
    if sym == "ZBX"@ { Some("zebvix-chain"@) }
    else if sym == "ETH"@ { Some("ethereum"@) }
    else if sym == "BTC"@ { Some("bitcoin"@) }
    else if sym == "BNB"@ { Some("binancecoin"@) }
    else if sym == "SOL"@ { Some("solana"@) }
    else if sym == "AVAX"@ { Some("avalanche-2"@) }
    else if sym == "MATIC"@ { Some("matic-network"@) }
    else if sym == "ARB"@ { Some("arbitrum"@) }
    else if sym == "OP"@ { Some("optimism"@) }
    else if sym == "LINK"@ { Some("chainlink"@) }
    else if sym == "DOT"@ { Some("polkadot"@) }
    else { None }
}

/// The CoinGecko coin id of `symbol` (in any case).
pub fn symbol_to_coingecko_id(symbol: &str) -> (r: Option<&'static str>)
    ensures
        match coingecko_id_spec(uppercase_spec(symbol@)) {
            Some(id) => r matches Some(s) && s@ == id,
            None => r is None,
        },
{
    let up = str_to_uppercase(symbol);
    let s = up.as_str();
    if str_eq(s, "ZBX") { Some("zebvix-chain") }
    else if str_eq(s, "ETH") { Some("ethereum") }
    else if str_eq(s, "BTC") { Some("bitcoin") }
    else if str_eq(s, "BNB") { Some("binancecoin") }
    else if str_eq(s, "SOL") { Some("solana") }
    else if str_eq(s, "AVAX") { Some("avalanche-2") }
    else if str_eq(s, "MATIC") { Some("matic-network") }
    else if str_eq(s, "ARB") { Some("arbitrum") }
    else if str_eq(s, "OP") { Some("optimism") }
    else if str_eq(s, "LINK") { Some("chainlink") }
    else if str_eq(s, "DOT") { Some("polkadot") }
    else { None }
}

} // verus!

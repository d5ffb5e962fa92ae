//! The registry of perpetual markets, numbered from 0 in order of creation.

use vstd::prelude::*;
use crate::common::Address;
use crate::perp::error::PerpError;
use crate::perp::funding::{current_funding_rate, funding_rate_spec, next_funding_in, next_funding_spec, oi_in_range, settle_funding, settled_spec, elapsed_spec};
use crate::perp::types::{Market, MarketView};

verus! {

/// All markets; market `id` is the `id`-th one added.
#[derive(Debug)]
pub struct MarketRegistry {
    markets: Vec<Market>,
}

/// Why a market's oracle or leverage cap is refused, if it is.
pub open spec fn market_params_error(oracle: Address, max_leverage: u64) -> Option<PerpError> {
    if oracle.0@ == Seq::new(20, |i: int| 0u8) {
        Some(PerpError::InvalidOracle)
    } else if max_leverage == 0 || max_leverage > 200 {
        Some(PerpError::LeverageTooHigh { got: max_leverage, max: 200 })
    } else {
        None
    }
}

impl MarketRegistry {
    /// The markets, market `id` at index `id`.
    pub closed spec fn spec_markets(&self) -> Seq<Market> {
        self.markets@
    }

    /// An empty registry.
    pub fn new() -> (r: Self)
        ensures
            r.spec_markets().len() == 0,
    {
        MarketRegistry { markets: Vec::new() }
    }

    /// Adds an active market with no open interest and returns its id.
    pub fn add_market(&mut self, oracle: Address, symbol: String, max_leverage: u64, now: u64) -> (r: Result<u64, PerpError>)
        requires
            old(self).spec_markets().len() < u64::MAX,
        ensures
            match market_params_error(oracle, max_leverage) {
                Some(e) => r == Err::<u64, PerpError>(e) && final(self).spec_markets() == old(self).spec_markets(),
                None => {
                    &&& r == Ok::<u64, PerpError>(old(self).spec_markets().len() as u64)
                    &&& final(self).spec_markets().len() == old(self).spec_markets().len() + 1
                    &&& final(self).spec_markets().drop_last() == old(self).spec_markets()
                    &&& ({
                        let m = final(self).spec_markets().last();
                        &&& m.symbol@ == symbol@ && m.oracle == oracle && m.active
                        &&& m.max_leverage == max_leverage
                        &&& m.total_long_oi == 0 && m.total_short_oi == 0
                        &&& m.cumulative_funding == 0 && m.last_funding_update == now
                    })
                },
            },
    {
        if oracle.is_zero() {
            return Err(PerpError::InvalidOracle);
        }
        if max_leverage == 0 || max_leverage > 200 {
            return Err(PerpError::LeverageTooHigh { got: max_leverage, max: 200 });
        }
        let id = self.markets.len() as u64;
        self.markets.push(Market::new(symbol, oracle, max_leverage, now));
        proof {
            assert(self.spec_markets().drop_last() =~= old(self).spec_markets());
        }
        Ok(id)
    }

    /// Changes a market's oracle, active flag and leverage cap.
    pub fn update_market(&mut self, market_id: u64, oracle: Address, active: bool, max_leverage: u64)
        -> (r: Result<(), PerpError>)
        ensures
            match market_params_error(oracle, max_leverage) {
                Some(e) => r == Err::<(), PerpError>(e) && final(self).spec_markets() == old(self).spec_markets(),
                None => if market_id < old(self).spec_markets().len() {
                    &&& r == Ok::<(), PerpError>(())
                    &&& final(self).spec_markets() == old(self).spec_markets().update(market_id as int, Market {
                        oracle,
                        active,
                        max_leverage,
                        ..old(self).spec_markets()[market_id as int]
                    })
                } else {
                    r == Err::<(), PerpError>(PerpError::MarketNotFound(market_id))
                        && final(self).spec_markets() == old(self).spec_markets()
                },
            },
    {
        if oracle.is_zero() {
            return Err(PerpError::InvalidOracle);
        }
        if max_leverage == 0 || max_leverage > 200 {
            return Err(PerpError::LeverageTooHigh { got: max_leverage, max: 200 });
        }
        if market_id >= self.markets.len() as u64 {
            return Err(PerpError::MarketNotFound(market_id));
        }
        let i = market_id as usize;
        self.markets[i].oracle = oracle;
        self.markets[i].active = active;
        self.markets[i].max_leverage = max_leverage;
        proof {
            assert(self.spec_markets() =~= old(self).spec_markets().update(market_id as int, Market {
                oracle,
                active,
                max_leverage,
                ..old(self).spec_markets()[market_id as int]
            }));
        }
        Ok(())
    }

    /// Market `market_id`.
    pub fn get(&self, market_id: u64) -> (r: Result<&Market, PerpError>)
        ensures
            r == (if market_id < self.spec_markets().len() {
                Ok::<&Market, PerpError>(&self.spec_markets()[market_id as int])
            } else {
                Err(PerpError::MarketNotFound(market_id))
            }),
    {
        if market_id < self.markets.len() as u64 {
            Ok(&self.markets[market_id as usize])
        } else {
            Err(PerpError::MarketNotFound(market_id))
        }
    }

    /// Replaces market `market_id` by `m`.
    pub fn set(&mut self, market_id: u64, m: Market) -> (r: Result<(), PerpError>)
        ensures
            r == (if market_id < old(self).spec_markets().len() {
                Ok::<(), PerpError>(())
            } else {
                Err(PerpError::MarketNotFound(market_id))
            }),
            final(self).spec_markets() == (if market_id < old(self).spec_markets().len() {
                old(self).spec_markets().update(market_id as int, m)
            } else {
                old(self).spec_markets()
            }),
    {
        if market_id < self.markets.len() as u64 {
            self.markets.set(market_id as usize, m);
            Ok(())
        } else {
            Err(PerpError::MarketNotFound(market_id))
        }
    }

    /// The number of markets.
    pub fn market_count(&self) -> (r: u64)
        ensures
            r == self.spec_markets().len(),
    {
        self.markets.len() as u64
    }

    /// Settles the funding of market `market_id` at `now` over eight-hour
    /// intervals; returns the number of intervals settled.
    pub fn settle_funding(&mut self, market_id: u64, now: u64) -> (r: Result<u64, PerpError>)
        requires
            market_id < old(self).spec_markets().len() ==> oi_in_range(old(self).spec_markets()[market_id as int]),
        ensures
            market_id >= old(self).spec_markets().len() ==> {
                &&& r == Err::<u64, PerpError>(PerpError::MarketNotFound(market_id))
                &&& final(self).spec_markets() == old(self).spec_markets()
            },
            market_id < old(self).spec_markets().len() ==> final(self).spec_markets()
                == old(self).spec_markets().update(market_id as int, settled_spec(old(self).spec_markets()[market_id as int], now, 28_800)),
            market_id < old(self).spec_markets().len() ==> {
                let m0 = old(self).spec_markets()[market_id as int];
                let elapsed: int = if now >= m0.last_funding_update { now - m0.last_funding_update } else { 0 };
                &&& r == Ok::<u64, PerpError>((elapsed / 28_800) as u64)
                &&& final(self).spec_markets().len() == old(self).spec_markets().len()
                &&& forall|j: int| 0 <= j < old(self).spec_markets().len() && j != market_id
                    ==> #[trigger] final(self).spec_markets()[j] == old(self).spec_markets()[j]
                &&& elapsed < 28_800 ==> final(self).spec_markets()[market_id as int] == m0
                &&& elapsed >= 28_800 ==> {
                    let m = final(self).spec_markets()[market_id as int];
                    &&& m.last_funding_update == m0.last_funding_update + (elapsed / 28_800) * 28_800
                    &&& m.cumulative_funding == crate::common::clamp_i128(
                        m0.cumulative_funding + crate::common::clamp_i128(funding_rate_spec(m0) * (elapsed / 28_800)))
                    &&& m.symbol == m0.symbol && m.oracle == m0.oracle && m.active == m0.active
                    &&& m.max_leverage == m0.max_leverage
                    &&& m.total_long_oi == m0.total_long_oi && m.total_short_oi == m0.total_short_oi
                }
            },
    {
        if market_id >= self.markets.len() as u64 {
            return Err(PerpError::MarketNotFound(market_id));
        }
        let i = market_id as usize;
        let n = settle_funding(&mut self.markets[i], now, 28_800);
        proof {
            assert(self.spec_markets() =~= old(self).spec_markets().update(market_id as int,
                settled_spec(old(self).spec_markets()[market_id as int], now, 28_800)));
        }
        Ok(n)
    }

    /// A snapshot of market `market_id` at `mark_price` and `now`.
    pub fn view(&self, market_id: u64, mark_price: u128, now: u64) -> (r: Result<MarketView, PerpError>)
        requires
            market_id < self.spec_markets().len() ==> {
                let m = self.spec_markets()[market_id as int];
                &&& oi_in_range(m)
            },
        ensures
            match r {
                Err(e) => e == PerpError::MarketNotFound(market_id) && market_id >= self.spec_markets().len(),
                Ok(v) => {
                    let m = self.spec_markets()[market_id as int];
                    &&& market_id < self.spec_markets().len()
                    &&& v.market_id == market_id && v.symbol@ == m.symbol@ && v.oracle == m.oracle
                    &&& v.active == m.active && v.max_leverage == m.max_leverage
                    &&& v.total_long_oi == m.total_long_oi && v.total_short_oi == m.total_short_oi
                    &&& v.oi_imbalance == m.total_long_oi - m.total_short_oi
                    &&& v.cumulative_funding == m.cumulative_funding
                    &&& v.current_funding == funding_rate_spec(m)
                    &&& v.next_funding_in == next_funding_spec(m, now, 28_800)
                    &&& v.mark_price == mark_price
                },
            },
    {
        if market_id >= self.markets.len() as u64 {
            return Err(PerpError::MarketNotFound(market_id));
        }
        let m = &self.markets[market_id as usize];
        let long_oi = m.total_long_oi as i128;
        let short_oi = m.total_short_oi as i128;
        Ok(MarketView {
            market_id,
            symbol: m.symbol.clone(),
            oracle: m.oracle,
            active: m.active,
            max_leverage: m.max_leverage,
            total_long_oi: m.total_long_oi,
            total_short_oi: m.total_short_oi,
            oi_imbalance: long_oi - short_oi,
            cumulative_funding: m.cumulative_funding,
            current_funding: current_funding_rate(m),
            next_funding_in: next_funding_in(m, now, 28_800),
            mark_price,
        })
    }
}

} // verus!

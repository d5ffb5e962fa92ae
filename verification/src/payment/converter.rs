//! Oracle-backed estimates of how much of one token buys an amount of
//! another, for showing a customer what a payment will cost.

use vstd::prelude::*;
use crate::common::Address;
use crate::table::Table;

verus! {

/// Raw units of one whole input token (10^18).
pub const ONE_TOKEN: u128 = 1_000_000_000_000_000_000;

/// A quote: `rate` output units per 10^18 input units.
#[derive(Debug, Clone, Copy)]
pub struct PriceQuote {
    pub input_token: Address,
    pub output_token: Address,
    pub rate: u128,
    pub timestamp: u64,
}

/// The input needed for `output_amount` at quote `q`: `output · 10^18 / rate`,
/// rounded down; nothing without a quote, at rate zero, or when the product
/// does not fit in 128 bits.
pub open spec fn input_needed(q: Option<PriceQuote>, output_amount: u128) -> Option<u128> {
    match q {
        None => None,
        Some(q) => if q.rate == 0 || output_amount * ONE_TOKEN > u128::MAX {
            None
        } else {
            Some((output_amount * ONE_TOKEN / (q.rate as int)) as u128)
        },
    }
}

/// The output bought by `input_amount` at quote `q`: `input · rate / 10^18`,
/// rounded down; nothing without a quote or when the product does not fit.
pub open spec fn output_for(q: Option<PriceQuote>, input_amount: u128) -> Option<u128> {
    match q {
        None => None,
        Some(q) => if input_amount * q.rate > u128::MAX {
            None
        } else {
            Some((input_amount * q.rate / (ONE_TOKEN as int)) as u128)
        },
    }
}

/// The latest quote of each (input, output) token pair.
#[derive(Debug)]
pub struct PriceFeed {
    quotes: Table<(Address, Address), PriceQuote>,
}

impl PriceFeed {
    /// Pair → quote.
    pub closed spec fn quotes(&self) -> Map<(Address, Address), PriceQuote> {
        self.quotes.view()
    }

    /// The quote table is well formed.
    pub closed spec fn wf(&self) -> bool {
        self.quotes.wf()
    }

    /// The quote for `input` → `output`, if any.
    pub open spec fn quote_of(&self, input: Address, output: Address) -> Option<PriceQuote> {
        if self.quotes().dom().contains((input, output)) {
            Some(self.quotes()[(input, output)])
        } else {
            None
        }
    }

    /// No quotes.
    pub fn new() -> (r: Self)
        ensures
            r.wf(),
            r.quotes() == Map::<(Address, Address), PriceQuote>::empty(),
    {
        PriceFeed { quotes: Table::new() }
    }

    /// Stores `q` as the quote of its pair, replacing any earlier one.
    pub fn update(&mut self, q: PriceQuote)
        requires
            old(self).wf(),
        ensures
            final(self).wf(),
            final(self).quotes() == old(self).quotes().insert((q.input_token, q.output_token), q),
    {
        self.quotes.set((q.input_token, q.output_token), q);
    }

    /// How much `input_token` buys `output_amount` of `output_token`.
    pub fn estimate_input(&self, input_token: Address, output_token: Address, output_amount: u128) -> (r: Option<u128>)
        requires
            self.wf(),
        ensures
            r == input_needed(self.quote_of(input_token, output_token), output_amount),
    {
        match self.quotes.get(&(input_token, output_token)) {
            Some(q) => {
                if q.rate == 0 {
                    return None;
                }
                match output_amount.checked_mul(ONE_TOKEN) {
                    Some(scaled) => Some(scaled / q.rate),
                    None => None,
                }
            },
            None => None,
        }
    }

    /// How much `output_token` `input_amount` of `input_token` buys.
    pub fn estimate_output(&self, input_token: Address, output_token: Address, input_amount: u128) -> (r: Option<u128>)
        requires
            self.wf(),
        ensures
            r == output_for(self.quote_of(input_token, output_token), input_amount),
    {
        match self.quotes.get(&(input_token, output_token)) {
            Some(q) => match input_amount.checked_mul(q.rate) {
                Some(product) => Some(product / ONE_TOKEN),
                None => None,
            },
            None => None,
        }
    }

    /// The protocol fee on `amount` at `fee_bps` basis points, rounded down.
    pub fn compute_fee(amount: u128, fee_bps: u16) -> (r: u128)
        requires
            amount * fee_bps <= u128::MAX,
        ensures
            r == amount * fee_bps / 10_000int,
    {
        (amount * fee_bps as u128) / 10_000
    }
}

impl Default for PriceFeed {
    fn default() -> (r: Self)
        ensures
            r.wf(),
            r.quotes() == Map::<(Address, Address), PriceQuote>::empty(),
    {
        Self::new()
    }
}

} // verus!

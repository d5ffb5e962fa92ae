//! UPI-style Pay IDs (`ali@zbx`, `shop.ali@zbx`): parsing, validation of
//! display names, and a cache of resolutions.

pub mod error;
pub mod parser;
pub mod resolver;
pub mod registry;

use vstd::prelude::*;
use crate::text::{lowercase_spec, str_to_lowercase};

verus! {

/// Address of the Pay ID contract on mainnet.
pub const PAYID_CONTRACT: &'static str = "0x7e4a7f8bCE8CfD1765CdE34Dbf5e8D7fB1A43e9";

/// The network handle after `@`.
pub const ZBX_HANDLE: &'static str = "zbx";

/// The full suffix used for display.
pub const ZBX_SUFFIX: &'static str = "@zbx";

/// `name` in lower case followed by `@zbx`.
pub fn format_pay_id(name: &str) -> (r: String)
    ensures
        r@ == lowercase_spec(name@) + "@zbx"@,
{
    let mut s = str_to_lowercase(name);
    s.append("@zbx");
    s
}

} // verus!

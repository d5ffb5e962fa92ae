//! Resolving Pay IDs to wallet addresses, and checking registrations.

use vstd::prelude::*;
use crate::payid::error::PayIdError;
use crate::payid::parser::{parse_pay_id, parse_spec, validate_display_name, display_name_check, is_display_error};
use vstd::utf8::encode_utf8;
use crate::text::{lowercase_spec, trim_spec};

verus! {

/// Chain id of ZBX mainnet.
pub const CHAIN_ID_MAINNET: u64 = 8_989;

/// A Pay ID resolved to its wallet.
#[derive(Debug, Clone)]
pub struct ResolvedPayId {
    /// The input as typed.
    pub input: String,
    /// The canonical Pay ID (`salman@zbx`).
    pub pay_id: String,
    /// The registered display name (empty for a raw address).
    pub display_name: String,
    /// The wallet address.
    pub address: String,
    pub is_smart_wallet: bool,
    pub chain_id: u64,
}

impl ResolvedPayId {
    /// A copy, equal to the original.
    pub fn copied(&self) -> (r: Self)
        ensures
            r == *self,
    {
        ResolvedPayId {
            input: self.input.clone(),
            pay_id: self.pay_id.clone(),
            display_name: self.display_name.clone(),
            address: self.address.clone(),
            is_smart_wallet: self.is_smart_wallet,
            chain_id: self.chain_id,
        }
    }
}

/// A request to register a Pay ID; every field is required.
#[derive(Debug, Clone)]
pub struct RegistrationRequest {
    /// The name part only (`salman`, not `salman@zbx`).
    pub pay_id_name: String,
    /// The owner's full name.
    pub display_name: String,
    /// The owner's wallet address (`0x` and 40 hex digits).
    pub address: String,
}

/// Resolves Pay IDs against the Pay ID contract.
#[derive(Debug)]
pub struct PayIdResolver {
    pub rpc_url: String,
    pub contract: String,
}

/// Whether `s` starts with `0x`.
pub open spec fn starts_0x(s: Seq<char>) -> bool {
    s.len() >= 2 && s[0] == '0' && s[1] == 'x'
}

fn starts_with_0x(s: &str) -> (r: bool)
    ensures
        r == starts_0x(s@),
{
    let n = s.unicode_len();
    n >= 2 && s.get_char(0) == '0' && s.get_char(1) == 'x'
}

impl PayIdResolver {
    /// A resolver for the node at `rpc_url` and the mainnet contract.
    pub fn new(rpc_url: String) -> (r: Self)
        ensures
            r.rpc_url == rpc_url,
            r.contract@ == "0x7e4a7f8bCE8CfD1765CdE34Dbf5e8D7fB1A43e9"@,
    {
        PayIdResolver { rpc_url, contract: String::from_str("0x7e4a7f8bCE8CfD1765CdE34Dbf5e8D7fB1A43e9") }
    }

    /// Checks a registration: the name must parse, with no handle other
    /// than `zbx` unless it is the whole request name; the display name must
    /// be valid; the address must start with `0x` and be 42 bytes long.
    /// Returns the registered record on mainnet.
    pub fn register(&self, req: RegistrationRequest) -> (r: Result<ResolvedPayId, PayIdError>)
        ensures
            match parse_spec(lowercase_spec(trim_spec(req.pay_id_name@))) {
                Err(m) => r matches Err(PayIdError::InvalidFormat(e)) && e@ == m,
                Ok((name, handle, _)) => if handle != "zbx"@ && handle != req.pay_id_name@ {
                    r matches Err(PayIdError::InvalidFormat(e))
                        && e@ == "provide only the name part (e.g. 'salman'), not 'salman@zbx'"@
                } else {
                    match display_name_check(req.display_name@) {
                        Some((req_, m)) => r matches Err(e) && is_display_error(e, req_, m),
                        None => if !starts_0x(req.address@) || encode_utf8(req.address@).len() != 42 {
                            r matches Err(PayIdError::InvalidFormat(e))
                                && e@ == "address must be a valid 0x hex address (42 chars)"@
                        } else {
                            r matches Ok(res) && {
                                &&& res.input@ == req.pay_id_name@
                                &&& res.pay_id@ == name + "@"@ + handle
                                &&& res.display_name@ == req.display_name@
                                &&& res.address@ == req.address@
                                &&& !res.is_smart_wallet
                                &&& res.chain_id == CHAIN_ID_MAINNET
                            }
                        },
                    }
                },
            },
    {
        let parts = match parse_pay_id(req.pay_id_name.as_str()) {
            Ok(p) => p,
            Err(e) => return Err(e),
        };
        let zbx = String::from_str("zbx");
        if parts.handle != zbx && parts.handle != req.pay_id_name {
            return Err(PayIdError::InvalidFormat(String::from_str(
                "provide only the name part (e.g. 'salman'), not 'salman@zbx'",
            )));
        }
        match validate_display_name(req.display_name.as_str()) {
            Ok(()) => {},
            Err(e) => return Err(e),
        }
        if !starts_with_0x(req.address.as_str()) || req.address.as_str().as_bytes().len() != 42 {
            return Err(PayIdError::InvalidFormat(String::from_str("address must be a valid 0x hex address (42 chars)")));
        }
        let input = req.pay_id_name.clone();
        Ok(ResolvedPayId {
            input,
            pay_id: parts.canonical,
            display_name: req.display_name,
            address: req.address,
            is_smart_wallet: false,
            chain_id: CHAIN_ID_MAINNET,
        })
    }

    /// Resolves `input`: a raw `0x` address of 42 bytes passes through;
    /// otherwise the input must parse as a Pay ID on the `zbx` handle and is
    /// looked up on chain.
    pub fn resolve(&self, input: &str) -> (r: Result<ResolvedPayId, PayIdError>)
        ensures
            if starts_0x(input@) && encode_utf8(input@).len() == 42 {
                r matches Ok(res) && {
                    &&& res.input@ == input@ && res.pay_id@ == input@ && res.address@ == input@
                    &&& res.display_name@.len() == 0
                    &&& !res.is_smart_wallet && res.chain_id == CHAIN_ID_MAINNET
                }
            } else {
                match parse_spec(lowercase_spec(trim_spec(input@))) {
                    Err(m) => r matches Err(PayIdError::InvalidFormat(e)) && e@ == m,
                    Ok((name, handle, _)) => if handle != "zbx"@ {
                        r matches Err(PayIdError::UnsupportedHandle(h)) && h@ == handle
                    } else {
                        r matches Err(PayIdError::NotFound(e)) && e@ == name + "@zbx"@
                    },
                }
            },
    {
        if starts_with_0x(input) && input.as_bytes().len() == 42 {
            return Ok(ResolvedPayId {
                input: String::from_str(input),
                pay_id: String::from_str(input),
                display_name: String::new(),
                address: String::from_str(input),
                is_smart_wallet: false,
                chain_id: CHAIN_ID_MAINNET,
            });
        }
        let parts = match parse_pay_id(input) {
            Ok(p) => p,
            Err(e) => return Err(e),
        };
        let zbx = String::from_str("zbx");
        if parts.handle != zbx {
            return Err(PayIdError::UnsupportedHandle(parts.handle));
        }
        match self.resolve_on_chain(parts.name.as_str()) {
            Err(e) => Err(e),
            Ok((address, display_name)) => Ok(ResolvedPayId {
                input: String::from_str(input),
                pay_id: parts.canonical,
                display_name,
                address,
                is_smart_wallet: false,
                chain_id: CHAIN_ID_MAINNET,
            }),
        }
    }

    /// Looks up the wallet and display name registered for `name`; no
    /// contract is queried here, so every name is reported not found.
    fn resolve_on_chain(&self, name: &str) -> (r: Result<(String, String), PayIdError>)
        ensures
            r matches Err(PayIdError::NotFound(e)) && e@ == name@ + "@zbx"@,
    {
        let mut m = String::from_str(name);
        m.append("@zbx");
        Err(PayIdError::NotFound(m))
    }

    /// Reverse lookup of an address; no contract is queried here, so none
    /// is found.
    pub fn reverse(&self, address: &str) -> (r: Result<Option<(String, String)>, PayIdError>)
        ensures
            r matches Ok(None),
    {
        Ok(None)
    }

    /// Resolves `input` to its address on another chain: the input must
    /// parse as a Pay ID; no contract is queried here, so it is then
    /// reported not found.
    pub fn resolve_chain(&self, input: &str, chain_id: u64) -> (r: Result<String, PayIdError>)
        ensures
            match parse_spec(lowercase_spec(trim_spec(input@))) {
                Err(m) => r matches Err(PayIdError::InvalidFormat(e)) && e@ == m,
                Ok(_) => r matches Err(PayIdError::NotFound(e)) && e@ == input@,
            },
    {
        match parse_pay_id(input) {
            Err(e) => Err(e),
            Ok(_) => Err(PayIdError::NotFound(String::from_str(input))),
        }
    }
}

} // verus!

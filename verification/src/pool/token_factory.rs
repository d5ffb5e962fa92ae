//! The token factory: creates ZRC-20 tokens for a fee and keeps their
//! records, minting switches, account freezes and time locks.

use vstd::prelude::*;
use vstd::utf8::encode_utf8;
use crate::common::Address;
use crate::crypto::{push_all, push_le, le_bytes, sha3_256, sha3_256_spec};
use crate::pool::lp_token::amount_of;
use crate::pool::registry::FeeRegistry;
use crate::table::{Table, TableKey};
use crate::text::str_eq;

verus! {

/// The largest total supply of a token (10^36).
pub const MAX_TOKEN_SUPPLY: u128 = 1_000_000_000_000_000_000_000_000_000_000_000_000;

/// Why a token factory operation failed.
#[derive(Debug, Clone, PartialEq, Eq, Structural)]
pub enum TokenFactoryError {
    /// The name must be 1 to 64 bytes.
    InvalidName,
    /// The symbol must be 1 to 12 bytes.
    InvalidSymbol,
    /// Decimals must be at most 18.
    InvalidDecimals,
    /// The supply exceeds `MAX_TOKEN_SUPPLY`.
    SupplyTooLarge,
    /// The caller cannot pay the fee.
    InsufficientFee { have: u128, need: u128 },
    TokenNotFound,
    /// Only the token owner may do this.
    Unauthorized,
    /// Transfers of the token are paused.
    TokenPaused,
    /// The token has a fixed supply.
    NotMintable,
    /// The mint would pass the supply cap.
    MintExceedsMaxSupply,
    /// The symbol is taken.
    SymbolAlreadyExists,
    AccountFrozen,
    AccountNotFrozen,
    AccountAlreadyFrozen,
    MintingPaused,
    /// Minting was switched off for good.
    MintingFinalized,
    MintingAlreadyPaused,
    MintingNotPaused,
    MintingAlreadyFinalized,
    /// A lock is active; extend it instead.
    ActiveLockExists,
    /// An extension may not shrink the amount or the time.
    LockMustGrow,
    LockNotFound,
    LockExpired,
    /// The unlock time must be in the future.
    UnlockTimeInPast,
    InsufficientBalanceForLock { have: u128, need: u128 },
    TokensLocked { transferable: u128 },
}

/// A time lock on an account's tokens.
#[derive(Debug, Clone, Copy, PartialEq, Eq, Structural)]
pub struct LockEntry {
    /// Amount locked (0: no lock).
    pub amount: u128,
    /// When the lock ends (Unix seconds).
    pub unlock_time: u64,
}

/// A token's record.
#[derive(Debug, Clone)]
pub struct TokenRecord {
    pub address: Address,
    pub name: String,
    pub symbol: String,
    pub decimals: u8,
    /// Supply minted so far.
    pub total_supply: u128,
    /// Supply cap (0: none).
    pub max_supply: u128,
    pub owner: Address,
    /// Whether more can be minted after creation.
    pub mintable: bool,
    /// Whether transfers are paused.
    pub paused: bool,
    /// Creation block.
    pub created_at: u64,
    /// Registered metadata (icon, website, description).
    pub metadata_uri: Option<String>,
    pub logo_uri: Option<String>,
    /// Temporary mint pause.
    pub minting_paused: bool,
    /// Permanent mint switch-off.
    pub minting_finalized: bool,
}

/// Parameters of a token creation.
#[derive(Debug, Clone)]
pub struct CreateTokenParams {
    pub name: String,
    pub symbol: String,
    pub decimals: u8,
    /// Initial supply, minted to the creator.
    pub total_supply: u128,
    /// Supply cap (0: none).
    pub max_supply: u128,
    pub mintable: bool,
    pub creator: Address,
    /// The creator's ZBX, which must cover the creation fee.
    pub creator_zbx_balance: u128,
    pub block_number: u64,
    pub logo_uri: Option<String>,
}

/// The bytes hashed into a token address: the creator and its nonce (8
/// bytes, little endian).
pub open spec fn token_address_input(creator: Address, nonce: u64) -> Seq<u8> {
    creator.0@ + le_bytes(nonce as nat, 8)
}

/// The address of the `nonce`-th token of `creator`: the first 20 bytes of
/// the SHA3-256 digest of `token_address_input`.
pub open spec fn token_address_spec(creator: Address, nonce: u64) -> Seq<u8> {
    sha3_256_spec(token_address_input(creator, nonce)).subrange(0, 20)
}

/// The deterministic address of the `nonce`-th token of `creator`.
pub fn derive_token_address(creator: Address, nonce: u64) -> (r: Address)
    ensures
        r.0@ == token_address_spec(creator, nonce),
{
    let mut input: Vec<u8> = Vec::new();
    push_all(&mut input, &creator.0);
    push_le(&mut input, nonce, 8);
    let digest = sha3_256(input.as_slice());
    let mut bytes = [0u8; 20];
    let mut i: usize = 0;
    while i < 20
        invariant
            0 <= i <= 20,
            digest@.len() == 32,
            forall|k: int| 0 <= k < i ==> bytes@[k] == digest@[k],
        decreases 20 - i,
    {
        bytes[i] = digest[i];
        i += 1;
    }
    proof {
        assert(bytes@ =~= digest@.subrange(0, 20));
    }
    Address(bytes)
}

/// The locked amount of a lock at `now` (zero once it has ended).
pub open spec fn locked_at(l: Option<LockEntry>, now: u64) -> u128 {
    match l {
        Some(e) => if e.amount > 0 && now < e.unlock_time { e.amount } else { 0 },
        None => 0,
    }
}

/// Creates and manages tokens.
pub struct TokenFactory {
    tokens: Table<Address, TokenRecord>,
    /// Symbols in creation order, with their token.
    symbol_index: Vec<(String, Address)>,
    creator_nonces: Table<Address, u64>,
    treasury_balance: u128,
    fee_registry: FeeRegistry,
    frozen_accounts: Table<(Address, Address), bool>,
    token_locks: Table<(Address, Address), LockEntry>,
}

impl TokenFactory {
    /// The token records.
    pub closed spec fn spec_tokens(&self) -> Map<Address, TokenRecord> {
        self.tokens.view()
    }

    /// The token records in storage order.
    pub closed spec fn spec_token_entries(&self) -> Seq<(Address, TokenRecord)> {
        self.tokens.spec_entries()
    }

    /// The registered symbols with their token.
    pub closed spec fn spec_symbols(&self) -> Seq<(Seq<char>, Address)> {
        self.symbol_index@.map_values(|e: (String, Address)| (e.0@, e.1))
    }

    /// How many tokens `creator` has made.
    pub closed spec fn spec_nonce(&self, creator: Address) -> u64 {
        if self.creator_nonces.view().dom().contains(creator) { self.creator_nonces.view()[creator] } else { 0 }
    }

    /// The fees collected.
    pub closed spec fn spec_treasury(&self) -> u128 {
        self.treasury_balance
    }

    /// The fee registry.
    pub closed spec fn spec_fees(&self) -> FeeRegistry {
        self.fee_registry
    }

    /// Whether `account` is frozen for `token`.
    pub closed spec fn spec_frozen(&self, token: Address, account: Address) -> bool {
        self.frozen_accounts.view().dom().contains((token, account)) && self.frozen_accounts.view()[(token, account)]
    }

    /// The lock on `account`'s `token`.
    pub closed spec fn spec_lock(&self, token: Address, account: Address) -> Option<LockEntry> {
        if self.token_locks.view().dom().contains((token, account)) {
            Some(self.token_locks.view()[(token, account)])
        } else {
            None
        }
    }

    /// Internal consistency of the tables.
    pub closed spec fn wf(&self) -> bool {
        &&& self.tokens.wf()
        &&& self.creator_nonces.wf()
        &&& self.frozen_accounts.wf()
        &&& self.token_locks.wf()
    }

    /// Whether `symbol` is registered.
    pub open spec fn symbol_taken(&self, symbol: Seq<char>) -> bool {
        exists|i: int| 0 <= i < self.spec_symbols().len() && (#[trigger] self.spec_symbols()[i]).0 == symbol
    }

    /// Entry `i` of the symbol index is the first one for `symbol`.
    pub open spec fn is_first_symbol(&self, i: int, symbol: Seq<char>) -> bool {
        &&& 0 <= i < self.spec_symbols().len()
        &&& self.spec_symbols()[i].0 == symbol
        &&& forall|j: int| 0 <= j < i ==> (#[trigger] self.spec_symbols()[j]).0 != symbol
    }

    /// The token address registered under `symbol` (its first entry).
    pub open spec fn symbol_addr(&self, symbol: Seq<char>) -> Option<Address> {
        if exists|i: int| self.is_first_symbol(i, symbol) {
            Some(self.spec_symbols()[choose|i: int| self.is_first_symbol(i, symbol)].1)
        } else {
            None
        }
    }

    /// Only the records changed (to `toks`) and the treasury (to `t`).
    pub open spec fn only_records(&self, other: &Self, toks: Map<Address, TokenRecord>, t: u128) -> bool {
        &&& other.spec_tokens() == toks
        &&& other.spec_treasury() == t
        &&& other.spec_symbols() == self.spec_symbols()
        &&& other.spec_fees() == self.spec_fees()
        &&& forall|c: Address| #[trigger] other.spec_nonce(c) == self.spec_nonce(c)
        &&& forall|tk: Address, a: Address| #[trigger] other.spec_frozen(tk, a) == self.spec_frozen(tk, a)
        &&& forall|tk: Address, a: Address| #[trigger] other.spec_lock(tk, a) == self.spec_lock(tk, a)
    }

    /// No token; default fees.
    pub fn new() -> (r: Self)
        ensures
            r.wf(),
            r.spec_tokens() == Map::<Address, TokenRecord>::empty(),
            r.spec_symbols().len() == 0,
            r.spec_treasury() == 0,
            r.spec_fees().has_default_fees(),
            forall|c: Address| #[trigger] r.spec_nonce(c) == 0,
            forall|tk: Address, a: Address| !#[trigger] r.spec_frozen(tk, a),
            forall|tk: Address, a: Address| #[trigger] r.spec_lock(tk, a) is None,
    {
        let r = TokenFactory {
            tokens: Table::new(),
            symbol_index: Vec::new(),
            creator_nonces: Table::new(),
            treasury_balance: 0,
            fee_registry: FeeRegistry::default(),
            frozen_accounts: Table::new(),
            token_locks: Table::new(),
        };
        assert(r.spec_symbols() =~= Seq::empty());
        r
    }

    /// The fees collected.
    pub fn treasury_balance(&self) -> (r: u128)
        ensures
            r == self.spec_treasury(),
    {
        self.treasury_balance
    }

    /// How many tokens `creator` has made (the nonce of its next address).
    pub fn creator_nonce(&self, creator: &Address) -> (r: u64)
        requires
            self.wf(),
        ensures
            r == self.spec_nonce(*creator),
    {
        match self.creator_nonces.get(creator) {
            Some(n) => *n,
            None => 0,
        }
    }

    fn find_symbol(&self, symbol: &str) -> (r: Option<usize>)
        ensures
            match r {
                Some(i) => self.is_first_symbol(i as int, symbol@),
                None => !self.symbol_taken(symbol@),
            },
    {
        let mut i: usize = 0;
        while i < self.symbol_index.len()
            invariant
                0 <= i <= self.symbol_index@.len(),
                self.spec_symbols().len() == self.symbol_index@.len(),
                forall|j: int| 0 <= j < i ==> (#[trigger] self.spec_symbols()[j]).0 != symbol@,
            decreases self.symbol_index@.len() - i,
        {
            if str_eq(self.symbol_index[i].0.as_str(), symbol) {
                return Some(i);
            }
            i += 1;
        }
        None
    }

    /// Creates a token: the name must be 1 to 64 bytes, the symbol 1 to 12
    /// bytes and not taken, decimals at most 18, the supply at most
    /// `MAX_TOKEN_SUPPLY`, and the creator must hold the creation fee (which
    /// goes to the treasury, saturating). The token's address comes from the
    /// creator and its count of tokens so far; its whole initial supply is
    /// recorded as minted.
    pub fn create_token(&mut self, params: CreateTokenParams) -> (r: Result<Address, TokenFactoryError>)
        requires
            old(self).wf(),
            old(self).spec_nonce(params.creator) < u64::MAX,
        ensures
            final(self).wf(),
            create_token_post(*old(self), *final(self), params, r),
    {
        let nlen = params.name.as_str().as_bytes().len();
        if nlen == 0 || nlen > 64 {
            return Err(TokenFactoryError::InvalidName);
        }
        let slen = params.symbol.as_str().as_bytes().len();
        if slen == 0 || slen > 12 {
            return Err(TokenFactoryError::InvalidSymbol);
        }
        if params.decimals > 18 {
            return Err(TokenFactoryError::InvalidDecimals);
        }
        if params.total_supply > MAX_TOKEN_SUPPLY {
            return Err(TokenFactoryError::SupplyTooLarge);
        }
        if self.find_symbol(params.symbol.as_str()).is_some() {
            return Err(TokenFactoryError::SymbolAlreadyExists);
        }
        let fee = self.fee_registry.token_creation_fee();
        if params.creator_zbx_balance < fee {
            return Err(TokenFactoryError::InsufficientFee { have: params.creator_zbx_balance, need: fee });
        }
        let nonce = self.creator_nonce(&params.creator);
        let token_addr = derive_token_address(params.creator, nonce);
        self.creator_nonces.set(params.creator, nonce + 1);
        self.treasury_balance = self.treasury_balance.saturating_add(fee);
        let symbol_copy = params.symbol.clone();
        let record = TokenRecord {
            address: token_addr,
            name: params.name,
            symbol: params.symbol,
            decimals: params.decimals,
            total_supply: params.total_supply,
            max_supply: params.max_supply,
            owner: params.creator,
            mintable: params.mintable,
            paused: false,
            created_at: params.block_number,
            metadata_uri: None,
            logo_uri: params.logo_uri,
            minting_paused: false,
            minting_finalized: false,
        };
        let ghost old_syms = self.spec_symbols();
        self.symbol_index.push((symbol_copy, token_addr));
        self.tokens.set(token_addr, record);
        proof {
            assert(self.spec_symbols() =~= old_syms.push((params.symbol@, token_addr)));
        }
        Ok(token_addr)
    }

    /// The record of `token`, or `TokenNotFound`.
    fn record_of(&self, token: &Address) -> (r: Result<&TokenRecord, TokenFactoryError>)
        requires
            self.wf(),
        ensures
            r matches Ok(rec) ==> self.spec_tokens().dom().contains(*token) && *rec == self.spec_tokens()[*token],
            r is Err ==> !self.spec_tokens().dom().contains(*token) && r == Err::<&TokenRecord, TokenFactoryError>(TokenFactoryError::TokenNotFound),
    {
        match self.tokens.get(token) {
            Some(r) => Ok(r),
            None => Err(TokenFactoryError::TokenNotFound),
        }
    }

    /// Takes the record of a stored token out to change it.
    fn take_record(&mut self, token: &Address) -> (r: TokenRecord)
        requires
            old(self).wf(),
            old(self).spec_tokens().dom().contains(*token),
        ensures
            final(self).wf(),
            r == old(self).spec_tokens()[*token],
            final(self).spec_tokens() == old(self).spec_tokens().remove(*token),
            final(self).symbol_index == old(self).symbol_index,
            final(self).treasury_balance == old(self).treasury_balance,
            final(self).fee_registry == old(self).fee_registry,
            final(self).creator_nonces == old(self).creator_nonces,
            final(self).frozen_accounts == old(self).frozen_accounts,
            final(self).token_locks == old(self).token_locks,
    {
        let r = self.tokens.take(token);
        r.unwrap()
    }

    /// Mints `amount` more of `token` for its owner, who pays the mint fee:
    /// the token must be mintable, minting neither finalized nor paused, the
    /// token not paused, and a cap (when set) respected; supply and treasury
    /// grow with saturation.
    pub fn mint(&mut self, token: Address, caller: Address, amount: u128, caller_zbx_balance: u128, block_number: u64)
        -> (r: Result<(), TokenFactoryError>)
        requires
            old(self).wf(),
        ensures
            final(self).wf(),
            ({
                let fee = old(self).spec_fees().token_mint_fee;
                let rec = old(self).spec_tokens()[token];
                let new_supply = if rec.total_supply + amount > u128::MAX { u128::MAX } else { (rec.total_supply + amount) as u128 };
                if caller_zbx_balance < fee {
                    r == Err::<(), TokenFactoryError>(TokenFactoryError::InsufficientFee { have: caller_zbx_balance, need: fee })
                        && *final(self) == *old(self)
                } else if !old(self).spec_tokens().dom().contains(token) {
                    r == Err::<(), TokenFactoryError>(TokenFactoryError::TokenNotFound) && *final(self) == *old(self)
                } else if rec.owner != caller {
                    r == Err::<(), TokenFactoryError>(TokenFactoryError::Unauthorized) && *final(self) == *old(self)
                } else if !rec.mintable {
                    r == Err::<(), TokenFactoryError>(TokenFactoryError::NotMintable) && *final(self) == *old(self)
                } else if rec.minting_finalized {
                    r == Err::<(), TokenFactoryError>(TokenFactoryError::MintingFinalized) && *final(self) == *old(self)
                } else if rec.minting_paused {
                    r == Err::<(), TokenFactoryError>(TokenFactoryError::MintingPaused) && *final(self) == *old(self)
                } else if rec.paused {
                    r == Err::<(), TokenFactoryError>(TokenFactoryError::TokenPaused) && *final(self) == *old(self)
                } else if rec.max_supply > 0 && new_supply > rec.max_supply {
                    r == Err::<(), TokenFactoryError>(TokenFactoryError::MintExceedsMaxSupply) && *final(self) == *old(self)
                } else {
                    r is Ok && old(self).only_records(&*final(self),
                        old(self).spec_tokens().insert(token, TokenRecord { total_supply: new_supply, ..rec }),
                        if old(self).spec_treasury() + fee > u128::MAX { u128::MAX } else { (old(self).spec_treasury() + fee) as u128 })
                }
            }),
    {
        let fee = self.fee_registry.token_mint_fee();
        if caller_zbx_balance < fee {
            return Err(TokenFactoryError::InsufficientFee { have: caller_zbx_balance, need: fee });
        }
        let rec = match self.record_of(&token) {
            Err(e) => return Err(e),
            Ok(r) => r,
        };
        if !rec.owner.same(&caller) {
            return Err(TokenFactoryError::Unauthorized);
        }
        if !rec.mintable {
            return Err(TokenFactoryError::NotMintable);
        }
        if rec.minting_finalized {
            return Err(TokenFactoryError::MintingFinalized);
        }
        if rec.minting_paused {
            return Err(TokenFactoryError::MintingPaused);
        }
        if rec.paused {
            return Err(TokenFactoryError::TokenPaused);
        }
        let new_supply = rec.total_supply.saturating_add(amount);
        if rec.max_supply > 0 && new_supply > rec.max_supply {
            return Err(TokenFactoryError::MintExceedsMaxSupply);
        }
        let mut rec = self.take_record(&token);
        rec.total_supply = new_supply;
        self.tokens.set(token, rec);
        self.treasury_balance = self.treasury_balance.saturating_add(fee);
        proof {
            assert(self.spec_tokens() =~= old(self).spec_tokens().insert(token, TokenRecord { total_supply: new_supply, ..old(self).spec_tokens()[token] }));
        }
        Ok(())
    }

    /// Pauses minting of `token` (owner only; not when finalized or already
    /// paused).
    pub fn pause_minting(&mut self, token: Address, caller: Address) -> (r: Result<(), TokenFactoryError>)
        requires
            old(self).wf(),
        ensures
            final(self).wf(),
            ({
                let rec = old(self).spec_tokens()[token];
                if !old(self).spec_tokens().dom().contains(token) {
                    r == Err::<(), TokenFactoryError>(TokenFactoryError::TokenNotFound) && *final(self) == *old(self)
                } else if rec.owner != caller {
                    r == Err::<(), TokenFactoryError>(TokenFactoryError::Unauthorized) && *final(self) == *old(self)
                } else if rec.minting_finalized {
                    r == Err::<(), TokenFactoryError>(TokenFactoryError::MintingFinalized) && *final(self) == *old(self)
                } else if rec.minting_paused {
                    r == Err::<(), TokenFactoryError>(TokenFactoryError::MintingAlreadyPaused) && *final(self) == *old(self)
                } else {
                    r is Ok && old(self).only_records(&*final(self),
                        old(self).spec_tokens().insert(token, TokenRecord { minting_paused: true, ..rec }), old(self).spec_treasury())
                }
            }),
    {
        let rec = match self.record_of(&token) {
            Err(e) => return Err(e),
            Ok(r) => r,
        };
        if !rec.owner.same(&caller) {
            return Err(TokenFactoryError::Unauthorized);
        }
        if rec.minting_finalized {
            return Err(TokenFactoryError::MintingFinalized);
        }
        if rec.minting_paused {
            return Err(TokenFactoryError::MintingAlreadyPaused);
        }
        let mut rec = self.take_record(&token);
        rec.minting_paused = true;
        self.tokens.set(token, rec);
        proof {
            assert(self.spec_tokens() =~= old(self).spec_tokens().insert(token, TokenRecord { minting_paused: true, ..old(self).spec_tokens()[token] }));
        }
        Ok(())
    }

    /// Lifts the mint pause of `token` (owner only; not when finalized or
    /// not paused).
    pub fn resume_minting(&mut self, token: Address, caller: Address) -> (r: Result<(), TokenFactoryError>)
        requires
            old(self).wf(),
        ensures
            final(self).wf(),
            ({
                let rec = old(self).spec_tokens()[token];
                if !old(self).spec_tokens().dom().contains(token) {
                    r == Err::<(), TokenFactoryError>(TokenFactoryError::TokenNotFound) && *final(self) == *old(self)
                } else if rec.owner != caller {
                    r == Err::<(), TokenFactoryError>(TokenFactoryError::Unauthorized) && *final(self) == *old(self)
                } else if rec.minting_finalized {
                    r == Err::<(), TokenFactoryError>(TokenFactoryError::MintingFinalized) && *final(self) == *old(self)
                } else if !rec.minting_paused {
                    r == Err::<(), TokenFactoryError>(TokenFactoryError::MintingNotPaused) && *final(self) == *old(self)
                } else {
                    r is Ok && old(self).only_records(&*final(self),
                        old(self).spec_tokens().insert(token, TokenRecord { minting_paused: false, ..rec }), old(self).spec_treasury())
                }
            }),
    {
        let rec = match self.record_of(&token) {
            Err(e) => return Err(e),
            Ok(r) => r,
        };
        if !rec.owner.same(&caller) {
            return Err(TokenFactoryError::Unauthorized);
        }
        if rec.minting_finalized {
            return Err(TokenFactoryError::MintingFinalized);
        }
        if !rec.minting_paused {
            return Err(TokenFactoryError::MintingNotPaused);
        }
        let mut rec = self.take_record(&token);
        rec.minting_paused = false;
        self.tokens.set(token, rec);
        proof {
            assert(self.spec_tokens() =~= old(self).spec_tokens().insert(token, TokenRecord { minting_paused: false, ..old(self).spec_tokens()[token] }));
        }
        Ok(())
    }

    /// Switches minting of `token` off for good (owner only; once).
    pub fn finalize_minting(&mut self, token: Address, caller: Address) -> (r: Result<(), TokenFactoryError>)
        requires
            old(self).wf(),
        ensures
            final(self).wf(),
            ({
                let rec = old(self).spec_tokens()[token];
                if !old(self).spec_tokens().dom().contains(token) {
                    r == Err::<(), TokenFactoryError>(TokenFactoryError::TokenNotFound) && *final(self) == *old(self)
                } else if rec.owner != caller {
                    r == Err::<(), TokenFactoryError>(TokenFactoryError::Unauthorized) && *final(self) == *old(self)
                } else if rec.minting_finalized {
                    r == Err::<(), TokenFactoryError>(TokenFactoryError::MintingAlreadyFinalized) && *final(self) == *old(self)
                } else {
                    r is Ok && old(self).only_records(&*final(self),
                        old(self).spec_tokens().insert(token, TokenRecord { minting_finalized: true, ..rec }), old(self).spec_treasury())
                }
            }),
    {
        let rec = match self.record_of(&token) {
            Err(e) => return Err(e),
            Ok(r) => r,
        };
        if !rec.owner.same(&caller) {
            return Err(TokenFactoryError::Unauthorized);
        }
        if rec.minting_finalized {
            return Err(TokenFactoryError::MintingAlreadyFinalized);
        }
        let mut rec = self.take_record(&token);
        rec.minting_finalized = true;
        self.tokens.set(token, rec);
        proof {
            assert(self.spec_tokens() =~= old(self).spec_tokens().insert(token, TokenRecord { minting_finalized: true, ..old(self).spec_tokens()[token] }));
        }
        Ok(())
    }

    /// Pauses transfers of `token` (owner only, for the pause fee).
    pub fn pause_token(&mut self, token: Address, caller: Address, caller_zbx_balance: u128) -> (r: Result<(), TokenFactoryError>)
        requires
            old(self).wf(),
        ensures
            final(self).wf(),
            ({
                let fee = old(self).spec_fees().token_pause_fee;
                let rec = old(self).spec_tokens()[token];
                if caller_zbx_balance < fee {
                    r == Err::<(), TokenFactoryError>(TokenFactoryError::InsufficientFee { have: caller_zbx_balance, need: fee })
                        && *final(self) == *old(self)
                } else if !old(self).spec_tokens().dom().contains(token) {
                    r == Err::<(), TokenFactoryError>(TokenFactoryError::TokenNotFound) && *final(self) == *old(self)
                } else if rec.owner != caller {
                    r == Err::<(), TokenFactoryError>(TokenFactoryError::Unauthorized) && *final(self) == *old(self)
                } else {
                    r is Ok && old(self).only_records(&*final(self),
                        old(self).spec_tokens().insert(token, TokenRecord { paused: true, ..rec }),
                        if old(self).spec_treasury() + fee > u128::MAX { u128::MAX } else { (old(self).spec_treasury() + fee) as u128 })
                }
            }),
    {
        let fee = self.fee_registry.token_pause_fee();
        if caller_zbx_balance < fee {
            return Err(TokenFactoryError::InsufficientFee { have: caller_zbx_balance, need: fee });
        }
        let rec = match self.record_of(&token) {
            Err(e) => return Err(e),
            Ok(r) => r,
        };
        if !rec.owner.same(&caller) {
            return Err(TokenFactoryError::Unauthorized);
        }
        let mut rec = self.take_record(&token);
        rec.paused = true;
        self.tokens.set(token, rec);
        self.treasury_balance = self.treasury_balance.saturating_add(fee);
        proof {
            assert(self.spec_tokens() =~= old(self).spec_tokens().insert(token, TokenRecord { paused: true, ..old(self).spec_tokens()[token] }));
        }
        Ok(())
    }

    /// Lifts the transfer pause of `token` (owner only, free).
    pub fn unpause_token(&mut self, token: Address, caller: Address) -> (r: Result<(), TokenFactoryError>)
        requires
            old(self).wf(),
        ensures
            final(self).wf(),
            ({
                let rec = old(self).spec_tokens()[token];
                if !old(self).spec_tokens().dom().contains(token) {
                    r == Err::<(), TokenFactoryError>(TokenFactoryError::TokenNotFound) && *final(self) == *old(self)
                } else if rec.owner != caller {
                    r == Err::<(), TokenFactoryError>(TokenFactoryError::Unauthorized) && *final(self) == *old(self)
                } else {
                    r is Ok && old(self).only_records(&*final(self),
                        old(self).spec_tokens().insert(token, TokenRecord { paused: false, ..rec }), old(self).spec_treasury())
                }
            }),
    {
        let rec = match self.record_of(&token) {
            Err(e) => return Err(e),
            Ok(r) => r,
        };
        if !rec.owner.same(&caller) {
            return Err(TokenFactoryError::Unauthorized);
        }
        let mut rec = self.take_record(&token);
        rec.paused = false;
        self.tokens.set(token, rec);
        proof {
            assert(self.spec_tokens() =~= old(self).spec_tokens().insert(token, TokenRecord { paused: false, ..old(self).spec_tokens()[token] }));
        }
        Ok(())
    }

    /// Freezes `account` for `token` (owner only; not when already frozen).
    pub fn freeze_account(&mut self, token: Address, caller: Address, account: Address) -> (r: Result<(), TokenFactoryError>)
        requires
            old(self).wf(),
        ensures
            final(self).wf(),
            final(self).spec_tokens() == old(self).spec_tokens(),
            !old(self).spec_tokens().dom().contains(token) ==> r == Err::<(), TokenFactoryError>(TokenFactoryError::TokenNotFound) && *final(self) == *old(self),
            old(self).spec_tokens().dom().contains(token) && old(self).spec_tokens()[token].owner != caller
                ==> r == Err::<(), TokenFactoryError>(TokenFactoryError::Unauthorized) && *final(self) == *old(self),
            old(self).spec_tokens().dom().contains(token) && old(self).spec_tokens()[token].owner == caller
                && old(self).spec_frozen(token, account)
                ==> r == Err::<(), TokenFactoryError>(TokenFactoryError::AccountAlreadyFrozen) && *final(self) == *old(self),
            old(self).spec_tokens().dom().contains(token) && old(self).spec_tokens()[token].owner == caller
                && !old(self).spec_frozen(token, account) ==> r is Ok
                && final(self).spec_frozen(token, account)
                && (forall|tk: Address, a: Address| (tk, a) != (token, account) ==> #[trigger] final(self).spec_frozen(tk, a) == old(self).spec_frozen(tk, a))
                && (forall|tk: Address, a: Address| #[trigger] final(self).spec_lock(tk, a) == old(self).spec_lock(tk, a)),
    {
        let rec = match self.record_of(&token) {
            Err(e) => return Err(e),
            Ok(r) => r,
        };
        if !rec.owner.same(&caller) {
            return Err(TokenFactoryError::Unauthorized);
        }
        if self.is_frozen(token, account) {
            return Err(TokenFactoryError::AccountAlreadyFrozen);
        }
        self.frozen_accounts.set((token, account), true);
        Ok(())
    }

    /// Lifts the freeze of `account` for `token` (owner only; only when
    /// frozen).
    pub fn unfreeze_account(&mut self, token: Address, caller: Address, account: Address) -> (r: Result<(), TokenFactoryError>)
        requires
            old(self).wf(),
        ensures
            final(self).wf(),
            final(self).spec_tokens() == old(self).spec_tokens(),
            !old(self).spec_tokens().dom().contains(token) ==> r == Err::<(), TokenFactoryError>(TokenFactoryError::TokenNotFound) && *final(self) == *old(self),
            old(self).spec_tokens().dom().contains(token) && old(self).spec_tokens()[token].owner != caller
                ==> r == Err::<(), TokenFactoryError>(TokenFactoryError::Unauthorized) && *final(self) == *old(self),
            old(self).spec_tokens().dom().contains(token) && old(self).spec_tokens()[token].owner == caller
                && !old(self).spec_frozen(token, account)
                ==> r == Err::<(), TokenFactoryError>(TokenFactoryError::AccountNotFrozen) && *final(self) == *old(self),
            old(self).spec_tokens().dom().contains(token) && old(self).spec_tokens()[token].owner == caller
                && old(self).spec_frozen(token, account) ==> r is Ok
                && !final(self).spec_frozen(token, account)
                && (forall|tk: Address, a: Address| (tk, a) != (token, account) ==> #[trigger] final(self).spec_frozen(tk, a) == old(self).spec_frozen(tk, a))
                && (forall|tk: Address, a: Address| #[trigger] final(self).spec_lock(tk, a) == old(self).spec_lock(tk, a)),
    {
        let rec = match self.record_of(&token) {
            Err(e) => return Err(e),
            Ok(r) => r,
        };
        if !rec.owner.same(&caller) {
            return Err(TokenFactoryError::Unauthorized);
        }
        if !self.is_frozen(token, account) {
            return Err(TokenFactoryError::AccountNotFrozen);
        }
        self.frozen_accounts.set((token, account), false);
        Ok(())
    }

    /// Whether `account` is frozen for `token`.
    pub fn is_frozen(&self, token: Address, account: Address) -> (r: bool)
        requires
            self.wf(),
        ensures
            r == self.spec_frozen(token, account),
    {
        match self.frozen_accounts.get(&(token, account)) {
            Some(b) => *b,
            None => false,
        }
    }

    /// `balance` when `account` is frozen for `token`, else zero.
    pub fn frozen_balance(&self, token: Address, account: Address, balance: u128) -> (r: u128)
        requires
            self.wf(),
        ensures
            r == (if self.spec_frozen(token, account) { balance } else { 0 }),
    {
        if self.is_frozen(token, account) { balance } else { 0 }
    }

    fn lock_of(&self, token: Address, account: Address) -> (r: Option<LockEntry>)
        requires
            self.wf(),
        ensures
            r == self.spec_lock(token, account),
    {
        match self.token_locks.get(&(token, account)) {
            Some(l) => Some(*l),
            None => None,
        }
    }

    /// Locks `amount` of `account`'s `token` until `unlock_time` (owner
    /// only): the amount must be positive and covered by the balance, the
    /// time in the future, and no lock may be active.
    pub fn lock_tokens(&mut self, token: Address, caller: Address, account: Address, amount: u128, unlock_time: u64,
        current_time: u64, account_balance: u128) -> (r: Result<(), TokenFactoryError>)
        requires
            old(self).wf(),
        ensures
            final(self).wf(),
            final(self).spec_tokens() == old(self).spec_tokens(),
            forall|tk: Address, a: Address| #[trigger] final(self).spec_frozen(tk, a) == old(self).spec_frozen(tk, a),
            ({
                let rec = old(self).spec_tokens()[token];
                let l = old(self).spec_lock(token, account);
                if !old(self).spec_tokens().dom().contains(token) {
                    r == Err::<(), TokenFactoryError>(TokenFactoryError::TokenNotFound) && *final(self) == *old(self)
                } else if rec.owner != caller {
                    r == Err::<(), TokenFactoryError>(TokenFactoryError::Unauthorized) && *final(self) == *old(self)
                } else if amount == 0 {
                    r == Err::<(), TokenFactoryError>(TokenFactoryError::InsufficientBalanceForLock { have: 0, need: 1 }) && *final(self) == *old(self)
                } else if unlock_time <= current_time {
                    r == Err::<(), TokenFactoryError>(TokenFactoryError::UnlockTimeInPast) && *final(self) == *old(self)
                } else if account_balance < amount {
                    r == Err::<(), TokenFactoryError>(TokenFactoryError::InsufficientBalanceForLock { have: account_balance, need: amount })
                        && *final(self) == *old(self)
                } else if l matches Some(e) && e.amount > 0 && current_time < e.unlock_time {
                    r == Err::<(), TokenFactoryError>(TokenFactoryError::ActiveLockExists) && *final(self) == *old(self)
                } else {
                    &&& r is Ok
                    &&& final(self).spec_lock(token, account) == Some(LockEntry { amount, unlock_time })
                    &&& forall|tk: Address, a: Address| (tk, a) != (token, account) ==> #[trigger] final(self).spec_lock(tk, a) == old(self).spec_lock(tk, a)
                }
            }),
    {
        let rec = match self.record_of(&token) {
            Err(e) => return Err(e),
            Ok(r) => r,
        };
        if !rec.owner.same(&caller) {
            return Err(TokenFactoryError::Unauthorized);
        }
        if amount == 0 {
            return Err(TokenFactoryError::InsufficientBalanceForLock { have: 0, need: 1 });
        }
        if unlock_time <= current_time {
            return Err(TokenFactoryError::UnlockTimeInPast);
        }
        if account_balance < amount {
            return Err(TokenFactoryError::InsufficientBalanceForLock { have: account_balance, need: amount });
        }
        match self.lock_of(token, account) {
            Some(l) => {
                if l.amount > 0 && current_time < l.unlock_time {
                    return Err(TokenFactoryError::ActiveLockExists);
                }
            },
            None => {},
        }
        self.token_locks.set((token, account), LockEntry { amount, unlock_time });
        Ok(())
    }

    /// Grows the active lock on `account`'s `token` (owner only): neither
    /// the amount nor the time may shrink, and the balance must cover the
    /// new amount.
    pub fn extend_lock(&mut self, token: Address, caller: Address, account: Address, new_amount: u128, new_unlock_time: u64,
        current_time: u64, account_balance: u128) -> (r: Result<(), TokenFactoryError>)
        requires
            old(self).wf(),
        ensures
            final(self).wf(),
            final(self).spec_tokens() == old(self).spec_tokens(),
            forall|tk: Address, a: Address| #[trigger] final(self).spec_frozen(tk, a) == old(self).spec_frozen(tk, a),
            ({
                let rec = old(self).spec_tokens()[token];
                let l = old(self).spec_lock(token, account);
                if !old(self).spec_tokens().dom().contains(token) {
                    r == Err::<(), TokenFactoryError>(TokenFactoryError::TokenNotFound) && *final(self) == *old(self)
                } else if rec.owner != caller {
                    r == Err::<(), TokenFactoryError>(TokenFactoryError::Unauthorized) && *final(self) == *old(self)
                } else if l is None || l->0.amount == 0 {
                    r == Err::<(), TokenFactoryError>(TokenFactoryError::LockNotFound) && *final(self) == *old(self)
                } else if current_time >= l->0.unlock_time {
                    r == Err::<(), TokenFactoryError>(TokenFactoryError::LockExpired) && *final(self) == *old(self)
                } else if new_amount < l->0.amount || new_unlock_time < l->0.unlock_time {
                    r == Err::<(), TokenFactoryError>(TokenFactoryError::LockMustGrow) && *final(self) == *old(self)
                } else if account_balance < new_amount {
                    r == Err::<(), TokenFactoryError>(TokenFactoryError::InsufficientBalanceForLock { have: account_balance, need: new_amount })
                        && *final(self) == *old(self)
                } else {
                    &&& r is Ok
                    &&& final(self).spec_lock(token, account) == Some(LockEntry { amount: new_amount, unlock_time: new_unlock_time })
                    &&& forall|tk: Address, a: Address| (tk, a) != (token, account) ==> #[trigger] final(self).spec_lock(tk, a) == old(self).spec_lock(tk, a)
                }
            }),
    {
        let rec = match self.record_of(&token) {
            Err(e) => return Err(e),
            Ok(r) => r,
        };
        if !rec.owner.same(&caller) {
            return Err(TokenFactoryError::Unauthorized);
        }
        let l = match self.lock_of(token, account) {
            None => return Err(TokenFactoryError::LockNotFound),
            Some(l) => l,
        };
        if l.amount == 0 {
            return Err(TokenFactoryError::LockNotFound);
        }
        if current_time >= l.unlock_time {
            return Err(TokenFactoryError::LockExpired);
        }
        if new_amount < l.amount {
            return Err(TokenFactoryError::LockMustGrow);
        }
        if new_unlock_time < l.unlock_time {
            return Err(TokenFactoryError::LockMustGrow);
        }
        if account_balance < new_amount {
            return Err(TokenFactoryError::InsufficientBalanceForLock { have: account_balance, need: new_amount });
        }
        self.token_locks.set((token, account), LockEntry { amount: new_amount, unlock_time: new_unlock_time });
        Ok(())
    }

    /// The amount locked at `current_time` (zero once the lock has ended).
    pub fn locked_balance_of(&self, token: Address, account: Address, current_time: u64) -> (r: u128)
        requires
            self.wf(),
        ensures
            r == locked_at(self.spec_lock(token, account), current_time),
    {
        match self.lock_of(token, account) {
            Some(l) => if l.amount > 0 && current_time < l.unlock_time { l.amount } else { 0 },
            None => 0,
        }
    }

    /// `balance` less the locked amount (at least zero).
    pub fn transferable_balance(&self, token: Address, account: Address, current_time: u64, balance: u128) -> (r: u128)
        requires
            self.wf(),
        ensures
            r == (if balance >= locked_at(self.spec_lock(token, account), current_time) {
                balance - locked_at(self.spec_lock(token, account), current_time) } else { 0 }),
    {
        let locked = self.locked_balance_of(token, account, current_time);
        balance.saturating_sub(locked)
    }

    /// The raw lock: `(amount, unlock_time)`, or `(0, 0)` when none.
    pub fn lock_info(&self, token: Address, account: Address) -> (r: (u128, u64))
        requires
            self.wf(),
        ensures
            r == (match self.spec_lock(token, account) {
                Some(l) => (l.amount, l.unlock_time),
                None => (0u128, 0u64),
            }),
    {
        match self.lock_of(token, account) {
            Some(l) => (l.amount, l.unlock_time),
            None => (0, 0),
        }
    }

    /// Registers the metadata URI of `token` (owner only, for the metadata
    /// fee).
    pub fn register_metadata(&mut self, token: Address, caller: Address, metadata_uri: String, caller_zbx_balance: u128)
        -> (r: Result<(), TokenFactoryError>)
        requires
            old(self).wf(),
        ensures
            final(self).wf(),
            ({
                let fee = old(self).spec_fees().metadata_fee;
                let rec = old(self).spec_tokens()[token];
                if caller_zbx_balance < fee {
                    r == Err::<(), TokenFactoryError>(TokenFactoryError::InsufficientFee { have: caller_zbx_balance, need: fee })
                        && *final(self) == *old(self)
                } else if !old(self).spec_tokens().dom().contains(token) {
                    r == Err::<(), TokenFactoryError>(TokenFactoryError::TokenNotFound) && *final(self) == *old(self)
                } else if rec.owner != caller {
                    r == Err::<(), TokenFactoryError>(TokenFactoryError::Unauthorized) && *final(self) == *old(self)
                } else {
                    r is Ok && old(self).only_records(&*final(self),
                        old(self).spec_tokens().insert(token, TokenRecord { metadata_uri: Some(metadata_uri), ..rec }),
                        if old(self).spec_treasury() + fee > u128::MAX { u128::MAX } else { (old(self).spec_treasury() + fee) as u128 })
                }
            }),
    {
        let fee = self.fee_registry.metadata_registration_fee();
        if caller_zbx_balance < fee {
            return Err(TokenFactoryError::InsufficientFee { have: caller_zbx_balance, need: fee });
        }
        let rec = match self.record_of(&token) {
            Err(e) => return Err(e),
            Ok(r) => r,
        };
        if !rec.owner.same(&caller) {
            return Err(TokenFactoryError::Unauthorized);
        }
        let mut rec = self.take_record(&token);
        let ghost uri = metadata_uri;
        rec.metadata_uri = Some(metadata_uri);
        self.tokens.set(token, rec);
        self.treasury_balance = self.treasury_balance.saturating_add(fee);
        proof {
            assert(self.spec_tokens() =~= old(self).spec_tokens().insert(token, TokenRecord { metadata_uri: Some(uri), ..old(self).spec_tokens()[token] }));
        }
        Ok(())
    }

    /// Replaces the logo URI of `token` (owner only, free) and returns the
    /// previous one.
    pub fn update_logo_uri(&mut self, token: Address, caller: Address, new_uri: String)
        -> (r: Result<Option<String>, TokenFactoryError>)
        requires
            old(self).wf(),
        ensures
            final(self).wf(),
            ({
                let rec = old(self).spec_tokens()[token];
                if !old(self).spec_tokens().dom().contains(token) {
                    r == Err::<Option<String>, TokenFactoryError>(TokenFactoryError::TokenNotFound) && *final(self) == *old(self)
                } else if rec.owner != caller {
                    r == Err::<Option<String>, TokenFactoryError>(TokenFactoryError::Unauthorized) && *final(self) == *old(self)
                } else {
                    r == Ok::<Option<String>, TokenFactoryError>(rec.logo_uri) && old(self).only_records(&*final(self),
                        old(self).spec_tokens().insert(token, TokenRecord { logo_uri: Some(new_uri), ..rec }), old(self).spec_treasury())
                }
            }),
    {
        let rec = match self.record_of(&token) {
            Err(e) => return Err(e),
            Ok(r) => r,
        };
        if !rec.owner.same(&caller) {
            return Err(TokenFactoryError::Unauthorized);
        }
        let mut rec = self.take_record(&token);
        let ghost uri = new_uri;
        let old_uri = rec.logo_uri.take();
        rec.logo_uri = Some(new_uri);
        self.tokens.set(token, rec);
        proof {
            assert(self.spec_tokens() =~= old(self).spec_tokens().insert(token, TokenRecord { logo_uri: Some(uri), ..old(self).spec_tokens()[token] }));
        }
        Ok(old_uri)
    }

    /// The record of the token at `addr`.
    pub fn get_token(&self, addr: &Address) -> (r: Option<&TokenRecord>)
        requires
            self.wf(),
        ensures
            r matches Some(rec) ==> self.spec_tokens().dom().contains(*addr) && *rec == self.spec_tokens()[*addr],
            r is None ==> !self.spec_tokens().dom().contains(*addr),
    {
        self.tokens.get(addr)
    }

    /// The record of the token registered under `symbol`.
    pub fn find_by_symbol(&self, symbol: &str) -> (r: Option<&TokenRecord>)
        requires
            self.wf(),
        ensures
            match self.symbol_addr(symbol@) {
                None => r is None,
                Some(a) => if self.spec_tokens().dom().contains(a) {
                    r matches Some(rec) && *rec == self.spec_tokens()[a]
                } else {
                    r is None
                },
            },
            !self.symbol_taken(symbol@) ==> r is None,
            r matches Some(rec) ==> exists|i: int| 0 <= i < self.spec_symbols().len()
                && (#[trigger] self.spec_symbols()[i]).0 == symbol@
                && self.spec_tokens().dom().contains(self.spec_symbols()[i].1)
                && *rec == self.spec_tokens()[self.spec_symbols()[i].1],
    {
        match self.find_symbol(symbol) {
            None => {
                proof {
                    if exists|i: int| self.is_first_symbol(i, symbol@) {
                        let i = choose|i: int| self.is_first_symbol(i, symbol@);
                        assert(self.spec_symbols()[i].0 == symbol@);
                    }
                }
                None
            },
            Some(i) => {
                let addr = self.symbol_index[i].1;
                proof {
                    assert(self.spec_symbols()[i as int].1 == addr);
                    let k = choose|k: int| self.is_first_symbol(k, symbol@);
                    if k < i as int {
                        assert(self.spec_symbols()[k].0 != symbol@);
                    } else if k > i as int {
                        assert(self.spec_symbols()[i as int].0 != symbol@);
                    }
                    assert(self.symbol_addr(symbol@) == Some(addr));
                }
                self.tokens.get(&addr)
            },
        }
    }

    /// The number of tokens.
    pub fn token_count(&self) -> (r: usize)
        ensures
            r == self.spec_token_entries().len(),
    {
        self.tokens.len()
    }

    /// The fee registry.
    pub fn fee_registry(&self) -> (r: &FeeRegistry)
        ensures
            *r == self.spec_fees(),
    {
        &self.fee_registry
    }

    /// All token records.
    pub fn all_tokens(&self) -> (r: Vec<&TokenRecord>)
        requires
            self.wf(),
        ensures
            r@.len() == self.spec_token_entries().len(),
            forall|i: int| 0 <= i < r@.len() ==> *r@[i] == #[trigger] self.spec_token_entries()[i].1,
    {
        let mut out: Vec<&TokenRecord> = Vec::new();
        let mut i: usize = 0;
        while i < self.tokens.len()
            invariant
                0 <= i <= self.tokens.spec_entries().len(),
                out@.len() == i,
                forall|k: int| 0 <= k < i ==> *out@[k] == #[trigger] self.tokens.spec_entries()[k].1,
            decreases self.tokens.spec_entries().len() - i,
        {
            out.push(self.tokens.value_at(i));
            i += 1;
        }
        out
    }
}

/// The outcome of creating a token from `params` on `s`, leaving `t` and
/// answering `r`.
pub open spec fn create_token_post(s: TokenFactory, t: TokenFactory, params: CreateTokenParams,
    r: Result<Address, TokenFactoryError>) -> bool {
    let nlen = encode_utf8(params.name@).len();
    let slen = encode_utf8(params.symbol@).len();
    let fee = s.spec_fees().token_creation_fee;
    if nlen == 0 || nlen > 64 {
        r == Err::<Address, TokenFactoryError>(TokenFactoryError::InvalidName) && t == s
    } else if slen == 0 || slen > 12 {
        r == Err::<Address, TokenFactoryError>(TokenFactoryError::InvalidSymbol) && t == s
    } else if params.decimals > 18 {
        r == Err::<Address, TokenFactoryError>(TokenFactoryError::InvalidDecimals) && t == s
    } else if params.total_supply > MAX_TOKEN_SUPPLY {
        r == Err::<Address, TokenFactoryError>(TokenFactoryError::SupplyTooLarge) && t == s
    } else if s.symbol_taken(params.symbol@) {
        r == Err::<Address, TokenFactoryError>(TokenFactoryError::SymbolAlreadyExists) && t == s
    } else if params.creator_zbx_balance < fee {
        r == Err::<Address, TokenFactoryError>(TokenFactoryError::InsufficientFee { have: params.creator_zbx_balance, need: fee })
            && t == s
    } else {
        r matches Ok(addr) && {
            let rec = TokenRecord {
                address: addr,
                name: params.name,
                symbol: params.symbol,
                decimals: params.decimals,
                total_supply: params.total_supply,
                max_supply: params.max_supply,
                owner: params.creator,
                mintable: params.mintable,
                paused: false,
                created_at: params.block_number,
                metadata_uri: None,
                logo_uri: params.logo_uri,
                minting_paused: false,
                minting_finalized: false,
            };
            &&& addr.0@ == token_address_spec(params.creator, s.spec_nonce(params.creator))
            &&& t.spec_tokens() == s.spec_tokens().insert(addr, rec)
            &&& t.spec_symbols() == s.spec_symbols().push((params.symbol@, addr))
            &&& t.spec_nonce(params.creator) == s.spec_nonce(params.creator) + 1
            &&& forall|c: Address| c != params.creator ==> #[trigger] t.spec_nonce(c) == s.spec_nonce(c)
            &&& t.spec_treasury() == (if s.spec_treasury() + fee > u128::MAX { u128::MAX }
                else { (s.spec_treasury() + fee) as u128 })
            &&& t.spec_fees() == s.spec_fees()
            &&& forall|tk: Address, a: Address| #[trigger] t.spec_frozen(tk, a) == s.spec_frozen(tk, a)
            &&& forall|tk: Address, a: Address| #[trigger] t.spec_lock(tk, a) == s.spec_lock(tk, a)
        }
    }
}

} // verus!

//! Token table records: creation rows (insert-if-absent, keyed by the pool
//! address) and pool-completion markers (a merge that flips `is_completed`
//! on every row whose main address matches).

use vstd::prelude::*;

use crate::address::spec_standard_address;
use crate::address::standardize_address;
use crate::errors::MappingError;
use crate::numeric::dec_val;
use crate::numeric::is_dec_numeral;
use crate::numeric::parse_i64;
use crate::numeric::parse_u128;

verus! {

/// Column count of the token table, which sizes its default insert chunks.
pub const TOKEN_FIELD_COUNT: usize = 18;

/// One row of the token table.  Reserve columns hold the exact integer value
/// of the decimal numeral that arrived on chain.
#[derive(Clone, Debug, PartialEq)]
pub struct Token {
    pub pool_addr: String,
    pub name: String,
    pub symbol: String,
    pub image: String,
    pub description: String,
    pub website: Option<String>,
    pub twitter: Option<String>,
    pub telegram: Option<String>,
    pub decimals: i16,
    pub pre_addr: String,
    pub main_addr: String,
    pub virtual_aptos_reserves: u128,
    pub virtual_token_reserves: u128,
    pub remain_token_reserves: u128,
    pub created_by: String,
    pub is_completed: bool,
    pub ts: i64,
    pub txn_version: i64,
}

/// Natural key of the token table.
pub open spec fn token_key(t: Token) -> Seq<char> {
    t.pool_addr@
}

/// A pool-completion marker: the main address whose token rows are completed.
#[derive(Clone, Debug, PartialEq)]
pub struct PoolCompleted {
    pub main_addr: String,
}

/// A decoded token-creation event, exactly as it arrives from the chain.
#[derive(Clone, Debug, PartialEq)]
pub struct TokenCreatedOnChain {
    pub name: String,
    pub symbol: String,
    pub image: String,
    pub description: String,
    pub website: Option<String>,
    pub twitter: Option<String>,
    pub telegram: Option<String>,
    pub decimals: i16,
    pub pre_addr: String,
    pub pool_addr: String,
    pub main_addr: String,
    pub virtual_aptos_reserves: String,
    pub virtual_token_reserves: String,
    pub remain_token_reserves: String,
    pub created_by: String,
    pub is_completed: bool,
    pub ts: String,
}

/// A decoded pool-completion event.
#[derive(Clone, Debug, PartialEq)]
pub struct PoolCompletedOnChain {
    pub token_addr: String,
}

/// Whether every reserve numeral of the event parses losslessly into its
/// 128-bit column.
pub open spec fn token_reserves_parse(e: TokenCreatedOnChain) -> bool {
    &&& is_dec_numeral(e.virtual_aptos_reserves@) && dec_val(e.virtual_aptos_reserves@)
        <= u128::MAX
    &&& is_dec_numeral(e.virtual_token_reserves@) && dec_val(e.virtual_token_reserves@)
        <= u128::MAX
    &&& is_dec_numeral(e.remain_token_reserves@) && dec_val(e.remain_token_reserves@) <= u128::MAX
}

/// Whether the event's timestamp numeral parses into its 64-bit column.
pub open spec fn token_ts_parses(e: TokenCreatedOnChain) -> bool {
    is_dec_numeral(e.ts@) && dec_val(e.ts@) <= i64::MAX
}

pub open spec fn token_event_parses(e: TokenCreatedOnChain) -> bool {
    token_reserves_parse(e) && token_ts_parses(e)
}

fn clone_opt_string(o: &Option<String>) -> (r: Option<String>)
    ensures
        r == *o,
{
    match o {
        Some(s) => Some(s.clone()),
        None => None,
    }
}

impl TokenCreatedOnChain {
    /// Maps the decoded event into its storage row for transaction
    /// `txn_version`: addresses are normalized, numerals are parsed
    /// losslessly, and any numeral that does not parse aborts the mapping.
    pub fn to_db_token(&self, txn_version: i64) -> (r: Result<Token, MappingError>)
        ensures
            r is Ok <==> token_event_parses(*self),
            r matches Ok(t) ==> {
                &&& t.pool_addr@ == spec_standard_address(self.pool_addr@)
                &&& t.name == self.name
                &&& t.symbol == self.symbol
                &&& t.image == self.image
                &&& t.description == self.description
                &&& t.website == self.website
                &&& t.twitter == self.twitter
                &&& t.telegram == self.telegram
                &&& t.decimals == self.decimals
                &&& t.pre_addr@ == spec_standard_address(self.pre_addr@)
                &&& t.main_addr@ == spec_standard_address(self.main_addr@)
                &&& t.virtual_aptos_reserves == dec_val(self.virtual_aptos_reserves@)
                &&& t.virtual_token_reserves == dec_val(self.virtual_token_reserves@)
                &&& t.remain_token_reserves == dec_val(self.remain_token_reserves@)
                &&& t.created_by@ == spec_standard_address(self.created_by@)
                &&& t.is_completed == self.is_completed
                &&& t.ts == dec_val(self.ts@)
                &&& t.txn_version == txn_version
            },
            r matches Err(e) ==> (e == MappingError::InvalidDecimal <==> !token_reserves_parse(
                *self,
            )) && (e == MappingError::InvalidTimestamp <==> token_reserves_parse(*self)
                && !token_ts_parses(*self)),
    {
        let virtual_aptos_reserves = match parse_u128(self.virtual_aptos_reserves.as_str()) {
            Some(v) => v,
            None => {
                return Err(MappingError::InvalidDecimal);
            },
        };
        let virtual_token_reserves = match parse_u128(self.virtual_token_reserves.as_str()) {
            Some(v) => v,
            None => {
                return Err(MappingError::InvalidDecimal);
            },
        };
        let remain_token_reserves = match parse_u128(self.remain_token_reserves.as_str()) {
            Some(v) => v,
            None => {
                return Err(MappingError::InvalidDecimal);
            },
        };
        let ts = match parse_i64(self.ts.as_str()) {
            Some(v) => v,
            None => {
                return Err(MappingError::InvalidTimestamp);
            },
        };
        Ok(
            Token {
                pool_addr: standardize_address(self.pool_addr.as_str()),
                name: self.name.clone(),
                symbol: self.symbol.clone(),
                image: self.image.clone(),
                description: self.description.clone(),
                website: clone_opt_string(&self.website),
                twitter: clone_opt_string(&self.twitter),
                telegram: clone_opt_string(&self.telegram),
                decimals: self.decimals,
                pre_addr: standardize_address(self.pre_addr.as_str()),
                main_addr: standardize_address(self.main_addr.as_str()),
                virtual_aptos_reserves,
                virtual_token_reserves,
                remain_token_reserves,
                created_by: standardize_address(self.created_by.as_str()),
                is_completed: self.is_completed,
                ts,
                txn_version,
            },
        )
    }
}

impl PoolCompletedOnChain {
    /// Maps the decoded completion event into its merge record; the token
    /// address is normalized into the main address it completes.
    pub fn to_db_pool_completed(&self) -> (r: PoolCompleted)
        ensures
            r.main_addr@ == spec_standard_address(self.token_addr@),
    {
        PoolCompleted { main_addr: standardize_address(self.token_addr.as_str()) }
    }
}

impl Token {
    /// An equal row, rebuilt field by field, as handed to a chunk statement.
    pub fn duplicate(&self) -> (r: Token)
        ensures
            r == *self,
    {
        Token {
            pool_addr: self.pool_addr.clone(),
            name: self.name.clone(),
            symbol: self.symbol.clone(),
            image: self.image.clone(),
            description: self.description.clone(),
            website: clone_opt_string(&self.website),
            twitter: clone_opt_string(&self.twitter),
            telegram: clone_opt_string(&self.telegram),
            decimals: self.decimals,
            pre_addr: self.pre_addr.clone(),
            main_addr: self.main_addr.clone(),
            virtual_aptos_reserves: self.virtual_aptos_reserves,
            virtual_token_reserves: self.virtual_token_reserves,
            remain_token_reserves: self.remain_token_reserves,
            created_by: self.created_by.clone(),
            is_completed: self.is_completed,
            ts: self.ts,
            txn_version: self.txn_version,
        }
    }
}

impl PoolCompleted {
    pub fn duplicate(&self) -> (r: PoolCompleted)
        ensures
            r == *self,
    {
        PoolCompleted { main_addr: self.main_addr.clone() }
    }
}

} // verus!

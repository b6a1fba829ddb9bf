//! Trade table records: one row per trade, insert-if-absent, keyed by the
//! transaction version.

use vstd::prelude::*;

use crate::address::spec_standard_address;
use crate::address::standardize_address;
use crate::errors::MappingError;
use crate::numeric::dec_val;
use crate::numeric::is_dec_numeral;
use crate::numeric::parse_i64;
use crate::numeric::parse_u128;

verus! {

/// Column count of the trade table, which sizes its default insert chunks.
pub const TRADE_FIELD_COUNT: usize = 9;

/// One row of the trade table.
#[derive(Clone, Debug, PartialEq)]
pub struct Trade {
    pub txn_version: i64,
    pub is_buy: bool,
    pub user_addr: String,
    pub aptos_amount: i64,
    pub token_amount: i64,
    pub token_address: String,
    pub virtual_aptos_reserves: u128,
    pub virtual_token_reserves: u128,
    pub ts: i64,
}

/// Natural key of the trade table.
pub open spec fn trade_key(t: Trade) -> int {
    t.txn_version as int
}

/// A decoded trade event, exactly as it arrives from the chain.
#[derive(Clone, Debug, PartialEq)]
pub struct TradeCreatedOnChain {
    pub is_buy: bool,
    pub user: String,
    pub aptos_amount: String,
    pub token_amount: String,
    pub token_address: String,
    pub virtual_aptos_reserves: String,
    pub virtual_token_reserves: String,
    pub ts: String,
}

/// Whether every amount and reserve numeral of the event parses losslessly
/// into its column.
pub open spec fn trade_amounts_parse(e: TradeCreatedOnChain) -> bool {
    &&& is_dec_numeral(e.aptos_amount@) && dec_val(e.aptos_amount@) <= i64::MAX
    &&& is_dec_numeral(e.token_amount@) && dec_val(e.token_amount@) <= i64::MAX
    &&& is_dec_numeral(e.virtual_aptos_reserves@) && dec_val(e.virtual_aptos_reserves@)
        <= u128::MAX
    &&& is_dec_numeral(e.virtual_token_reserves@) && dec_val(e.virtual_token_reserves@)
        <= u128::MAX
}

pub open spec fn trade_ts_parses(e: TradeCreatedOnChain) -> bool {
    is_dec_numeral(e.ts@) && dec_val(e.ts@) <= i64::MAX
}

pub open spec fn trade_event_parses(e: TradeCreatedOnChain) -> bool {
    trade_amounts_parse(e) && trade_ts_parses(e)
}

impl TradeCreatedOnChain {
    /// Maps the decoded event into its storage row for transaction
    /// `txn_version`; any numeral that does not parse aborts the mapping.
    pub fn to_db_trade(&self, txn_version: i64) -> (r: Result<Trade, MappingError>)
        ensures
            r is Ok <==> trade_event_parses(*self),
            r matches Ok(t) ==> {
                &&& t.txn_version == txn_version
                &&& t.is_buy == self.is_buy
                &&& t.user_addr@ == spec_standard_address(self.user@)
                &&& t.aptos_amount == dec_val(self.aptos_amount@)
                &&& t.token_amount == dec_val(self.token_amount@)
                &&& t.token_address@ == spec_standard_address(self.token_address@)
                &&& t.virtual_aptos_reserves == dec_val(self.virtual_aptos_reserves@)
                &&& t.virtual_token_reserves == dec_val(self.virtual_token_reserves@)
                &&& t.ts == dec_val(self.ts@)
            },
            r matches Err(e) ==> (e == MappingError::InvalidDecimal <==> !trade_amounts_parse(
                *self,
            )) && (e == MappingError::InvalidTimestamp <==> trade_amounts_parse(*self)
                && !trade_ts_parses(*self)),
    {
        let aptos_amount = match parse_i64(self.aptos_amount.as_str()) {
            Some(v) => v,
            None => {
                return Err(MappingError::InvalidDecimal);
            },
        };
        let token_amount = match parse_i64(self.token_amount.as_str()) {
            Some(v) => v,
            None => {
                return Err(MappingError::InvalidDecimal);
            },
        };
        let virtual_aptos_reserves = match parse_u128(self.virtual_aptos_reserves.as_str()) {
            Some(v) => v,
            None => {
                return Err(MappingError::InvalidDecimal);
            },
        };
        let virtual_token_reserves = match parse_u128(self.virtual_token_reserves.as_str()) {
            Some(v) => v,
            None => {
                return Err(MappingError::InvalidDecimal);
            },
        };
        let ts = match parse_i64(self.ts.as_str()) {
            Some(v) => v,
            None => {
                return Err(MappingError::InvalidTimestamp);
            },
        };
        Ok(
            Trade {
                txn_version,
                is_buy: self.is_buy,
                user_addr: standardize_address(self.user.as_str()),
                aptos_amount,
                token_amount,
                token_address: standardize_address(self.token_address.as_str()),
                virtual_aptos_reserves,
                virtual_token_reserves,
                ts,
            },
        )
    }
}

impl Trade {
    /// An equal row, rebuilt field by field, as handed to a chunk statement.
    pub fn duplicate(&self) -> (r: Trade)
        ensures
            r == *self,
    {
        Trade {
            txn_version: self.txn_version,
            is_buy: self.is_buy,
            user_addr: self.user_addr.clone(),
            aptos_amount: self.aptos_amount,
            token_amount: self.token_amount,
            token_address: self.token_address.clone(),
            virtual_aptos_reserves: self.virtual_aptos_reserves,
            virtual_token_reserves: self.virtual_token_reserves,
            ts: self.ts,
        }
    }
}

} // verus!

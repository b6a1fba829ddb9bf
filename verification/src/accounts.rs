//! Account table records and spin merge records.  A spin whose win-type code
//! is zero is an experience win: it accumulates its (narrowed) amount into
//! the claimer's experience counters.  Any other code mutates nothing.

use vstd::prelude::*;

use crate::address::spec_standard_address;
use crate::address::standardize_address;
use crate::errors::MappingError;
use crate::numeric::dec_val;
use crate::numeric::is_dec_numeral;
use crate::numeric::parse_i64;

verus! {

/// Column count of the account table, which sizes the default spin chunks.
pub const ACCOUNT_FIELD_COUNT: usize = 3;

/// Win-type code of a spin that awards experience.
pub const XP_WIN_TYPE: i32 = 0;

/// One row of the account table.
#[derive(Clone, Debug, PartialEq)]
pub struct Account {
    pub address: String,
    pub xp: i32,
    pub xp_earned: i32,
}

/// Natural key of the account table.
pub open spec fn account_key(a: Account) -> Seq<char> {
    a.address@
}

/// A spin merge record, targeting the claimer's account row.
#[derive(Clone, Debug, PartialEq)]
pub struct Spin {
    pub claimer: String,
    pub amount: i64,
    pub win_type: i32,
}

/// A decoded spin event, exactly as it arrives from the chain.
#[derive(Clone, Debug, PartialEq)]
pub struct SpinEventOnChain {
    pub claimer: String,
    pub win_type: i32,
    pub amount: String,
}

pub open spec fn spin_event_parses(e: SpinEventOnChain) -> bool {
    is_dec_numeral(e.amount@) && dec_val(e.amount@) <= i64::MAX
}

impl SpinEventOnChain {
    /// Maps the decoded event into its merge record; the amount must parse
    /// losslessly (narrowing to the 32-bit counters happens at merge time).
    pub fn to_db_account(&self) -> (r: Result<Spin, MappingError>)
        ensures
            r is Ok <==> spin_event_parses(*self),
            r matches Ok(s) ==> {
                &&& s.claimer@ == spec_standard_address(self.claimer@)
                &&& s.amount == dec_val(self.amount@)
                &&& s.win_type == self.win_type
            },
            r matches Err(e) ==> e == MappingError::InvalidDecimal,
    {
        let amount = match parse_i64(self.amount.as_str()) {
            Some(v) => v,
            None => {
                return Err(MappingError::InvalidDecimal);
            },
        };
        Ok(
            Spin {
                claimer: standardize_address(self.claimer.as_str()),
                amount,
                win_type: self.win_type,
            },
        )
    }
}

impl Account {
    /// An equal row, rebuilt field by field, as handed to a chunk statement.
    pub fn duplicate(&self) -> (r: Account)
        ensures
            r == *self,
    {
        Account { address: self.address.clone(), xp: self.xp, xp_earned: self.xp_earned }
    }
}

impl Spin {
    pub fn duplicate(&self) -> (r: Spin)
        ensures
            r == *self,
    {
        Spin { claimer: self.claimer.clone(), amount: self.amount, win_type: self.win_type }
    }
}

} // verus!

//! Staking table records: position-creation rows (insert-if-absent, keyed by
//! the position address), reward-claim merges (`claimed += amount`) and
//! position-removal merges (`is_removed = true`).

use vstd::prelude::*;

use crate::address::spec_standard_address;
use crate::address::standardize_address;
use crate::errors::MappingError;
use crate::numeric::dec_val;
use crate::numeric::is_dec_numeral;
use crate::numeric::parse_i64;

verus! {

/// Column count of the staking table, which sizes the default chunks of all
/// three staking kinds.
pub const STAKING_FIELD_COUNT: usize = 8;

/// One row of the staking table.
#[derive(Clone, Debug, PartialEq)]
pub struct Staking {
    pub position_addr: String,
    pub stake_addr: String,
    pub user: String,
    pub amount: i64,
    pub unlock_ts: i64,
    pub txn_version: i64,
    pub is_removed: bool,
    pub claimed: i64,
}

/// Natural key of the staking table.
pub open spec fn staking_key(s: Staking) -> Seq<char> {
    s.position_addr@
}

/// A decoded position-creation event, exactly as it arrives from the chain.
#[derive(Clone, Debug, PartialEq)]
pub struct PositionCreatedOnChain {
    pub stake_addr: String,
    pub position_addr: String,
    pub user: String,
    pub amount: String,
    pub unlock_ts: String,
}

/// A reward-claim merge record.
#[derive(Clone, Debug, PartialEq)]
pub struct RewardClaimed {
    pub position_addr: String,
    pub amount: i64,
}

/// A decoded reward-claim event.
#[derive(Clone, Debug, PartialEq)]
pub struct RewardClaimedOnChain {
    pub position_addr: String,
    pub user: String,
    pub amount: String,
    pub ts: String,
}

/// A position-removal merge record.
#[derive(Clone, Debug, PartialEq)]
pub struct StakingRemoved {
    pub position_addr: String,
}

/// A decoded position-removal event.
#[derive(Clone, Debug, PartialEq)]
pub struct StakingRemovedOnChain {
    pub position_addr: String,
    pub ts: String,
}

pub open spec fn position_amount_parses(e: PositionCreatedOnChain) -> bool {
    is_dec_numeral(e.amount@) && dec_val(e.amount@) <= i64::MAX
}

pub open spec fn position_unlock_ts_parses(e: PositionCreatedOnChain) -> bool {
    is_dec_numeral(e.unlock_ts@) && dec_val(e.unlock_ts@) <= i64::MAX
}

pub open spec fn position_event_parses(e: PositionCreatedOnChain) -> bool {
    position_amount_parses(e) && position_unlock_ts_parses(e)
}

pub open spec fn claim_event_parses(e: RewardClaimedOnChain) -> bool {
    is_dec_numeral(e.amount@) && dec_val(e.amount@) <= i64::MAX
}

impl PositionCreatedOnChain {
    /// Maps the decoded event into a fresh staking row for transaction
    /// `txn_version`: not yet removed, and with no reward claimed.
    pub fn to_db_staking(&self, txn_version: i64) -> (r: Result<Staking, MappingError>)
        ensures
            r is Ok <==> position_event_parses(*self),
            r matches Ok(s) ==> {
                &&& s.position_addr@ == spec_standard_address(self.position_addr@)
                &&& s.stake_addr@ == spec_standard_address(self.stake_addr@)
                &&& s.user@ == spec_standard_address(self.user@)
                &&& s.amount == dec_val(self.amount@)
                &&& s.unlock_ts == dec_val(self.unlock_ts@)
                &&& s.txn_version == txn_version
                &&& s.is_removed == false
                &&& s.claimed == 0
            },
            r matches Err(e) ==> (e == MappingError::InvalidDecimal <==> !position_amount_parses(
                *self,
            )) && (e == MappingError::InvalidTimestamp <==> position_amount_parses(*self)
                && !position_unlock_ts_parses(*self)),
    {
        let amount = match parse_i64(self.amount.as_str()) {
            Some(v) => v,
            None => {
                return Err(MappingError::InvalidDecimal);
            },
        };
        let unlock_ts = match parse_i64(self.unlock_ts.as_str()) {
            Some(v) => v,
            None => {
                return Err(MappingError::InvalidTimestamp);
            },
        };
        Ok(
            Staking {
                position_addr: standardize_address(self.position_addr.as_str()),
                stake_addr: standardize_address(self.stake_addr.as_str()),
                user: standardize_address(self.user.as_str()),
                amount,
                unlock_ts,
                txn_version,
                is_removed: false,
                claimed: 0,
            },
        )
    }
}

impl RewardClaimedOnChain {
    /// Maps the decoded event into its merge record; the claimed amount must
    /// parse losslessly.
    pub fn to_db_reward_claimed(&self) -> (r: Result<RewardClaimed, MappingError>)
        ensures
            r is Ok <==> claim_event_parses(*self),
            r matches Ok(c) ==> {
                &&& c.position_addr@ == spec_standard_address(self.position_addr@)
                &&& c.amount == dec_val(self.amount@)
            },
            r matches Err(e) ==> e == MappingError::InvalidDecimal,
    {
        let amount = match parse_i64(self.amount.as_str()) {
            Some(v) => v,
            None => {
                return Err(MappingError::InvalidDecimal);
            },
        };
        Ok(RewardClaimed { position_addr: standardize_address(self.position_addr.as_str()), amount })
    }
}

impl StakingRemovedOnChain {
    /// Maps the decoded event into its merge record; nothing can fail here.
    pub fn to_db_position_removed(&self) -> (r: StakingRemoved)
        ensures
            r.position_addr@ == spec_standard_address(self.position_addr@),
    {
        StakingRemoved { position_addr: standardize_address(self.position_addr.as_str()) }
    }
}

impl Staking {
    /// An equal row, rebuilt field by field, as handed to a chunk statement.
    pub fn duplicate(&self) -> (r: Staking)
        ensures
            r == *self,
    {
        Staking {
            position_addr: self.position_addr.clone(),
            stake_addr: self.stake_addr.clone(),
            user: self.user.clone(),
            amount: self.amount,
            unlock_ts: self.unlock_ts,
            txn_version: self.txn_version,
            is_removed: self.is_removed,
            claimed: self.claimed,
        }
    }
}

impl RewardClaimed {
    pub fn duplicate(&self) -> (r: RewardClaimed)
        ensures
            r == *self,
    {
        RewardClaimed { position_addr: self.position_addr.clone(), amount: self.amount }
    }
}

impl StakingRemoved {
    pub fn duplicate(&self) -> (r: StakingRemoved)
        ensures
            r == *self,
    {
        StakingRemoved { position_addr: self.position_addr.clone() }
    }
}

} // verus!

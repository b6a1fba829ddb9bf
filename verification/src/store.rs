//! In-memory model of the relational store: one ordered row sequence per
//! table.  Chunk application mutates this model exactly as the corresponding
//! statements mutate the relational tables, so every contract over it reads
//! as a statement about the materialized row sets.

use vstd::prelude::*;

use crate::accounts::Account;
use crate::stakings::Staking;
use crate::tokens::Token;
use crate::trades::Trade;
use crate::upgrades::ModuleUpgrade;
use crate::upgrades::PackageUpgrade;

verus! {

/// The nine materialized tables.  Rows are kept in insertion order; the
/// natural key of each table is given by its record module.
pub struct Store {
    pub tokens: Vec<Token>,
    pub trades: Vec<Trade>,
    pub stakings: Vec<Staking>,
    pub accounts: Vec<Account>,
    pub module_upgrades: Vec<ModuleUpgrade>,
    pub package_upgrades: Vec<PackageUpgrade>,
}

impl Store {
    /// An empty store.
    pub fn new() -> (r: Store)
        ensures
            r.tokens@ == Seq::<Token>::empty(),
            r.trades@ == Seq::<Trade>::empty(),
            r.stakings@ == Seq::<Staking>::empty(),
            r.accounts@ == Seq::<Account>::empty(),
            r.module_upgrades@ == Seq::<ModuleUpgrade>::empty(),
            r.package_upgrades@ == Seq::<PackageUpgrade>::empty(),
    {
        Store {
            tokens: Vec::new(),
            trades: Vec::new(),
            stakings: Vec::new(),
            accounts: Vec::new(),
            module_upgrades: Vec::new(),
            package_upgrades: Vec::new(),
        }
    }
}

} // verus!

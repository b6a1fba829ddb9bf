//! Module- and package-upgrade records: insert-if-absent rows keyed by the
//! upgraded unit's address, name and upgrade number.

use vstd::prelude::*;

verus! {

/// Column count of the module-upgrade table.
pub const MODULE_UPGRADE_FIELD_COUNT: usize = 4;

/// Column count of the package-upgrade table.
pub const PACKAGE_UPGRADE_FIELD_COUNT: usize = 4;

/// One row of the module-upgrade table.
#[derive(Clone, Debug, PartialEq)]
pub struct ModuleUpgrade {
    pub module_addr: String,
    pub module_name: String,
    pub upgrade_number: i64,
    pub txn_version: i64,
}

/// Natural key of the module-upgrade table.
pub open spec fn module_upgrade_key(m: ModuleUpgrade) -> (Seq<char>, Seq<char>, int) {
    (m.module_addr@, m.module_name@, m.upgrade_number as int)
}

/// One row of the package-upgrade table.
#[derive(Clone, Debug, PartialEq)]
pub struct PackageUpgrade {
    pub package_addr: String,
    pub package_name: String,
    pub upgrade_number: i64,
    pub txn_version: i64,
}

/// Natural key of the package-upgrade table.
pub open spec fn package_upgrade_key(p: PackageUpgrade) -> (Seq<char>, Seq<char>, int) {
    (p.package_addr@, p.package_name@, p.upgrade_number as int)
}

impl ModuleUpgrade {
    /// An equal row, rebuilt field by field, as handed to a chunk statement.
    pub fn duplicate(&self) -> (r: ModuleUpgrade)
        ensures
            r == *self,
    {
        ModuleUpgrade {
            module_addr: self.module_addr.clone(),
            module_name: self.module_name.clone(),
            upgrade_number: self.upgrade_number,
            txn_version: self.txn_version,
        }
    }
}

impl PackageUpgrade {
    pub fn duplicate(&self) -> (r: PackageUpgrade)
        ensures
            r == *self,
    {
        PackageUpgrade {
            package_addr: self.package_addr.clone(),
            package_name: self.package_name.clone(),
            upgrade_number: self.upgrade_number,
            txn_version: self.txn_version,
        }
    }
}

} // verus!

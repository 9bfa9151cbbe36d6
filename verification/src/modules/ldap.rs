//! The directory-management module: its descriptor and assembly. The
//! directory connection and queries themselves are the embedding
//! program's collaborators and live behind the tools' operations.

use vstd::prelude::*;

verus! {

use crate::cli::{Module, ModuleState, Tool};
use vstd::string::*;

pub struct LDAPModule;

impl LDAPModule {
    /// Assembles the directory-management module over its tools.
    pub fn init_module<Op>(tools: Vec<Tool<Op>>) -> (m: Module<Op>)
        ensures
            m.spec_name() == "LDAP Management Module"@,
            m.spec_desc() == "Manage LDAP users and groups"@,
            m.spec_tools() == tools@,
            m.spec_state() == ModuleState::ToolSelect,
            m.wf(),
    {
        Module::with_meta(
            "LDAP Management Module".to_owned(),
            "Manage LDAP users and groups".to_owned(),
            tools,
        )
    }
}

} // verus!

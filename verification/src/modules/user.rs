//! The user-management module: its descriptor and assembly. It carries no
//! tools yet.

use vstd::prelude::*;

verus! {

use crate::cli::{Module, ModuleState, Tool};
use vstd::string::*;

pub struct UserModule;

impl UserModule {
    /// Assembles the user-management module; it has no tools yet.
    pub fn init_module<Op>() -> (m: Module<Op>)
        ensures
            m.spec_name() == "User Management Module"@,
            m.spec_desc() == "Manage Users"@,
            m.spec_tools() == Seq::<Tool<Op>>::empty(),
            m.spec_state() == ModuleState::ToolSelect,
            m.wf(),
    {
        let tools: Vec<Tool<Op>> = Vec::new();
        proof {
            assert(tools@ =~= Seq::<Tool<Op>>::empty());
        }
        Module::with_meta("User Management Module".to_owned(), "Manage Users".to_owned(), tools)
    }

    /// The line this module reports when it runs.
    pub fn run_message() -> (r: String)
        ensures
            r@ == "Running User Management Module"@,
    {
        "Running User Management Module".to_owned()
    }
}

} // verus!

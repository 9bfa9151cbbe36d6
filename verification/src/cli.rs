//! The hierarchical menu state machine: a console owns an ordered, fixed
//! sequence of modules, each module an ordered, fixed sequence of tools.
//!
//! Each level is driven by the same tagged navigation state: listing its
//! entries, holding control at a selected entry, or quitting one level up.
//! The work a tool performs is an opaque operation value `Op` chosen by the
//! embedding program; the framework stores it, hands it out for execution,
//! and never inspects it.

use vstd::prelude::*;

verus! {

use vstd::string::*;
use crate::io::{quit_spec, selects, parsed_value};
use crate::text::{screen_lines, strs_view, pairs_view, render_screen};

/// Navigation state of the console's own (top) level.
#[derive(Clone, Copy, PartialEq, Eq, Structural, Debug)]
pub enum CLIState {
    /// Listing the modules, awaiting a selection.
    ModSelect,
    /// The module at this 0-based index has control.
    InModule(usize),
    /// Terminal: the console loop exits.
    Quit,
}

/// Navigation state of one module's level.
#[derive(Clone, Copy, PartialEq, Eq, Structural, Debug)]
pub enum ModuleState {
    /// Listing the module's tools, awaiting a selection.
    ToolSelect,
    /// The tool at this 0-based index has been selected and runs.
    InTool(usize),
    /// Terminal: control returns to the console's module listing.
    Quit,
}

/// A leaf capability: a named, described, invocable unit of work. The
/// operation itself is an opaque value the framework never inspects.
pub struct Tool<Op> {
    name: String,
    desc: String,
    op: Op,
}

impl<Op> Tool<Op> {
    pub closed spec fn spec_name(&self) -> Seq<char> {
        self.name@
    }

    pub closed spec fn spec_desc(&self) -> Seq<char> {
        self.desc@
    }

    pub closed spec fn spec_op(&self) -> Op {
        self.op
    }

    /// Binds a descriptor to an operation.
    pub fn with_meta(name: String, desc: String, op: Op) -> (t: Tool<Op>)
        ensures
            t.spec_name() == name@,
            t.spec_desc() == desc@,
            t.spec_op() == op,
    {
        Tool { name, desc, op }
    }

    pub fn name(&self) -> (r: &str)
        ensures
            r@ == self.spec_name(),
    {
        self.name.as_str()
    }

    pub fn desc(&self) -> (r: &str)
        ensures
            r@ == self.spec_desc(),
    {
        self.desc.as_str()
    }

    /// The operation bound to this tool, for the embedding program to run.
    pub fn op(&self) -> (r: &Op)
        ensures
            *r == self.spec_op(),
    {
        &self.op
    }
}

/// The (name, description) metadata of each tool, in order.
pub open spec fn tool_metas<Op>(tools: Seq<Tool<Op>>) -> Seq<(Seq<char>, Seq<char>)>
    decreases tools.len(),
{
    if tools.len() == 0 {
        Seq::empty()
    } else {
        tool_metas(tools.drop_last()).push(
            (tools.last().spec_name(), tools.last().spec_desc()),
        )
    }
}

/// A named, described container owning an ordered, fixed sequence of tools
/// and its own navigation state.
pub struct Module<Op> {
    name: String,
    desc: String,
    tools: Vec<Tool<Op>>,
    state: ModuleState,
}

impl<Op> Module<Op> {
    pub closed spec fn spec_name(&self) -> Seq<char> {
        self.name@
    }

    pub closed spec fn spec_desc(&self) -> Seq<char> {
        self.desc@
    }

    pub closed spec fn spec_tools(&self) -> Seq<Tool<Op>> {
        self.tools@
    }

    pub closed spec fn spec_state(&self) -> ModuleState {
        self.state
    }

    /// A selected tool index is always a valid position in the tool list.
    pub open spec fn wf(&self) -> bool {
        self.spec_state() matches ModuleState::InTool(t) ==> (t as int)
            < self.spec_tools().len()
    }

    /// The fixed part of a module: everything but its navigation state.
    pub open spec fn same_entries(&self, other: &Module<Op>) -> bool {
        &&& self.spec_name() == other.spec_name()
        &&& self.spec_desc() == other.spec_desc()
        &&& self.spec_tools() == other.spec_tools()
    }

    /// Assembles a module from a descriptor and its already-constructed
    /// tools; navigation starts at the tool listing.
    pub fn with_meta(name: String, desc: String, tools: Vec<Tool<Op>>) -> (m: Module<Op>)
        ensures
            m.spec_name() == name@,
            m.spec_desc() == desc@,
            m.spec_tools() == tools@,
            m.spec_state() == ModuleState::ToolSelect,
            m.wf(),
    {
        Module { name, desc, tools, state: ModuleState::ToolSelect }
    }

    pub fn name(&self) -> (r: &str)
        ensures
            r@ == self.spec_name(),
    {
        self.name.as_str()
    }

    pub fn desc(&self) -> (r: &str)
        ensures
            r@ == self.spec_desc(),
    {
        self.desc.as_str()
    }

    pub fn state(&self) -> (s: ModuleState)
        ensures
            s == self.spec_state(),
    {
        self.state
    }

    pub fn tool_count(&self) -> (n: usize)
        ensures
            n == self.spec_tools().len(),
    {
        self.tools.len()
    }

    pub fn tool(&self, i: usize) -> (t: &Tool<Op>)
        requires
            i < self.spec_tools().len(),
        ensures
            *t == self.spec_tools()[i as int],
    {
        &self.tools[i]
    }

    /// Control enters the module: its navigation restarts at the listing.
    pub fn enter(&mut self)
        ensures
            final(self).same_entries(old(self)),
            final(self).spec_state() == ModuleState::ToolSelect,
            final(self).wf(),
    {
        self.state = ModuleState::ToolSelect;
    }

    /// The lines of this module's tool menu.
    pub fn print_tools(&self) -> (lines: Vec<String>)
        ensures
            strs_view(lines@) == screen_lines(
                "Available Tools:"@,
                tool_metas(self.spec_tools()),
            ),
    {
        let mut entries: Vec<(String, String)> = Vec::new();
        let n = self.tools.len();
        let mut i: usize = 0;
        proof {
            assert(pairs_view(entries@) =~= tool_metas(self.tools@.take(0)));
        }
        while i < n
            invariant
                i <= n,
                n == self.tools@.len(),
                entries@.len() == i,
                pairs_view(entries@) == tool_metas(self.tools@.take(i as int)),
            decreases n - i,
        {
            let ghost prev = entries@;
            let t = &self.tools[i];
            entries.push((t.name.clone(), t.desc.clone()));
            proof {
                assert(self.tools@.take(i + 1).drop_last() =~= self.tools@.take(i as int));
                assert(self.tools@.take(i + 1).last() == self.tools@[i as int]);
                assert(tool_metas(self.tools@.take(i + 1)) == tool_metas(
                    self.tools@.take(i as int),
                ).push(
                    (self.tools@[i as int].spec_name(), self.tools@[i as int].spec_desc()),
                ));
                assert(entries@ == prev.push(entries@.last()));
                assert(entries@.last().0@ == self.tools@[i as int].spec_name());
                assert(entries@.last().1@ == self.tools@[i as int].spec_desc());
                assert forall|k: int| 0 <= k < entries@.len() implies #[trigger] pairs_view(
                    entries@,
                )[k] == tool_metas(self.tools@.take(i + 1))[k] by {
                    assert(pairs_view(entries@)[k] == (entries@[k].0@, entries@[k].1@));
                    if k < i {
                        assert(entries@[k] == prev[k]);
                        assert(pairs_view(prev)[k] == (prev[k].0@, prev[k].1@));
                    }
                }
                assert(pairs_view(entries@) =~= tool_metas(self.tools@.take(i + 1)));
            }
            i = i + 1;
        }
        proof {
            assert(self.tools@.take(n as int) =~= self.tools@);
        }
        render_screen("Available Tools:", &entries)
    }

    /// One listing-state transition on an operator input line: quit, a valid
    /// 1-based tool selection, or a recoverable rejection with a notice.
    pub fn select_tool(&mut self, input: &str) -> (notice: Option<String>)
        requires
            old(self).spec_state() == ModuleState::ToolSelect,
        ensures
            final(self).same_entries(old(self)),
            final(self).wf(),
            quit_spec(input@) ==> final(self).spec_state() == ModuleState::Quit && notice
                is None,
            !quit_spec(input@) && selects(input@, old(self).spec_tools().len()) ==> final(self).spec_state() == ModuleState::InTool((parsed_value(input@) - 1) as usize) && notice
                is None,
            !quit_spec(input@) && !selects(input@, old(self).spec_tools().len()) ==> final(self).spec_state() == ModuleState::ToolSelect && (notice matches Some(msg) && msg@
                == "Invalid selection"@),
    {
        if crate::io::is_quit(input) {
            self.state = ModuleState::Quit;
            return None;
        }
        match crate::io::select_index(input, self.tools.len()) {
            Some(index) => {
                self.state = ModuleState::InTool(index - 1);
                None
            },
            None => Some("Invalid selection".to_owned()),
        }
    }

    /// The tool currently holding control.
    pub fn active_tool(&self) -> (t: &Tool<Op>)
        requires
            self.wf(),
            self.spec_state() matches ModuleState::InTool(_),
        ensures
            self.spec_state() matches ModuleState::InTool(i) && *t == self.spec_tools()[i as int],
    {
        match self.state {
            ModuleState::InTool(i) => &self.tools[i],
            _ => unreached(),
        }
    }

    /// The selected tool's run has completed; control returns to the
    /// listing unconditionally.
    pub fn tool_done(&mut self)
        requires
            old(self).spec_state() matches ModuleState::InTool(_),
        ensures
            final(self).same_entries(old(self)),
            final(self).spec_state() == ModuleState::ToolSelect,
            final(self).wf(),
    {
        self.state = ModuleState::ToolSelect;
    }
}

/// The (name, description) metadata of each module, in order.
pub open spec fn module_metas<Op>(modules: Seq<Module<Op>>) -> Seq<(Seq<char>, Seq<char>)>
    decreases modules.len(),
{
    if modules.len() == 0 {
        Seq::empty()
    } else {
        module_metas(modules.drop_last()).push(
            (modules.last().spec_name(), modules.last().spec_desc()),
        )
    }
}

/// The top-level controller: owns the modules and drives the root
/// navigation loop.
pub struct CLI<Op> {
    modules: Vec<Module<Op>>,
    state: CLIState,
}

impl<Op> CLI<Op> {
    pub closed spec fn spec_modules(&self) -> Seq<Module<Op>> {
        self.modules@
    }

    pub closed spec fn spec_state(&self) -> CLIState {
        self.state
    }

    /// A selected module index is always a valid position, and every module
    /// is itself well formed.
    pub open spec fn wf(&self) -> bool {
        &&& self.spec_state() matches CLIState::InModule(m) ==> (m as int)
            < self.spec_modules().len()
        &&& forall|i: int|
            0 <= i < self.spec_modules().len() ==> (#[trigger] self.spec_modules()[i]).wf()
    }

    /// The fixed part of the console: every module's entries, in order.
    pub open spec fn same_entries(&self, other: &CLI<Op>) -> bool {
        &&& self.spec_modules().len() == other.spec_modules().len()
        &&& forall|i: int|
            0 <= i < self.spec_modules().len() ==> (#[trigger] self.spec_modules()[i]).same_entries(
                &other.spec_modules()[i],
            )
    }

    /// Creates the console over a fixed list of fully-initialized modules;
    /// navigation starts at the module listing.
    pub fn new(modules: Vec<Module<Op>>) -> (cli: CLI<Op>)
        requires
            forall|i: int| 0 <= i < modules@.len() ==> (#[trigger] modules@[i]).wf(),
        ensures
            cli.spec_modules() == modules@,
            cli.spec_state() == CLIState::ModSelect,
            cli.wf(),
    {
        CLI { modules, state: CLIState::ModSelect }
    }

    pub fn state(&self) -> (s: CLIState)
        ensures
            s == self.spec_state(),
    {
        self.state
    }

    pub fn module_count(&self) -> (n: usize)
        ensures
            n == self.spec_modules().len(),
    {
        self.modules.len()
    }

    pub fn module(&self, i: usize) -> (m: &Module<Op>)
        requires
            i < self.spec_modules().len(),
        ensures
            *m == self.spec_modules()[i as int],
    {
        &self.modules[i]
    }

    /// The lines of the top-level module menu.
    pub fn print_modules(&self) -> (lines: Vec<String>)
        ensures
            strs_view(lines@) == screen_lines(
                "Available Modules:"@,
                module_metas(self.spec_modules()),
            ),
    {
        let mut entries: Vec<(String, String)> = Vec::new();
        let n = self.modules.len();
        let mut i: usize = 0;
        proof {
            assert(pairs_view(entries@) =~= module_metas(self.modules@.take(0)));
        }
        while i < n
            invariant
                i <= n,
                n == self.modules@.len(),
                entries@.len() == i,
                pairs_view(entries@) == module_metas(self.modules@.take(i as int)),
            decreases n - i,
        {
            let ghost prev = entries@;
            let m = &self.modules[i];
            entries.push((m.name.clone(), m.desc.clone()));
            proof {
                assert(self.modules@.take(i + 1).drop_last() =~= self.modules@.take(i as int));
                assert(self.modules@.take(i + 1).last() == self.modules@[i as int]);
                assert(module_metas(self.modules@.take(i + 1)) == module_metas(
                    self.modules@.take(i as int),
                ).push(
                    (self.modules@[i as int].spec_name(), self.modules@[i as int].spec_desc()),
                ));
                assert(entries@ == prev.push(entries@.last()));
                assert(entries@.last().0@ == self.modules@[i as int].spec_name());
                assert(entries@.last().1@ == self.modules@[i as int].spec_desc());
                assert forall|k: int| 0 <= k < entries@.len() implies #[trigger] pairs_view(
                    entries@,
                )[k] == module_metas(self.modules@.take(i + 1))[k] by {
                    assert(pairs_view(entries@)[k] == (entries@[k].0@, entries@[k].1@));
                    if k < i {
                        assert(entries@[k] == prev[k]);
                        assert(pairs_view(prev)[k] == (prev[k].0@, prev[k].1@));
                    }
                }
                assert(pairs_view(entries@) =~= module_metas(self.modules@.take(i + 1)));
            }
            i = i + 1;
        }
        proof {
            assert(self.modules@.take(n as int) =~= self.modules@);
        }
        render_screen("Available Modules:", &entries)
    }

    /// One listing-state transition on an operator input line: quit, a valid
    /// 1-based module selection, or a recoverable rejection with a notice.
    pub fn select_module(&mut self, input: &str) -> (notice: Option<String>)
        requires
            old(self).spec_state() == CLIState::ModSelect,
            old(self).wf(),
        ensures
            final(self).same_entries(old(self)),
            final(self).spec_modules() == old(self).spec_modules(),
            final(self).wf(),
            quit_spec(input@) ==> final(self).spec_state() == CLIState::Quit && notice is None,
            !quit_spec(input@) && selects(input@, old(self).spec_modules().len()) ==> final(self).spec_state() == CLIState::InModule((parsed_value(input@) - 1) as usize) && notice
                is None,
            !quit_spec(input@) && !selects(input@, old(self).spec_modules().len()) ==> final(self).spec_state() == CLIState::ModSelect && (notice matches Some(msg) && msg@
                == "Invalid selection"@),
    {
        if crate::io::is_quit(input) {
            self.state = CLIState::Quit;
            return None;
        }
        match crate::io::select_index(input, self.modules.len()) {
            Some(index) => {
                self.state = CLIState::InModule(index - 1);
                None
            },
            None => Some("Invalid selection".to_owned()),
        }
    }

    /// Control enters the selected module: its navigation restarts at its
    /// tool listing. Every other module is untouched.
    pub fn enter_module(&mut self)
        requires
            old(self).wf(),
            old(self).spec_state() matches CLIState::InModule(_),
        ensures
            final(self).same_entries(old(self)),
            final(self).wf(),
            final(self).spec_state() == old(self).spec_state(),
            old(self).spec_state() matches CLIState::InModule(m) && final(self).spec_modules()[m as int].spec_state() == ModuleState::ToolSelect && (forall|i: int|
                0 <= i < old(self).spec_modules().len() && i != m as int ==> final(self).spec_modules()[i] == old(self).spec_modules()[i]),
    {
        let m = match self.state {
            CLIState::InModule(m) => m,
            _ => unreached(),
        };
        self.modules[m].enter();
    }

    /// The selected module's tool menu.
    pub fn print_tools(&self) -> (lines: Vec<String>)
        requires
            self.wf(),
            self.spec_state() matches CLIState::InModule(_),
        ensures
            self.spec_state() matches CLIState::InModule(m) && strs_view(lines@) == screen_lines(
                "Available Tools:"@,
                tool_metas(self.spec_modules()[m as int].spec_tools()),
            ),
    {
        let m = match self.state {
            CLIState::InModule(m) => m,
            _ => unreached(),
        };
        self.modules[m].print_tools()
    }

    /// One tool-listing transition of the selected module on an operator
    /// input line: quit, a valid 1-based tool selection, or a recoverable
    /// rejection with a notice. Every other module is untouched.
    pub fn select_tool(&mut self, input: &str) -> (notice: Option<String>)
        requires
            old(self).wf(),
            old(self).spec_state() matches CLIState::InModule(m) && old(self).spec_modules()[m as int].spec_state() == ModuleState::ToolSelect,
        ensures
            final(self).same_entries(old(self)),
            final(self).wf(),
            final(self).spec_state() == old(self).spec_state(),
            old(self).spec_state() matches CLIState::InModule(m) && ({
                let mold = old(self).spec_modules()[m as int];
                let mnew = final(self).spec_modules()[m as int];
                &&& forall|i: int|
                    0 <= i < old(self).spec_modules().len() && i != m as int ==> final(self).spec_modules()[i] == old(self).spec_modules()[i]
                &&& quit_spec(input@) ==> mnew.spec_state() == ModuleState::Quit && notice is None
                &&& !quit_spec(input@) && selects(input@, mold.spec_tools().len())
                    ==> mnew.spec_state() == ModuleState::InTool(
                    (parsed_value(input@) - 1) as usize,
                ) && notice is None
                &&& !quit_spec(input@) && !selects(input@, mold.spec_tools().len())
                    ==> mnew.spec_state() == ModuleState::ToolSelect && (notice matches Some(msg)
                    && msg@ == "Invalid selection"@)
            }),
    {
        let m = match self.state {
            CLIState::InModule(m) => m,
            _ => unreached(),
        };
        self.modules[m].select_tool(input)
    }

    /// The tool currently holding control in the selected module.
    pub fn active_tool(&self) -> (t: &Tool<Op>)
        requires
            self.wf(),
            self.spec_state() matches CLIState::InModule(m) && self.spec_modules()[m as int].spec_state() matches ModuleState::InTool(_),
        ensures
            self.spec_state() matches CLIState::InModule(m) && (self.spec_modules()[m as int].spec_state() matches ModuleState::InTool(ti) && *t == self.spec_modules()[m as int].spec_tools()[ti as int]),
    {
        let m = match self.state {
            CLIState::InModule(m) => m,
            _ => unreached(),
        };
        self.modules[m].active_tool()
    }

    /// The selected module's running tool has completed; that module
    /// returns to its tool listing. Every other module is untouched.
    pub fn tool_done(&mut self)
        requires
            old(self).wf(),
            old(self).spec_state() matches CLIState::InModule(m) && old(self).spec_modules()[m as int].spec_state() matches ModuleState::InTool(_),
        ensures
            final(self).same_entries(old(self)),
            final(self).wf(),
            final(self).spec_state() == old(self).spec_state(),
            old(self).spec_state() matches CLIState::InModule(m) && final(self).spec_modules()[m as int].spec_state() == ModuleState::ToolSelect && (forall|i: int|
                0 <= i < old(self).spec_modules().len() && i != m as int ==> final(self).spec_modules()[i] == old(self).spec_modules()[i]),
    {
        let m = match self.state {
            CLIState::InModule(m) => m,
            _ => unreached(),
        };
        self.modules[m].tool_done();
    }

    /// The selected module's run has completed; control returns to the
    /// module listing unconditionally.
    pub fn module_done(&mut self)
        requires
            old(self).spec_state() matches CLIState::InModule(_),
        ensures
            final(self).spec_modules() == old(self).spec_modules(),
            final(self).spec_state() == CLIState::ModSelect,
            old(self).wf() ==> final(self).wf(),
    {
        self.state = CLIState::ModSelect;
    }
}

/// What one module-level run reports, in order of occurrence.
#[derive(Clone, Copy, PartialEq, Eq, Structural, Debug)]
pub enum ModuleEvent {
    /// The tool menu was shown.
    Listed,
    /// An input line was rejected with the invalid-selection notice.
    Rejected,
    /// The tool at this 0-based index ran to completion.
    Invoked(usize),
    /// The module quit; control returns to the console.
    Exited,
}

pub open spec fn module_rank(s: ModuleState) -> nat {
    match s {
        ModuleState::InTool(_) => 1,
        _ => 0,
    }
}

/// The full behaviour of one module's run loop over a script of input
/// lines: the events it reports, the navigation state it stops in, and how
/// many input lines it consumes. The run ends when the module quits or the
/// script is exhausted.
pub open spec fn module_run_spec(
    n_tools: nat,
    state: ModuleState,
    inputs: Seq<Seq<char>>,
) -> (Seq<ModuleEvent>, ModuleState, nat)
    decreases inputs.len(), module_rank(state),
{
    match state {
        ModuleState::ToolSelect => {
            if inputs.len() == 0 {
                (seq![ModuleEvent::Listed], ModuleState::ToolSelect, 0 as nat)
            } else {
                let s = inputs[0];
                if quit_spec(s) {
                    let rest = module_run_spec(n_tools, ModuleState::Quit, inputs.drop_first());
                    (seq![ModuleEvent::Listed] + rest.0, rest.1, 1 + rest.2)
                } else if selects(s, n_tools) {
                    let rest = module_run_spec(
                        n_tools,
                        ModuleState::InTool((parsed_value(s) - 1) as usize),
                        inputs.drop_first(),
                    );
                    (seq![ModuleEvent::Listed] + rest.0, rest.1, 1 + rest.2)
                } else {
                    let rest = module_run_spec(
                        n_tools,
                        ModuleState::ToolSelect,
                        inputs.drop_first(),
                    );
                    (seq![ModuleEvent::Listed, ModuleEvent::Rejected] + rest.0, rest.1, 1 + rest.2)
                }
            }
        },
        ModuleState::InTool(t) => {
            let rest = module_run_spec(n_tools, ModuleState::ToolSelect, inputs);
            (seq![ModuleEvent::Invoked(t)] + rest.0, rest.1, rest.2)
        },
        ModuleState::Quit => (seq![ModuleEvent::Exited], ModuleState::Quit, 0 as nat),
    }
}

/// A module run never consumes more lines than the script holds, and a run
/// that starts at the listing and ends in `Quit` consumed at least one.
pub proof fn lemma_module_run_consumed(n_tools: nat, state: ModuleState, inputs: Seq<Seq<char>>)
    ensures
        module_run_spec(n_tools, state, inputs).2 <= inputs.len(),
        state == ModuleState::ToolSelect && module_run_spec(n_tools, state, inputs).1
            == ModuleState::Quit ==> module_run_spec(n_tools, state, inputs).2 >= 1,
    decreases inputs.len(), module_rank(state),
{
    match state {
        ModuleState::ToolSelect => {
            if inputs.len() > 0 {
                let s = inputs[0];
                if quit_spec(s) {
                    lemma_module_run_consumed(n_tools, ModuleState::Quit, inputs.drop_first());
                } else if selects(s, n_tools) {
                    lemma_module_run_consumed(
                        n_tools,
                        ModuleState::InTool((parsed_value(s) - 1) as usize),
                        inputs.drop_first(),
                    );
                } else {
                    lemma_module_run_consumed(n_tools, ModuleState::ToolSelect, inputs.drop_first());
                }
            }
        },
        ModuleState::InTool(_) => {
            lemma_module_run_consumed(n_tools, ModuleState::ToolSelect, inputs);
        },
        ModuleState::Quit => {},
    }
}

impl<Op> Module<Op> {
    /// Runs this module's navigation loop over a script of input lines,
    /// starting at position `start`. Reports the events of the run and the
    /// position of the first line it did not consume. A selected tool's
    /// invocation is reported to the caller, who owns the operation.
    pub fn run_loop(&mut self, inputs: &Vec<String>, start: usize) -> (r: (
        Vec<ModuleEvent>,
        usize,
    ))
        requires
            old(self).wf(),
            start <= inputs@.len(),
        ensures
            ({
                let m = module_run_spec(
                    old(self).spec_tools().len(),
                    old(self).spec_state(),
                    strs_view(inputs@).skip(start as int),
                );
                &&& final(self).same_entries(old(self))
                &&& final(self).wf()
                &&& final(self).spec_state() == m.1
                &&& r.0@ == m.0
                &&& r.1 == start + m.2
                &&& r.1 <= inputs@.len()
            }),
        decreases inputs@.len() - start, module_rank(old(self).spec_state()),
    {
        let ghost iv = strs_view(inputs@).skip(start as int);
        let st = self.state;
        match st {
            ModuleState::ToolSelect => {
                let mut events: Vec<ModuleEvent> = Vec::new();
                events.push(ModuleEvent::Listed);
                if start == inputs.len() {
                    proof {
                        assert(iv.len() == 0);
                        assert(events@ =~= seq![ModuleEvent::Listed]);
                    }
                    return (events, start);
                }
                let input = &inputs[start];
                proof {
                    assert(iv[0] == inputs@[start as int]@);
                    assert(iv.drop_first() =~= strs_view(inputs@).skip(start as int + 1));
                    assert(iv.len() > 0);
                }
                let notice = self.select_tool(input.as_str());
                if notice.is_some() {
                    events.push(ModuleEvent::Rejected);
                }
                let r = self.run_loop(inputs, start + 1);
                let mut rest = r.0;
                let next = r.1;
                let ghost head = events@;
                let ghost rest0 = rest@;
                events.append(&mut rest);
                proof {
                    let m = module_run_spec(
                        old(self).spec_tools().len(),
                        ModuleState::ToolSelect,
                        iv,
                    );
                    if quit_spec(iv[0]) {
                        assert(events@ =~= seq![ModuleEvent::Listed] + rest0);
                        assert(events@ == m.0);
                    } else if selects(iv[0], old(self).spec_tools().len()) {
                        assert(events@ =~= seq![ModuleEvent::Listed] + rest0);
                        assert(events@ == m.0);
                    } else {
                        assert(head =~= seq![ModuleEvent::Listed, ModuleEvent::Rejected]);
                        assert(events@ =~= seq![ModuleEvent::Listed, ModuleEvent::Rejected] + rest0);
                        assert(events@ == m.0);
                    }
                }
                (events, next)
            },
            ModuleState::InTool(t) => {
                let mut events: Vec<ModuleEvent> = Vec::new();
                events.push(ModuleEvent::Invoked(t));
                self.tool_done();
                let r = self.run_loop(inputs, start);
                let mut rest = r.0;
                let next = r.1;
                let ghost rest0 = rest@;
                events.append(&mut rest);
                proof {
                    assert(events@ =~= seq![ModuleEvent::Invoked(t)] + rest0);
                }
                (events, next)
            },
            ModuleState::Quit => {
                let mut events: Vec<ModuleEvent> = Vec::new();
                events.push(ModuleEvent::Exited);
                proof {
                    assert(events@ =~= seq![ModuleEvent::Exited]);
                }
                (events, start)
            },
        }
    }
}

/// What one console-level run reports, in order of occurrence.
#[derive(Clone, Copy, PartialEq, Eq, Structural, Debug)]
pub enum Event {
    /// The module menu was shown.
    ListedModules,
    /// The tool menu of the module at this 0-based index was shown.
    ListedTools(usize),
    /// An input line was rejected with the invalid-selection notice.
    Rejected,
    /// Tool `.1` of module `.0` (0-based) ran to completion.
    Invoked(usize, usize),
    /// The module at this 0-based index quit back to the module menu.
    LeftModule(usize),
    /// The console quit; the process exits normally.
    Exited,
}

/// A module-level event, as the console reports it for module `m`.
pub open spec fn lift_event(m: usize, e: ModuleEvent) -> Event {
    match e {
        ModuleEvent::Listed => Event::ListedTools(m),
        ModuleEvent::Rejected => Event::Rejected,
        ModuleEvent::Invoked(t) => Event::Invoked(m, t),
        ModuleEvent::Exited => Event::LeftModule(m),
    }
}

pub open spec fn lift_events(m: usize, evs: Seq<ModuleEvent>) -> Seq<Event> {
    evs.map_values(|e: ModuleEvent| lift_event(m, e))
}

pub open spec fn cli_rank(s: CLIState) -> nat {
    match s {
        CLIState::InModule(_) => 1,
        _ => 0,
    }
}

/// The full behaviour of the console's run loop over a script of input
/// lines: the events it reports, the state it stops in, and how many lines
/// it consumes. `tool_counts` holds each module's number of tools. While a
/// module has control, its own run loop consumes the script; control
/// returns to the module menu exactly when that module quits.
pub open spec fn cli_run_spec(
    n_modules: nat,
    tool_counts: Seq<nat>,
    state: CLIState,
    inputs: Seq<Seq<char>>,
) -> (Seq<Event>, CLIState, nat)
    decreases inputs.len(), cli_rank(state),
    via cli_run_spec_decreases
{
    match state {
        CLIState::ModSelect => {
            if inputs.len() == 0 {
                (seq![Event::ListedModules], CLIState::ModSelect, 0 as nat)
            } else {
                let s = inputs[0];
                if quit_spec(s) {
                    let rest = cli_run_spec(
                        n_modules,
                        tool_counts,
                        CLIState::Quit,
                        inputs.drop_first(),
                    );
                    (seq![Event::ListedModules] + rest.0, rest.1, 1 + rest.2)
                } else if selects(s, n_modules) {
                    let rest = cli_run_spec(
                        n_modules,
                        tool_counts,
                        CLIState::InModule((parsed_value(s) - 1) as usize),
                        inputs.drop_first(),
                    );
                    (seq![Event::ListedModules] + rest.0, rest.1, 1 + rest.2)
                } else {
                    let rest = cli_run_spec(
                        n_modules,
                        tool_counts,
                        CLIState::ModSelect,
                        inputs.drop_first(),
                    );
                    (seq![Event::ListedModules, Event::Rejected] + rest.0, rest.1, 1 + rest.2)
                }
            }
        },
        CLIState::InModule(m) => {
            let mr = module_run_spec(tool_counts[m as int], ModuleState::ToolSelect, inputs);
            if mr.1 == ModuleState::Quit {
                let rest = cli_run_spec(
                    n_modules,
                    tool_counts,
                    CLIState::ModSelect,
                    inputs.skip(mr.2 as int),
                );
                (lift_events(m, mr.0) + rest.0, rest.1, mr.2 + rest.2)
            } else {
                (lift_events(m, mr.0), CLIState::InModule(m), mr.2)
            }
        },
        CLIState::Quit => (seq![Event::Exited], CLIState::Quit, 0 as nat),
    }
}

#[via_fn]
proof fn cli_run_spec_decreases(
    n_modules: nat,
    tool_counts: Seq<nat>,
    state: CLIState,
    inputs: Seq<Seq<char>>,
) {
    match state {
        CLIState::InModule(m) => {
            lemma_module_run_consumed(tool_counts[m as int], ModuleState::ToolSelect, inputs);
        },
        _ => {},
    }
}

/// A well-formed selection at the tool listing hands control to exactly
/// the selected tool, deterministically: on input `s` selecting entry `i`
/// (1-based), tool `i - 1` runs exactly once and the run is back at the
/// listing, which continues over the remaining input.
pub proof fn lemma_tool_selection_invokes_and_returns(
    n_tools: nat,
    s: Seq<char>,
    rest: Seq<Seq<char>>,
)
    requires
        !quit_spec(s),
        selects(s, n_tools),
    ensures
        ({
            let t = (parsed_value(s) - 1) as usize;
            let sub = module_run_spec(n_tools, ModuleState::ToolSelect, rest);
            module_run_spec(n_tools, ModuleState::ToolSelect, seq![s] + rest) == (
                seq![ModuleEvent::Listed, ModuleEvent::Invoked(t)] + sub.0,
                sub.1,
                (1 + sub.2) as nat,
            )
        }),
{
    let inputs = seq![s] + rest;
    assert(inputs[0] == s);
    assert(inputs.drop_first() =~= rest);
    let t = (parsed_value(s) - 1) as usize;
    let sub = module_run_spec(n_tools, ModuleState::ToolSelect, rest);
    let mid = module_run_spec(n_tools, ModuleState::InTool(t), rest);
    assert(mid == (seq![ModuleEvent::Invoked(t)] + sub.0, sub.1, sub.2));
    assert(module_run_spec(n_tools, ModuleState::ToolSelect, inputs) == (
        seq![ModuleEvent::Listed] + mid.0,
        mid.1,
        (1 + mid.2) as nat,
    ));
    assert(seq![ModuleEvent::Listed] + (seq![ModuleEvent::Invoked(t)] + sub.0) =~= seq![
        ModuleEvent::Listed,
        ModuleEvent::Invoked(t),
    ] + sub.0);
}

/// An input that is neither the quit sentinel nor a valid selection
/// leaves a module at its tool listing, and repeating the same invalid
/// input repeats the same observable rejection from the same state.
pub proof fn lemma_module_invalid_input_idempotent(
    n_tools: nat,
    s: Seq<char>,
    rest: Seq<Seq<char>>,
)
    requires
        !quit_spec(s),
        !selects(s, n_tools),
    ensures
        ({
            let sub = module_run_spec(n_tools, ModuleState::ToolSelect, rest);
            module_run_spec(n_tools, ModuleState::ToolSelect, seq![s, s] + rest) == (
                seq![
                    ModuleEvent::Listed,
                    ModuleEvent::Rejected,
                    ModuleEvent::Listed,
                    ModuleEvent::Rejected,
                ] + sub.0,
                sub.1,
                (2 + sub.2) as nat,
            )
        }),
{
    let sub = module_run_spec(n_tools, ModuleState::ToolSelect, rest);
    let one = seq![s] + rest;
    let two = seq![s, s] + rest;
    let step1 = module_run_spec(n_tools, ModuleState::ToolSelect, one);
    let step2 = module_run_spec(n_tools, ModuleState::ToolSelect, two);
    assert(two[0] == s);
    assert(two.drop_first() =~= one);
    assert(one[0] == s);
    assert(one.drop_first() =~= rest);
    assert(step1 == (
        seq![ModuleEvent::Listed, ModuleEvent::Rejected] + sub.0,
        sub.1,
        (1 + sub.2) as nat,
    ));
    assert(step2 == (
        seq![ModuleEvent::Listed, ModuleEvent::Rejected] + step1.0,
        step1.1,
        (1 + step1.2) as nat,
    ));
    assert(seq![ModuleEvent::Listed, ModuleEvent::Rejected] + (seq![
        ModuleEvent::Listed,
        ModuleEvent::Rejected,
    ] + sub.0) =~= seq![
        ModuleEvent::Listed,
        ModuleEvent::Rejected,
        ModuleEvent::Listed,
        ModuleEvent::Rejected,
    ] + sub.0);
}

/// A well-formed selection at the module listing hands control to exactly
/// the selected module, deterministically: on input `s` selecting entry
/// `i` (1-based), the run continues as the run from that module's level,
/// after one listing of the modules.
pub proof fn lemma_selection_enters_module(
    n_modules: nat,
    tool_counts: Seq<nat>,
    s: Seq<char>,
    rest: Seq<Seq<char>>,
)
    requires
        !quit_spec(s),
        selects(s, n_modules),
    ensures
        ({
            let m = (parsed_value(s) - 1) as usize;
            let sub = cli_run_spec(n_modules, tool_counts, CLIState::InModule(m), rest);
            cli_run_spec(n_modules, tool_counts, CLIState::ModSelect, seq![s] + rest) == (
                seq![Event::ListedModules] + sub.0,
                sub.1,
                (1 + sub.2) as nat,
            )
        }),
{
    let inputs = seq![s] + rest;
    assert(inputs[0] == s);
    assert(inputs.drop_first() =~= rest);
}

/// While a module has control and its run ends in quit, control returns
/// unconditionally to the console's module listing, which continues over
/// the remaining input.
pub proof fn lemma_active_returns_to_listing(
    n_modules: nat,
    tool_counts: Seq<nat>,
    m: usize,
    inputs: Seq<Seq<char>>,
)
    requires
        module_run_spec(tool_counts[m as int], ModuleState::ToolSelect, inputs).1
            == ModuleState::Quit,
    ensures
        ({
            let mr = module_run_spec(tool_counts[m as int], ModuleState::ToolSelect, inputs);
            let rest = cli_run_spec(
                n_modules,
                tool_counts,
                CLIState::ModSelect,
                inputs.skip(mr.2 as int),
            );
            cli_run_spec(n_modules, tool_counts, CLIState::InModule(m), inputs) == (
                lift_events(m, mr.0) + rest.0,
                rest.1,
                (mr.2 + rest.2) as nat,
            )
        }),
{
}

/// An input that is neither the quit sentinel nor a valid selection
/// leaves the console at its listing, and repeating the same invalid
/// input repeats the same observable rejection from the same state.
pub proof fn lemma_invalid_input_idempotent(
    n_modules: nat,
    tool_counts: Seq<nat>,
    s: Seq<char>,
    rest: Seq<Seq<char>>,
)
    requires
        !quit_spec(s),
        !selects(s, n_modules),
    ensures
        ({
            let sub = cli_run_spec(n_modules, tool_counts, CLIState::ModSelect, rest);
            cli_run_spec(n_modules, tool_counts, CLIState::ModSelect, seq![s, s] + rest) == (
                seq![
                    Event::ListedModules,
                    Event::Rejected,
                    Event::ListedModules,
                    Event::Rejected,
                ] + sub.0,
                sub.1,
                (2 + sub.2) as nat,
            )
        }),
{
    let sub = cli_run_spec(n_modules, tool_counts, CLIState::ModSelect, rest);
    let one = seq![s] + rest;
    let two = seq![s, s] + rest;
    let step1 = cli_run_spec(n_modules, tool_counts, CLIState::ModSelect, one);
    let step2 = cli_run_spec(n_modules, tool_counts, CLIState::ModSelect, two);
    assert(two[0] == s);
    assert(two.drop_first() =~= one);
    assert(one[0] == s);
    assert(one.drop_first() =~= rest);
    assert(step1 == (
        seq![Event::ListedModules, Event::Rejected] + sub.0,
        sub.1,
        (1 + sub.2) as nat,
    ));
    assert(step2 == (
        seq![Event::ListedModules, Event::Rejected] + step1.0,
        step1.1,
        (1 + step1.2) as nat,
    ));
    assert(seq![Event::ListedModules, Event::Rejected] + (seq![
        Event::ListedModules,
        Event::Rejected,
    ] + sub.0) =~= seq![Event::ListedModules, Event::Rejected, Event::ListedModules, Event::Rejected]
        + sub.0);
}

impl<Op> CLI<Op> {
    /// Each module's number of tools, in order.
    pub open spec fn spec_tool_counts(&self) -> Seq<nat> {
        Seq::new(self.spec_modules().len(), |i: int| self.spec_modules()[i].spec_tools().len())
    }

    fn run_from(&mut self, inputs: &Vec<String>, start: usize) -> (r: (Vec<Event>, usize))
        requires
            old(self).wf(),
            start <= inputs@.len(),
        ensures
            ({
                let c = cli_run_spec(
                    old(self).spec_modules().len(),
                    old(self).spec_tool_counts(),
                    old(self).spec_state(),
                    strs_view(inputs@).skip(start as int),
                );
                &&& final(self).same_entries(old(self))
                &&& final(self).spec_tool_counts() == old(self).spec_tool_counts()
                &&& final(self).wf()
                &&& final(self).spec_state() == c.1
                &&& r.0@ == c.0
                &&& r.1 == start + c.2
                &&& r.1 <= inputs@.len()
            }),
        decreases inputs@.len() - start, cli_rank(old(self).spec_state()),
    {
        let ghost iv = strs_view(inputs@).skip(start as int);
        let ghost counts = self.spec_tool_counts();
        let st = self.state;
        match st {
            CLIState::ModSelect => {
                let mut events: Vec<Event> = Vec::new();
                events.push(Event::ListedModules);
                if start == inputs.len() {
                    proof {
                        assert(iv.len() == 0);
                        assert(events@ =~= seq![Event::ListedModules]);
                        assert(self.spec_tool_counts() =~= counts);
                    }
                    return (events, start);
                }
                let input = &inputs[start];
                proof {
                    assert(iv[0] == inputs@[start as int]@);
                    assert(iv.drop_first() =~= strs_view(inputs@).skip(start as int + 1));
                    assert(iv.len() > 0);
                }
                let notice = self.select_module(input.as_str());
                if notice.is_some() {
                    events.push(Event::Rejected);
                }
                proof {
                    assert(self.spec_tool_counts() =~= counts);
                }
                let r = self.run_from(inputs, start + 1);
                let mut rest = r.0;
                let next = r.1;
                let ghost head = events@;
                let ghost rest0 = rest@;
                events.append(&mut rest);
                proof {
                    let c = cli_run_spec(
                        old(self).spec_modules().len(),
                        counts,
                        CLIState::ModSelect,
                        iv,
                    );
                    if quit_spec(iv[0]) {
                        assert(events@ =~= seq![Event::ListedModules] + rest0);
                        assert(events@ == c.0);
                    } else if selects(iv[0], old(self).spec_modules().len()) {
                        assert(events@ =~= seq![Event::ListedModules] + rest0);
                        assert(events@ == c.0);
                    } else {
                        assert(head =~= seq![Event::ListedModules, Event::Rejected]);
                        assert(events@ =~= seq![Event::ListedModules, Event::Rejected] + rest0);
                        assert(events@ == c.0);
                    }
                    assert(self.spec_tool_counts() =~= counts);
                }
                (events, next)
            },
            CLIState::InModule(m) => {
                proof {
                    assert((m as int) < self.spec_modules().len());
                }
                self.modules[m].enter();
                proof {
                    assert(self.spec_tool_counts() =~= counts);
                    assert(counts[m as int] == self.spec_modules()[m as int].spec_tools().len());
                }
                let mr = self.modules[m].run_loop(inputs, start);
                let mev = mr.0;
                let next = mr.1;
                proof {
                    assert(self.spec_tool_counts() =~= counts);
                }
                let ghost msp = module_run_spec(counts[m as int], ModuleState::ToolSelect, iv);
                let mut events: Vec<Event> = Vec::new();
                let n_ev = mev.len();
                let mut k: usize = 0;
                while k < n_ev
                    invariant
                        k <= n_ev,
                        n_ev == mev@.len(),
                        events@.len() == k,
                        forall|j: int| 0 <= j < k ==> events@[j] == lift_event(m, mev@[j]),
                    decreases n_ev - k,
                {
                    let e = mev[k];
                    let le = match e {
                        ModuleEvent::Listed => Event::ListedTools(m),
                        ModuleEvent::Rejected => Event::Rejected,
                        ModuleEvent::Invoked(t) => Event::Invoked(m, t),
                        ModuleEvent::Exited => Event::LeftModule(m),
                    };
                    events.push(le);
                    k = k + 1;
                }
                proof {
                    assert forall|j: int| 0 <= j < mev@.len() implies #[trigger] lift_events(
                        m,
                        mev@,
                    )[j] == lift_event(m, mev@[j]) by {}
                    assert(events@ =~= lift_events(m, mev@));
                    assert(mev@ == msp.0);
                }
                let mstate = self.modules[m].state();
                match mstate {
                    ModuleState::Quit => {
                        self.state = CLIState::ModSelect;
                        proof {
                            assert(self.wf());
                            assert(self.spec_tool_counts() =~= counts);
                            assert(strs_view(inputs@).skip(next as int) =~= iv.skip(msp.2 as int));
                        }
                        let r2 = self.run_from(inputs, next);
                        let mut rest = r2.0;
                        let fin = r2.1;
                        let ghost rest0 = rest@;
                        events.append(&mut rest);
                        proof {
                            assert(events@ =~= lift_events(m, msp.0) + rest0);
                            assert(self.spec_tool_counts() =~= counts);
                        }
                        (events, fin)
                    },
                    _ => {
                        proof {
                            assert(self.spec_tool_counts() =~= counts);
                        }
                        (events, next)
                    },
                }
            },
            CLIState::Quit => {
                let mut events: Vec<Event> = Vec::new();
                events.push(Event::Exited);
                proof {
                    assert(events@ =~= seq![Event::Exited]);
                    assert(self.spec_tool_counts() =~= counts);
                }
                (events, start)
            },
        }
    }

    /// Runs the console's navigation loop over a script of input lines,
    /// reporting the events of the run. The run ends when the console quits
    /// or the script is exhausted; the module entries are never changed.
    pub fn run_loop(&mut self, inputs: &Vec<String>) -> (events: Vec<Event>)
        requires
            old(self).wf(),
        ensures
            ({
                let c = cli_run_spec(
                    old(self).spec_modules().len(),
                    old(self).spec_tool_counts(),
                    old(self).spec_state(),
                    strs_view(inputs@),
                );
                &&& final(self).same_entries(old(self))
                &&& final(self).wf()
                &&& final(self).spec_state() == c.1
                &&& events@ == c.0
            }),
    {
        proof {
            assert(strs_view(inputs@).skip(0) =~= strs_view(inputs@));
        }
        let r = self.run_from(inputs, 0);
        r.0
    }
}

} // verus!

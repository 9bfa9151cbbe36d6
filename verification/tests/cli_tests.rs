use std::cell::Cell;
use std::rc::Rc;

use admin_console::cli::{CLIState, Event, Module, ModuleEvent, ModuleState, CLI};
use admin_console::modules::ldap::LDAPModule;
use admin_console::registry::make_tool;

type Counter = Rc<Cell<u32>>;

fn counting_tool(ident: &str, name: &str, counter: &Counter) -> admin_console::cli::Tool<Counter> {
    make_tool(ident, Some(name.to_string()), None, Rc::clone(counter))
}

fn two_tool_module(name: &str, counters: &[Counter; 2]) -> Module<Counter> {
    admin_console::registry::make_module(
        name,
        Some(name.to_string()),
        Some(format!("{} module", name)),
        vec![
            counting_tool("x", "X", &counters[0]),
            counting_tool("y", "Y", &counters[1]),
        ],
    )
}

fn lines(raw: &[&str]) -> Vec<String> {
    raw.iter().map(|s| s.to_string()).collect()
}

#[test]
fn console_starts_at_module_listing() {
    let cli = CLI::<u8>::new(Vec::new());
    assert_eq!(cli.state(), CLIState::ModSelect);
    assert_eq!(cli.module_count(), 0);
}

#[test]
fn module_listing_format() {
    let a = admin_console::registry::make_module::<u8>(
        "Alpha",
        Some("Alpha".to_string()),
        Some("The first".to_string()),
        Vec::new(),
    );
    let b = admin_console::registry::make_module::<u8>(
        "Beta",
        Some("Beta".to_string()),
        Some("The second".to_string()),
        Vec::new(),
    );
    let cli = CLI::new(vec![a, b]);
    assert_eq!(
        cli.print_modules(),
        lines(&[
            "Available Modules:",
            "Input Q to quit",
            "1. Alpha",
            "  -The first",
            "2. Beta",
            "  -The second",
        ])
    );
}

#[test]
fn tool_listing_format() {
    let c0: Counter = Rc::new(Cell::new(0));
    let c1: Counter = Rc::new(Cell::new(0));
    let module = LDAPModule::init_module(vec![
        counting_tool("fetch_all_users", "Fetch Users", &c0),
        counting_tool("list_email_users", "ListCurrentEmailUsers", &c1),
    ]);
    assert_eq!(module.name(), "LDAP Management Module");
    assert_eq!(module.desc(), "Manage LDAP users and groups");
    assert_eq!(
        module.print_tools(),
        lines(&[
            "Available Tools:",
            "Input Q to quit",
            "1. Fetch Users",
            "  -Tool to fetch_all_users",
            "2. ListCurrentEmailUsers",
            "  -Tool to list_email_users",
        ])
    );
}

#[test]
fn valid_selection_enters_module() {
    let counters = [Rc::new(Cell::new(0)), Rc::new(Cell::new(0))];
    let mut cli = CLI::new(vec![two_tool_module("Alpha", &counters)]);
    let notice = cli.select_module("1");
    assert_eq!(notice, None);
    assert_eq!(cli.state(), CLIState::InModule(0));
}

#[test]
fn quit_input_quits_console() {
    let mut cli = CLI::<u8>::new(Vec::new());
    assert_eq!(cli.select_module("Q"), None);
    assert_eq!(cli.state(), CLIState::Quit);
}

#[test]
fn invalid_selection_is_rejected_and_idempotent() {
    let counters = [Rc::new(Cell::new(0)), Rc::new(Cell::new(0))];
    let mut cli = CLI::new(vec![two_tool_module("Alpha", &counters)]);
    let first = cli.select_module("7");
    assert_eq!(first.as_deref(), Some("Invalid selection"));
    assert_eq!(cli.state(), CLIState::ModSelect);
    let second = cli.select_module("7");
    assert_eq!(second, first);
    assert_eq!(cli.state(), CLIState::ModSelect);
    assert_eq!(cli.module_count(), 1);
}

#[test]
fn repeated_invalid_input_transcript() {
    let counters = [Rc::new(Cell::new(0)), Rc::new(Cell::new(0))];
    let mut cli = CLI::new(vec![two_tool_module("Alpha", &counters)]);
    let events = cli.run_loop(&lines(&["7", "7"]));
    assert_eq!(
        events,
        vec![
            Event::ListedModules,
            Event::Rejected,
            Event::ListedModules,
            Event::Rejected,
            Event::ListedModules,
        ]
    );
    assert_eq!(cli.state(), CLIState::ModSelect);
}

#[test]
fn quitting_inside_module_returns_to_console_listing() {
    // Two modules; enter Beta, quit it, then quit the console. No tool runs.
    let alpha_counters = [Rc::new(Cell::new(0)), Rc::new(Cell::new(0))];
    let beta_counters = [Rc::new(Cell::new(0)), Rc::new(Cell::new(0))];
    let mut cli = CLI::new(vec![
        two_tool_module("Alpha", &alpha_counters),
        two_tool_module("Beta", &beta_counters),
    ]);
    let events = cli.run_loop(&lines(&["2", "q", "q"]));
    assert_eq!(
        events,
        vec![
            Event::ListedModules,
            Event::ListedTools(1),
            Event::LeftModule(1),
            Event::ListedModules,
            Event::Exited,
        ]
    );
    assert_eq!(cli.state(), CLIState::Quit);
    assert!(!events.iter().any(|e| matches!(e, Event::Invoked(_, _))));
    assert_eq!(alpha_counters[0].get(), 0);
    assert_eq!(alpha_counters[1].get(), 0);
    assert_eq!(beta_counters[0].get(), 0);
    assert_eq!(beta_counters[1].get(), 0);
}

#[test]
fn tool_invocation_then_invalid_then_quit() {
    // One module with tools X and Y: select the module, run Y once, see an
    // invalid input rejected, then quit both levels.
    let counters = [Rc::new(Cell::new(0)), Rc::new(Cell::new(0))];
    let mut cli = CLI::new(vec![two_tool_module("Alpha", &counters)]);
    let events = cli.run_loop(&lines(&["1", "2", "0", "q", "q"]));
    assert_eq!(
        events,
        vec![
            Event::ListedModules,
            Event::ListedTools(0),
            Event::Invoked(0, 1),
            Event::ListedTools(0),
            Event::Rejected,
            Event::ListedTools(0),
            Event::LeftModule(0),
            Event::ListedModules,
            Event::Exited,
        ]
    );
    assert_eq!(cli.state(), CLIState::Quit);
    let invocations: Vec<&Event> = events
        .iter()
        .filter(|e| matches!(e, Event::Invoked(_, _)))
        .collect();
    assert_eq!(invocations, vec![&Event::Invoked(0, 1)]);
}

#[test]
fn stepwise_invocation_runs_operation_exactly_once() {
    // Drive one module by hand and actually run the selected operation.
    let counters = [Rc::new(Cell::new(0)), Rc::new(Cell::new(0))];
    let mut module = two_tool_module("Alpha", &counters);
    module.enter();
    assert_eq!(module.state(), ModuleState::ToolSelect);
    assert_eq!(module.select_tool("2"), None);
    assert_eq!(module.state(), ModuleState::InTool(1));
    let op = module.active_tool().op();
    op.set(op.get() + 1);
    module.tool_done();
    assert_eq!(module.state(), ModuleState::ToolSelect);
    assert_eq!(counters[0].get(), 0);
    assert_eq!(counters[1].get(), 1);
    assert_eq!(module.tool_count(), 2);
    assert_eq!(module.tool(1).name(), "Y");
}

#[test]
fn module_run_loop_reports_its_events() {
    let counters = [Rc::new(Cell::new(0)), Rc::new(Cell::new(0))];
    let mut module = two_tool_module("Alpha", &counters);
    let (events, next) = module.run_loop(&lines(&["1", "q"]), 0);
    assert_eq!(
        events,
        vec![
            ModuleEvent::Listed,
            ModuleEvent::Invoked(0),
            ModuleEvent::Listed,
            ModuleEvent::Exited,
        ]
    );
    assert_eq!(next, 2);
    assert_eq!(module.state(), ModuleState::Quit);
}

#[test]
fn module_run_loop_survives_script_exhaustion() {
    let counters = [Rc::new(Cell::new(0)), Rc::new(Cell::new(0))];
    let mut module = two_tool_module("Alpha", &counters);
    let (events, next) = module.run_loop(&Vec::new(), 0);
    assert_eq!(events, vec![ModuleEvent::Listed]);
    assert_eq!(next, 0);
    assert_eq!(module.state(), ModuleState::ToolSelect);
}

#[test]
fn listing_indices_reach_two_digits() {
    let modules: Vec<Module<u8>> = (1..=12)
        .map(|i| {
            admin_console::registry::make_module(
                &format!("M{}", i),
                Some(format!("M{}", i)),
                Some(format!("Module number {}", i)),
                Vec::new(),
            )
        })
        .collect();
    let cli = CLI::new(modules);
    let lines = cli.print_modules();
    assert_eq!(lines.len(), 2 + 2 * 12);
    assert_eq!(lines[2], "1. M1");
    assert_eq!(lines[20], "10. M10");
    assert_eq!(lines[24], "12. M12");
    assert_eq!(lines[25], "  -Module number 12");
}

#[test]
fn run_loop_keeps_entries_unchanged() {
    let counters = [Rc::new(Cell::new(0)), Rc::new(Cell::new(0))];
    let mut cli = CLI::new(vec![two_tool_module("Alpha", &counters)]);
    let _ = cli.run_loop(&lines(&["1", "1", "2", "1", "q", "q"]));
    assert_eq!(cli.module_count(), 1);
    let module = cli.module(0);
    assert_eq!(module.name(), "Alpha");
    assert_eq!(module.tool_count(), 2);
    assert_eq!(module.tool(0).name(), "X");
    assert_eq!(module.tool(1).name(), "Y");
}

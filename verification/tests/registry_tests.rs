use admin_console::registry::{make_module, make_tool, ArgsError, ToolArgs};

fn pairs(raw: &[(&str, &str)]) -> Vec<(String, String)> {
    raw.iter().map(|(k, v)| (k.to_string(), v.to_string())).collect()
}

#[test]
fn parse_requires_id() {
    assert!(matches!(ToolArgs::parse(&pairs(&[])), Err(ArgsError::MissingId)));
    assert!(matches!(
        ToolArgs::parse(&pairs(&[("name", "N"), ("desc", "D")])),
        Err(ArgsError::MissingId)
    ));
}

#[test]
fn parse_rejects_unknown_keys() {
    assert!(matches!(
        ToolArgs::parse(&pairs(&[("bogus", "x")])),
        Err(ArgsError::UnknownAttribute)
    ));
    assert!(matches!(
        ToolArgs::parse(&pairs(&[("id", "T"), ("bogus", "x")])),
        Err(ArgsError::UnknownAttribute)
    ));
}

#[test]
fn parse_keeps_all_three_keys() {
    let args = ToolArgs::parse(&pairs(&[("id", "ListUsersTool"), ("name", "List Users"), (
        "desc",
        "Lists all users in the system",
    )]))
    .unwrap();
    assert_eq!(args.id, "ListUsersTool");
    assert_eq!(args.name.as_deref(), Some("List Users"));
    assert_eq!(args.desc.as_deref(), Some("Lists all users in the system"));
}

#[test]
fn parse_last_key_wins() {
    let args = ToolArgs::parse(&pairs(&[("id", "A"), ("id", "B")])).unwrap();
    assert_eq!(args.id, "B");
    assert_eq!(args.name, None);
    assert_eq!(args.desc, None);
}

#[test]
fn tool_round_trip_explicit_metadata() {
    let tool = make_tool(
        "list_users",
        Some("List Users".to_string()),
        Some("Lists all users in the system".to_string()),
        0u8,
    );
    assert_eq!(tool.name(), "List Users");
    assert_eq!(tool.desc(), "Lists all users in the system");
    assert_eq!(*tool.op(), 0u8);
}

#[test]
fn tool_default_metadata_derived_from_identifier() {
    let tool = make_tool("greet", None, None, 0u8);
    assert_eq!(tool.name(), "greet Tool");
    assert_eq!(tool.desc(), "Tool to greet");
}

#[test]
fn module_default_metadata_derived_from_identifier() {
    let module = make_module::<u8>("TestModule", None, None, Vec::new());
    assert_eq!(module.name(), "TestModule Module");
    assert_eq!(module.desc(), "Description for TestModule");
}

#[test]
fn parsed_declaration_builds_the_declared_tool() {
    let args = ToolArgs::parse(&pairs(&[("id", "GreetTool"), ("name", "Greeting Tool")])).unwrap();
    assert_eq!(args.id, "GreetTool");
    let tool = make_tool("greet", args.name, args.desc, 0u8);
    assert_eq!(tool.name(), "Greeting Tool");
    assert_eq!(tool.desc(), "Tool to greet");
}

#[test]
fn module_explicit_metadata_kept() {
    let module = make_module::<u8>(
        "TestModule",
        Some("Test Module".to_string()),
        Some("A test module".to_string()),
        Vec::new(),
    );
    assert_eq!(module.name(), "Test Module");
    assert_eq!(module.desc(), "A test module");
}

use admin_console::cli::ModuleState;
use admin_console::models::email::{Address, EmailAddress, PolicyId, Status};
use admin_console::modules::email::{format_user_line, EmailModule};
use admin_console::modules::user::UserModule;

fn addr(mail: &str, alias: bool) -> EmailAddress {
    EmailAddress {
        is_alias: Some(alias),
        is_primary: Some(!alias),
        mail_id: Some(mail.to_string()),
        is_confirmed: Some(true),
    }
}

#[test]
fn email_module_descriptor() {
    let module = EmailModule::init_module::<u8>(Vec::new());
    assert_eq!(module.name(), "Email Management Module");
    assert_eq!(module.desc(), "Manage Email (ZOHO) users and groups");
    assert_eq!(module.state(), ModuleState::ToolSelect);
}

#[test]
fn user_module_descriptor() {
    let module = UserModule::init_module::<u8>();
    assert_eq!(module.name(), "User Management Module");
    assert_eq!(module.desc(), "Manage Users");
    assert_eq!(module.tool_count(), 0);
    assert_eq!(UserModule::run_message(), "Running User Management Module");
}

#[test]
fn user_line_joins_addresses() {
    let line = format_user_line(
        "Jane Doe",
        &vec![addr("jane@example.com", false), addr("j.doe@example.com", true)],
    );
    assert_eq!(
        line,
        "User: Jane Doe, Email(s): jane@example.com, j.doe@example.com (Alias)"
    );
}

#[test]
fn user_line_single_address_has_no_separator() {
    let line = format_user_line("Jo", &vec![addr("jo@example.com", false)]);
    assert_eq!(line, "User: Jo, Email(s): jo@example.com");
}

#[test]
fn user_line_with_no_addresses() {
    let line = format_user_line("Jo", &Vec::new());
    assert_eq!(line, "User: Jo, Email(s): ");
}

#[test]
fn user_line_marks_every_alias() {
    let line = format_user_line("A", &vec![addr("x@y", true), addr("z@y", true)]);
    assert_eq!(line, "User: A, Email(s): x@y (Alias), z@y (Alias)");
}

#[test]
fn model_records_hold_their_values() {
    let status = Status { code: Some(200), description: Some("ok".to_string()) };
    assert_eq!(status.code, Some(200));
    let address = Address {
        country: Some("US".to_string()),
        street_addr: None,
        city: None,
        postal_code: None,
        state: None,
    };
    assert_eq!(address.country.as_deref(), Some("US"));
    let policy = PolicyId { business_policy: None, zoid: Some(7) };
    assert_eq!(policy.zoid, Some(7));
}

use sys_switch::cli::{
    cli_action, exit_code, format_entries, format_entries_text, output_format, runs_cli, unavailable_message, Cli,
    CliAction, Commands, OutputFormat,
};
use sys_switch::models::BootEntry;

#[test]
fn text_table_matches_readme() {
    let entries = vec![
        BootEntry::new("0000".to_string(), "Windows Boot Manager".to_string()),
        BootEntry::new("0002".to_string(), "Ubuntu".to_string()).with_current(true),
    ];
    assert_eq!(
        format_entries_text(&entries),
        "ID\tCURRENT\tNEXT\tDESCRIPTION\n0000\t0\t0\tWindows Boot Manager\n0002\t1\t0\tUbuntu"
    );
}

#[test]
fn empty_table_is_header_only() {
    assert_eq!(format_entries_text(&Vec::new()), "ID\tCURRENT\tNEXT\tDESCRIPTION");
}

#[test]
fn output_formats() {
    assert_eq!(output_format("json"), OutputFormat::Json);
    assert_eq!(output_format("text"), OutputFormat::Text);
    assert_eq!(output_format("JSON"), OutputFormat::Text);
}

#[test]
fn cli_or_gui() {
    let gui = Cli { cli: false, show_recovery: false, command: None };
    assert!(!runs_cli(&gui));
    assert!(matches!(cli_action(&gui), CliAction::List(OutputFormat::Text)));
    let flag = Cli { cli: true, show_recovery: true, command: None };
    assert!(runs_cli(&flag));
    let list = Cli {
        cli: false,
        show_recovery: false,
        command: Some(Commands::List { output: "json".to_string() }),
    };
    assert!(runs_cli(&list));
    assert!(matches!(cli_action(&list), CliAction::List(OutputFormat::Json)));
    let set = Cli {
        cli: false,
        show_recovery: false,
        command: Some(Commands::SetNext { id: "0001".to_string() }),
    };
    assert!(matches!(cli_action(&set), CliAction::SetNext(id) if id == "0001"));
    let reboot = Cli { cli: false, show_recovery: false, command: Some(Commands::Reboot) };
    assert!(matches!(cli_action(&reboot), CliAction::Reboot));
}

#[test]
fn exit_codes() {
    assert_eq!(exit_code(false, true), 2);
    assert_eq!(exit_code(true, true), 0);
    assert_eq!(exit_code(true, false), 1);
    assert_eq!(
        unavailable_message(),
        "No supported boot manager found on this platform. Install required tools or run as admin/root."
    );
}

#[test]
fn table_splits_into_header_and_rows() {
    let entries = vec![
        BootEntry::new("0000".to_string(), "A".to_string()).with_next(true),
        BootEntry::new("0001".to_string(), "B".to_string()),
    ];
    let table = format_entries_text(&entries);
    let lines: Vec<&str> = table.split('\n').collect();
    assert_eq!(lines, vec!["ID\tCURRENT\tNEXT\tDESCRIPTION", "0000\t0\t1\tA", "0001\t0\t0\tB"]);
}

#[test]
fn json_listing() {
    let entries = vec![
        BootEntry::new("0000".to_string(), "Windows \"Boot\"".to_string()).with_next(true),
        BootEntry::new("0002".to_string(), "Ubuntu".to_string()).with_current(true),
    ];
    let expected = "[\n  {\n    \"description\": \"Windows \\\"Boot\\\"\",\n    \"id\": \"0000\",\n    \"is_current\": false,\n    \"is_next\": true\n  },\n  {\n    \"description\": \"Ubuntu\",\n    \"id\": \"0002\",\n    \"is_current\": true,\n    \"is_next\": false\n  }\n]";
    assert_eq!(format_entries(&entries, OutputFormat::Json), expected);
    assert_eq!(format_entries(&Vec::new(), OutputFormat::Json), "[]");
    assert_eq!(
        format_entries(&entries, OutputFormat::Text),
        format_entries_text(&entries)
    );
}

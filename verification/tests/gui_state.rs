use sys_switch::gui::SysSwitchApp;
use sys_switch::models::BootEntry;

fn entries() -> Vec<BootEntry> {
    vec![
        BootEntry::new("0000".to_string(), "Windows".to_string()).with_next(true),
        BootEntry::new("0002".to_string(), "ubuntu".to_string()).with_current(true),
    ]
}

#[test]
fn new_window_lists_entries() {
    let app = SysSwitchApp::new(Some(Ok(entries())));
    assert_eq!(app.entries.len(), 2);
    assert_eq!(app.log, "Found 2 boot entries");
    assert_eq!(app.selected, None);
    assert_eq!(app.error_message, None);
    assert!(!app.reboot_pending);
}

#[test]
fn new_window_without_manager() {
    let app = SysSwitchApp::new(None);
    assert!(app.entries.is_empty());
    assert_eq!(
        app.error_message.as_deref(),
        Some("No supported boot manager found. Please install required tools or run as admin/root.")
    );
    assert_eq!(app.log, "");
}

#[test]
fn failed_listing_is_shown() {
    let mut app = SysSwitchApp::new(Some(Ok(entries())));
    app.refresh(Some(Err("bcdedit failed: x".to_string())));
    assert_eq!(app.entries.len(), 2);
    assert_eq!(app.error_message.as_deref(), Some("Failed to get boot entries: bcdedit failed: x"));
}

#[test]
fn log_lines_are_separated() {
    let mut app = SysSwitchApp::new(None);
    app.log_line("first");
    assert_eq!(app.log, "first");
    app.log_line("second");
    assert_eq!(app.log, "first\nsecond");
}

#[test]
fn apply_without_selection_asks_for_one() {
    let mut app = SysSwitchApp::new(Some(Ok(entries())));
    assert_eq!(app.apply(), None);
    assert_eq!(app.error_message.as_deref(), Some("Please select a boot entry"));
}

#[test]
fn apply_selected_entry() {
    let mut app = SysSwitchApp::new(Some(Ok(entries())));
    app.select(1);
    assert_eq!(app.apply(), Some("0002".to_string()));
    assert!(app.finish_apply(Ok("Next boot entry set to: 0002".to_string())));
    assert_eq!(app.log, "Found 2 boot entries\nNext boot entry set to: 0002");
    app.refresh(Some(Ok(entries())));
    assert_eq!(app.selected, None);
    assert_eq!(app.apply(), None);
}

#[test]
fn apply_out_of_range_does_nothing() {
    let mut app = SysSwitchApp::new(Some(Ok(entries())));
    app.select(5);
    assert_eq!(app.apply(), None);
    assert_eq!(app.error_message, None);
}

#[test]
fn failed_apply_is_logged() {
    let mut app = SysSwitchApp::new(Some(Ok(Vec::new())));
    assert!(!app.finish_apply(Err("Root privileges required".to_string())));
    assert_eq!(app.log, "Found 0 boot entries\nError: Root privileges required");
    assert_eq!(app.error_message.as_deref(), Some("Root privileges required"));
}

#[test]
fn reboot_needs_two_presses() {
    let mut app = SysSwitchApp::new(Some(Ok(entries())));
    assert_eq!(app.reboot_label(), "Reboot Now");
    assert!(!app.press_reboot());
    assert_eq!(app.reboot_label(), "Confirm Reboot");
    assert_eq!(app.error_message.as_deref(), Some("Click 'Confirm Reboot' to reboot now."));
    assert!(app.press_reboot());
    app.reboot(Err("denied".to_string()));
    assert_eq!(app.error_message.as_deref(), Some("denied"));
    assert!(app.log.ends_with("\nError: denied"));
    app.refresh(Some(Ok(entries())));
    assert!(!app.press_reboot());
}

#[test]
fn entry_labels() {
    let e = entries();
    assert_eq!(SysSwitchApp::entry_label(&e[0]), "Windows [0000] (Next)");
    assert_eq!(SysSwitchApp::entry_label(&e[1]), "ubuntu [0002] (Current)");
    let both = BootEntry::new("1".to_string(), "x".to_string()).with_current(true).with_next(true);
    assert_eq!(SysSwitchApp::entry_label(&both), "x [1] (Current) (Next)");
}

#[test]
fn selection_stays_within_list() {
    let mut app = SysSwitchApp::new(Some(Ok(entries())));
    app.select(1);
    assert_eq!(app.selected, Some(1));
    app.refresh(Some(Err("x".to_string())));
    assert_eq!(app.selected, Some(1));
    assert!(app.selected.map_or(true, |i| i < app.entries.len()));
    app.refresh(Some(Ok(vec![entries().remove(0)])));
    assert_eq!(app.selected, None);
    assert!(!app.press_reboot());
    assert!(app.selected.map_or(true, |i| i < app.entries.len()));
}

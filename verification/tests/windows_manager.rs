use sys_switch::models::BootEntry;
use sys_switch::windows::{split_blocks, ListError, TargetError, WindowsBootManager};

const GUID_UBUNTU: &str = "{3b1c6a47-6c31-11ee-8b8c-806e6f6e6963}";
const GUID_RECOVERY: &str = "{3b1c6a48-6c31-11ee-8b8c-806e6f6e6963}";

fn firmware_listing(newline: &str) -> String {
    let lines = [
        "Firmware Boot Manager",
        "---------------------",
        "identifier              {fwbootmgr}",
        "displayorder            {bootmgr}",
        "                        {3b1c6a47-6c31-11ee-8b8c-806e6f6e6963}",
        "timeout                 0",
        "bootsequence            {3b1c6a47-6c31-11ee-8b8c-806e6f6e6963}",
        "",
        "Windows Boot Manager",
        "--------------------",
        "identifier              {bootmgr}",
        "device                  partition=\\Device\\HarddiskVolume1",
        "description             Windows Boot Manager",
        "",
        "Firmware Application (101fffff)",
        "-------------------------------",
        "identifier              {3b1c6a47-6c31-11ee-8b8c-806e6f6e6963}",
        "description             ubuntu  ",
        "",
        "Firmware Application (101fffff)",
        "-------------------------------",
        "identifier              {3b1c6a48-6c31-11ee-8b8c-806e6f6e6963}",
        "description             Windows Recovery Environment",
        "",
        "Firmware Application (101fffff)",
        "-------------------------------",
        "identifier              {0c1a5e3b-6c31-11ee-8b8c-806e6f6e6963}",
    ];
    lines.join(newline)
}

fn fields(entries: &[BootEntry]) -> Vec<(String, String, bool, bool)> {
    entries
        .iter()
        .map(|e| (e.id.clone(), e.description.clone(), e.is_current, e.is_next))
        .collect()
}

fn entry(id: &str, desc: &str, current: bool, next: bool) -> (String, String, bool, bool) {
    (id.to_string(), desc.to_string(), current, next)
}

#[test]
fn bcdedit_output_hides_recovery() {
    let m = WindowsBootManager::new();
    for nl in ["\n", "\r\n"] {
        let entries = m.parse_bcdedit_output(&firmware_listing(nl)).unwrap();
        assert_eq!(
            fields(&entries),
            vec![
                entry("{bootmgr}", "Windows Boot Manager", true, false),
                entry(GUID_UBUNTU, "ubuntu", false, true),
                entry(
                    "{0c1a5e3b-6c31-11ee-8b8c-806e6f6e6963}",
                    "{0c1a5e3b-6c31-11ee-8b8c-806e6f6e6963}",
                    false,
                    false
                ),
            ]
        );
    }
}

#[test]
fn bcdedit_output_shows_recovery_when_asked() {
    let m = WindowsBootManager::new().with_show_recovery(true);
    let entries = m.parse_bcdedit_output(&firmware_listing("\n")).unwrap();
    assert_eq!(entries.len(), 4);
    assert_eq!(
        fields(&entries[2..3]),
        vec![entry(GUID_RECOVERY, "Windows Recovery Environment", false, false)]
    );
}

#[test]
fn bcdedit_output_without_entries() {
    let m = WindowsBootManager::default();
    assert!(m.parse_bcdedit_output("").unwrap().is_empty());
    assert!(m.parse_bcdedit_output("no identifiers here").unwrap().is_empty());
}

#[test]
fn recovery_indicators() {
    assert!(WindowsBootManager::is_recovery_environment("Windows Recovery Environment"));
    assert!(WindowsBootManager::is_recovery_environment("WINRE.WIM image"));
    assert!(WindowsBootManager::is_recovery_environment("Windows 恢复环境"));
    assert!(WindowsBootManager::is_recovery_environment("系统恢复"));
    assert!(WindowsBootManager::is_recovery_environment("Dell RECOVERY partition"));
    assert!(!WindowsBootManager::is_recovery_environment("ubuntu"));
    assert!(!WindowsBootManager::is_recovery_environment(""));
}

#[test]
fn blocks_split_on_crlf_first() {
    assert_eq!(split_blocks("a\r\n\r\nb\n\nc"), vec!["a".to_string(), "b\n\nc".to_string()]);
    assert_eq!(split_blocks("a\n\nb"), vec!["a".to_string(), "b".to_string()]);
}

#[test]
fn listing_failure_reports_stderr() {
    let m = WindowsBootManager::new();
    match m.bcdedit_listing(false, b"", b"access denied") {
        Err(ListError::Failed(msg)) => assert_eq!(msg, "bcdedit failed: access denied"),
        other => panic!("unexpected {:?}", other),
    }
    let out = firmware_listing("\r\n");
    let entries = m.bcdedit_listing(true, out.as_bytes(), b"").unwrap();
    assert_eq!(entries.len(), 3);
}

#[test]
fn listing_decodes_gbk() {
    // "标识符" and "描述" in GBK.
    let mut out: Vec<u8> = Vec::new();
    out.extend_from_slice(b"\xb1\xea\xca\xb6\xb7\xfb {3b1c6a47-6c31-11ee-8b8c-806e6f6e6963}\r\n");
    out.extend_from_slice(b"\xc3\xe8\xca\xf6 Linux\r\n\r\nx\r\n\r\n");
    out.extend_from_slice(b"\xb1\xea\xca\xb6\xb7\xfb {abc}\r\n\xc3\xe8\xca\xf6 Other");
    let entries = WindowsBootManager::new().bcdedit_listing(true, &out, b"").unwrap();
    assert_eq!(
        fields(&entries),
        vec![entry(GUID_UBUNTU, "Linux", false, false), entry("{abc}", "Other", false, false)]
    );
}

#[test]
fn braced_ids() {
    assert_eq!(WindowsBootManager::braced_id("abc"), "{abc}");
    assert_eq!(WindowsBootManager::braced_id("{abc}"), "{abc}");
    assert_eq!(WindowsBootManager::braced_id(""), "{}");
    let once = WindowsBootManager::braced_id("x");
    assert_eq!(WindowsBootManager::braced_id(&once), once);
}

#[test]
fn firmware_manager_guid_from_verbose_listing() {
    let text = "Firmware Boot Manager\r\n---------------------\r\nidentifier              {a5a30fa2-3d06-4e9f-b5f4-a01df9d1fcba}\r\n\r\nWindows Boot Manager\r\nidentifier              {9dea862c-5cdd-4e70-acc1-f32b344d4795}";
    assert_eq!(
        WindowsBootManager::firmware_manager(text.as_bytes()).unwrap(),
        "{a5a30fa2-3d06-4e9f-b5f4-a01df9d1fcba}"
    );
    assert!(matches!(
        WindowsBootManager::firmware_manager(b"Windows Boot Manager\r\nidentifier {bootmgr}"),
        Err(TargetError::NoFirmwareManager)
    ));
    // Blocks are only separated by CRLF blank lines here.
    let lf = text.replace("\r\n", "\n");
    assert_eq!(
        WindowsBootManager::find_firmware_guid(&lf).unwrap(),
        Some("{a5a30fa2-3d06-4e9f-b5f4-a01df9d1fcba}".to_string())
    );
    assert_eq!(
        TargetError::NoFirmwareManager.message(),
        "Cannot find Firmware Boot Manager GUID"
    );
}

#[test]
fn set_next_steps() {
    assert_eq!(
        WindowsBootManager::set_next_start(false).unwrap_err(),
        "Administrator privileges required to modify BCD"
    );
    let inv = WindowsBootManager::set_next_start(true).unwrap();
    assert_eq!(inv.program, "bcdedit");
    assert_eq!(inv.args, vec!["/v", "/enum", "firmware"]);
    let inv = WindowsBootManager::bootsequence_invocation("{fw}", "{e}");
    assert_eq!(inv.args, vec!["/set", "{fw}", "bootsequence", "{e}"]);
    assert_eq!(
        WindowsBootManager::bootsequence_outcome("e", true, b""),
        Ok("Set next boot entry: e".to_string())
    );
    assert_eq!(
        WindowsBootManager::bootsequence_outcome("e", false, b"denied"),
        Err("Failed to set boot entry: denied".to_string())
    );
}

#[test]
fn bootsequence_step_uses_firmware_guid() {
    let text = "Firmware Boot Manager\r\nidentifier              {a5a30fa2-3d06-4e9f-b5f4-a01df9d1fcba}\r\n\r\nWindows Boot Manager\r\nidentifier              {9dea862c-5cdd-4e70-acc1-f32b344d4795}";
    let inv = WindowsBootManager::bootsequence_step(text.as_bytes(), "3b1c6a47-6c31-11ee-8b8c-806e6f6e6963").unwrap();
    assert_eq!(inv.program, "bcdedit");
    assert_eq!(
        inv.args,
        vec![
            "/set",
            "{a5a30fa2-3d06-4e9f-b5f4-a01df9d1fcba}",
            "bootsequence",
            "{3b1c6a47-6c31-11ee-8b8c-806e6f6e6963}"
        ]
    );
    assert!(matches!(
        WindowsBootManager::bootsequence_step(b"Windows Boot Manager", "{x}"),
        Err(TargetError::NoFirmwareManager)
    ));
}

#[test]
fn reboot_messages() {
    assert_eq!(
        WindowsBootManager::reboot_check(false),
        Err("Administrator privileges required to reboot".to_string())
    );
    assert_eq!(WindowsBootManager::reboot_check(true), Ok(()));
    assert_eq!(
        WindowsBootManager::privilege_error("x"),
        "Failed to enable shutdown privilege: x"
    );
    assert_eq!(WindowsBootManager::reboot_error("y"), "Failed to reboot system: y");
}

#[test]
fn showing_recovery_only_adds_recovery_entries() {
    for nl in ["\n", "\r\n"] {
        let text = firmware_listing(nl);
        let hidden = WindowsBootManager::new().parse_bcdedit_output(&text).unwrap();
        let shown = WindowsBootManager::new().with_show_recovery(true).parse_bcdedit_output(&text).unwrap();
        let filtered: Vec<BootEntry> = shown
            .into_iter()
            .filter(|e| !WindowsBootManager::is_recovery_environment(&e.description))
            .collect();
        assert_eq!(fields(&hidden), fields(&filtered));
    }
}

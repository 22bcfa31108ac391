use sys_switch::linux::{
    efibootmgr_listing, entries_from_captures, grub_listing, parse_efibootmgr_output, parse_grub_env, LinuxBootManager, ListPlan,
    SetNextPlan, Tool,
};
use sys_switch::models::BootEntry;

const EFIBOOTMGR: &str = "BootCurrent: 0002\n\
Timeout: 1 seconds\n\
BootNext: 0000\n\
BootOrder: 0002,0000,0001\n\
Boot0000* Windows Boot Manager\tHD(1,GPT,abc)/File(\\EFI\\Microsoft\\Boot\\bootmgfw.efi)\n\
Boot0001  UEFI: PXE IPv4  \n\
Boot0002* ubuntu\n";

fn entry(id: &str, desc: &str, current: bool, next: bool) -> (String, String, bool, bool) {
    (id.to_string(), desc.to_string(), current, next)
}

fn fields(entries: &[BootEntry]) -> Vec<(String, String, bool, bool)> {
    entries
        .iter()
        .map(|e| (e.id.clone(), e.description.clone(), e.is_current, e.is_next))
        .collect()
}

#[test]
fn efibootmgr_output_is_parsed() {
    let entries = parse_efibootmgr_output(EFIBOOTMGR).unwrap();
    assert_eq!(
        fields(&entries),
        vec![
            entry(
                "0000",
                "Windows Boot Manager\tHD(1,GPT,abc)/File(\\EFI\\Microsoft\\Boot\\bootmgfw.efi)",
                false,
                true
            ),
            entry("0001", "UEFI: PXE IPv4", false, false),
            entry("0002", "ubuntu", true, false),
        ]
    );
}

#[test]
fn efibootmgr_without_current_or_next() {
    let entries = parse_efibootmgr_output("Boot0003* Fedora\n").unwrap();
    assert_eq!(fields(&entries), vec![entry("0003", "Fedora", false, false)]);
    assert!(parse_efibootmgr_output("").unwrap().is_empty());
}

#[test]
fn entries_from_given_captures() {
    let caps = vec![
        vec![Some("Boot0001 A".to_string()), Some("0001".to_string()), Some(" A \r".to_string())],
        vec![Some("x".to_string()), None, None],
    ];
    let entries = entries_from_captures(&caps, &Some("0001".to_string()), &None);
    assert_eq!(
        fields(&entries),
        vec![entry("0001", "A", true, false), entry("", "", false, false)]
    );
}

#[test]
fn grub_env_saved_entry() {
    let e = parse_grub_env("# GRUB Environment Block\nsaved_entry=0\n").unwrap();
    assert_eq!(fields(&[e]), vec![entry("0", "GRUB default entry", false, true)]);
    let e = parse_grub_env("saved_entry=Ubuntu\n").unwrap();
    assert!(!e.is_next);
    let e = parse_grub_env("").unwrap();
    assert!(!e.is_next);
}

#[test]
fn availability_and_list_plan() {
    let m = LinuxBootManager::new(Some("/usr/bin/efibootmgr".to_string()), None);
    assert!(m.available());
    assert!(matches!(m.list_plan(), ListPlan::Efibootmgr(p) if p == "/usr/bin/efibootmgr"));
    let g = LinuxBootManager::new(None, Some("/usr/sbin/grub-reboot".to_string()));
    assert!(g.available());
    assert!(matches!(g.list_plan(), ListPlan::GrubEnv));
    let none = LinuxBootManager::new(None, None);
    assert!(!none.available());
    assert!(matches!(none.list_plan(), ListPlan::Nothing));
}

#[test]
fn set_next_plans() {
    let m = LinuxBootManager::new(Some("/usr/bin/efibootmgr".to_string()), Some("/g".to_string()));
    match m.set_next_plan(false, "0001") {
        SetNextPlan::Fail(msg) => assert_eq!(msg, "Root privileges required"),
        other => panic!("unexpected {:?}", other),
    }
    match m.set_next_plan(true, "0001") {
        SetNextPlan::Run(Tool::Efibootmgr, inv) => {
            assert_eq!(inv.program, "/usr/bin/efibootmgr");
            assert_eq!(inv.args, vec!["-n".to_string(), "0001".to_string()]);
        }
        other => panic!("unexpected {:?}", other),
    }
    let g = LinuxBootManager::new(None, Some("/g".to_string()));
    match g.set_next_plan(true, "2") {
        SetNextPlan::Run(Tool::GrubReboot, inv) => {
            assert_eq!(inv.program, "/g");
            assert_eq!(inv.args, vec!["2".to_string()]);
        }
        other => panic!("unexpected {:?}", other),
    }
    match LinuxBootManager::new(None, None).set_next_plan(true, "2") {
        SetNextPlan::Fail(msg) => {
            assert_eq!(msg, "No supported boot manager found (efibootmgr/grub-reboot)")
        }
        other => panic!("unexpected {:?}", other),
    }
}

#[test]
fn set_next_outcomes() {
    assert_eq!(
        LinuxBootManager::set_next_outcome(Tool::Efibootmgr, "0001", true, b""),
        Ok("Next boot entry set to: 0001".to_string())
    );
    assert_eq!(
        LinuxBootManager::set_next_outcome(Tool::GrubReboot, "1", true, b""),
        Ok("GRUB next boot entry set to: 1".to_string())
    );
    assert_eq!(
        LinuxBootManager::set_next_outcome(Tool::Efibootmgr, "0001", false, b"boom"),
        Err("boom".to_string())
    );
}

#[test]
fn reboot_plan_and_outcome() {
    assert_eq!(
        LinuxBootManager::reboot_plan(false).unwrap_err(),
        "Root privileges required to reboot"
    );
    let inv = LinuxBootManager::reboot_plan(true).unwrap();
    assert_eq!(inv.program, "systemctl");
    assert_eq!(inv.args, vec!["reboot".to_string()]);
    assert_eq!(LinuxBootManager::reboot_outcome(true, b""), Ok(()));
    assert_eq!(LinuxBootManager::reboot_outcome(false, b"denied"), Err("denied".to_string()));
}

#[test]
fn boot_entry_builders() {
    let e = BootEntry::new("0001".to_string(), "Linux".to_string());
    assert!(!e.is_current && !e.is_next);
    let e = e.with_current(true);
    assert!(e.is_current && !e.is_next);
    let e = e.with_next(true).with_current(false);
    assert!(!e.is_current && e.is_next);
    assert_eq!(e.id, "0001");
    assert_eq!(e.description, "Linux");
}

#[test]
fn efibootmgr_listing_from_bytes() {
    let entries = efibootmgr_listing(EFIBOOTMGR.as_bytes()).unwrap();
    assert_eq!(entries.len(), 3);
    assert!(entries[2].is_current);
    let entries = efibootmgr_listing(b"BootCurrent: 0001\nBoot0001* Disk \xff\xfe\n").unwrap();
    assert_eq!(fields(&entries), vec![entry("0001", "Disk \u{fffd}\u{fffd}", true, false)]);
}

#[test]
fn grub_listing_without_editenv_is_empty() {
    assert!(grub_listing(None).unwrap().is_empty());
    let entries = grub_listing(Some(b"saved_entry=0\n")).unwrap();
    assert_eq!(fields(&entries), vec![entry("0", "GRUB default entry", false, true)]);
}

#[test]
fn failure_messages_are_decoded() {
    assert_eq!(
        LinuxBootManager::set_next_outcome(Tool::GrubReboot, "1", false, b"bad \xff"),
        Err("bad \u{fffd}".to_string())
    );
}

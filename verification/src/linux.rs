//! Linux: boot entries from `efibootmgr`, with `grub-reboot` as fallback.
//!
//! Running the tools, finding them on the PATH and asking for the effective
//! user are the caller's; this module decides what to run and reads what
//! the tools print.

use vstd::prelude::*;

use crate::models::{concat_str, entry_model, owned, BootEntry, EntryModel, Invocation};
use crate::pattern::{
    group, group_text, regex_accepts, regex_captures, regex_captures_all, InvalidPattern, Pattern,
};
use crate::text::{trim, trim_str};
use vstd::utf8::{decode_utf8, valid_utf8};

verus! {

/// Matches the line that names the entry booted now.
pub const BOOT_CURRENT_PATTERN: &'static str = r"BootCurrent:\s*(\w+)";

/// Matches the line that names the entry to boot next.
pub const BOOT_NEXT_PATTERN: &'static str = r"BootNext:\s*(\w+)";

/// Matches one boot entry line: its number and its description.
pub const BOOT_ENTRY_PATTERN: &'static str = r"Boot(\w+)\*?\s+(.+)";

/// Matches the saved entry in `grub-editenv list` output.
pub const SAVED_ENTRY_PATTERN: &'static str = r"saved_entry=(.+)";

/// Group 1 of the first match of `pattern` in `text`, if there is a match.
pub open spec fn first_group(pattern: Seq<char>, text: Seq<char>) -> Option<Seq<char>> {
    match regex_captures(pattern, text) {
        Some(c) => Some(group(c, 1)),
        None => None,
    }
}

/// The entry that one match of `BOOT_ENTRY_PATTERN` describes.
pub open spec fn efi_entry(c: Seq<Option<Seq<char>>>, current: Option<Seq<char>>, next: Option<Seq<char>>) -> EntryModel {
    entry_model(group(c, 1), trim(group(c, 2)), current == Some(group(c, 1)), next == Some(group(c, 1)))
}

/// The entries that the matches `caps` describe, in order.
pub open spec fn efi_entries(
    caps: Seq<Seq<Option<Seq<char>>>>,
    current: Option<Seq<char>>,
    next: Option<Seq<char>>,
) -> Seq<EntryModel> {
    Seq::new(caps.len(), |i: int| efi_entry(caps[i], current, next))
}

/// The entries that `efibootmgr` printed in `text`.
pub open spec fn efibootmgr_entries(text: Seq<char>) -> Seq<EntryModel> {
    efi_entries(
        regex_captures_all(BOOT_ENTRY_PATTERN@, text),
        first_group(BOOT_CURRENT_PATTERN@, text),
        first_group(BOOT_NEXT_PATTERN@, text),
    )
}

/// Whether `a` is present and equal to `b`.
fn option_equals(a: &Option<String>, b: &String) -> (r: bool)
    ensures
        r == (a.deep_view() == Some(b@)),
{
    match a {
        Some(s) => *s == *b,
        None => false,
    }
}

/// Group 1 of the first match of `p` in `text`.
fn first_group_of(p: &Pattern, text: &str) -> (r: Option<String>)
    ensures
        r.deep_view() == first_group(p.source(), text@),
{
    match p.captures(text) {
        Some(c) => Some(group_text(&c, 1)),
        None => None,
    }
}

/// Builds the entries from the matches of `BOOT_ENTRY_PATTERN`, given the
/// entry booted now and the one to boot next: each entry's id is group 1,
/// its description group 2 trimmed.
pub fn entries_from_captures(
    caps: &Vec<Vec<Option<String>>>,
    current: &Option<String>,
    next: &Option<String>,
) -> (entries: Vec<BootEntry>)
    ensures
        entries.deep_view() == efi_entries(caps.deep_view(), current.deep_view(), next.deep_view()),
{
    let mut entries: Vec<BootEntry> = Vec::new();
    let mut i: usize = 0;
    while i < caps.len()
        invariant
            i <= caps.len(),
            entries.deep_view() =~= efi_entries(caps.deep_view(), current.deep_view(), next.deep_view()).take(i as int),
        decreases caps.len() - i,
    {
        let id = group_text(&caps[i], 1);
        let raw = group_text(&caps[i], 2);
        let desc = trim_str(raw.as_str());
        let is_current = option_equals(current, &id);
        let is_next = option_equals(next, &id);
        assert(caps.deep_view()[i as int] == caps[i as int].deep_view());
        let e = BootEntry::new(id, desc).with_current(is_current).with_next(is_next);
        let ghost before = entries.deep_view();
        entries.push(e);
        assert(entries.deep_view() =~= before.push(e@));
        assert(e@ == efi_entries(caps.deep_view(), current.deep_view(), next.deep_view())[i as int]);
        i = i + 1;
    }
    entries
}

/// Reads the boot entries out of `efibootmgr` output: every line
/// `Boot<id>[*] <description>` is an entry, marked current where its id is
/// the one after `BootCurrent:`, next where it is the one after `BootNext:`.
pub fn parse_efibootmgr_output(text: &str) -> (r: Result<Vec<BootEntry>, InvalidPattern>)
    ensures
        match r {
            Ok(entries) => {
                &&& regex_accepts(BOOT_CURRENT_PATTERN@)
                &&& regex_accepts(BOOT_NEXT_PATTERN@)
                &&& regex_accepts(BOOT_ENTRY_PATTERN@)
                &&& entries.deep_view() == efibootmgr_entries(text@)
            },
            Err(e) => if !regex_accepts(BOOT_CURRENT_PATTERN@) {
                e.pattern@ == BOOT_CURRENT_PATTERN@
            } else if !regex_accepts(BOOT_NEXT_PATTERN@) {
                e.pattern@ == BOOT_NEXT_PATTERN@
            } else {
                !regex_accepts(BOOT_ENTRY_PATTERN@) && e.pattern@ == BOOT_ENTRY_PATTERN@
            },
        },
{
    let current_re = match Pattern::new(BOOT_CURRENT_PATTERN) {
        Some(p) => p,
        None => return Err(InvalidPattern { pattern: owned(BOOT_CURRENT_PATTERN) }),
    };
    let next_re = match Pattern::new(BOOT_NEXT_PATTERN) {
        Some(p) => p,
        None => return Err(InvalidPattern { pattern: owned(BOOT_NEXT_PATTERN) }),
    };
    let entry_re = match Pattern::new(BOOT_ENTRY_PATTERN) {
        Some(p) => p,
        None => return Err(InvalidPattern { pattern: owned(BOOT_ENTRY_PATTERN) }),
    };
    let current = first_group_of(&current_re, text);
    let next = first_group_of(&next_re, text);
    let caps = entry_re.captures_all(text);
    Ok(entries_from_captures(&caps, &current, &next))
}


/// One entry per `Boot<id>` line: `efibootmgr` output lists as many
/// entries as `BOOT_ENTRY_PATTERN` has matches, in their order, and an
/// entry is current exactly where its id is the one after `BootCurrent:`
/// and next exactly where it is the one after `BootNext:`.
pub proof fn law_efibootmgr_flags(text: Seq<char>, k: int)
    requires
        0 <= k < efibootmgr_entries(text).len(),
    ensures
        efibootmgr_entries(text).len() == regex_captures_all(BOOT_ENTRY_PATTERN@, text).len(),
        efibootmgr_entries(text)[k].is_current <==> first_group(BOOT_CURRENT_PATTERN@, text) == Some(
            efibootmgr_entries(text)[k].id,
        ),
        efibootmgr_entries(text)[k].is_next <==> first_group(BOOT_NEXT_PATTERN@, text) == Some(
            efibootmgr_entries(text)[k].id,
        ),
{
}

/// All entries marked current share one id, and so do all marked next.
pub proof fn law_efibootmgr_single_ids(text: Seq<char>, i: int, j: int)
    requires
        0 <= i < efibootmgr_entries(text).len(),
        0 <= j < efibootmgr_entries(text).len(),
    ensures
        efibootmgr_entries(text)[i].is_current && efibootmgr_entries(text)[j].is_current ==> efibootmgr_entries(
            text,
        )[i].id == efibootmgr_entries(text)[j].id,
        efibootmgr_entries(text)[i].is_next && efibootmgr_entries(text)[j].is_next ==> efibootmgr_entries(
            text,
        )[i].id == efibootmgr_entries(text)[j].id,
{
}

/// The single entry that the GRUB fallback lists: entry "0", the GRUB
/// default, marked next where the saved entry is "0".
pub open spec fn grub_default_entry(saved: Option<Seq<char>>) -> EntryModel {
    entry_model("0"@, "GRUB default entry"@, false, saved == Some("0"@))
}

/// The GRUB default entry, given the saved entry (if any).
pub fn grub_entry(saved: &Option<String>) -> (e: BootEntry)
    ensures
        e@ == grub_default_entry(saved.deep_view()),
{
    let zero = owned("0");
    let is_next = option_equals(saved, &zero);
    BootEntry::new(zero, owned("GRUB default entry")).with_next(is_next)
}

/// Reads the GRUB default entry out of `grub-editenv list` output; the
/// saved entry is what follows `saved_entry=` up to the end of its line.
pub fn parse_grub_env(text: &str) -> (r: Result<BootEntry, InvalidPattern>)
    ensures
        match r {
            Ok(e) => regex_accepts(SAVED_ENTRY_PATTERN@) && e@ == grub_default_entry(
                first_group(SAVED_ENTRY_PATTERN@, text@),
            ),
            Err(e) => !regex_accepts(SAVED_ENTRY_PATTERN@) && e.pattern@ == SAVED_ENTRY_PATTERN@,
        },
{
    let saved_re = match Pattern::new(SAVED_ENTRY_PATTERN) {
        Some(p) => p,
        None => return Err(InvalidPattern { pattern: owned(SAVED_ENTRY_PATTERN) }),
    };
    let saved = first_group_of(&saved_re, text);
    Ok(grub_entry(&saved))
}

/// Which tool sets the next boot entry.
#[derive(Debug, PartialEq, Eq, Structural, Clone, Copy)]
pub enum Tool {
    Efibootmgr,
    GrubReboot,
}

/// How to list the boot entries.
#[derive(Debug)]
pub enum ListPlan {
    /// Run `efibootmgr` (at this path, no arguments) and parse its output.
    Efibootmgr(String),
    /// Look for `grub-editenv` on the PATH, run it with `list` where found,
    /// and hand its output (or `None`) to `grub_listing`.
    GrubEnv,
    /// No tool: the list is empty.
    Nothing,
}

/// What to do to set the next boot entry.
#[derive(Debug)]
pub enum SetNextPlan {
    /// Run this, then hand its outcome to `set_next_outcome` with the tool.
    Run(Tool, Invocation),
    /// Fail at once with this message.
    Fail(String),
}

/// The text that `String::from_utf8_lossy` makes of `bytes`: invalid UTF-8
/// sequences replaced by U+FFFD.
pub uninterp spec fn utf8_lossy(bytes: Seq<u8>) -> Seq<char>;

/// Calls `String::from_utf8_lossy`; trusted to give `utf8_lossy` of the
/// bytes, which is their plain decoding where they are valid UTF-8.
#[verifier::external_body]
fn decode_utf8_lossy(bytes: &[u8]) -> (s: String)
    ensures
        s@ == utf8_lossy(bytes@),
        valid_utf8(bytes@) ==> s@ == decode_utf8(bytes@),
{
    String::from_utf8_lossy(bytes).into_owned()
}

/// The entries that `efibootmgr` listed, given the bytes it printed.
pub fn efibootmgr_listing(stdout: &[u8]) -> (r: Result<Vec<BootEntry>, InvalidPattern>)
    ensures
        match r {
            Ok(entries) => {
                &&& regex_accepts(BOOT_CURRENT_PATTERN@)
                &&& regex_accepts(BOOT_NEXT_PATTERN@)
                &&& regex_accepts(BOOT_ENTRY_PATTERN@)
                &&& entries.deep_view() == efibootmgr_entries(utf8_lossy(stdout@))
            },
            Err(e) => if !regex_accepts(BOOT_CURRENT_PATTERN@) {
                e.pattern@ == BOOT_CURRENT_PATTERN@
            } else if !regex_accepts(BOOT_NEXT_PATTERN@) {
                e.pattern@ == BOOT_NEXT_PATTERN@
            } else {
                !regex_accepts(BOOT_ENTRY_PATTERN@) && e.pattern@ == BOOT_ENTRY_PATTERN@
            },
        },
{
    let text = decode_utf8_lossy(stdout);
    parse_efibootmgr_output(text.as_str())
}

/// The GRUB fallback's listing: nothing where `grub-editenv` was not found
/// (`None`), else the GRUB default entry read from what `grub-editenv list`
/// printed.
pub fn grub_listing(editenv_stdout: Option<&[u8]>) -> (r: Result<Vec<BootEntry>, InvalidPattern>)
    ensures
        match editenv_stdout {
            None => r matches Ok(entries) && entries@.len() == 0,
            Some(bytes) => match r {
                Ok(entries) => regex_accepts(SAVED_ENTRY_PATTERN@) && entries.deep_view() == seq![
                    grub_default_entry(first_group(SAVED_ENTRY_PATTERN@, utf8_lossy(bytes@))),
                ],
                Err(e) => !regex_accepts(SAVED_ENTRY_PATTERN@) && e.pattern@ == SAVED_ENTRY_PATTERN@,
            },
        },
{
    match editenv_stdout {
        None => Ok(Vec::new()),
        Some(bytes) => {
            let text = decode_utf8_lossy(bytes);
            let e = parse_grub_env(text.as_str())?;
            let mut entries: Vec<BootEntry> = Vec::new();
            entries.push(e);
            assert(entries.deep_view() =~= seq![e@]);
            Ok(entries)
        },
    }
}

/// Linux boot manager that uses efibootmgr or grub-reboot.
#[derive(Debug)]
pub struct LinuxBootManager {
    efibootmgr_path: Option<String>,
    grub_reboot_path: Option<String>,
}

impl LinuxBootManager {
    /// Where `efibootmgr` was found, if anywhere.
    pub closed spec fn efibootmgr(&self) -> Option<Seq<char>> {
        self.efibootmgr_path.deep_view()
    }

    /// Where `grub-reboot` was found, if anywhere.
    pub closed spec fn grub_reboot(&self) -> Option<Seq<char>> {
        self.grub_reboot_path.deep_view()
    }

    /// A boot manager for the tools found at these paths.
    pub fn new(efibootmgr_path: Option<String>, grub_reboot_path: Option<String>) -> (m: Self)
        ensures
            m.efibootmgr() == efibootmgr_path.deep_view(),
            m.grub_reboot() == grub_reboot_path.deep_view(),
    {
        LinuxBootManager { efibootmgr_path, grub_reboot_path }
    }

    /// Whether either tool was found.
    pub fn available(&self) -> (b: bool)
        ensures
            b == (self.efibootmgr() is Some || self.grub_reboot() is Some),
    {
        self.efibootmgr_path.is_some() || self.grub_reboot_path.is_some()
    }

    /// How to list the entries: `efibootmgr` where found, else the GRUB
    /// fallback where `grub-reboot` was found, else nothing.
    pub fn list_plan(&self) -> (p: ListPlan)
        ensures
            match p {
                ListPlan::Efibootmgr(path) => self.efibootmgr() == Some(path@),
                ListPlan::GrubEnv => self.efibootmgr() is None && self.grub_reboot() is Some,
                ListPlan::Nothing => self.efibootmgr() is None && self.grub_reboot() is None,
            },
    {
        match &self.efibootmgr_path {
            Some(p) => ListPlan::Efibootmgr(p.clone()),
            None => if self.grub_reboot_path.is_some() {
                ListPlan::GrubEnv
            } else {
                ListPlan::Nothing
            },
        }
    }

    /// How to set `entry_id` as the next boot entry: refused without root;
    /// `efibootmgr -n <id>` where found, else `grub-reboot <id>`, else no tool.
    pub fn set_next_plan(&self, is_root: bool, entry_id: &str) -> (p: SetNextPlan)
        ensures
            p matches SetNextPlan::Fail(msg) ==> msg@ == (if !is_root {
                "Root privileges required"@
            } else {
                "No supported boot manager found (efibootmgr/grub-reboot)"@
            }),
            p is Fail <==> (!is_root || (self.efibootmgr() is None && self.grub_reboot() is None)),
            p matches SetNextPlan::Run(tool, inv) ==> match tool {
                Tool::Efibootmgr => self.efibootmgr() == Some(inv.model().0) && inv.model().1 == seq![
                    "-n"@,
                    entry_id@,
                ],
                Tool::GrubReboot => self.efibootmgr() is None && self.grub_reboot() == Some(
                    inv.model().0,
                ) && inv.model().1 == seq![entry_id@],
            },
    {
        if !is_root {
            return SetNextPlan::Fail(owned("Root privileges required"));
        }
        match &self.efibootmgr_path {
            Some(p) => {
                let mut args: Vec<String> = Vec::new();
                args.push(owned("-n"));
                args.push(owned(entry_id));
                let inv = Invocation { program: p.clone(), args };
                assert(inv.model().1 =~= seq!["-n"@, entry_id@]);
                SetNextPlan::Run(Tool::Efibootmgr, inv)
            },
            None => match &self.grub_reboot_path {
                Some(p) => {
                    let mut args: Vec<String> = Vec::new();
                    args.push(owned(entry_id));
                    let inv = Invocation { program: p.clone(), args };
                    assert(inv.model().1 =~= seq![entry_id@]);
                    SetNextPlan::Run(Tool::GrubReboot, inv)
                },
                None => SetNextPlan::Fail(owned("No supported boot manager found (efibootmgr/grub-reboot)")),
            },
        }
    }

    /// What setting the next entry came to, once `tool` ran: on success a
    /// message naming the entry, else what the tool wrote to stderr.
    pub fn set_next_outcome(tool: Tool, entry_id: &str, success: bool, stderr: &[u8]) -> (r: Result<String, String>)
        ensures
            match r {
                Ok(msg) => success && msg@ == (match tool {
                    Tool::Efibootmgr => "Next boot entry set to: "@,
                    Tool::GrubReboot => "GRUB next boot entry set to: "@,
                }) + entry_id@,
                Err(msg) => !success && msg@ == utf8_lossy(stderr@),
            },
    {
        if success {
            match tool {
                Tool::Efibootmgr => Ok(concat_str("Next boot entry set to: ", entry_id)),
                Tool::GrubReboot => Ok(concat_str("GRUB next boot entry set to: ", entry_id)),
            }
        } else {
            Err(decode_utf8_lossy(stderr))
        }
    }

    /// How to reboot: refused without root, else `systemctl reboot`.
    pub fn reboot_plan(is_root: bool) -> (r: Result<Invocation, String>)
        ensures
            match r {
                Ok(inv) => is_root && inv.model() == ("systemctl"@, seq!["reboot"@]),
                Err(msg) => !is_root && msg@ == "Root privileges required to reboot"@,
            },
    {
        if !is_root {
            return Err(owned("Root privileges required to reboot"));
        }
        let mut args: Vec<String> = Vec::new();
        args.push(owned("reboot"));
        let inv = Invocation { program: owned("systemctl"), args };
        assert(inv.model().1 =~= seq!["reboot"@]);
        Ok(inv)
    }

    /// What the reboot came to: done on success, else the tool's stderr.
    pub fn reboot_outcome(success: bool, stderr: &[u8]) -> (r: Result<(), String>)
        ensures
            match r {
                Ok(()) => success,
                Err(msg) => !success && msg@ == utf8_lossy(stderr@),
            },
    {
        if success {
            Ok(())
        } else {
            Err(decode_utf8_lossy(stderr))
        }
    }
}

} // verus!

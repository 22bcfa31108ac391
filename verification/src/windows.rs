//! Windows: boot entries from `bcdedit /enum firmware`, next boot through
//! the firmware boot manager's `bootsequence`.
//!
//! Running `bcdedit`, the privilege checks and the reboot are the caller's;
//! this module decides what to run and reads what `bcdedit` prints, which
//! comes in the GBK code page.

use vstd::prelude::*;

use crate::models::{concat_str, entry_model, owned, BootEntry, EntryModel, Invocation};
use crate::pattern::{
    group, group_text, regex_accepts, regex_captures, regex_matches, InvalidPattern, Pattern,
};
use crate::text::{contains, split, split_str, str_contains, trim, trim_str};

verus! {

/// A boot entry GUID in braces.
pub const GUID_PATTERN: &'static str = r"\{[0-9a-fA-F-]{36}\}";

/// A `description` line and its text.
pub const DESCRIPTION_PATTERN: &'static str = r"(?im)^(?:description|描述|说明|說明)\s+(.+)$";

/// A `default` line and the GUID it names.
pub const DEFAULT_PATTERN: &'static str = r"(?im)^\s*(?:default|默认)\s+(\{[0-9a-fA-F-]{36}\})";

/// A `bootsequence` line and the GUIDs it lists.
pub const BOOT_SEQUENCE_PATTERN: &'static str =
    r"(?im)^\s*(?:bootsequence|启动序列)\s+((?:\{[0-9a-fA-F-]{36}\}\s*)+)";

/// An `identifier` line of a listed entry: a GUID, or any name in braces.
pub const ENTRY_ID_PATTERN: &'static str =
    r"(?:identifier|标识符)\s+(\{[0-9a-fA-F-]{36}\}|\{[^}]+\})";

/// An `identifier` line that holds a GUID.
pub const FIRMWARE_ID_PATTERN: &'static str = r"(?:identifier|标识符)\s+(\{[0-9a-fA-F-]{36}\})";

/// The text that `encoding_rs::GBK.decode` makes of `bytes` (with BOM
/// sniffing, malformed sequences replaced).
pub uninterp spec fn gbk_decode(bytes: Seq<u8>) -> Seq<char>;

/// Calls `encoding_rs::GBK.decode`; trusted to give `gbk_decode` of the
/// bytes. The bound keeps `decode`'s buffer size computation from
/// overflowing, where it panics.
#[verifier::external_body]
fn decode_gbk(bytes: &[u8]) -> (s: String)
    requires
        bytes@.len() <= usize::MAX / 4,
    ensures
        s@ == gbk_decode(bytes@),
{
    encoding_rs::GBK.decode(bytes).0.into_owned()
}

/// The text that `str::to_lowercase` makes of `s` (Unicode lower case).
pub uninterp spec fn lowercase(s: Seq<char>) -> Seq<char>;

/// Calls `str::to_lowercase`; trusted to give `lowercase` of the text.
#[verifier::external_body]
fn to_lowercase(s: &str) -> (r: String)
    ensures
        r@ == lowercase(s@),
{
    s.to_lowercase()
}

/// Some piece of an indicator of a recovery environment appears in
/// `description`, compared in lower case.
pub open spec fn is_recovery(description: Seq<char>) -> bool {
    let d = lowercase(description);
    ||| contains(d, lowercase("Windows Recovery Environment"@))
    ||| contains(d, lowercase("Windows 恢复环境"@))
    ||| contains(d, lowercase("winre.wim"@))
    ||| contains(d, lowercase("recovery"@))
    ||| contains(d, lowercase("恢复"@))
}

/// Whether the lower-cased `d` contains the lower-cased `indicator`.
fn has_indicator(d: &str, indicator: &str) -> (b: bool)
    ensures
        b == contains(d@, lowercase(indicator@)),
{
    let i = to_lowercase(indicator);
    str_contains(d, i.as_str())
}

/// Where a blank line (CRLF or LF) separates the entries of `text`.
pub open spec fn blocks_of(text: Seq<char>) -> Seq<Seq<char>> {
    if contains(text, "\r\n\r\n"@) {
        split(text, "\r\n\r\n"@)
    } else {
        split(text, "\n\n"@)
    }
}

/// The block names the firmware boot manager itself.
pub open spec fn names_firmware_manager(block: Seq<char>) -> bool {
    contains(block, "Firmware Boot Manager"@) || contains(block, "固件启动管理器"@)
}

/// The entry that one block describes, given the matches in it of
/// `ENTRY_ID_PATTERN` and `DESCRIPTION_PATTERN` and the GUIDs of the boot
/// sequence: none without an identifier, for a recovery environment that is
/// not shown, or for the firmware boot manager; the description falls back
/// to the identifier; the block at index 1 is the current entry, the entry
/// first in the boot sequence the next one.
pub open spec fn block_entry_of(
    block: Seq<char>,
    index: int,
    show_recovery: bool,
    id_caps: Option<Seq<Option<Seq<char>>>>,
    desc_caps: Option<Seq<Option<Seq<char>>>>,
    sequence: Seq<Seq<char>>,
) -> Option<EntryModel> {
    match id_caps {
        None => None,
        Some(c) => {
            let id = group(c, 1);
            let description = match desc_caps {
                Some(d) => trim(group(d, 1)),
                None => id,
            };
            if (!show_recovery && is_recovery(description)) || names_firmware_manager(block) {
                None
            } else {
                Some(entry_model(id, description, index == 1, sequence.len() > 0 && sequence[0] == id))
            }
        },
    }
}

/// The GUIDs that the `bootsequence` line of `text` lists.
pub open spec fn boot_sequence(text: Seq<char>) -> Seq<Seq<char>> {
    match regex_captures(BOOT_SEQUENCE_PATTERN@, text) {
        Some(c) => regex_matches(GUID_PATTERN@, group(c, 1)),
        None => seq![],
    }
}

/// The entry that block `index` of `text` describes.
pub open spec fn bcdedit_block_entry(text: Seq<char>, index: int, show_recovery: bool) -> Option<EntryModel> {
    let block = blocks_of(text)[index];
    block_entry_of(
        block,
        index,
        show_recovery,
        regex_captures(ENTRY_ID_PATTERN@, block),
        regex_captures(DESCRIPTION_PATTERN@, block),
        boot_sequence(text),
    )
}

/// The entries of `s` that are present, in order.
pub open spec fn present(s: Seq<Option<EntryModel>>) -> Seq<EntryModel>
    decreases s.len(),
{
    if s.len() == 0 {
        seq![]
    } else {
        let r = present(s.drop_last());
        match s.last() {
            Some(e) => r.push(e),
            None => r,
        }
    }
}

/// The entries that `bcdedit /enum firmware` printed in `text`.
pub open spec fn bcdedit_entries(text: Seq<char>, show_recovery: bool) -> Seq<EntryModel> {
    present(Seq::new(blocks_of(text).len(), |i: int| bcdedit_block_entry(text, i, show_recovery)))
}

/// The patterns that listing compiles, in the order it compiles them.
pub open spec fn listing_patterns() -> Seq<Seq<char>> {
    seq![GUID_PATTERN@, DESCRIPTION_PATTERN@, DEFAULT_PATTERN@, BOOT_SEQUENCE_PATTERN@, ENTRY_ID_PATTERN@]
}

/// The first of `patterns` that `regex` refuses, if any.
pub open spec fn first_refused(patterns: Seq<Seq<char>>) -> Option<Seq<char>>
    decreases patterns.len(),
{
    if patterns.len() == 0 {
        None
    } else if !regex_accepts(patterns[0]) {
        Some(patterns[0])
    } else {
        first_refused(patterns.drop_first())
    }
}

/// Why listing the entries failed.
#[derive(Debug)]
pub enum ListError {
    /// `bcdedit` failed; the message holds what it wrote to stderr.
    Failed(String),
    /// A pattern did not compile.
    Pattern(InvalidPattern),
}

/// Windows boot manager using `bcdedit`.
#[derive(Debug)]
pub struct WindowsBootManager {
    show_recovery: bool,
}

impl WindowsBootManager {
    /// Whether recovery environment entries are listed.
    pub closed spec fn shows_recovery(&self) -> bool {
        self.show_recovery
    }

    /// Create a new Windows boot manager, hiding recovery environments.
    pub fn new() -> (m: Self)
        ensures
            !m.shows_recovery(),
    {
        WindowsBootManager { show_recovery: false }
    }

    /// Set whether to show recovery environment entries.
    pub fn with_show_recovery(self, show: bool) -> (m: Self)
        ensures
            m.shows_recovery() == show,
    {
        WindowsBootManager { show_recovery: show }
    }

    /// Check if a description indicates a recovery environment.
    pub fn is_recovery_environment(description: &str) -> (b: bool)
        ensures
            b == is_recovery(description@),
    {
        let lower = to_lowercase(description);
        let d = lower.as_str();
        has_indicator(d, "Windows Recovery Environment") || has_indicator(d, "Windows 恢复环境")
            || has_indicator(d, "winre.wim") || has_indicator(d, "recovery") || has_indicator(d, "恢复")
    }

    /// The entry that `block` (at `index` among the blocks) describes, given
    /// the matches of `ENTRY_ID_PATTERN` and `DESCRIPTION_PATTERN` in it and
    /// the GUIDs of the boot sequence.
    pub fn block_entry(
        &self,
        block: &str,
        index: usize,
        id_caps: &Option<Vec<Option<String>>>,
        desc_caps: &Option<Vec<Option<String>>>,
        sequence: &Vec<String>,
    ) -> (r: Option<BootEntry>)
        ensures
            r.deep_view() == block_entry_of(
                block@,
                index as int,
                self.shows_recovery(),
                id_caps.deep_view(),
                desc_caps.deep_view(),
                sequence.deep_view(),
            ),
    {
        let c = match id_caps {
            Some(c) => c,
            None => return None,
        };
        let id = group_text(c, 1);
        let description = match desc_caps {
            Some(d) => {
                let raw = group_text(d, 1);
                trim_str(raw.as_str())
            },
            None => id.clone(),
        };
        if !self.show_recovery && Self::is_recovery_environment(description.as_str()) {
            return None;
        }
        if str_contains(block, "Firmware Boot Manager") || str_contains(block, "固件启动管理器") {
            return None;
        }
        let is_current = index == 1;
        let is_next = sequence.len() > 0 && sequence[0] == id;
        assert(sequence.len() > 0 ==> sequence.deep_view()[0] == sequence[0]@);
        Some(BootEntry::new(id, description).with_current(is_current).with_next(is_next))
    }
}

impl Default for WindowsBootManager {
    /// The same as `WindowsBootManager::new`.
    fn default() -> (m: Self)
        ensures
            !m.shows_recovery(),
    {
        WindowsBootManager::new()
    }
}

/// Compiles `source`, or names it as the pattern that failed.
pub fn compile_pattern(source: &str) -> (r: Result<Pattern, InvalidPattern>)
    ensures
        match r {
            Ok(p) => regex_accepts(source@) && p.source() == source@,
            Err(e) => !regex_accepts(source@) && e.pattern@ == source@,
        },
{
    match Pattern::new(source) {
        Some(p) => Ok(p),
        None => Err(InvalidPattern { pattern: owned(source) }),
    }
}

impl WindowsBootManager {
    /// Parse `bcdedit /enum firmware` output into boot entries: one entry
    /// per blank-line separated block with an identifier, described by its
    /// description line; recovery environments (unless shown) and the
    /// firmware boot manager itself are left out.
    pub fn parse_bcdedit_output(&self, text: &str) -> (r: Result<Vec<BootEntry>, InvalidPattern>)
        ensures
            match r {
                Ok(entries) => first_refused(listing_patterns()) is None && entries.deep_view()
                    == bcdedit_entries(text@, self.shows_recovery()),
                Err(e) => first_refused(listing_patterns()) == Some(e.pattern@),
            },
    {
        proof {
            reveal_with_fuel(first_refused, 6);
            assert(listing_patterns().drop_first() =~= seq![DESCRIPTION_PATTERN@, DEFAULT_PATTERN@, BOOT_SEQUENCE_PATTERN@, ENTRY_ID_PATTERN@]);
            assert(listing_patterns().drop_first().drop_first() =~= seq![DEFAULT_PATTERN@, BOOT_SEQUENCE_PATTERN@, ENTRY_ID_PATTERN@]);
            assert(listing_patterns().drop_first().drop_first().drop_first() =~= seq![BOOT_SEQUENCE_PATTERN@, ENTRY_ID_PATTERN@]);
            assert(listing_patterns().drop_first().drop_first().drop_first().drop_first() =~= seq![ENTRY_ID_PATTERN@]);
            assert(listing_patterns().drop_first().drop_first().drop_first().drop_first().drop_first() =~= Seq::<Seq<char>>::empty());
        }
        let guid_re = compile_pattern(GUID_PATTERN)?;
        let desc_re = compile_pattern(DESCRIPTION_PATTERN)?;
        let _default_re = compile_pattern(DEFAULT_PATTERN)?;
        let sequence_re = compile_pattern(BOOT_SEQUENCE_PATTERN)?;
        let id_re = compile_pattern(ENTRY_ID_PATTERN)?;
        let sequence: Vec<String> = match sequence_re.captures(text) {
            Some(c) => {
                let guids = group_text(&c, 1);
                guid_re.matches(guids.as_str())
            },
            None => Vec::new(),
        };
        let blocks = split_blocks(text);
        let ghost opts = Seq::new(
            blocks.len() as nat,
            |i: int| bcdedit_block_entry(text@, i, self.shows_recovery()),
        );
        let mut entries: Vec<BootEntry> = Vec::new();
        let mut i: usize = 0;
        while i < blocks.len()
            invariant
                i <= blocks.len(),
                blocks.deep_view() == blocks_of(text@),
                opts.len() == blocks.len(),
                forall|j: int| 0 <= j < opts.len() ==> opts[j] == bcdedit_block_entry(text@, j, self.shows_recovery()),
                sequence.deep_view() == boot_sequence(text@),
                desc_re.source() == DESCRIPTION_PATTERN@,
                id_re.source() == ENTRY_ID_PATTERN@,
                entries.deep_view() == present(opts.take(i as int)),
            decreases blocks.len() - i,
        {
            let block = blocks[i].as_str();
            assert(blocks.deep_view()[i as int] == blocks[i as int]@);
            let id_caps = id_re.captures(block);
            let desc_caps = if id_caps.is_some() {
                desc_re.captures(block)
            } else {
                None
            };
            let found = self.block_entry(block, i, &id_caps, &desc_caps, &sequence);
            let ghost before = entries.deep_view();
            match found {
                Some(e) => entries.push(e),
                None => {},
            }
            assert(opts.take(i + 1).drop_last() =~= opts.take(i as int));
            assert(opts.take(i + 1).last() == opts[i as int]);
            assert(entries.deep_view() =~= present(opts.take(i + 1)));
            i = i + 1;
        }
        assert(opts.take(blocks.len() as int) =~= opts);
        Ok(entries)
    }

    /// What listing came to once `bcdedit /enum firmware` ran: on failure
    /// the error names what it wrote to stderr; else its output, decoded
    /// from GBK, is parsed.
    pub fn bcdedit_listing(&self, success: bool, stdout: &[u8], stderr: &[u8]) -> (r: Result<Vec<BootEntry>, ListError>)
        requires
            stdout@.len() <= usize::MAX / 4,
            stderr@.len() <= usize::MAX / 4,
        ensures
            match r {
                Ok(entries) => success && first_refused(listing_patterns()) is None && entries.deep_view()
                    == bcdedit_entries(gbk_decode(stdout@), self.shows_recovery()),
                Err(ListError::Failed(msg)) => !success && msg@ == "bcdedit failed: "@ + gbk_decode(stderr@),
                Err(ListError::Pattern(e)) => success && first_refused(listing_patterns()) == Some(e.pattern@),
            },
    {
        if !success {
            let err = decode_gbk(stderr);
            return Err(ListError::Failed(concat_str("bcdedit failed: ", err.as_str())));
        }
        let text = decode_gbk(stdout);
        match self.parse_bcdedit_output(text.as_str()) {
            Ok(entries) => Ok(entries),
            Err(e) => Err(ListError::Pattern(e)),
        }
    }
}

/// The argument that names `entry_id` to `bcdedit`: as given where it
/// starts with `{`, else wrapped in braces.
pub open spec fn braced(entry_id: Seq<char>) -> Seq<char> {
    if entry_id.len() > 0 && entry_id[0] == '{' {
        entry_id
    } else {
        seq!['{'] + entry_id + seq!['}']
    }
}

/// The first firmware boot manager block from `i` on whose identifier
/// matches: its GUID; an error where the identifier pattern does not
/// compile when first needed.
pub open spec fn firmware_guid_from(blocks: Seq<Seq<char>>, i: int) -> Result<Option<Seq<char>>, Seq<char>>
    decreases blocks.len() - i,
{
    if i < 0 || i >= blocks.len() {
        Ok(None)
    } else if names_firmware_manager(blocks[i]) {
        if !regex_accepts(FIRMWARE_ID_PATTERN@) {
            Err(FIRMWARE_ID_PATTERN@)
        } else {
            match regex_captures(FIRMWARE_ID_PATTERN@, blocks[i]) {
                Some(c) => Ok(Some(group(c, 1))),
                None => firmware_guid_from(blocks, i + 1),
            }
        }
    } else {
        firmware_guid_from(blocks, i + 1)
    }
}

/// The GUID of the firmware boot manager in `bcdedit /v /enum firmware`
/// output, whose entries are separated by CRLF blank lines.
pub open spec fn firmware_guid(text: Seq<char>) -> Result<Option<Seq<char>>, Seq<char>> {
    firmware_guid_from(split(text, "\r\n\r\n"@), 0)
}

/// Why setting the next boot entry failed before it came to `bcdedit /set`.
#[derive(Debug)]
pub enum TargetError {
    /// The identifier pattern did not compile.
    Pattern(InvalidPattern),
    /// No firmware boot manager entry with a GUID was listed.
    NoFirmwareManager,
}

impl TargetError {
    /// The message that tells the user what went wrong.
    pub fn message(&self) -> (m: String)
        ensures
            match self {
                TargetError::Pattern(e) => m@ == "invalid pattern: "@ + e.pattern@,
                TargetError::NoFirmwareManager => m@ == "Cannot find Firmware Boot Manager GUID"@,
            },
    {
        match self {
            TargetError::Pattern(e) => concat_str("invalid pattern: ", e.pattern.as_str()),
            TargetError::NoFirmwareManager => owned("Cannot find Firmware Boot Manager GUID"),
        }
    }
}

/// `bcdedit` with these arguments.
fn bcdedit(args: Vec<String>) -> (inv: Invocation)
    ensures
        inv.model() == ("bcdedit"@, args.deep_view()),
{
    Invocation { program: owned("bcdedit"), args }
}

impl WindowsBootManager {
    /// The firmware boot manager's GUID in `bcdedit /v /enum firmware`
    /// output: from the first block that names it and has an identifier.
    pub fn find_firmware_guid(text: &str) -> (r: Result<Option<String>, InvalidPattern>)
        ensures
            match r {
                Ok(g) => firmware_guid(text@) == Ok::<Option<Seq<char>>, Seq<char>>(g.deep_view()),
                Err(e) => firmware_guid(text@) == Err::<Option<Seq<char>>, Seq<char>>(e.pattern@),
            },
    {
        proof {
            reveal_strlit("\r\n\r\n");
        }
        let blocks = split_str(text, "\r\n\r\n");
        let mut id_re: Option<Pattern> = None;
        let mut i: usize = 0;
        while i < blocks.len()
            invariant
                i <= blocks.len(),
                blocks.deep_view() == split(text@, "\r\n\r\n"@),
                firmware_guid_from(blocks.deep_view(), i as int) == firmware_guid(text@),
                id_re matches Some(p) ==> p.source() == FIRMWARE_ID_PATTERN@ && regex_accepts(FIRMWARE_ID_PATTERN@),
            decreases blocks.len() - i,
        {
            let block = blocks[i].as_str();
            assert(blocks.deep_view()[i as int] == blocks[i as int]@);
            if str_contains(block, "Firmware Boot Manager") || str_contains(block, "固件启动管理器") {
                if id_re.is_none() {
                    id_re = Some(compile_pattern(FIRMWARE_ID_PATTERN)?);
                }
                if let Some(re) = &id_re {
                    if let Some(c) = re.captures(block) {
                        return Ok(Some(group_text(&c, 1)));
                    }
                }
            }
            i = i + 1;
        }
        Ok(None)
    }

    /// The argument naming `entry_id` to `bcdedit`, braced as needed.
    pub fn braced_id(entry_id: &str) -> (r: String)
        ensures
            r@ == braced(entry_id@),
    {
        if entry_id.unicode_len() > 0 && entry_id.get_char(0) == '{' {
            owned(entry_id)
        } else {
            proof {
                reveal_strlit("{");
                reveal_strlit("}");
            }
            let mut r = owned("{");
            r.append(entry_id);
            r.append("}");
            assert(r@ =~= seq!['{'] + entry_id@ + seq!['}']);
            r
        }
    }

    /// The first step of setting the next entry: refused without
    /// administrator rights, else list the firmware entries verbosely.
    pub fn set_next_start(is_admin: bool) -> (r: Result<Invocation, String>)
        ensures
            match r {
                Ok(inv) => is_admin && inv.model() == ("bcdedit"@, seq!["/v"@, "/enum"@, "firmware"@]),
                Err(msg) => !is_admin && msg@ == "Administrator privileges required to modify BCD"@,
            },
    {
        if !is_admin {
            return Err(owned("Administrator privileges required to modify BCD"));
        }
        let mut args: Vec<String> = Vec::new();
        args.push(owned("/v"));
        args.push(owned("/enum"));
        args.push(owned("firmware"));
        let inv = bcdedit(args);
        assert(inv.model().1 =~= seq!["/v"@, "/enum"@, "firmware"@]);
        Ok(inv)
    }

    /// The firmware boot manager's GUID out of the (GBK) output of the
    /// verbose listing.
    pub fn firmware_manager(stdout: &[u8]) -> (r: Result<String, TargetError>)
        requires
            stdout@.len() <= usize::MAX / 4,
        ensures
            match r {
                Ok(g) => firmware_guid(gbk_decode(stdout@)) == Ok::<Option<Seq<char>>, Seq<char>>(Some(g@)),
                Err(TargetError::NoFirmwareManager) => firmware_guid(gbk_decode(stdout@)) == Ok::<
                    Option<Seq<char>>,
                    Seq<char>,
                >(None),
                Err(TargetError::Pattern(e)) => firmware_guid(gbk_decode(stdout@)) == Err::<
                    Option<Seq<char>>,
                    Seq<char>,
                >(e.pattern@),
            },
    {
        let text = decode_gbk(stdout);
        match Self::find_firmware_guid(text.as_str()) {
            Ok(Some(g)) => Ok(g),
            Ok(None) => Err(TargetError::NoFirmwareManager),
            Err(e) => Err(TargetError::Pattern(e)),
        }
    }

    /// Make `entry` the firmware manager's one-time boot sequence.
    pub fn bootsequence_invocation(firmware: &str, entry: &str) -> (inv: Invocation)
        ensures
            inv.model() == ("bcdedit"@, seq!["/set"@, firmware@, "bootsequence"@, entry@]),
    {
        let mut args: Vec<String> = Vec::new();
        args.push(owned("/set"));
        args.push(owned(firmware));
        args.push(owned("bootsequence"));
        args.push(owned(entry));
        let inv = bcdedit(args);
        assert(inv.model().1 =~= seq!["/set"@, firmware@, "bootsequence"@, entry@]);
        inv
    }

    /// The second step of setting the next entry, once the verbose listing
    /// printed `listing_stdout`: make the entry (braced as needed) the
    /// firmware boot manager's one-time boot sequence. Nothing else is set:
    /// the display order stays as it is.
    pub fn bootsequence_step(listing_stdout: &[u8], entry_id: &str) -> (r: Result<Invocation, TargetError>)
        requires
            listing_stdout@.len() <= usize::MAX / 4,
        ensures
            match r {
                Ok(inv) => firmware_guid(gbk_decode(listing_stdout@)) matches Ok(Some(g)) && inv.model() == (
                    "bcdedit"@,
                    seq!["/set"@, g, "bootsequence"@, braced(entry_id@)],
                ),
                Err(TargetError::NoFirmwareManager) => firmware_guid(gbk_decode(listing_stdout@)) == Ok::<
                    Option<Seq<char>>,
                    Seq<char>,
                >(None),
                Err(TargetError::Pattern(e)) => firmware_guid(gbk_decode(listing_stdout@)) == Err::<
                    Option<Seq<char>>,
                    Seq<char>,
                >(e.pattern@),
            },
    {
        let firmware = Self::firmware_manager(listing_stdout)?;
        let entry = Self::braced_id(entry_id);
        Ok(Self::bootsequence_invocation(firmware.as_str(), entry.as_str()))
    }

    /// What setting the boot sequence came to: a message naming the entry on
    /// success, else the failure with what `bcdedit` wrote to stderr (GBK).
    pub fn bootsequence_outcome(entry_id: &str, success: bool, stderr: &[u8]) -> (r: Result<String, String>)
        requires
            stderr@.len() <= usize::MAX / 4,
        ensures
            match r {
                Ok(m) => success && m@ == "Set next boot entry: "@ + entry_id@,
                Err(m) => !success && m@ == "Failed to set boot entry: "@ + gbk_decode(stderr@),
            },
    {
        if success {
            Ok(concat_str("Set next boot entry: ", entry_id))
        } else {
            let err = decode_gbk(stderr);
            Err(concat_str("Failed to set boot entry: ", err.as_str()))
        }
    }

    /// Rebooting is refused without administrator rights.
    pub fn reboot_check(is_admin: bool) -> (r: Result<(), String>)
        ensures
            match r {
                Ok(()) => is_admin,
                Err(m) => !is_admin && m@ == "Administrator privileges required to reboot"@,
            },
    {
        if is_admin {
            Ok(())
        } else {
            Err(owned("Administrator privileges required to reboot"))
        }
    }

    /// The message when the shutdown privilege could not be enabled.
    pub fn privilege_error(cause: &str) -> (m: String)
        ensures
            m@ == "Failed to enable shutdown privilege: "@ + cause@,
    {
        concat_str("Failed to enable shutdown privilege: ", cause)
    }

    /// The message when the reboot itself failed.
    pub fn reboot_error(cause: &str) -> (m: String)
        ensures
            m@ == "Failed to reboot system: "@ + cause@,
    {
        concat_str("Failed to reboot system: ", cause)
    }
}

/// Every entry that `present` keeps is one of the present items of `s`.
pub proof fn lemma_present_member(s: Seq<Option<EntryModel>>, k: int)
    requires
        0 <= k < present(s).len(),
    ensures
        exists|j: int| 0 <= j < s.len() && s[j] == Some(present(s)[k]),
    decreases s.len(),
{
    let r = present(s.drop_last());
    if k < r.len() {
        lemma_present_member(s.drop_last(), k);
        let j = choose|j: int| 0 <= j < s.drop_last().len() && s.drop_last()[j] == Some(r[k]);
        assert(s[j] == Some(present(s)[k]));
    } else {
        assert(s[s.len() - 1] == Some(present(s)[k]));
    }
}

/// With recovery environments hidden, no listed entry is one: the
/// description of every entry that `bcdedit` output lists fails the
/// recovery check.
pub proof fn law_recovery_hidden(text: Seq<char>, k: int)
    requires
        0 <= k < bcdedit_entries(text, false).len(),
    ensures
        !is_recovery(bcdedit_entries(text, false)[k].description),
{
    let s = Seq::new(blocks_of(text).len(), |i: int| bcdedit_block_entry(text, i, false));
    lemma_present_member(s, k);
}

/// No listed entry is the firmware boot manager: the block of every listed
/// entry names neither "Firmware Boot Manager" nor its Chinese name.
pub proof fn law_firmware_manager_not_listed(text: Seq<char>, show_recovery: bool, k: int)
    requires
        0 <= k < bcdedit_entries(text, show_recovery).len(),
    ensures
        exists|i: int|
            0 <= i < blocks_of(text).len() && !contains(blocks_of(text)[i], "Firmware Boot Manager"@)
                && !contains(blocks_of(text)[i], "固件启动管理器"@) && bcdedit_block_entry(text, i, show_recovery)
                == Some(bcdedit_entries(text, show_recovery)[k]),
{
    let s = Seq::new(blocks_of(text).len(), |i: int| bcdedit_block_entry(text, i, show_recovery));
    lemma_present_member(s, k);
}

/// A block whose text holds "Firmware Boot Manager" or "固件启动管理器"
/// describes no entry, whatever its identifier, description and flags.
pub proof fn law_block_entry_skips_firmware_manager(
    block: Seq<char>,
    index: int,
    show_recovery: bool,
    id_caps: Option<Seq<Option<Seq<char>>>>,
    desc_caps: Option<Seq<Option<Seq<char>>>>,
    sequence: Seq<Seq<char>>,
)
    requires
        contains(block, "Firmware Boot Manager"@) || contains(block, "固件启动管理器"@),
    ensures
        block_entry_of(block, index, show_recovery, id_caps, desc_caps, sequence) is None,
{
}

/// A description counts as a recovery environment exactly when, lower
/// cased, it holds one of the five indicators lower cased: "Windows Recovery
/// Environment", "Windows 恢复环境", "winre.wim", "recovery", "恢复".
pub proof fn law_recovery_indicators(description: Seq<char>)
    ensures
        is_recovery(description) <==> (contains(lowercase(description), lowercase("Windows Recovery Environment"@))
            || contains(lowercase(description), lowercase("Windows 恢复环境"@)) || contains(
            lowercase(description),
            lowercase("winre.wim"@),
        ) || contains(lowercase(description), lowercase("recovery"@)) || contains(
            lowercase(description),
            lowercase("恢复"@),
        )),
{
}

/// Blocks before `i` that hold neither name of the firmware boot manager
/// are passed over by the search.
proof fn lemma_firmware_search_skips(blocks: Seq<Seq<char>>, from: int, i: int)
    requires
        0 <= from <= i <= blocks.len(),
        forall|j: int|
            from <= j < i ==> !contains(#[trigger] blocks[j], "Firmware Boot Manager"@) && !contains(
                blocks[j],
                "固件启动管理器"@,
            ),
    ensures
        firmware_guid_from(blocks, from) == firmware_guid_from(blocks, i),
    decreases i - from,
{
    if from < i {
        assert(!contains(blocks[from], "Firmware Boot Manager"@));
        lemma_firmware_search_skips(blocks, from + 1, i);
    }
}

/// The firmware boot manager's GUID comes from the first CRLF blank-line
/// block that holds "Firmware Boot Manager" or "固件启动管理器": where its
/// identifier line matches, its group 1 is the GUID.
pub proof fn law_firmware_guid_from_first_manager_block(text: Seq<char>, i: int, c: Seq<Option<Seq<char>>>)
    requires
        0 <= i < split(text, "\r\n\r\n"@).len(),
        contains(split(text, "\r\n\r\n"@)[i], "Firmware Boot Manager"@) || contains(
            split(text, "\r\n\r\n"@)[i],
            "固件启动管理器"@,
        ),
        forall|j: int|
            0 <= j < i ==> !contains(#[trigger] split(text, "\r\n\r\n"@)[j], "Firmware Boot Manager"@)
                && !contains(split(text, "\r\n\r\n"@)[j], "固件启动管理器"@),
        regex_accepts(FIRMWARE_ID_PATTERN@),
        regex_captures(FIRMWARE_ID_PATTERN@, split(text, "\r\n\r\n"@)[i]) == Some(c),
    ensures
        firmware_guid(text) == Ok::<Option<Seq<char>>, Seq<char>>(Some(group(c, 1))),
{
    let blocks = split(text, "\r\n\r\n"@);
    lemma_firmware_search_skips(blocks, 0, i);
}

/// Where no CRLF blank-line block holds either name of the firmware boot
/// manager, no GUID is found (and nothing is compiled).
pub proof fn law_no_firmware_manager_block(text: Seq<char>)
    requires
        forall|j: int|
            0 <= j < split(text, "\r\n\r\n"@).len() ==> !contains(
                #[trigger] split(text, "\r\n\r\n"@)[j],
                "Firmware Boot Manager"@,
            ) && !contains(split(text, "\r\n\r\n"@)[j], "固件启动管理器"@),
    ensures
        firmware_guid(text) == Ok::<Option<Seq<char>>, Seq<char>>(None),
{
    let blocks = split(text, "\r\n\r\n"@);
    lemma_firmware_search_skips(blocks, 0, blocks.len() as int);
}

/// Every listed entry comes from a block with an identifier line: its id is
/// that identifier, its description the block's description line trimmed
/// (or the id where there is none), it is current exactly when the block is
/// the second one, and next exactly when its id is the first GUID of the
/// boot sequence.
pub proof fn law_listed_entry_fields(text: Seq<char>, show_recovery: bool, k: int)
    requires
        0 <= k < bcdedit_entries(text, show_recovery).len(),
    ensures
        exists|i: int, c: Seq<Option<Seq<char>>>|
            #![trigger blocks_of(text)[i], group(c, 1)]
            {
                let e = bcdedit_entries(text, show_recovery)[k];
                let block = blocks_of(text)[i];
                &&& 0 <= i < blocks_of(text).len()
                &&& regex_captures(ENTRY_ID_PATTERN@, block) == Some(c)
                &&& e.id == group(c, 1)
                &&& e.description == (match regex_captures(DESCRIPTION_PATTERN@, block) {
                    Some(d) => trim(group(d, 1)),
                    None => group(c, 1),
                })
                &&& (e.is_current <==> i == 1)
                &&& (e.is_next <==> (boot_sequence(text).len() > 0 && e.id == boot_sequence(text)[0]))
            },
{
    let s = Seq::new(blocks_of(text).len(), |i: int| bcdedit_block_entry(text, i, show_recovery));
    lemma_present_member(s, k);
    let i = choose|i: int| 0 <= i < s.len() && s[i] == Some(present(s)[k]);
    let c = regex_captures(ENTRY_ID_PATTERN@, blocks_of(text)[i])->0;
    assert(regex_captures(ENTRY_ID_PATTERN@, blocks_of(text)[i]) == Some(c));
    assert(group(c, 1) == present(s)[k].id);
}

/// Every entry marked next is the first entry of the boot sequence.
pub proof fn law_next_is_first_in_sequence(text: Seq<char>, show_recovery: bool, k: int)
    requires
        0 <= k < bcdedit_entries(text, show_recovery).len(),
        bcdedit_entries(text, show_recovery)[k].is_next,
    ensures
        boot_sequence(text).len() > 0,
        bcdedit_entries(text, show_recovery)[k].id == boot_sequence(text)[0],
{
    let s = Seq::new(blocks_of(text).len(), |i: int| bcdedit_block_entry(text, i, show_recovery));
    lemma_present_member(s, k);
}

/// `entries` without those whose description names a recovery environment.
pub open spec fn without_recovery(entries: Seq<EntryModel>) -> Seq<EntryModel>
    decreases entries.len(),
{
    if entries.len() == 0 {
        seq![]
    } else {
        let r = without_recovery(entries.drop_last());
        if is_recovery(entries.last().description) {
            r
        } else {
            r.push(entries.last())
        }
    }
}

proof fn lemma_present_without_recovery(shown: Seq<Option<EntryModel>>, hidden: Seq<Option<EntryModel>>)
    requires
        shown.len() == hidden.len(),
        forall|i: int|
            0 <= i < shown.len() ==> hidden[i] == (match shown[i] {
                Some(e) => if is_recovery(e.description) {
                    None
                } else {
                    Some(e)
                },
                None => None,
            }),
    ensures
        present(hidden) == without_recovery(present(shown)),
    decreases shown.len(),
{
    if shown.len() > 0 {
        lemma_present_without_recovery(shown.drop_last(), hidden.drop_last());
        let p = present(shown.drop_last());
        assert(hidden.last() == hidden[hidden.len() - 1]);
        match shown.last() {
            Some(e) => {
                assert(present(shown) == p.push(e));
                assert(p.push(e).drop_last() =~= p);
                assert(p.push(e).last() == e);
            },
            None => {},
        }
    }
}

/// Showing recovery environments only adds them: the listing with them
/// hidden is the listing with them shown, less the recovery entries, every
/// other entry unchanged (flags included) and in the same order.
pub proof fn law_recovery_only_added(text: Seq<char>)
    ensures
        bcdedit_entries(text, false) == without_recovery(bcdedit_entries(text, true)),
{
    let n = blocks_of(text).len();
    let shown = Seq::new(n, |i: int| bcdedit_block_entry(text, i, true));
    let hidden = Seq::new(n, |i: int| bcdedit_block_entry(text, i, false));
    lemma_present_without_recovery(shown, hidden);
}

/// At most one entry of `present(s)` is current where only the item at
/// index 1 can be.
proof fn lemma_one_current(s: Seq<Option<EntryModel>>, k1: int, k2: int)
    requires
        forall|j: int| 0 <= j < s.len() && s[j] is Some && (s[j]->0).is_current ==> j == 1,
        0 <= k1 < present(s).len(),
        0 <= k2 < present(s).len(),
        present(s)[k1].is_current,
        present(s)[k2].is_current,
    ensures
        k1 == k2,
    decreases s.len(),
{
    let t = s.drop_last();
    let r = present(t);
    if k1 < r.len() && k2 < r.len() {
        lemma_one_current(t, k1, k2);
    } else if k1 < r.len() || k2 < r.len() {
        let k = if k1 < r.len() { k1 } else { k2 };
        lemma_present_member(t, k);
        assert(s.len() - 1 == 1);
        assert(forall|j: int| 0 <= j < t.len() && t[j] is Some ==> !(t[j]->0).is_current);
    }
}

/// At most one listed entry is current: the one from the block right
/// after the firmware boot manager's.
pub proof fn law_single_current(text: Seq<char>, show_recovery: bool, k1: int, k2: int)
    requires
        0 <= k1 < bcdedit_entries(text, show_recovery).len(),
        0 <= k2 < bcdedit_entries(text, show_recovery).len(),
        bcdedit_entries(text, show_recovery)[k1].is_current,
        bcdedit_entries(text, show_recovery)[k2].is_current,
    ensures
        k1 == k2,
{
    let s = Seq::new(blocks_of(text).len(), |i: int| bcdedit_block_entry(text, i, show_recovery));
    lemma_one_current(s, k1, k2);
}

/// Braces are added once: the argument always starts with `{`, and bracing
/// it again changes nothing.
pub proof fn law_braced_idempotent(entry_id: Seq<char>)
    ensures
        braced(entry_id).len() > 0,
        braced(entry_id)[0] == '{',
        braced(braced(entry_id)) == braced(entry_id),
{
}

/// The text split into blocks at blank lines, CRLF ones where there are any.
pub fn split_blocks(text: &str) -> (blocks: Vec<String>)
    ensures
        blocks.deep_view() == blocks_of(text@),
{
    proof {
        reveal_strlit("\r\n\r\n");
        reveal_strlit("\n\n");
    }
    if str_contains(text, "\r\n\r\n") {
        split_str(text, "\r\n\r\n")
    } else {
        split_str(text, "\n\n")
    }
}

} // verus!

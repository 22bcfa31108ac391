//! The state of the boot selector window and how each user action changes
//! it. Drawing the window and calling the boot manager are the caller's:
//! each action hands over what the boot manager answered.

use vstd::prelude::*;

use crate::models::{concat_str, owned, BootEntry, EntryModel};
use crate::text::{decimal, decimal_string};

verus! {

/// The window's state as the specifications see it.
pub struct AppModel {
    pub entries: Seq<EntryModel>,
    pub selected: Option<usize>,
    pub log: Seq<char>,
    pub error_message: Option<Seq<char>>,
    pub reboot_pending: bool,
}

/// Main application state.
#[derive(Debug)]
pub struct SysSwitchApp {
    pub entries: Vec<BootEntry>,
    pub selected: Option<usize>,
    pub log: String,
    pub error_message: Option<String>,
    pub reboot_pending: bool,
}

impl View for SysSwitchApp {
    type V = AppModel;

    open spec fn view(&self) -> AppModel {
        AppModel {
            entries: self.entries.deep_view(),
            selected: self.selected,
            log: self.log@,
            error_message: self.error_message.deep_view(),
            reboot_pending: self.reboot_pending,
        }
    }
}

/// What the boot manager answered to a listing: `None` where no boot
/// manager is available, else the entries or the error's message.
pub type Listing = Option<Result<Vec<BootEntry>, String>>;

/// The model of a listing.
pub open spec fn listing_model(l: Listing) -> Option<Result<Seq<EntryModel>, Seq<char>>> {
    match l {
        None => None,
        Some(Ok(v)) => Some(Ok(v.deep_view())),
        Some(Err(e)) => Some(Err(e@)),
    }
}

/// The model of an outcome that carries a message either way.
pub open spec fn outcome_model(r: Result<String, String>) -> Result<Seq<char>, Seq<char>> {
    match r {
        Ok(m) => Ok(m@),
        Err(e) => Err(e@),
    }
}

/// The state of a window that has not listed anything yet.
pub open spec fn blank() -> AppModel {
    AppModel { entries: seq![], selected: None, log: seq![], error_message: None, reboot_pending: false }
}

/// `log` with `text` added as a new line.
pub open spec fn logged(log: Seq<char>, text: Seq<char>) -> Seq<char> {
    if log.len() == 0 {
        text
    } else {
        log + "\n"@ + text
    }
}

/// The state with `text` added to the log.
pub open spec fn with_line(s: AppModel, text: Seq<char>) -> AppModel {
    AppModel { log: logged(s.log, text), ..s }
}

/// The state with entry `i` selected.
pub open spec fn with_selection(s: AppModel, i: usize) -> AppModel {
    AppModel { selected: Some(i), ..s }
}

/// The message shown when no boot manager is available.
pub open spec fn no_manager_message() -> Seq<char> {
    "No supported boot manager found. Please install required tools or run as admin/root."@
}

/// The state after a refresh with `listing`: the error and a pending
/// reboot are cleared; the new entries are logged and shown with nothing
/// selected, or the error shown.
pub open spec fn refreshed(s: AppModel, listing: Option<Result<Seq<EntryModel>, Seq<char>>>) -> AppModel {
    let s = AppModel { error_message: None, reboot_pending: false, ..s };
    match listing {
        None => AppModel { error_message: Some(no_manager_message()), ..s },
        Some(Ok(entries)) => AppModel {
            entries,
            selected: None,
            log: logged(s.log, "Found "@ + decimal(entries.len()) + " boot entries"@),
            ..s
        },
        Some(Err(e)) => AppModel { error_message: Some("Failed to get boot entries: "@ + e), ..s },
    }
}

/// The entry id that applying hands to the boot manager, if any.
pub open spec fn apply_target(s: AppModel) -> Option<Seq<char>> {
    match s.selected {
        Some(i) => if i < s.entries.len() {
            Some(s.entries[i as int].id)
        } else {
            None
        },
        None => None,
    }
}

/// The state once applying started: without a selection, an error asks
/// for one.
pub open spec fn apply_started(s: AppModel) -> AppModel {
    if s.selected is None {
        AppModel { error_message: Some("Please select a boot entry"@), ..s }
    } else {
        s
    }
}

/// The state once the boot manager answered: its message is logged, or
/// the error logged and shown.
pub open spec fn apply_finished(s: AppModel, outcome: Result<Seq<char>, Seq<char>>) -> AppModel {
    match outcome {
        Ok(msg) => AppModel { log: logged(s.log, msg), ..s },
        Err(e) => AppModel { log: logged(s.log, "Error: "@ + e), error_message: Some(e), ..s },
    }
}

/// The state after a reboot attempt: a failure is logged and shown.
pub open spec fn reboot_finished(s: AppModel, outcome: Result<(), Seq<char>>) -> AppModel {
    match outcome {
        Ok(()) => s,
        Err(e) => AppModel { log: logged(s.log, "Error: "@ + e), error_message: Some(e), ..s },
    }
}

/// The state after the reboot button is pressed, and whether to reboot:
/// the first press arms the button and asks for confirmation; a press on
/// an armed button reboots.
pub open spec fn reboot_pressed(s: AppModel) -> (AppModel, bool) {
    if s.reboot_pending {
        (s, true)
    } else {
        (AppModel {
            reboot_pending: true,
            error_message: Some("Click 'Confirm Reboot' to reboot now."@),
            ..s
        }, false)
    }
}

/// The label of one entry in the list: description, id in brackets, and
/// its flags.
pub open spec fn entry_label_of(e: EntryModel) -> Seq<char> {
    e.description + " ["@ + e.id + "]"@ + (if e.is_current {
        " (Current)"@
    } else {
        ""@
    }) + (if e.is_next {
        " (Next)"@
    } else {
        ""@
    })
}

/// Rebooting takes two presses: a press right after a refresh never
/// reboots, and a press on an armed button always does.
pub proof fn law_reboot_needs_confirmation(s: AppModel, listing: Option<Result<Seq<EntryModel>, Seq<char>>>)
    ensures
        !reboot_pressed(refreshed(s, listing)).1,
        reboot_pressed(reboot_pressed(s).0).1,
{
}

/// A successful refresh clears the selection, so applying right after it
/// hands nothing to the boot manager.
pub proof fn law_refresh_clears_selection(s: AppModel, entries: Seq<EntryModel>)
    ensures
        refreshed(s, Some(Ok(entries))).entries == entries,
        apply_target(refreshed(s, Some(Ok(entries)))) is None,
{
}

/// Logging keeps what was logged and ends with the new line.
pub proof fn law_log_appends(log: Seq<char>, text: Seq<char>)
    ensures
        logged(log, text).len() >= log.len() + text.len(),
        logged(log, text).subrange(0, log.len() as int) == log,
        logged(log, text).subrange(logged(log, text).len() - text.len(), logged(log, text).len() as int) == text,
{
    assert(logged(log, text).subrange(0, log.len() as int) =~= log);
    assert(logged(log, text).subrange(logged(log, text).len() - text.len(), logged(log, text).len() as int) =~= text);
}

/// A user action on the window, with what the boot manager answered where
/// it took part.
pub enum WindowAction {
    /// A refresh, with the listing it got.
    Refresh(Option<Result<Seq<EntryModel>, Seq<char>>>),
    /// A click on entry `i` of the list.
    Select(usize),
    /// A click on "Set as Next Boot".
    StartApply,
    /// The boot manager's answer to setting the next entry.
    FinishApply(Result<Seq<char>, Seq<char>>),
    /// A click on the reboot button.
    PressReboot,
    /// The outcome of a reboot attempt.
    RebootDone(Result<(), Seq<char>>),
}

/// The state after one action, as the methods of `SysSwitchApp` change it.
pub open spec fn after(s: AppModel, a: WindowAction) -> AppModel {
    match a {
        WindowAction::Refresh(l) => refreshed(s, l),
        WindowAction::Select(i) => with_selection(s, i),
        WindowAction::StartApply => apply_started(s),
        WindowAction::FinishApply(o) => apply_finished(s, o),
        WindowAction::PressReboot => reboot_pressed(s).0,
        WindowAction::RebootDone(o) => reboot_finished(s, o),
    }
}

/// The state after the actions `acts`, in order.
pub open spec fn run(s: AppModel, acts: Seq<WindowAction>) -> AppModel
    decreases acts.len(),
{
    if acts.len() == 0 {
        s
    } else {
        after(run(s, acts.drop_last()), acts.last())
    }
}

/// The reboot button was pressed since the last refresh (or since the start).
pub open spec fn pressed_since_refresh(acts: Seq<WindowAction>) -> bool
    decreases acts.len(),
{
    if acts.len() == 0 {
        false
    } else {
        match acts.last() {
            WindowAction::Refresh(_) => false,
            WindowAction::PressReboot => true,
            _ => pressed_since_refresh(acts.drop_last()),
        }
    }
}

/// Over any sequence of actions on a new window, the reboot button is armed
/// exactly when it was pressed since the last refresh, so a press reboots
/// only after an earlier press with no refresh in between.
pub proof fn law_reboot_only_after_earlier_press(
    listing: Option<Result<Seq<EntryModel>, Seq<char>>>,
    acts: Seq<WindowAction>,
)
    ensures
        run(refreshed(blank(), listing), acts).reboot_pending == pressed_since_refresh(acts),
        reboot_pressed(run(refreshed(blank(), listing), acts)).1 == pressed_since_refresh(acts),
    decreases acts.len(),
{
    if acts.len() > 0 {
        law_reboot_only_after_earlier_press(listing, acts.drop_last());
    }
}

/// Applying with entry `i` of the list selected hands that entry's id to
/// the boot manager, for every listed `i` (the first included), and shows
/// no error.
pub proof fn law_apply_hands_selected_entry(s: AppModel, i: usize)
    requires
        s.selected == Some(i),
        i < s.entries.len(),
    ensures
        apply_target(s) == Some(s.entries[i as int].id),
        apply_started(s) == s,
{
}

/// Applying without a selection hands nothing over and asks for one.
pub proof fn law_apply_without_selection(s: AppModel)
    requires
        s.selected is None,
    ensures
        apply_target(s) is None,
        apply_started(s).error_message == Some("Please select a boot entry"@),
{
}

/// The selection, if any, names an entry of the list.
pub open spec fn selection_in_range(s: AppModel) -> bool {
    s.selected matches Some(i) ==> i < s.entries.len()
}

/// The action selects nothing outside the list it is applied to.
pub open spec fn selects_in_range(s: AppModel, a: WindowAction) -> bool {
    a matches WindowAction::Select(i) ==> i < s.entries.len()
}

/// Every action keeps the selection within the list, as long as a click
/// selects an entry that is listed; a click on entry `i` selects it.
pub proof fn law_selection_in_range(s: AppModel, a: WindowAction)
    requires
        selection_in_range(s),
        selects_in_range(s, a),
    ensures
        selection_in_range(after(s, a)),
        a matches WindowAction::Select(i) ==> after(s, a).selected == Some(i),
{
}

/// Over any sequence of actions whose clicks select listed entries, a new
/// window's selection stays within its list.
pub proof fn law_selection_stays_in_range(
    listing: Option<Result<Seq<EntryModel>, Seq<char>>>,
    acts: Seq<WindowAction>,
)
    requires
        forall|k: int|
            0 <= k < acts.len() ==> selects_in_range(
                run(refreshed(blank(), listing), acts.take(k)),
                #[trigger] acts[k],
            ),
    ensures
        selection_in_range(run(refreshed(blank(), listing), acts)),
    decreases acts.len(),
{
    if acts.len() > 0 {
        let prefix = acts.drop_last();
        assert forall|k: int| 0 <= k < prefix.len() implies selects_in_range(
            run(refreshed(blank(), listing), prefix.take(k)),
            #[trigger] prefix[k],
        ) by {
            assert(prefix.take(k) =~= acts.take(k));
            assert(prefix[k] == acts[k]);
        }
        law_selection_stays_in_range(listing, prefix);
        let k = acts.len() - 1;
        assert(acts.take(k) =~= prefix);
        assert(selects_in_range(run(refreshed(blank(), listing), prefix), acts[k]));
        law_selection_in_range(run(refreshed(blank(), listing), prefix), acts.last());
    }
}

impl SysSwitchApp {
    /// A new window, refreshed with `listing`.
    pub fn new(listing: Listing) -> (app: Self)
        ensures
            app@ == refreshed(blank(), listing_model(listing)),
    {
        let mut app = SysSwitchApp {
            entries: Vec::new(),
            selected: None,
            log: String::new(),
            error_message: None,
            reboot_pending: false,
        };
        assert(app.entries.deep_view() =~= Seq::<EntryModel>::empty());
        assert(app.log@ =~= Seq::<char>::empty());
        assert(app@ == blank());
        app.refresh(listing);
        app
    }

    /// Refresh the boot entry list with what the boot manager answered.
    pub fn refresh(&mut self, listing: Listing)
        ensures
            final(self)@ == refreshed(old(self)@, listing_model(listing)),
    {
        self.error_message = None;
        self.reboot_pending = false;
        match listing {
            None => {
                self.error_message = Some(
                    owned("No supported boot manager found. Please install required tools or run as admin/root."),
                );
            },
            Some(Ok(entries)) => {
                let mut line = owned("Found ");
                let n = decimal_string(entries.len());
                line.append(n.as_str());
                line.append(" boot entries");
                self.log_line(line.as_str());
                self.entries = entries;
                self.selected = None;
            },
            Some(Err(e)) => {
                self.error_message = Some(concat_str("Failed to get boot entries: ", e.as_str()));
            },
        }
    }

    /// Start applying the selected entry: the id to hand to the boot
    /// manager's `set_next`, if any; without a selection an error asks for one.
    pub fn apply(&mut self) -> (target: Option<String>)
        ensures
            final(self)@ == apply_started(old(self)@),
            target.deep_view() == apply_target(old(self)@),
    {
        let idx = match self.selected {
            Some(i) => i,
            None => {
                self.error_message = Some(owned("Please select a boot entry"));
                return None;
            },
        };
        if idx < self.entries.len() {
            assert(self.entries.deep_view()[idx as int] == self.entries[idx as int]@);
            Some(self.entries[idx].id.clone())
        } else {
            None
        }
    }

    /// Finish applying with the boot manager's answer; returns whether the
    /// list is to be refreshed (after a success).
    pub fn finish_apply(&mut self, outcome: Result<String, String>) -> (refresh: bool)
        ensures
            final(self)@ == apply_finished(old(self)@, outcome_model(outcome)),
            refresh == outcome is Ok,
    {
        match outcome {
            Ok(msg) => {
                self.log_line(msg.as_str());
                true
            },
            Err(e) => {
                let line = concat_str("Error: ", e.as_str());
                self.log_line(line.as_str());
                self.error_message = Some(e);
                false
            },
        }
    }

    /// Record the outcome of a reboot attempt.
    pub fn reboot(&mut self, outcome: Result<(), String>)
        ensures
            final(self)@ == reboot_finished(old(self)@, match outcome {
                Ok(()) => Ok(()),
                Err(e) => Err(e@),
            }),
    {
        match outcome {
            Ok(()) => {},
            Err(e) => {
                let line = concat_str("Error: ", e.as_str());
                self.log_line(line.as_str());
                self.error_message = Some(e);
            },
        }
    }

    /// Add a line to the log.
    pub fn log_line(&mut self, text: &str)
        ensures
            final(self)@ == with_line(old(self)@, text@),
    {
        if !self.log.as_str().is_empty() {
            self.log.append("\n");
        }
        self.log.append(text);
    }

    /// The reboot button was pressed: returns whether to reboot now.
    pub fn press_reboot(&mut self) -> (reboot: bool)
        ensures
            (final(self)@, reboot) == reboot_pressed(old(self)@),
    {
        if self.reboot_pending {
            true
        } else {
            self.reboot_pending = true;
            self.error_message = Some(owned("Click 'Confirm Reboot' to reboot now."));
            false
        }
    }

    /// The reboot button's label.
    pub fn reboot_label(&self) -> (s: &'static str)
        ensures
            s@ == (if self.reboot_pending {
                "Confirm Reboot"@
            } else {
                "Reboot Now"@
            }),
    {
        if self.reboot_pending {
            "Confirm Reboot"
        } else {
            "Reboot Now"
        }
    }

    /// Select entry `i` of the list.
    pub fn select(&mut self, i: usize)
        ensures
            final(self)@ == with_selection(old(self)@, i),
    {
        self.selected = Some(i);
    }

    /// The label of `e` in the list.
    pub fn entry_label(e: &BootEntry) -> (s: String)
        ensures
            s@ == entry_label_of(e@),
    {
        let mut s = e.description.clone();
        s.append(" [");
        s.append(e.id.as_str());
        s.append("]");
        s.append(if e.is_current { " (Current)" } else { "" });
        s.append(if e.is_next { " (Next)" } else { "" });
        s
    }
}

} // verus!

//! The boot entry data model.

use vstd::prelude::*;

verus! {

/// A boot entry as the specifications see it.
pub struct EntryModel {
    pub id: Seq<char>,
    pub description: Seq<char>,
    pub is_current: bool,
    pub is_next: bool,
}

/// Represents a boot entry in the system's boot manager.
#[derive(Debug, Clone)]
pub struct BootEntry {
    /// Entry identifier (Linux: "0000" style; Windows: "{GUID}")
    pub id: String,
    /// Human-readable description of the boot entry
    pub description: String,
    /// Whether this is the currently booted entry
    pub is_current: bool,
    /// Whether this is set as the next boot entry
    pub is_next: bool,
}

impl View for BootEntry {
    type V = EntryModel;

    open spec fn view(&self) -> EntryModel {
        EntryModel {
            id: self.id@,
            description: self.description@,
            is_current: self.is_current,
            is_next: self.is_next,
        }
    }
}

impl DeepView for BootEntry {
    type V = EntryModel;

    open spec fn deep_view(&self) -> EntryModel {
        self@
    }
}

/// The model of an entry with the given fields.
pub open spec fn entry_model(id: Seq<char>, description: Seq<char>, is_current: bool, is_next: bool) -> EntryModel {
    EntryModel { id, description, is_current, is_next }
}

impl BootEntry {
    /// Create a new boot entry, neither current nor next.
    pub fn new(id: String, description: String) -> (e: BootEntry)
        ensures
            e@ == entry_model(id@, description@, false, false),
    {
        BootEntry { id, description, is_current: false, is_next: false }
    }

    /// Set the current boot flag.
    pub fn with_current(self, is_current: bool) -> (e: BootEntry)
        ensures
            e@ == entry_model(self@.id, self@.description, is_current, self@.is_next),
    {
        let mut e = self;
        e.is_current = is_current;
        e
    }

    /// Set the next boot flag.
    pub fn with_next(self, is_next: bool) -> (e: BootEntry)
        ensures
            e@ == entry_model(self@.id, self@.description, self@.is_current, is_next),
    {
        let mut e = self;
        e.is_next = is_next;
        e
    }
}

} // verus!

verus! {

/// A program to run and the arguments to hand it.
#[derive(Debug)]
pub struct Invocation {
    pub program: String,
    pub args: Vec<String>,
}

impl Invocation {
    /// The program's name and its arguments, as the specifications see them.
    pub open spec fn model(&self) -> (Seq<char>, Seq<Seq<char>>) {
        (self.program@, self.args.deep_view())
    }
}

/// An owned copy of `s`.
pub fn owned(s: &str) -> (r: String)
    ensures
        r@ == s@,
{
    s.to_owned()
}

/// `a` followed by `b`.
pub fn concat_str(a: &str, b: &str) -> (r: String)
    ensures
        r@ == a@ + b@,
{
    let mut r = a.to_owned();
    r.append(b);
    r
}

} // verus!

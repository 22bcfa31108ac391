//! The command-line interface: what the arguments ask for, the text table
//! of entries, and the exit codes.

use vstd::prelude::*;

use crate::models::{owned, BootEntry, EntryModel};
use crate::text::{free_of, join, join_strings, law_join_split, lemma_free_of_concat, split};

verus! {

/// The subcommands.
#[derive(Debug)]
pub enum Commands {
    /// List available boot entries, as "text" or "json".
    List { output: String },
    /// Set next boot entry (one-time).
    SetNext { id: String },
    /// Reboot immediately.
    Reboot,
}

/// The parsed command line.
#[derive(Debug)]
pub struct Cli {
    /// Run in CLI mode (no GUI).
    pub cli: bool,
    /// Show Windows Recovery Environment entries (Windows only).
    pub show_recovery: bool,
    /// The subcommand, if any.
    pub command: Option<Commands>,
}

/// How a listing is printed.
#[derive(Debug, PartialEq, Eq, Structural, Clone, Copy)]
pub enum OutputFormat {
    Json,
    Text,
}

/// What the command line asks the boot manager to do.
#[derive(Debug)]
pub enum CliAction {
    List(OutputFormat),
    SetNext(String),
    Reboot,
}

/// "json" asks for JSON; any other name for the text table.
pub open spec fn format_named(name: Seq<char>) -> OutputFormat {
    if name == "json"@ {
        OutputFormat::Json
    } else {
        OutputFormat::Text
    }
}

/// The output format that `name` selects.
pub fn output_format(name: &str) -> (f: OutputFormat)
    ensures
        f == format_named(name@),
{
    if owned(name) == owned("json") {
        OutputFormat::Json
    } else {
        OutputFormat::Text
    }
}

/// The command line runs the CLI (not the GUI) where `--cli` is given or a
/// subcommand is.
pub fn runs_cli(args: &Cli) -> (b: bool)
    ensures
        b == (args.cli || args.command is Some),
{
    args.cli || args.command.is_some()
}

/// What the command line asks for: without a subcommand, a text listing.
pub fn cli_action(args: &Cli) -> (a: CliAction)
    ensures
        match args.command {
            None => a == CliAction::List(OutputFormat::Text),
            Some(Commands::List { output }) => a == CliAction::List(format_named(output@)),
            Some(Commands::SetNext { id }) => a matches CliAction::SetNext(i) && i@ == id@,
            Some(Commands::Reboot) => a is Reboot,
        },
{
    match &args.command {
        None => CliAction::List(OutputFormat::Text),
        Some(Commands::List { output }) => CliAction::List(output_format(output.as_str())),
        Some(Commands::SetNext { id }) => CliAction::SetNext(id.clone()),
        Some(Commands::Reboot) => CliAction::Reboot,
    }
}

/// The header line of the text table.
pub open spec fn table_header() -> Seq<char> {
    "ID\tCURRENT\tNEXT\tDESCRIPTION"@
}

/// "1" for a set flag, "0" otherwise.
pub open spec fn flag(b: bool) -> Seq<char> {
    if b {
        "1"@
    } else {
        "0"@
    }
}

/// One row of the text table: id, current and next flags, description,
/// separated by tabs.
pub open spec fn table_row(e: EntryModel) -> Seq<char> {
    e.id + "\t"@ + flag(e.is_current) + "\t"@ + flag(e.is_next) + "\t"@ + e.description
}

/// The text table: the header, then one row per entry, joined by newlines.
pub open spec fn table(entries: Seq<EntryModel>) -> Seq<char> {
    join(seq![table_header()] + entries.map_values(|e: EntryModel| table_row(e)), "\n"@)
}

/// Where no id or description holds a newline, the table splits back on
/// newlines into its header and one row per entry, in order.
pub proof fn law_table_lines(entries: Seq<EntryModel>)
    requires
        forall|k: int| 0 <= k < entries.len() ==> free_of(#[trigger] entries[k].id, '\n') && free_of(entries[k].description, '\n'),
    ensures
        split(table(entries), "\n"@) == seq![table_header()] + entries.map_values(|e: EntryModel| table_row(e)),
{
    reveal_strlit("\n");
    reveal_strlit("\t");
    reveal_strlit("0");
    reveal_strlit("1");
    reveal_strlit("ID\tCURRENT\tNEXT\tDESCRIPTION");
    assert("\n"@ =~= seq!['\n']);
    let rows = entries.map_values(|e: EntryModel| table_row(e));
    let lines = seq![table_header()] + rows;
    assert(free_of("\t"@, '\n'));
    assert(free_of("0"@, '\n'));
    assert(free_of("1"@, '\n'));
    assert forall|i: int| 0 <= i < lines.len() implies free_of(#[trigger] lines[i], '\n') by {
        if i == 0 {
            assert(lines[i] == table_header());
        } else {
            let e = entries[i - 1];
            assert(lines[i] == table_row(e));
            let f1 = flag(e.is_current);
            let f2 = flag(e.is_next);
            lemma_free_of_concat(e.id, "\t"@, '\n');
            lemma_free_of_concat(e.id + "\t"@, f1, '\n');
            lemma_free_of_concat(e.id + "\t"@ + f1, "\t"@, '\n');
            lemma_free_of_concat(e.id + "\t"@ + f1 + "\t"@, f2, '\n');
            lemma_free_of_concat(e.id + "\t"@ + f1 + "\t"@ + f2, "\t"@, '\n');
            lemma_free_of_concat(e.id + "\t"@ + f1 + "\t"@ + f2 + "\t"@, e.description, '\n');
        }
    }
    law_join_split(lines, '\n');
}

fn flag_text(b: bool) -> (s: &'static str)
    ensures
        s@ == flag(b),
{
    if b {
        "1"
    } else {
        "0"
    }
}

/// The row that `e` takes in the text table.
pub fn entry_row(e: &BootEntry) -> (s: String)
    ensures
        s@ == table_row(e@),
{
    let mut s = e.id.clone();
    s.append("\t");
    s.append(flag_text(e.is_current));
    s.append("\t");
    s.append(flag_text(e.is_next));
    s.append("\t");
    s.append(e.description.as_str());
    s
}

/// Format boot entries as the text table.
pub fn format_entries_text(entries: &Vec<BootEntry>) -> (s: String)
    ensures
        s@ == table(entries.deep_view()),
{
    let mut lines: Vec<String> = Vec::new();
    lines.push(owned("ID\tCURRENT\tNEXT\tDESCRIPTION"));
    let ghost rows = entries.deep_view().map_values(|e: EntryModel| table_row(e));
    let mut i: usize = 0;
    while i < entries.len()
        invariant
            i <= entries.len(),
            rows == entries.deep_view().map_values(|e: EntryModel| table_row(e)),
            lines.deep_view() =~= seq![table_header()] + rows.take(i as int),
        decreases entries.len() - i,
    {
        let row = entry_row(&entries[i]);
        assert(entries.deep_view()[i as int] == entries[i as int]@);
        assert(row@ == rows[i as int]);
        let ghost before = lines.deep_view();
        lines.push(row);
        assert(lines.deep_view() =~= before.push(rows[i as int]));
        assert(rows.take(i + 1) =~= rows.take(i as int).push(rows[i as int]));
        i = i + 1;
    }
    assert(rows.take(entries.len() as int) =~= rows);
    join_strings(&lines, "\n")
}

/// A JSON scalar: a string or a boolean.
#[derive(Debug)]
pub enum JsonScalar {
    Str(String),
    Bool(bool),
}

/// A JSON scalar as the specifications see it.
pub enum JsonScalarModel {
    Str(Seq<char>),
    Bool(bool),
}

impl DeepView for JsonScalar {
    type V = JsonScalarModel;

    open spec fn deep_view(&self) -> JsonScalarModel {
        match self {
            JsonScalar::Str(s) => JsonScalarModel::Str(s@),
            JsonScalar::Bool(b) => JsonScalarModel::Bool(*b),
        }
    }
}

/// The text that `serde_json::to_string_pretty` makes of an array of JSON
/// objects, each given by its keys and scalar values in insertion order
/// (the empty text where serialisation fails).
pub uninterp spec fn json_pretty(objects: Seq<Seq<(Seq<char>, JsonScalarModel)>>) -> Seq<char>;

/// Builds one `serde_json::Value` object per item, key for key and value for
/// value, and calls `serde_json::to_string_pretty` on the array of them;
/// trusted to give `json_pretty` of the objects.
#[verifier::external_body]
fn to_pretty_json(objects: &Vec<Vec<(String, JsonScalar)>>) -> (s: String)
    ensures
        s@ == json_pretty(objects.deep_view()),
{
    let values: Vec<serde_json::Value> = objects.iter().map(|o| serde_json::Value::Object(
        o.iter().map(|(k, v)| (k.clone(), match v {
            JsonScalar::Str(s) => serde_json::Value::String(s.clone()),
            JsonScalar::Bool(b) => serde_json::Value::Bool(*b),
        })).collect(),
    )).collect();
    serde_json::to_string_pretty(&values).unwrap_or_default()
}

/// The JSON object that describes one entry: its id, description and flags.
pub open spec fn entry_object(e: EntryModel) -> Seq<(Seq<char>, JsonScalarModel)> {
    seq![
        ("id"@, JsonScalarModel::Str(e.id)),
        ("description"@, JsonScalarModel::Str(e.description)),
        ("is_current"@, JsonScalarModel::Bool(e.is_current)),
        ("is_next"@, JsonScalarModel::Bool(e.is_next)),
    ]
}

/// The JSON object of every entry holds its id and description as strings
/// and its current and next flags as booleans, under the keys "id",
/// "description", "is_current" and "is_next", in that order.
pub proof fn law_json_object_fields(entries: Seq<EntryModel>, k: int)
    requires
        0 <= k < entries.len(),
    ensures
        entries.map_values(|e: EntryModel| entry_object(e))[k] == seq![
            ("id"@, JsonScalarModel::Str(entries[k].id)),
            ("description"@, JsonScalarModel::Str(entries[k].description)),
            ("is_current"@, JsonScalarModel::Bool(entries[k].is_current)),
            ("is_next"@, JsonScalarModel::Bool(entries[k].is_next)),
        ],
{
}

/// The JSON object for `e`.
fn entry_json(e: &BootEntry) -> (o: Vec<(String, JsonScalar)>)
    ensures
        o.deep_view() == entry_object(e@),
{
    let mut o: Vec<(String, JsonScalar)> = Vec::new();
    o.push((owned("id"), JsonScalar::Str(e.id.clone())));
    o.push((owned("description"), JsonScalar::Str(e.description.clone())));
    o.push((owned("is_current"), JsonScalar::Bool(e.is_current)));
    o.push((owned("is_next"), JsonScalar::Bool(e.is_next)));
    assert(o.deep_view() =~= entry_object(e@));
    o
}

/// Format boot entries for output: as a pretty-printed JSON array of one
/// object per entry, or as the text table.
pub fn format_entries(entries: &Vec<BootEntry>, format: OutputFormat) -> (s: String)
    ensures
        format == OutputFormat::Json ==> s@ == json_pretty(
            Seq::new(
                entries.len() as nat,
                |k: int|
                    seq![
                    ("id"@, JsonScalarModel::Str(entries[k].id@)),
                    ("description"@, JsonScalarModel::Str(entries[k].description@)),
                    ("is_current"@, JsonScalarModel::Bool(entries[k].is_current)),
                    ("is_next"@, JsonScalarModel::Bool(entries[k].is_next)),
                ],
            ),
        ),
        format == OutputFormat::Text ==> s@ == table(entries.deep_view()),
{
    match format {
        OutputFormat::Text => format_entries_text(entries),
        OutputFormat::Json => {
            let ghost objs = entries.deep_view().map_values(|e: EntryModel| entry_object(e));
            let mut objects: Vec<Vec<(String, JsonScalar)>> = Vec::new();
            let mut i: usize = 0;
            while i < entries.len()
                invariant
                    i <= entries.len(),
                    objs == entries.deep_view().map_values(|e: EntryModel| entry_object(e)),
                    objects.deep_view() =~= objs.take(i as int),
                decreases entries.len() - i,
            {
                let o = entry_json(&entries[i]);
                assert(entries.deep_view()[i as int] == entries[i as int]@);
                let ghost before = objects.deep_view();
                objects.push(o);
                assert(objects.deep_view() =~= before.push(objs[i as int]));
                assert(objs.take(i + 1) =~= objs.take(i as int).push(objs[i as int]));
                i = i + 1;
            }
            assert(objs.take(entries.len() as int) =~= objs);
            assert(objs =~= Seq::new(
                entries.len() as nat,
                |k: int|
                    seq![
                    ("id"@, JsonScalarModel::Str(entries[k].id@)),
                    ("description"@, JsonScalarModel::Str(entries[k].description@)),
                    ("is_current"@, JsonScalarModel::Bool(entries[k].is_current)),
                    ("is_next"@, JsonScalarModel::Bool(entries[k].is_next)),
                ],
            ));
            to_pretty_json(&objects)
        },
    }
}

/// The message printed when no boot manager is available.
pub fn unavailable_message() -> (s: String)
    ensures
        s@ == "No supported boot manager found on this platform. Install required tools or run as admin/root."@,
{
    owned("No supported boot manager found on this platform. Install required tools or run as admin/root.")
}

/// The exit code of a CLI run: 2 where no boot manager is available, 0
/// where the command succeeded, 1 where it failed.
pub fn exit_code(available: bool, succeeded: bool) -> (code: i32)
    ensures
        code == (if !available {
            2i32
        } else if succeeded {
            0i32
        } else {
            1i32
        }),
{
    if !available {
        2
    } else if succeeded {
        0
    } else {
        1
    }
}

} // verus!

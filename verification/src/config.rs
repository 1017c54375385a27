//! The configuration model: the schema of the task-runner configuration
//! and its deserialization from TOML text.
//!
//! The TOML syntax itself is handled by the `toml` crate behind trusted
//! wrappers that hand the parsed document over as a tree of plain values
//! ([`RawValue`]).  Everything after that point — the schema rules that turn
//! such a tree into a [`Configuration`] or reject it — is verified code with
//! an exact contract ([`build_configuration`]).

use vstd::prelude::*;

verus! {

/// Global settings of a configuration: a single optional logging flag.
#[derive(Debug)]
pub struct Options {
    pub logging: Option<bool>,
}

/// One runnable task: a human-readable description and an ordered list of
/// command lines.  A command line is split on whitespace at execution time;
/// the first token names the program, the rest are its arguments.
#[derive(Debug)]
pub struct Target {
    pub about: String,
    pub command: Vec<String>,
}

/// Abstract value of a [`Target`].
#[verifier::ext_equal]
pub struct TargetView {
    pub about: Seq<char>,
    pub command: Seq<Seq<char>>,
}

impl View for Target {
    type V = TargetView;

    open spec fn view(&self) -> TargetView {
        TargetView {
            about: self.about@,
            command: self.command@.map_values(|c: String| c@),
        }
    }
}

/// A parsed configuration: global options and the named targets, each name
/// bound to one target.  The order of entries carries no meaning.
#[derive(Debug)]
pub struct Configuration {
    pub options: Options,
    pub target: Vec<(String, Target)>,
}

/// Abstract value of a [`Configuration`].
#[verifier::ext_equal]
pub struct ConfigurationView {
    pub logging: Option<bool>,
    pub targets: Seq<(Seq<char>, TargetView)>,
}

impl View for Configuration {
    type V = ConfigurationView;

    open spec fn view(&self) -> ConfigurationView {
        ConfigurationView {
            logging: self.options.logging,
            targets: self.target@.map_values(|p: (String, Target)| (p.0@, p.1@)),
        }
    }
}

impl Configuration {
    /// Target names are unique: no two entries bind the same name.
    pub open spec fn wf(&self) -> bool {
        forall|i: int, j: int|
            0 <= i < j < self@.targets.len() ==> self@.targets[i].0 != self@.targets[j].0
    }
}

/// Every way reading a configuration can fail: the file was unreadable, or
/// its content was malformed or violated the schema.  Each variant carries a
/// message for diagnostic display; callers treat both as terminal.
#[derive(Debug)]
pub enum ReaderError {
    Io(String),
    Parse(String),
}

/// A TOML document as a tree of plain values.  Only the parts of TOML that
/// the schema can mention are kept apart; integers, floats and datetimes,
/// which no part of the schema accepts, all appear as `Other`.
#[derive(Debug)]
pub enum RawValue {
    Boolean(bool),
    Text(String),
    List(Vec<RawValue>),
    Table(Vec<(String, RawValue)>),
    Other,
}

/// No two entries of a table bind the same key.
pub open spec fn entry_keys_distinct(entries: Seq<(String, RawValue)>) -> bool {
    forall|i: int, j: int| 0 <= i < j < entries.len() ==> entries[i].0@ != entries[j].0@
}

/// If the value is a table, its keys are distinct; any other value holds no
/// keys at all.
pub open spec fn table_keys_distinct(v: RawValue) -> bool {
    match v {
        RawValue::Table(entries) => entry_keys_distinct(entries@),
        _ => true,
    }
}

/// The value bound to `key`, searching entries in order from index `i`.
pub open spec fn lookup_from(
    entries: Seq<(String, RawValue)>,
    key: Seq<char>,
    i: int,
) -> Option<RawValue>
    decreases entries.len() - i,
{
    if i < 0 || i >= entries.len() {
        None
    } else if entries[i].0@ == key {
        Some(entries[i].1)
    } else {
        lookup_from(entries, key, i + 1)
    }
}

/// The value bound to `key` in a table's entries, if any.
pub open spec fn lookup(entries: Seq<(String, RawValue)>, key: Seq<char>) -> Option<RawValue> {
    lookup_from(entries, key, 0)
}

/// What the `options` table means: `Some(logging)` when the schema is met,
/// `None` when it is violated.  The table itself is required; its `logging`
/// key is optional but must be a boolean when present.
pub open spec fn options_of(top: Seq<(String, RawValue)>) -> Option<Option<bool>> {
    match lookup(top, "options"@) {
        Some(v) => match v {
            RawValue::Table(entries) => match lookup(entries@, "logging"@) {
                Some(lv) => match lv {
                    RawValue::Boolean(b) => Some(Some(b)),
                    _ => None,
                },
                None => Some(None),
            },
            _ => None,
        },
        None => None,
    }
}

/// The character sequence of a text value; empty for any other value.
pub open spec fn text_of(v: RawValue) -> Seq<char> {
    match v {
        RawValue::Text(s) => s@,
        _ => Seq::empty(),
    }
}

/// Every element of a command list must be a text value.
pub open spec fn commands_ok(items: Seq<RawValue>) -> bool {
    forall|i: int| 0 <= i < items.len() ==> items[i] is Text
}

/// The command strings of a command list, in declared order.
pub open spec fn commands_of(items: Seq<RawValue>) -> Seq<Seq<char>> {
    items.map_values(|v: RawValue| text_of(v))
}

/// What one target's table means: `Some` when it is a table with a text
/// `about` and a `command` list of texts, `None` when the schema is violated.
pub open spec fn target_of(v: RawValue) -> Option<TargetView> {
    match v {
        RawValue::Table(entries) => match lookup(entries@, "about"@) {
            Some(av) => match av {
                RawValue::Text(about) => match lookup(entries@, "command"@) {
                    Some(cv) => match cv {
                        RawValue::List(items) => if commands_ok(items@) {
                            Some(TargetView { about: about@, command: commands_of(items@) })
                        } else {
                            None
                        },
                        _ => None,
                    },
                    None => None,
                },
                _ => None,
            },
            None => None,
        },
        _ => None,
    }
}

/// Every entry of the `target` table must itself meet the target schema.
pub open spec fn targets_ok(entries: Seq<(String, RawValue)>) -> bool {
    forall|i: int| 0 <= i < entries.len() ==> target_of(entries[i].1) is Some
}

/// The named targets of the `target` table, in declared order.
pub open spec fn targets_of(entries: Seq<(String, RawValue)>) -> Seq<(Seq<char>, TargetView)> {
    entries.map_values(|p: (String, RawValue)| (p.0@, target_of(p.1)->Some_0))
}

/// What a whole document means: `Some` when the schema is met, `None` when
/// it is violated.  A missing `target` table is legal and means zero targets.
pub open spec fn configuration_of(top: Seq<(String, RawValue)>) -> Option<ConfigurationView> {
    match options_of(top) {
        Some(logging) => match lookup(top, "target"@) {
            Some(tv) => match tv {
                RawValue::Table(entries) => if targets_ok(entries@) {
                    Some(ConfigurationView { logging, targets: targets_of(entries@) })
                } else {
                    None
                },
                _ => None,
            },
            None => Some(ConfigurationView { logging, targets: Seq::empty() }),
        },
        None => None,
    }
}

/// Declares `toml::Value`, the `toml` crate's parsed document node, so the
/// conversion below can carry one; it stays opaque here.
#[verifier::external_type_specification]
#[verifier::external_body]
pub struct ExTomlValue(toml::Value);

/// The document that TOML parsing gives for `text`: `Some` of the root
/// table's tree of plain values when `text` is well-formed TOML, `None`
/// when it is not.  Parsing is a function of the text alone.
pub uninterp spec fn raw_doc_of(text: Seq<char>) -> Option<RawValue>;

/// The conversion step of [`parse_toml_text`]: moves each TOML value into
/// the matching [`RawValue`] variant, one for one (integers, floats and
/// datetimes all become `Other`).
#[verifier::external_body]
fn raw_value_of(v: &toml::Value) -> RawValue {
    match v {
        toml::Value::Boolean(b) => RawValue::Boolean(*b),
        toml::Value::String(s) => RawValue::Text(s.clone()),
        toml::Value::Array(items) => RawValue::List(items.iter().map(raw_value_of).collect()),
        toml::Value::Table(t) => RawValue::Table(
            t.iter().map(|(k, w)| (k.clone(), raw_value_of(w))).collect(),
        ),
        _ => RawValue::Other,
    }
}

/// Relies on `toml::Table`'s `FromStr` (the `toml` deserializer): whether
/// `text` parses, and the document that comes back, depend on the text
/// alone, so the outcome bears the name [`raw_doc_of`]; and on
/// `toml::map::Map`, which is a map, so iterating it yields each key once
/// and table keys come out distinct.  `Err` carries the syntax diagnostic.
#[verifier::external_body]
fn parse_toml_text(text: &str) -> (r: Result<RawValue, String>)
    ensures
        r matches Ok(v) ==> raw_doc_of(text@) == Some(v),
        r is Err ==> raw_doc_of(text@) is None,
        r matches Ok(v) ==> table_keys_distinct(v) && (v matches RawValue::Table(entries)
            ==> forall|i: int| 0 <= i < entries@.len() ==> table_keys_distinct(entries@[i].1)),
{
    match text.parse::<toml::Table>() {
        Ok(table) => Ok(raw_value_of(&toml::Value::Table(table))),
        Err(e) => Err(e.to_string()),
    }
}

/// The first entry bound to `key`, as [`lookup`] gives it.
fn find_entry<'a>(entries: &'a Vec<(String, RawValue)>, key: &str) -> (r: Option<&'a RawValue>)
    ensures
        match lookup(entries@, key@) {
            Some(v) => r matches Some(w) && *w == v,
            None => r is None,
        },
{
    let k: String = key.to_owned();
    let n = entries.len();
    for i in 0..n
        invariant
            n == entries@.len(),
            k@ == key@,
            lookup(entries@, key@) == lookup_from(entries@, key@, i as int),
    {
        if entries[i].0 == k {
            return Some(&entries[i].1);
        }
    }
    None
}

/// Reads the `options` table out of a document's top-level entries.
fn parse_options(top: &Vec<(String, RawValue)>) -> (r: Result<Options, ReaderError>)
    ensures
        match options_of(top@) {
            Some(logging) => r matches Ok(o) && o.logging == logging,
            None => r matches Err(e) && e is Parse,
        },
{
    match find_entry(top, "options") {
        None => Err(ReaderError::Parse("missing `options` table".to_owned())),
        Some(v) => match v {
            RawValue::Table(entries) => match find_entry(entries, "logging") {
                None => Ok(Options { logging: None }),
                Some(lv) => match lv {
                    RawValue::Boolean(b) => Ok(Options { logging: Some(*b) }),
                    _ => Err(ReaderError::Parse("`logging` is not a boolean".to_owned())),
                },
            },
            _ => Err(ReaderError::Parse("`options` is not a table".to_owned())),
        },
    }
}

/// Reads a `command` list: every element must be a text value.
fn parse_commands(items: &Vec<RawValue>) -> (r: Result<Vec<String>, ReaderError>)
    ensures
        commands_ok(items@) ==> (r matches Ok(v) && v@.map_values(|s: String| s@)
            == commands_of(items@)),
        !commands_ok(items@) ==> (r matches Err(e) && e is Parse),
{
    let mut out: Vec<String> = Vec::new();
    let n = items.len();
    for i in 0..n
        invariant
            n == items@.len(),
            out@.len() == i,
            forall|j: int| 0 <= j < i ==> items@[j] is Text,
            forall|j: int| 0 <= j < i ==> out@[j]@ == text_of(items@[j]),
    {
        match &items[i] {
            RawValue::Text(s) => out.push(s.clone()),
            _ => {
                return Err(ReaderError::Parse("`command` element is not a string".to_owned()));
            },
        }
    }
    assert(out@.map_values(|s: String| s@) =~= commands_of(items@));
    Ok(out)
}

/// Reads one target's table: a text `about` and a `command` list of texts.
fn parse_target(v: &RawValue) -> (r: Result<Target, ReaderError>)
    ensures
        match target_of(*v) {
            Some(tv) => r matches Ok(t) && t@ == tv,
            None => r matches Err(e) && e is Parse,
        },
{
    match v {
        RawValue::Table(entries) => {
            let about = match find_entry(entries, "about") {
                Some(av) => match av {
                    RawValue::Text(a) => a.clone(),
                    _ => {
                        return Err(ReaderError::Parse("`about` is not a string".to_owned()));
                    },
                },
                None => {
                    return Err(ReaderError::Parse("missing `about`".to_owned()));
                },
            };
            match find_entry(entries, "command") {
                Some(cv) => match cv {
                    RawValue::List(items) => match parse_commands(items) {
                        Ok(command) => {
                            let t = Target { about, command };
                            assert(target_of(*v) matches Some(tv) && t@ =~= tv);
                            Ok(t)
                        },
                        Err(e) => Err(e),
                    },
                    _ => Err(
                        ReaderError::Parse("`command` is not an array of strings".to_owned()),
                    ),
                },
                None => Err(ReaderError::Parse("missing `command`".to_owned())),
            }
        },
        _ => Err(ReaderError::Parse("target entry is not a table".to_owned())),
    }
}

/// Reads the whole `target` table, in declared order.
fn parse_targets(entries: &Vec<(String, RawValue)>) -> (r: Result<
    Vec<(String, Target)>,
    ReaderError,
>)
    ensures
        targets_ok(entries@) ==> (r matches Ok(v) && v@.map_values(
            |p: (String, Target)| (p.0@, p.1@),
        ) == targets_of(entries@)),
        !targets_ok(entries@) ==> (r matches Err(e) && e is Parse),
{
    let mut out: Vec<(String, Target)> = Vec::new();
    let n = entries.len();
    for i in 0..n
        invariant
            n == entries@.len(),
            out@.len() == i,
            forall|j: int| 0 <= j < i ==> target_of(#[trigger] entries@[j].1) is Some,
            forall|j: int| 0 <= j < i ==> (#[trigger] out@[j]).0@ == entries@[j].0@
                && out@[j].1@ == target_of(entries@[j].1)->Some_0,
    {
        match parse_target(&entries[i].1) {
            Ok(t) => {
                out.push((entries[i].0.clone(), t));
                assert(out@[i as int].0@ == entries@[i as int].0@);
                assert(out@[i as int].1@ == target_of(entries@[i as int].1)->Some_0);
            },
            Err(e) => {
                return Err(e);
            },
        }
    }
    assert(out@.map_values(|p: (String, Target)| (p.0@, p.1@)) =~= targets_of(entries@));
    Ok(out)
}

/// Turns a document's top-level entries into a [`Configuration`]: the exact
/// schema of the configuration file, as [`configuration_of`] states it.
/// Rejection is all-or-nothing: a schema violation anywhere yields a parse
/// error and no configuration.
pub fn build_configuration(top: &Vec<(String, RawValue)>) -> (r: Result<
    Configuration,
    ReaderError,
>)
    ensures
        match configuration_of(top@) {
            Some(cv) => r matches Ok(c) && c@ == cv,
            None => r matches Err(e) && e is Parse,
        },
        r matches Ok(c) ==> ((forall|i: int|
            0 <= i < top@.len() ==> table_keys_distinct(#[trigger] top@[i].1)) ==> c.wf()),
{
    let options = match parse_options(top) {
        Ok(o) => o,
        Err(e) => {
            return Err(e);
        },
    };
    match find_entry(top, "target") {
        None => {
            let c = Configuration { options, target: Vec::new() };
            assert(configuration_of(top@) matches Some(cv) && c@ =~= cv);
            Ok(c)
        },
        Some(tv) => match tv {
            RawValue::Table(entries) => match parse_targets(entries) {
                Ok(target) => {
                    let c = Configuration { options, target };
                    assert(configuration_of(top@) matches Some(cv) && c@ =~= cv);
                    proof {
                        lemma_lookup_finds_entry(top@, "target"@, 0);
                    }
                    Ok(c)
                },
                Err(e) => Err(e),
            },
            _ => Err(ReaderError::Parse("`target` is not a table".to_owned())),
        },
    }
}

/// A successful lookup returns the value of some entry that bears the key.
proof fn lemma_lookup_finds_entry(entries: Seq<(String, RawValue)>, key: Seq<char>, i: int)
    requires
        lookup_from(entries, key, i) is Some,
    ensures
        exists|k: int|
            i <= k < entries.len() && entries[k].0@ == key && entries[k].1 == lookup_from(
                entries,
                key,
                i,
            )->Some_0,
    decreases entries.len() - i,
{
    if !(i < 0 || i >= entries.len()) && entries[i].0@ != key {
        lemma_lookup_finds_entry(entries, key, i + 1);
    }
}

/// Reads configurations.  Carries no state of its own; each read parses the
/// text it is given from scratch.
#[derive(Debug)]
pub struct Config;

impl Config {
    pub fn new() -> (r: Self) {
        Config
    }

    /// Parses configuration text: well-formed TOML whose document meets the
    /// schema yields exactly the configuration the document states, and
    /// anything else a parse error, all-or-nothing.  The TOML syntax is
    /// judged by the `toml` crate, whose outcome on the text bears the name
    /// [`raw_doc_of`]; the schema is held by [`build_configuration`].
    /// Reading the text from disk is the caller's business, as is wrapping a
    /// read failure in [`ReaderError::Io`]; this function only ever reports
    /// `Parse`.
    pub fn parse_str(&self, text: &str) -> (r: Result<Configuration, ReaderError>)
        ensures
            r matches Ok(c) ==> c.wf(),
            r matches Err(e) ==> e is Parse,
            match raw_doc_of(text@) {
                Some(v) => match v {
                    RawValue::Table(top) => match configuration_of(top@) {
                        Some(cv) => r matches Ok(c) && c@ == cv,
                        None => r is Err,
                    },
                    _ => r is Err,
                },
                None => r is Err,
            },
    {
        let doc = match parse_toml_text(text) {
            Ok(v) => v,
            Err(msg) => {
                return Err(ReaderError::Parse(msg));
            },
        };
        match doc {
            RawValue::Table(top) => build_configuration(&top),
            _ => Err(ReaderError::Parse("document root is not a table".to_owned())),
        }
    }
}

/// The configuration template that initialization writes when no existing
/// file stands in the way: one `build` target with a single command.
pub fn default_configuration_text() -> (r: &'static str)
    ensures
        r@ == (
        "[options]\nlogging = false\n\n[target.build]\nabout = \"Build Rust project\"\ncommand = [\n    \"cargo build\",\n]\n")@,
{
    "[options]\nlogging = false\n\n[target.build]\nabout = \"Build Rust project\"\ncommand = [\n    \"cargo build\",\n]\n"
}

} // verus!

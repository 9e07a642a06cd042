//! How the actuator of a managed host is configured and called, and what of the host's own
//! environment it hands on.
use vstd::prelude::*;

use crate::maps::{is_named, lemma_with, lemma_with_lookup, pairs_of, sorted, with, Pair, TextMap};
use crate::paths::{join, joined};
use crate::text::{
    cat2, check, either, judged, list_contains, push_text, quote, quoted, refuse, same_text,
    text_option, texts, unless, Refusal,
};

verus! {

/// What a table of a configuration holds: a name and its text, or nothing where its value is
/// no text.
pub type Entry = (Seq<char>, Option<Seq<char>>);

/// What the entries of a table hold.
pub open spec fn entries_of(table: Seq<(String, Option<String>)>) -> Seq<Entry> {
    Seq::new(table.len(), |i: int| (table[i].0@, text_option(table[i].1)))
}

/// The entries of a TOML document, if the text is one.
pub uninterp spec fn toml_entries(text: Seq<char>) -> Option<Seq<(Seq<char>, Option<Seq<char>>)>>;

/// `toml::from_str` into a `toml::Table`, and `toml::Value::as_str` of each value: the
/// entries of the document, in the order of their names, or nothing where the text is no
/// document. A function of the text alone.
#[verifier::external_body]
fn read_toml(text: &str) -> (table: Option<Vec<(String, Option<String>)>>)
    ensures
        match table {
            Some(entries) => toml_entries(text@) == Some(entries_of(entries@)),
            None => toml_entries(text@) is None,
        },
{
    let table: toml::Table = match toml::from_str(text) {
        Ok(table) => table,
        Err(_) => return None,
    };
    Some(table.into_iter().map(|(name, value)| (name, value.as_str().map(str::to_owned))).collect())
}

/// Whether an entry is the first with a name.
pub open spec fn is_entry(entries: Seq<Entry>, name: Seq<char>, i: int) -> bool {
    &&& 0 <= i < entries.len()
    &&& entries[i].0 == name
    &&& forall|j: int| 0 <= j < i ==> (#[trigger] entries[j]).0 != name
}

/// The text that a table gives a name.
pub open spec fn entry_text(entries: Seq<Entry>, name: Seq<char>) -> Option<Seq<char>> {
    if exists|i: int| #[trigger] is_entry(entries, name, i) {
        entries[choose|i: int| #[trigger] is_entry(entries, name, i)].1
    } else {
        None
    }
}

fn find_text(table: &Vec<(String, Option<String>)>, name: &str) -> (text: Option<String>)
    ensures
        text_option(text) == entry_text(entries_of(table@), name@),
{
    let ghost entries = entries_of(table@);
    let mut i: usize = 0;
    while i < table.len()
        invariant
            i <= table@.len(),
            entries == entries_of(table@),
            forall|j: int| 0 <= j < i ==> (#[trigger] entries[j]).0 != name@,
        decreases table@.len() - i,
    {
        assert(entries[i as int].0 == table@[i as int].0@);
        if same_text(table[i].0.as_str(), name) {
            proof {
                assert(is_entry(entries, name@, i as int));
                let k = choose|k: int| #[trigger] is_entry(entries, name@, k);
                if k < i {
                    assert(entries[k].0 != name@);
                } else if i < k {
                    assert(entries[i as int].0 != name@);
                }
            }
            return crate::text::copy_option(&table[i].1);
        }
        i += 1;
    }
    None
}

/// The names that a configuration has, and no other.
pub open spec fn field_names() -> Seq<Seq<char>> {
    seq![
        "schema"@,
        "host"@,
        "idunn_endpoint"@,
        "identity_store"@,
        "idunn_trust_anchor"@,
        "work_root"@,
    ]
}

/// Whether a table has no name that a configuration has not.
pub open spec fn knows_all(entries: Seq<Entry>) -> bool {
    forall|i: int| 0 <= i < entries.len() ==> field_names().contains((#[trigger] entries[i]).0)
}

fn is_field(name: &str) -> (is: bool)
    ensures
        is == field_names().contains(name@),
{
    let is = same_text(name, "schema") || same_text(name, "host") || same_text(
        name,
        "idunn_endpoint",
    ) || same_text(name, "identity_store") || same_text(name, "idunn_trust_anchor") || same_text(
        name,
        "work_root",
    );
    proof {
        let all = field_names();
        assert(all[0] == "schema"@ && all[1] == "host"@ && all[2] == "idunn_endpoint"@ && all[3]
            == "identity_store"@ && all[4] == "idunn_trust_anchor"@ && all[5] == "work_root"@);
    }
    is
}

fn fields_are_known(table: &Vec<(String, Option<String>)>) -> (known: bool)
    ensures
        known == knows_all(entries_of(table@)),
{
    let ghost entries = entries_of(table@);
    let mut i: usize = 0;
    while i < table.len()
        invariant
            i <= table@.len(),
            entries == entries_of(table@),
            forall|j: int| 0 <= j < i ==> field_names().contains((#[trigger] entries[j]).0),
        decreases table@.len() - i,
    {
        assert(entries[i as int].0 == table@[i as int].0@);
        if !is_field(table[i].0.as_str()) {
            return false;
        }
        i += 1;
    }
    true
}

/// The configuration of a host's actuator.
#[derive(Clone, Debug, PartialEq, Eq)]
pub struct HostActuatorConfig {
    pub schema: String,
    pub host: String,
    pub idunn_endpoint: String,
    pub identity_store: String,
    pub idunn_trust_anchor: String,
    pub work_root: String,
}

/// The schema of a configuration.
pub const HOST_ACTUATOR_CONFIG_SCHEMA: &'static str = "gamecult.idunn.host_actuator_config.v1";

/// What the machine that a configuration is for says of it: whether the endpoint is a socket
/// address there, and which of the paths are absolute there.
#[derive(Clone, Copy, Debug, PartialEq, Eq, Structural)]
pub struct ConfigFindings {
    pub endpoint_is_socket_address: bool,
    pub identity_store_is_absolute: bool,
    pub idunn_trust_anchor_is_absolute: bool,
    pub work_root_is_absolute: bool,
}

/// Whether a table has the text of every name of a configuration, and no other name.
pub open spec fn decodes(entries: Seq<Entry>) -> bool {
    &&& knows_all(entries)
    &&& entry_text(entries, "schema"@) is Some
    &&& entry_text(entries, "host"@) is Some
    &&& entry_text(entries, "idunn_endpoint"@) is Some
    &&& entry_text(entries, "identity_store"@) is Some
    &&& entry_text(entries, "idunn_trust_anchor"@) is Some
    &&& entry_text(entries, "work_root"@) is Some
}

/// Whether a configuration is the one that a table holds.
pub open spec fn is_config(config: HostActuatorConfig, entries: Seq<Entry>) -> bool {
    &&& Some(config.schema@) == entry_text(entries, "schema"@)
    &&& Some(config.host@) == entry_text(entries, "host"@)
    &&& Some(config.idunn_endpoint@) == entry_text(entries, "idunn_endpoint"@)
    &&& Some(config.identity_store@) == entry_text(entries, "identity_store"@)
    &&& Some(config.idunn_trust_anchor@) == entry_text(entries, "idunn_trust_anchor"@)
    &&& Some(config.work_root@) == entry_text(entries, "work_root"@)
}

/// Why the configuration that a table holds is refused, if it is.
pub open spec fn table_refusal(entries: Seq<Entry>, findings: ConfigFindings) -> Option<Seq<char>> {
    let schema = entry_text(entries, "schema"@)->0;
    either(
        unless(decodes(entries), "decoding host actuator config"@),
        either(
            unless(
                schema == HOST_ACTUATOR_CONFIG_SCHEMA@,
                "unsupported host actuator config schema "@ + quoted(schema),
            ),
            either(
                unless(
                    entry_text(entries, "host"@)->0.len() > 0,
                    "host actuator config names no host"@,
                ),
                either(
                    unless(
                        findings.endpoint_is_socket_address,
                        "idunn_endpoint is not a socket address"@,
                    ),
                    either(
                        unless(
                            findings.identity_store_is_absolute,
                            "identity_store must be an absolute path"@,
                        ),
                        either(
                            unless(
                                findings.idunn_trust_anchor_is_absolute,
                                "idunn_trust_anchor must be an absolute path"@,
                            ),
                            unless(
                                findings.work_root_is_absolute,
                                "work_root must be an absolute path"@,
                            ),
                        ),
                    ),
                ),
            ),
        ),
    )
}

/// Why the configuration that a text holds is refused, if it is.
pub open spec fn config_refusal(text: Seq<char>, findings: ConfigFindings) -> Option<Seq<char>> {
    match toml_entries(text) {
        None => Some("decoding host actuator config"@),
        Some(entries) => table_refusal(entries, findings),
    }
}

impl HostActuatorConfig {
    /// The configuration that a table holds, every name of it and no other.
    pub fn decode_table(table: &Vec<(String, Option<String>)>) -> (config: Option<Self>)
        ensures
            config is Some <==> decodes(entries_of(table@)),
            config matches Some(c) ==> is_config(c, entries_of(table@)),
    {
        if !fields_are_known(table) {
            return None;
        }
        let schema = find_text(table, "schema")?;
        let host = find_text(table, "host")?;
        let idunn_endpoint = find_text(table, "idunn_endpoint")?;
        let identity_store = find_text(table, "identity_store")?;
        let idunn_trust_anchor = find_text(table, "idunn_trust_anchor")?;
        let work_root = find_text(table, "work_root")?;
        Some(
            HostActuatorConfig {
                schema,
                host,
                idunn_endpoint,
                identity_store,
                idunn_trust_anchor,
                work_root,
            },
        )
    }

    /// Admits the configuration that a table holds.
    pub fn from_table(table: &Vec<(String, Option<String>)>, findings: ConfigFindings) -> (outcome:
        Result<Self, Refusal>)
        ensures
            judged(outcome, table_refusal(entries_of(table@), findings)),
            outcome matches Ok(config) ==> is_config(config, entries_of(table@)),
    {
        let config = match Self::decode_table(table) {
            Some(config) => config,
            None => return Err(refuse("decoding host actuator config")),
        };
        let shown = quote(config.schema.as_str());
        let words = cat2("unsupported host actuator config schema ", shown.as_str());
        check(
            same_text(config.schema.as_str(), HOST_ACTUATOR_CONFIG_SCHEMA),
            words.as_str(),
        )?;
        proof {
            reveal_strlit("");
            assert(config.host@.len() == 0 ==> config.host@ =~= ""@);
        }
        check(!same_text(config.host.as_str(), ""), "host actuator config names no host")?;
        check(findings.endpoint_is_socket_address, "idunn_endpoint is not a socket address")?;
        check(findings.identity_store_is_absolute, "identity_store must be an absolute path")?;
        check(
            findings.idunn_trust_anchor_is_absolute,
            "idunn_trust_anchor must be an absolute path",
        )?;
        check(findings.work_root_is_absolute, "work_root must be an absolute path")?;
        Ok(config)
    }

    /// The configuration that a text holds, before the machine that it is for is asked.
    pub fn draft(text: &str) -> (config: Option<Self>)
        ensures
            config is Some <==> (toml_entries(text@) matches Some(entries) && decodes(entries)),
            config matches Some(c) ==> is_config(c, toml_entries(text@)->0),
    {
        let table = read_toml(text)?;
        Self::decode_table(&table)
    }

    /// The configuration that a text holds, given what the machine that it is for says.
    pub fn parse(text: &str, findings: ConfigFindings) -> (outcome: Result<Self, Refusal>)
        ensures
            judged(outcome, config_refusal(text@, findings)),
            outcome matches Ok(config) ==> is_config(config, toml_entries(text@)->0),
    {
        match read_toml(text) {
            None => Err(refuse("decoding host actuator config")),
            Some(table) => Self::from_table(&table, findings),
        }
    }

    /// Where the sources of builds are fetched to.
    pub fn sources(&self) -> (path: String)
        ensures
            path@ == joined(self.work_root@, "sources"@),
    {
        join(self.work_root.as_str(), "sources")
    }

    /// Where releases are put together.
    pub fn staging(&self) -> (path: String)
        ensures
            path@ == joined(self.work_root@, "staging"@),
    {
        join(self.work_root.as_str(), "staging")
    }

    /// Where the logs are kept.
    pub fn logs(&self) -> (path: String)
        ensures
            path@ == joined(self.work_root@, "logs"@),
    {
        join(self.work_root.as_str(), "logs")
    }
}

/// How the actuator is called.
pub open spec fn usage_text() -> Seq<char> {
    "Idunn host actuator\n\nidunn-host serve --config PATH\nidunn-host validate --config PATH\n\nDials the Idunn host actuator hub named in the config and executes the\nrunner and workload consequences for this host. Decides nothing."@
}

/// How the actuator is called.
pub fn usage() -> (text: &'static str)
    ensures
        text@ == usage_text(),
{
    "Idunn host actuator\n\nidunn-host serve --config PATH\nidunn-host validate --config PATH\n\nDials the Idunn host actuator hub named in the config and executes the\nrunner and workload consequences for this host. Decides nothing."
}

/// What the actuator is called to do, with the path of its configuration.
#[derive(Clone, Debug, PartialEq, Eq)]
pub enum HostCommand {
    Serve { config: String },
    Validate { config: String },
}

/// What a `HostCommand` holds.
pub enum Errand {
    Serve(Seq<char>),
    Validate(Seq<char>),
}

impl View for HostCommand {
    type V = Errand;

    open spec fn view(&self) -> Errand {
        match self {
            HostCommand::Serve { config } => Errand::Serve(config@),
            HostCommand::Validate { config } => Errand::Validate(config@),
        }
    }
}

/// The path that options give, the last one counting, or why they are refused.
pub open spec fn options_of(options: Seq<Seq<char>>) -> Result<Option<Seq<char>>, Seq<char>>
    decreases options.len(),
{
    if options.len() == 0 {
        Ok(None)
    } else if options[0] != "--config"@ {
        Err("unknown idunn-host option "@ + quoted(options[0]) + "\n\n"@ + usage_text())
    } else if options.len() == 1 {
        Err("--config requires a path"@)
    } else {
        match options_of(options.skip(2)) {
            Err(w) => Err(w),
            Ok(Some(later)) => Ok(Some(later)),
            Ok(None) => Ok(Some(options[1])),
        }
    }
}

/// What arguments call for, or why they are refused.
pub open spec fn command_of(arguments: Seq<Seq<char>>) -> Result<Errand, Seq<char>> {
    let command = if arguments.len() == 0 {
        "--help"@
    } else {
        arguments[0]
    };
    let options = if arguments.len() == 0 {
        Seq::empty()
    } else {
        arguments.skip(1)
    };
    match options_of(options) {
        Err(w) => Err(w),
        Ok(config) => if command == "serve"@ {
            match config {
                Some(path) => Ok(Errand::Serve(path)),
                None => Err("idunn-host serve requires --config"@),
            }
        } else if command == "validate"@ {
            match config {
                Some(path) => Ok(Errand::Validate(path)),
                None => Err("idunn-host validate requires --config"@),
            }
        } else if command == "--help"@ || command == "-h"@ || command == "help"@ {
            Err(usage_text())
        } else {
            Err("unknown idunn-host command "@ + quoted(command) + "\n\n"@ + usage_text())
        },
    }
}

fn parse_options(arguments: &[String], from: usize) -> (outcome: Result<Option<String>, Refusal>)
    requires
        from <= arguments@.len(),
    ensures
        match (outcome, options_of(texts(arguments@).skip(from as int))) {
            (Ok(found), Ok(owed)) => text_option(found) == owed,
            (Err(refusal), Err(w)) => refusal@ == w,
            _ => false,
        },
    decreases arguments@.len() - from,
{
    let ghost options = texts(arguments@).skip(from as int);
    if from == arguments.len() {
        return Ok(None);
    }
    assert(options[0] == arguments@[from as int]@);
    if !same_text(arguments[from].as_str(), "--config") {
        let shown = quote(arguments[from].as_str());
        return Err(
            Refusal {
                text: crate::text::cat4(
                    "unknown idunn-host option ",
                    shown.as_str(),
                    "\n\n",
                    usage(),
                ),
            },
        );
    }
    if from == arguments.len() - 1 {
        return Err(refuse("--config requires a path"));
    }
    assert(options[1] == arguments@[from + 1]@);
    assert(options.skip(2) =~= texts(arguments@).skip(from + 2));
    match parse_options(arguments, from + 2)? {
        Some(later) => Ok(Some(later)),
        None => Ok(Some(arguments[from + 1].clone())),
    }
}

/// What the actuator is called to do.
pub fn parse_command(arguments: &[String]) -> (outcome: Result<HostCommand, Refusal>)
    ensures
        crate::records::reads(outcome, command_of(texts(arguments@))),
{
    assert(texts(arguments@).len() == arguments@.len());
    let command: &str = if arguments.len() == 0 {
        "--help"
    } else {
        arguments[0].as_str()
    };
    let from: usize = if arguments.len() == 0 {
        0
    } else {
        1
    };
    proof {
        if arguments@.len() == 0 {
            assert(texts(arguments@).skip(0) =~= Seq::<Seq<char>>::empty());
        }
    }
    let config = parse_options(arguments, from)?;
    if same_text(command, "serve") {
        match config {
            Some(path) => Ok(HostCommand::Serve { config: path }),
            None => Err(refuse("idunn-host serve requires --config")),
        }
    } else if same_text(command, "validate") {
        match config {
            Some(path) => Ok(HostCommand::Validate { config: path }),
            None => Err(refuse("idunn-host validate requires --config")),
        }
    } else if same_text(command, "--help") || same_text(command, "-h") || same_text(
        command,
        "help",
    ) {
        Err(refuse(usage()))
    } else {
        let shown = quote(command);
        Err(
            Refusal {
                text: crate::text::cat4(
                    "unknown idunn-host command ",
                    shown.as_str(),
                    "\n\n",
                    usage(),
                ),
            },
        )
    }
}

/// What of a host's environment a build step or a workload inherits.
pub open spec fn passthrough_list() -> Seq<Seq<char>> {
    seq![
        "PATH"@,
        "PATHEXT"@,
        "SystemRoot"@,
        "SystemDrive"@,
        "windir"@,
        "ComSpec"@,
        "TEMP"@,
        "TMP"@,
        "USERPROFILE"@,
        "HOMEDRIVE"@,
        "HOMEPATH"@,
        "LOCALAPPDATA"@,
        "APPDATA"@,
        "ProgramData"@,
        "ProgramFiles"@,
        "ProgramFiles(x86)"@,
        "PUBLIC"@,
        "USERNAME"@,
        "COMPUTERNAME"@,
        "NUMBER_OF_PROCESSORS"@,
        "PROCESSOR_ARCHITECTURE"@,
        "CARGO_HOME"@,
        "RUSTUP_HOME"@,
    ]
}

/// What of a host's environment a build step or a workload inherits.
pub fn passthrough_names() -> (names: Vec<String>)
    ensures
        texts(names@) == passthrough_list(),
{
    let mut names: Vec<String> = Vec::new();
    push_text(&mut names, "PATH".to_owned());
    push_text(&mut names, "PATHEXT".to_owned());
    push_text(&mut names, "SystemRoot".to_owned());
    push_text(&mut names, "SystemDrive".to_owned());
    push_text(&mut names, "windir".to_owned());
    push_text(&mut names, "ComSpec".to_owned());
    push_text(&mut names, "TEMP".to_owned());
    push_text(&mut names, "TMP".to_owned());
    push_text(&mut names, "USERPROFILE".to_owned());
    push_text(&mut names, "HOMEDRIVE".to_owned());
    push_text(&mut names, "HOMEPATH".to_owned());
    push_text(&mut names, "LOCALAPPDATA".to_owned());
    push_text(&mut names, "APPDATA".to_owned());
    push_text(&mut names, "ProgramData".to_owned());
    push_text(&mut names, "ProgramFiles".to_owned());
    push_text(&mut names, "ProgramFiles(x86)".to_owned());
    push_text(&mut names, "PUBLIC".to_owned());
    push_text(&mut names, "USERNAME".to_owned());
    push_text(&mut names, "COMPUTERNAME".to_owned());
    push_text(&mut names, "NUMBER_OF_PROCESSORS".to_owned());
    push_text(&mut names, "PROCESSOR_ARCHITECTURE".to_owned());
    push_text(&mut names, "CARGO_HOME".to_owned());
    push_text(&mut names, "RUSTUP_HOME".to_owned());
    assert(texts(names@) =~= passthrough_list());
    names
}

/// The pairs of an environment whose names are inherited, by name.
pub open spec fn inherited(pairs: Seq<Pair>) -> Seq<Pair>
    decreases pairs.len(),
{
    if pairs.len() == 0 {
        Seq::empty()
    } else if passthrough_list().contains(pairs.last().0) {
        with(inherited(pairs.drop_last()), pairs.last().0, pairs.last().1)
    } else {
        inherited(pairs.drop_last())
    }
}

/// What a build step or a workload inherits of a host's environment: of the names that are
/// given, those of the list, and nothing else.
pub fn passthrough_environment(environment: &Vec<(String, String)>) -> (map: TextMap)
    ensures
        map@ == inherited(pairs_of(environment@)),
{
    let names = passthrough_names();
    let ghost all = pairs_of(environment@);
    let mut map = TextMap::empty();
    let mut i: usize = 0;
    assert(all.take(0) =~= Seq::<Pair>::empty());
    while i < environment.len()
        invariant
            i <= environment@.len(),
            texts(names@) == passthrough_list(),
            all == pairs_of(environment@),
            map@ == inherited(all.take(i as int)),
        decreases environment@.len() - i,
    {
        proof {
            assert(all.take(i + 1).drop_last() =~= all.take(i as int));
            assert(all.take(i + 1).last() == all[i as int]);
        }
        let name = environment[i].0.as_str();
        if list_contains(names.as_slice(), name) {
            map = map.inserted(name, environment[i].1.as_str());
        }
        i += 1;
    }
    assert(all.take(i as int) =~= all);
    map
}

proof fn lemma_inherited_sorted(pairs: Seq<Pair>)
    ensures
        sorted(inherited(pairs)),
    decreases pairs.len(),
{
    if pairs.len() > 0 {
        lemma_inherited_sorted(pairs.drop_last());
        lemma_with(inherited(pairs.drop_last()), pairs.last().0, pairs.last().1);
    }
}

/// Only names of the list are inherited, whatever else a host's environment holds.
pub proof fn only_listed_names_are_inherited(pairs: Seq<Pair>, name: Seq<char>)
    requires
        is_named(inherited(pairs), name),
    ensures
        passthrough_list().contains(name),
    decreases pairs.len(),
{
    if pairs.len() > 0 {
        let fewer = pairs.drop_last();
        if passthrough_list().contains(pairs.last().0) {
            lemma_inherited_sorted(fewer);
            lemma_with_lookup(inherited(fewer), pairs.last().0, pairs.last().1, name);
            if name != pairs.last().0 {
                only_listed_names_are_inherited(fewer, name);
            }
        } else {
            only_listed_names_are_inherited(fewer, name);
        }
    }
}

} // verus!

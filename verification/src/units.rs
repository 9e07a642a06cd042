//! A systemd unit as `systemctl show` prints it.
use vstd::prelude::*;

use crate::maps::{is_named, value_of, with, Pair, TextMap};
use crate::procfs::{text_in, text_of_bytes};
use crate::scan::{cut_first, lines, lines_of, split_once, trim, trimmed};
use crate::text::{cat2, cat4, push_text, refuse, same_text, same_texts, texts, Refusal};

verus! {

/// The properties of a unit, and the files that are opened for its process.
#[derive(Clone, Debug, PartialEq, Eq)]
pub struct SystemdUnitObservation {
    pub properties: TextMap,
    pub open_files: Vec<String>,
}

/// What `SystemdUnitObservation` holds.
#[verifier::ext_equal]
pub struct UnitView {
    pub properties: Seq<Pair>,
    pub open_files: Seq<Seq<char>>,
}

impl View for SystemdUnitObservation {
    type V = UnitView;

    open spec fn view(&self) -> UnitView {
        UnitView { properties: self.properties@, open_files: texts(self.open_files@) }
    }
}

impl SystemdUnitObservation {
    /// Whether two observations are the same.
    pub fn same(&self, other: &Self) -> (same: bool)
        ensures
            same == (self@ == other@),
    {
        let same_properties = self.properties.same(&other.properties);
        let same_files = same_texts(self.open_files.as_slice(), other.open_files.as_slice());
        same_properties && same_files
    }
}

/// The properties of a unit that are asked for, in order.
pub open spec fn shown_properties() -> Seq<Seq<char>> {
    seq![
        "LoadState"@,
        "ActiveState"@,
        "SubState"@,
        "Description"@,
        "InvocationID"@,
        "MainPID"@,
        "ExecMainStartTimestampMonotonic"@,
        "Type"@,
        "Restart"@,
        "KillMode"@,
        "DynamicUser"@,
        "User"@,
        "Group"@,
        "SupplementaryGroups"@,
        "CapabilityBoundingSet"@,
        "AmbientCapabilities"@,
        "PrivateMounts"@,
        "PrivatePIDs"@,
        "ProtectProc"@,
        "ProcSubset"@,
        "NoNewPrivileges"@,
        "UMask"@,
        "InaccessiblePaths"@,
        "LoadCredential"@,
        "OpenFile"@,
        "WorkingDirectory"@,
        "ControlGroup"@,
    ]
}

/// The arguments with which `systemctl` is asked for a unit.
pub open spec fn show_arguments(unit: Seq<char>) -> Seq<Seq<char>> {
    seq!["show"@, unit, "--no-pager"@] + Seq::new(
        shown_properties().len(),
        |i: int| "--property="@ + shown_properties()[i],
    )
}

/// The arguments with which `systemctl` is asked for a unit.
pub fn show_unit_arguments(unit: &str) -> (arguments: Vec<String>)
    ensures
        texts(arguments@) == show_arguments(unit@),
{
    let names: [&str; 27] = [
        "LoadState",
        "ActiveState",
        "SubState",
        "Description",
        "InvocationID",
        "MainPID",
        "ExecMainStartTimestampMonotonic",
        "Type",
        "Restart",
        "KillMode",
        "DynamicUser",
        "User",
        "Group",
        "SupplementaryGroups",
        "CapabilityBoundingSet",
        "AmbientCapabilities",
        "PrivateMounts",
        "PrivatePIDs",
        "ProtectProc",
        "ProcSubset",
        "NoNewPrivileges",
        "UMask",
        "InaccessiblePaths",
        "LoadCredential",
        "OpenFile",
        "WorkingDirectory",
        "ControlGroup",
    ];
    let mut arguments: Vec<String> = Vec::new();
    push_text(&mut arguments, "show".to_owned());
    push_text(&mut arguments, unit.to_owned());
    push_text(&mut arguments, "--no-pager".to_owned());
    let ghost head = texts(arguments@);
    assert(head =~= seq!["show"@, unit@, "--no-pager"@]);
    let ghost all = shown_properties();
    let ghost flags = Seq::new(all.len(), |i: int| "--property="@ + all[i]);
    let mut i: usize = 0;
    assert(head + flags.take(0) =~= head);
    assert(forall|k: int| 0 <= k < 27 ==> (#[trigger] names@[k])@ == all[k]);
    while i < 27
        invariant
            i <= 27,
            all == shown_properties(),
            all.len() == 27,
            flags == Seq::new(all.len(), |i: int| "--property="@ + all[i]),
            forall|k: int| 0 <= k < 27 ==> (#[trigger] names@[k])@ == all[k],
            texts(arguments@) == head + flags.take(i as int),
        decreases 27 - i,
    {
        assert(names@[i as int]@ == all[i as int]);
        push_text(&mut arguments, cat2("--property=", names[i]));
        i += 1;
        assert(flags.take(i as int) =~= flags.take(i - 1).push(flags[i - 1]));
        assert(texts(arguments@) =~= head + flags.take(i as int));
    }
    assert(flags.take(27) =~= flags);
    arguments
}

/// The unit that lines of `name=value` tell of: blanks fall away, opened files are
/// collected in order, and every other name may be told once.
pub open spec fn told(rows: Seq<Seq<char>>) -> Result<UnitView, Seq<char>>
    decreases rows.len(),
{
    if rows.len() == 0 {
        Ok(UnitView { properties: Seq::empty(), open_files: Seq::empty() })
    } else {
        let row = rows.last();
        match told(rows.drop_last()) {
            Err(w) => Err(w),
            Ok(unit) => if row.len() == 0 {
                Ok(unit)
            } else {
                match cut_first(row, '=') {
                    None => Err("systemd show output is malformed"@),
                    Some((name, value)) => if name == "OpenFile"@ {
                        Ok(
                            UnitView {
                                properties: unit.properties,
                                open_files: unit.open_files.push(value),
                            },
                        )
                    } else if is_named(unit.properties, name) {
                        Err("systemd show property is duplicated"@)
                    } else {
                        Ok(
                            UnitView {
                                properties: with(unit.properties, name, value),
                                open_files: unit.open_files,
                            },
                        )
                    },
                }
            },
        }
    }
}

proof fn lemma_told_fails(rows: Seq<Seq<char>>, n: int)
    requires
        0 <= n <= rows.len(),
        told(rows.take(n)) is Err,
    ensures
        told(rows) == told(rows.take(n)),
    decreases rows.len() - n,
{
    if n < rows.len() {
        assert(rows.take(n + 1).drop_last() =~= rows.take(n));
        lemma_told_fails(rows, n + 1);
    } else {
        assert(rows.take(n) =~= rows);
    }
}

fn read_told(text: &str) -> (outcome: Result<SystemdUnitObservation, Refusal>)
    ensures
        crate::records::reads(outcome, told(lines(text@))),
{
    let rows = lines_of(text);
    let ghost all = lines(text@);
    let mut properties = TextMap::empty();
    let mut open_files: Vec<String> = Vec::new();
    let mut i: usize = 0;
    proof {
        assert(all.take(0) =~= Seq::<Seq<char>>::empty());
        assert(texts(open_files@) =~= Seq::<Seq<char>>::empty());
    }
    while i < rows.len()
        invariant
            i <= rows@.len(),
            texts(rows@) == all,
            all == lines(text@),
            told(all.take(i as int)) == Ok::<UnitView, Seq<char>>(
                UnitView { properties: properties@, open_files: texts(open_files@) },
            ),
        decreases rows@.len() - i,
    {
        proof {
            assert(all.take(i + 1).drop_last() =~= all.take(i as int));
            assert(all.take(i + 1).last() == rows@[i as int]@);
        }
        let row = rows[i].as_str();
        if !row.is_empty() {
            match split_once(row, '=') {
                None => {
                    proof {
                        lemma_told_fails(all, i + 1);
                    }
                    return Err(refuse("systemd show output is malformed"));
                },
                Some((name, value)) => {
                    if same_text(name.as_str(), "OpenFile") {
                        push_text(&mut open_files, value);
                    } else if properties.contains(name.as_str()) {
                        proof {
                            lemma_told_fails(all, i + 1);
                        }
                        return Err(refuse("systemd show property is duplicated"));
                    } else {
                        properties = properties.inserted(name.as_str(), value.as_str());
                    }
                },
            }
        }
        i += 1;
    }
    assert(all.take(i as int) =~= all);
    Ok(SystemdUnitObservation { properties, open_files })
}

/// What `systemctl show` tells of a unit: nothing where there is no such unit. A command
/// that failed is refused, unless what it printed says that there is no such unit.
pub open spec fn shown(
    unit: Seq<char>,
    output: Seq<u8>,
    success: bool,
    complaint: Seq<char>,
) -> Result<Option<UnitView>, Seq<char>> {
    match text_in(output, "systemd show output is not UTF-8"@) {
        Err(w) => Err(w),
        Ok(text) => match told(lines(text)) {
            Err(w) => Err(w),
            Ok(found) => if value_of(found.properties, "LoadState"@) == Some("not-found"@) {
                Ok(None)
            } else if !success {
                Err("systemd show failed for "@ + unit + ": "@ + trimmed(complaint))
            } else {
                Ok(Some(found))
            },
        },
    }
}

/// Reads what `systemctl show` told of a unit.
pub fn show_unit(unit: &str, output: &[u8], success: bool, complaint: &str) -> (outcome: Result<
    Option<SystemdUnitObservation>,
    Refusal,
>)
    ensures
        match (outcome, shown(unit@, output@, success, complaint@)) {
            (Ok(Some(found)), Ok(Some(view))) => found@ == view,
            (Ok(None), Ok(None)) => true,
            (Err(refusal), Err(w)) => refusal@ == w,
            _ => false,
        },
{
    let text = text_of_bytes(output, "systemd show output is not UTF-8")?;
    let found = read_told(text.as_str())?;
    let load_state = found.properties.get("LoadState");
    if crate::text::is_text(&load_state, "not-found") {
        return Ok(None);
    }
    if !success {
        let words = trim(complaint);
        return Err(
            Refusal { text: cat4("systemd show failed for ", unit, ": ", words.as_str()) },
        );
    }
    Ok(Some(found))
}

/// The value of a property, which must be there.
pub open spec fn property(values: Seq<Pair>, name: Seq<char>) -> Result<Seq<char>, Seq<char>> {
    match value_of(values, name) {
        Some(value) => Ok(value),
        None => Err("systemd unit did not expose "@ + name),
    }
}

/// The value of a property, which must be there and not empty.
pub open spec fn required_property(values: Seq<Pair>, name: Seq<char>) -> Result<
    Seq<char>,
    Seq<char>,
> {
    match property(values, name) {
        Err(w) => Err(w),
        Ok(value) => if value.len() == 0 {
            Err("systemd unit has no "@ + name)
        } else {
            Ok(value)
        },
    }
}

/// The truth of a property that is `yes` or `no`.
pub open spec fn boolean_property(values: Seq<Pair>, name: Seq<char>) -> Result<bool, Seq<char>> {
    match property(values, name) {
        Err(w) => Err(w),
        Ok(value) => if value == "yes"@ {
            Ok(true)
        } else if value == "no"@ {
            Ok(false)
        } else {
            Err("systemd unit exposed a non-boolean "@ + name)
        },
    }
}

/// The value of a property.
pub fn systemd_property(values: &TextMap, name: &str) -> (outcome: Result<String, Refusal>)
    ensures
        crate::clock::written(outcome, property(values@, name@)),
{
    match values.get(name) {
        Some(value) => Ok(value),
        None => Err(Refusal { text: cat2("systemd unit did not expose ", name) }),
    }
}

/// The value of a property that is not empty.
pub fn required_systemd_property(values: &TextMap, name: &str) -> (outcome: Result<String, Refusal>)
    ensures
        crate::clock::written(outcome, required_property(values@, name@)),
{
    let value = systemd_property(values, name)?;
    if value.as_str().is_empty() {
        return Err(Refusal { text: cat2("systemd unit has no ", name) });
    }
    Ok(value)
}

/// The truth of a property that is `yes` or `no`.
pub fn parse_systemd_boolean(values: &TextMap, name: &str) -> (outcome: Result<bool, Refusal>)
    ensures
        crate::procfs::comes_to(outcome, boolean_property(values@, name@)),
{
    let value = systemd_property(values, name)?;
    if same_text(value.as_str(), "yes") {
        Ok(true)
    } else if same_text(value.as_str(), "no") {
        Ok(false)
    } else {
        Err(Refusal { text: cat2("systemd unit exposed a non-boolean ", name) })
    }
}

} // verus!

//! What the kernel tells of a process, read from the texts of procfs.
use vstd::prelude::*;
use vstd::utf8::{decode_utf8, encode_utf8, valid_utf8};

use crate::listing::{lemma_filter_push, lemma_filter_two_places};
use crate::maps::{with, Pair, TextMap};
use crate::paths::{
    absolute,
    components,
    components_of,
    is_absolute,
    join,
    join_components,
    joined,
    joined_components,
};
use crate::scan::{
    before, bytes_after, bytes_start_with, decimal_number, hexadecimal_number, lemma_before_transitive,
    lines, lines_of, parse_decimal, parse_hexadecimal, rsplit_once, cut_last, split, split_bytes, starts, strip_prefix, strip_suffix, ends,
    text_before, trim, trimmed, words, words_of,
};
use crate::text::{
    byte_strings, cat2, cat3, either, refuse, same_text, text_of_utf8, texts, unless, Refusal,
};

verus! {

/// Whether a value came out as it should.
pub open spec fn comes_to<T>(outcome: Result<T, Refusal>, owed: Result<T, Seq<char>>) -> bool {
    match (outcome, owed) {
        (Ok(value), Ok(wanted)) => value == wanted,
        (Err(refusal), Err(words)) => refusal@ == words,
        _ => false,
    }
}

/// The lines that start with a prefix.
pub open spec fn prefixed(prefix: Seq<char>) -> spec_fn(Seq<char>) -> bool {
    |line: Seq<char>| starts(line, prefix)
}

/// The value of the one field of a process status with a name.
pub open spec fn status_value(status: Seq<char>, name: Seq<char>) -> Result<Seq<char>, Seq<char>> {
    let found = lines(status).filter(prefixed(name + ":"@));
    if found.len() == 1 {
        Ok(trimmed(found[0].skip((name + ":"@).len() as int)))
    } else {
        Err("process status has zero or duplicate "@ + name + " fields"@)
    }
}

/// The value of the one field of a process status with a name.
pub fn linux_status_value(status: &str, name: &str) -> (outcome: Result<String, Refusal>)
    ensures
        crate::clock::written(outcome, status_value(status@, name@)),
{
    let prefix = cat2(name, ":");
    let all = lines_of(status);
    let ghost rows = lines(status@);
    let ghost pred = prefixed(prefix@);
    let mut found: Option<usize> = None;
    let mut many = false;
    let mut i: usize = 0;
    proof {
        reveal(Seq::filter);
        assert(rows.take(0).filter(pred) =~= Seq::<Seq<char>>::empty());
    }
    while i < all.len()
        invariant
            i <= all@.len(),
            texts(all@) == rows,
            pred == prefixed(prefix@),
            match found {
                Some(k) => k < i && pred(rows[k as int]) && rows.take(i as int).filter(pred).len()
                    > 0 && rows.take(i as int).filter(pred)[0] == rows[k as int] && (!many
                    ==> rows.take(i as int).filter(pred).len() == 1),
                None => rows.take(i as int).filter(pred).len() == 0 && !many,
            },
            many ==> rows.take(i as int).filter(pred).len() > 1,
        decreases all@.len() - i,
    {
        proof {
            assert(rows.take(i + 1) =~= rows.take(i as int).push(rows[i as int]));
            lemma_filter_push(rows.take(i as int), rows[i as int], pred);
            assert(rows[i as int] == all@[i as int]@);
        }
        if crate::scan::starts_with(all[i].as_str(), prefix.as_str()) {
            assert(pred(rows[i as int]));
            if found.is_some() {
                many = true;
            } else {
                found = Some(i);
            }
        }
        i += 1;
    }
    assert(rows.take(i as int) =~= rows);
    match found {
        Some(k) => {
            if many {
                return Err(
                    Refusal {
                        text: cat3("process status has zero or duplicate ", name, " fields")
                    },
                );
            }
            assert(rows[k as int] == all@[k as int]@);
            match strip_prefix(all[k].as_str(), prefix.as_str()) {
                Some(rest) => Ok(trim(rest.as_str())),
                None => Err(
                    Refusal {
                        text: cat3("process status has zero or duplicate ", name, " fields")
                    },
                ),
            }
        },
        None => Err(
            Refusal { text: cat3("process status has zero or duplicate ", name, " fields") },
        ),
    }
}

/// The numbers that words write, none when one of them writes none.
pub open spec fn u32_numbers(written: Seq<Seq<char>>) -> Option<Seq<u32>>
    decreases written.len(),
{
    if written.len() == 0 {
        Some(Seq::empty())
    } else {
        match (u32_numbers(written.drop_last()), decimal_number(written.last(), u32::MAX as int)) {
            (Some(earlier), Some(n)) => Some(earlier.push(n as u32)),
            _ => None,
        }
    }
}

proof fn lemma_no_number(written: Seq<Seq<char>>, n: int)
    requires
        0 <= n <= written.len(),
        u32_numbers(written.take(n)) is None,
    ensures
        u32_numbers(written) is None,
    decreases written.len() - n,
{
    if n < written.len() {
        assert(written.take(n + 1).drop_last() =~= written.take(n));
        lemma_no_number(written, n + 1);
    } else {
        assert(written.take(n) =~= written);
    }
}

/// The numbers of a field of a process status.
pub open spec fn status_numbers(status: Seq<char>, name: Seq<char>) -> Result<Seq<u32>, Seq<char>> {
    match status_value(status, name) {
        Err(w) => Err(w),
        Ok(value) => match u32_numbers(words(value)) {
            Some(numbers) => Ok(numbers),
            None => Err("process status "@ + name + " value is not a u32"@),
        },
    }
}

/// The numbers of a field of a process status.
pub fn linux_status_u32_values(status: &str, name: &str) -> (outcome: Result<Vec<u32>, Refusal>)
    ensures
        match (outcome, status_numbers(status@, name@)) {
            (Ok(list), Ok(numbers)) => list@ == numbers,
            (Err(refusal), Err(w)) => refusal@ == w,
            _ => false,
        },
{
    let value = linux_status_value(status, name)?;
    let written = words_of(value.as_str());
    let ghost all = words(value@);
    let mut list: Vec<u32> = Vec::new();
    let mut i: usize = 0;
    assert(all.take(0) =~= Seq::<Seq<char>>::empty());
    while i < written.len()
        invariant
            i <= written@.len(),
            texts(written@) == all,
            all == words(value@),
            status_value(status@, name@) == Ok::<Seq<char>, Seq<char>>(value@),
            u32_numbers(all.take(i as int)) == Some(list@),
        decreases written@.len() - i,
    {
        proof {
            assert(all.take(i + 1).drop_last() =~= all.take(i as int));
            assert(all.take(i + 1).last() == written@[i as int]@);
        }
        match parse_decimal(written[i].as_str(), 0xffff_ffffu64) {
            Some(n) => {
                list.push(n as u32);
            },
            None => {
                proof {
                    lemma_no_number(all, i + 1);
                }
                return Err(
                    Refusal { text: cat3("process status ", name, " value is not a u32") },
                );
            },
        }
        i += 1;
    }
    assert(all.take(i as int) =~= all);
    Ok(list)
}

/// The four numbers of a field of a process status.
pub open spec fn status_four(status: Seq<char>, name: Seq<char>) -> Result<Seq<u32>, Seq<char>> {
    match status_numbers(status, name) {
        Err(w) => Err(w),
        Ok(numbers) => if numbers.len() == 4 {
            Ok(numbers)
        } else {
            Err("process status "@ + name + " does not have four values"@)
        },
    }
}

/// The four numbers of a field of a process status.
pub fn linux_status_u32_array(status: &str, name: &str) -> (outcome: Result<[u32; 4], Refusal>)
    ensures
        match (outcome, status_four(status@, name@)) {
            (Ok(four), Ok(numbers)) => four@ == numbers,
            (Err(refusal), Err(w)) => refusal@ == w,
            _ => false,
        },
{
    let list = linux_status_u32_values(status, name)?;
    if list.len() != 4 {
        return Err(Refusal { text: cat3("process status ", name, " does not have four values") });
    }
    let four: [u32; 4] = [list[0], list[1], list[2], list[3]];
    assert(four@ =~= list@);
    Ok(four)
}

/// The hexadecimal number of a field of a process status.
pub open spec fn status_hex(status: Seq<char>, name: Seq<char>) -> Result<u64, Seq<char>> {
    match status_value(status, name) {
        Err(w) => Err(w),
        Ok(value) => match hexadecimal_number(value, u64::MAX as int) {
            Some(n) => Ok(n as u64),
            None => Err("process status "@ + name + " value is not hexadecimal"@),
        },
    }
}

/// The hexadecimal number of a field of a process status.
pub fn linux_status_hex_u64(status: &str, name: &str) -> (outcome: Result<u64, Refusal>)
    ensures
        comes_to(outcome, status_hex(status@, name@)),
{
    let value = linux_status_value(status, name)?;
    match parse_hexadecimal(value.as_str(), 0xffff_ffff_ffff_ffffu64) {
        Some(n) => Ok(n),
        None => Err(
            Refusal { text: cat3("process status ", name, " value is not hexadecimal") },
        ),
    }
}

/// What the kernel enforces for a process.
#[derive(Clone, Debug, PartialEq, Eq)]
pub struct LinuxProcessSecurityObservation {
    pub uids: [u32; 4],
    pub gids: [u32; 4],
    pub groups: Vec<u32>,
    pub cap_inheritable: u64,
    pub cap_permitted: u64,
    pub cap_effective: u64,
    pub cap_bounding: u64,
    pub cap_ambient: u64,
    pub no_new_privileges: bool,
    pub namespace_pids: Vec<u32>,
}

/// What `LinuxProcessSecurityObservation` holds.
#[verifier::ext_equal]
pub struct SecurityView {
    pub uids: Seq<u32>,
    pub gids: Seq<u32>,
    pub groups: Seq<u32>,
    pub cap_inheritable: u64,
    pub cap_permitted: u64,
    pub cap_effective: u64,
    pub cap_bounding: u64,
    pub cap_ambient: u64,
    pub no_new_privileges: bool,
    pub namespace_pids: Seq<u32>,
}

impl View for LinuxProcessSecurityObservation {
    type V = SecurityView;

    open spec fn view(&self) -> SecurityView {
        SecurityView {
            uids: self.uids@,
            gids: self.gids@,
            groups: self.groups@,
            cap_inheritable: self.cap_inheritable,
            cap_permitted: self.cap_permitted,
            cap_effective: self.cap_effective,
            cap_bounding: self.cap_bounding,
            cap_ambient: self.cap_ambient,
            no_new_privileges: self.no_new_privileges,
            namespace_pids: self.namespace_pids@,
        }
    }
}

/// Why a value is refused, if it is.
pub open spec fn fault<T>(value: Result<T, Seq<char>>) -> Option<Seq<char>> {
    match value {
        Ok(_) => None,
        Err(w) => Some(w),
    }
}

/// Whether the kernel keeps new privileges from a process.
pub open spec fn status_no_new_privileges(status: Seq<char>) -> Result<bool, Seq<char>> {
    match status_value(status, "NoNewPrivs"@) {
        Err(w) => Err(w),
        Ok(value) => if value == "1"@ {
            Ok(true)
        } else if value == "0"@ {
            Ok(false)
        } else {
            Err("process NoNewPrivs value is invalid"@)
        },
    }
}

/// Why a process status is refused, if it is: the first field that cannot be read, or
/// that it is another process's.
pub open spec fn security_refusal(status: Seq<char>, pid: u32) -> Option<Seq<char>> {
    let pids = status_numbers(status, "NSpid"@);
    either(
        fault(status_four(status, "Uid"@)),
        either(
            fault(status_four(status, "Gid"@)),
            either(
                fault(status_numbers(status, "Groups"@)),
                either(
                    fault(status_hex(status, "CapInh"@)),
                    either(
                        fault(status_hex(status, "CapPrm"@)),
                        either(
                            fault(status_hex(status, "CapEff"@)),
                            either(
                                fault(status_hex(status, "CapBnd"@)),
                                either(
                                    fault(status_hex(status, "CapAmb"@)),
                                    either(
                                        fault(status_no_new_privileges(status)),
                                        either(
                                            fault(pids),
                                            unless(
                                                pids->Ok_0.len() > 0 && pids->Ok_0[0] == pid,
                                                "process status belongs to another host pid"@,
                                            ),
                                        ),
                                    ),
                                ),
                            ),
                        ),
                    ),
                ),
            ),
        ),
    )
}

/// What a process status says the kernel enforces.
pub open spec fn security_of(status: Seq<char>) -> SecurityView {
    SecurityView {
        uids: status_four(status, "Uid"@)->Ok_0,
        gids: status_four(status, "Gid"@)->Ok_0,
        groups: status_numbers(status, "Groups"@)->Ok_0,
        cap_inheritable: status_hex(status, "CapInh"@)->Ok_0,
        cap_permitted: status_hex(status, "CapPrm"@)->Ok_0,
        cap_effective: status_hex(status, "CapEff"@)->Ok_0,
        cap_bounding: status_hex(status, "CapBnd"@)->Ok_0,
        cap_ambient: status_hex(status, "CapAmb"@)->Ok_0,
        no_new_privileges: status_no_new_privileges(status)->Ok_0,
        namespace_pids: status_numbers(status, "NSpid"@)->Ok_0,
    }
}

/// Reads what the kernel enforces for a process from its status.
pub fn linux_process_security(status: &str, expected_host_pid: u32) -> (outcome: Result<
    LinuxProcessSecurityObservation,
    Refusal,
>)
    ensures
        match security_refusal(status@, expected_host_pid) {
            Some(w) => outcome matches Err(refusal) && refusal@ == w,
            None => outcome matches Ok(found) && found@ == security_of(status@),
        },
{
    let uids = linux_status_u32_array(status, "Uid")?;
    let gids = linux_status_u32_array(status, "Gid")?;
    let groups = linux_status_u32_values(status, "Groups")?;
    let cap_inheritable: u64 = linux_status_hex_u64(status, "CapInh")?;
    let cap_permitted: u64 = linux_status_hex_u64(status, "CapPrm")?;
    let cap_effective: u64 = linux_status_hex_u64(status, "CapEff")?;
    let cap_bounding: u64 = linux_status_hex_u64(status, "CapBnd")?;
    let cap_ambient: u64 = linux_status_hex_u64(status, "CapAmb")?;
    let kept = linux_status_value(status, "NoNewPrivs")?;
    let no_new_privileges = if same_text(kept.as_str(), "1") {
        true
    } else if same_text(kept.as_str(), "0") {
        false
    } else {
        return Err(refuse("process NoNewPrivs value is invalid"));
    };
    let namespace_pids = linux_status_u32_values(status, "NSpid")?;
    if namespace_pids.len() == 0 || namespace_pids[0] != expected_host_pid {
        return Err(refuse("process status belongs to another host pid"));
    }
    Ok(
        LinuxProcessSecurityObservation {
            uids,
            gids,
            groups,
            cap_inheritable,
            cap_permitted,
            cap_effective,
            cap_bounding,
            cap_ambient,
            no_new_privileges,
            namespace_pids,
        },
    )
}

/// The namespace that a namespace link of a kind names.
pub open spec fn namespace_id(target: Seq<char>, kind: Seq<char>) -> Result<u64, Seq<char>> {
    let prefix = kind + ":["@;
    let inner = target.skip(prefix.len() as int);
    if !starts(target, prefix) || !ends(inner, "]"@) {
        Err("Linux namespace link has an unexpected shape"@)
    } else {
        match decimal_number(inner.take(inner.len() - "]"@.len()), u64::MAX as int) {
            None => Err("Linux namespace id is not a u64"@),
            Some(n) => if n > 0 {
                Ok(n as u64)
            } else {
                Err("Linux namespace id is zero"@)
            },
        }
    }
}

/// The namespace that a namespace link of a kind names.
pub fn linux_namespace_id(target: &str, kind: &str) -> (outcome: Result<u64, Refusal>)
    ensures
        comes_to(outcome, namespace_id(target@, kind@)),
{
    let prefix = cat2(kind, ":[");
    let inner = match strip_prefix(target, prefix.as_str()) {
        Some(inner) => inner,
        None => return Err(refuse("Linux namespace link has an unexpected shape")),
    };
    let id = match strip_suffix(inner.as_str(), "]") {
        Some(id) => id,
        None => return Err(refuse("Linux namespace link has an unexpected shape")),
    };
    match parse_decimal(id.as_str(), 0xffff_ffff_ffff_ffffu64) {
        None => Err(refuse("Linux namespace id is not a u64")),
        Some(n) => if n > 0 {
            Ok(n)
        } else {
            Err(refuse("Linux namespace id is zero"))
        },
    }
}

/// The start time in a process's stat text: the twentieth word behind the command,
/// which may itself hold parentheses.
pub open spec fn start_time(stat: Seq<char>) -> Result<u64, Seq<char>> {
    match cut_last(stat, ')') {
        None => Err("process stat has no command terminator"@),
        Some((_, rest)) => if words(rest).len() <= 19 {
            Err("process stat has no start-time field"@)
        } else {
            match decimal_number(words(rest)[19], u64::MAX as int) {
                Some(n) => Ok(n as u64),
                None => Err("process start-time field is not a u64"@),
            }
        },
    }
}

/// The start time in a process's stat text.
pub fn linux_process_start_time(stat: &str) -> (outcome: Result<u64, Refusal>)
    ensures
        comes_to(outcome, start_time(stat@)),
{
    let rest = match rsplit_once(stat, ')') {
        Some((_, rest)) => rest,
        None => return Err(refuse("process stat has no command terminator")),
    };
    let fields = words_of(rest.as_str());
    assert(texts(fields@).len() == fields@.len());
    if fields.len() <= 19 {
        return Err(refuse("process stat has no start-time field"));
    }
    assert(texts(fields@)[19] == fields@[19]@);
    match parse_decimal(fields[19].as_str(), 0xffff_ffff_ffff_ffffu64) {
        Some(n) => Ok(n),
        None => Err(refuse("process start-time field is not a u64")),
    }
}

/// The entries of a process's environment block: what zero bytes end, without blanks.
pub open spec fn environment_entries(block: Seq<u8>) -> Seq<Seq<u8>> {
    split(block, 0u8).filter(|entry: Seq<u8>| entry.len() > 0)
}

/// The entries of a process's environment block.
pub fn read_process_environment(block: &[u8]) -> (entries: Vec<Vec<u8>>)
    ensures
        byte_strings(entries@) == environment_entries(block@),
{
    let pieces = split_bytes(block, 0);
    let ghost all = split(block@, 0u8);
    let ghost pred = |entry: Seq<u8>| entry.len() > 0;
    let mut entries: Vec<Vec<u8>> = Vec::new();
    let mut i: usize = 0;
    proof {
        reveal(Seq::filter);
        assert(byte_strings(entries@) =~= all.take(0).filter(pred));
    }
    while i < pieces.len()
        invariant
            i <= pieces@.len(),
            byte_strings(pieces@) == all,
            pred == (|entry: Seq<u8>| entry.len() > 0),
            byte_strings(entries@) == all.take(i as int).filter(pred),
        decreases pieces@.len() - i,
    {
        proof {
            assert(all.take(i + 1) =~= all.take(i as int).push(all[i as int]));
            lemma_filter_push(all.take(i as int), all[i as int], pred);
            assert(all[i as int] == pieces@[i as int]@);
        }
        if pieces[i].len() > 0 {
            let ghost earlier = byte_strings(entries@);
            entries.push(crate::text::copy_bytes(pieces[i].as_slice()));
            assert(byte_strings(entries@) =~= earlier.push(all[i as int]));
        }
        i += 1;
    }
    assert(all.take(i as int) =~= all);
    entries
}

/// The entries that start with bytes.
pub open spec fn beginning(prefix: Seq<u8>) -> spec_fn(Seq<u8>) -> bool {
    |entry: Seq<u8>| starts(entry, prefix)
}

/// The one entry that starts with a name and an equals sign, without them.
pub open spec fn one_value(entries: Seq<Seq<u8>>, name: Seq<char>) -> Option<Seq<u8>> {
    let prefix = encode_utf8(name + "="@);
    let found = entries.filter(beginning(prefix));
    if found.len() == 1 {
        Some(found[0].skip(prefix.len() as int))
    } else {
        None
    }
}

fn only_value(entries: &[Vec<u8>], name: &str) -> (value: Option<Vec<u8>>)
    ensures
        crate::text::bytes_option(value) == one_value(byte_strings(entries@), name@),
{
    let text = cat2(name, "=");
    let prefix = text.as_str().as_bytes();
    let ghost all = byte_strings(entries@);
    let ghost pred = beginning(prefix@);
    let mut found: Option<usize> = None;
    let mut i: usize = 0;
    proof {
        reveal(Seq::filter);
        assert(all.take(0).filter(pred) =~= Seq::<Seq<u8>>::empty());
    }
    while i < entries.len()
        invariant
            i <= entries@.len(),
            all == byte_strings(entries@),
            pred == beginning(prefix@),
            prefix@ == encode_utf8(name@ + "="@),
            match found {
                Some(k) => k < i && all.take(i as int).filter(pred) == seq![all[k as int]] && pred(
                    all[k as int],
                ),
                None => all.take(i as int).filter(pred) == Seq::<Seq<u8>>::empty(),
            },
        decreases entries@.len() - i,
    {
        proof {
            assert(all.take(i + 1) =~= all.take(i as int).push(all[i as int]));
            lemma_filter_push(all.take(i as int), all[i as int], pred);
            assert(all[i as int] == entries@[i as int]@);
        }
        if bytes_start_with(entries[i].as_slice(), prefix) {
            assert(pred(all[i as int]));
            if found.is_some() {
                proof {
                    lemma_filter_two_places(all, pred, i + 1);
                }
                return None;
            }
            found = Some(i);
            assert(all.take(i + 1).filter(pred) =~= seq![all[i as int]]);
        }
        i += 1;
    }
    assert(all.take(i as int) =~= all);
    match found {
        None => None,
        Some(k) => {
            assert(all[k as int] == entries@[k as int]@);
            Some(bytes_after(entries[k].as_slice(), prefix.len()))
        },
    }
}

/// The text of bytes, or why they are none.
pub open spec fn text_in(bytes: Seq<u8>, words: Seq<char>) -> Result<Seq<char>, Seq<char>> {
    if valid_utf8(bytes) {
        Ok(decode_utf8(bytes))
    } else {
        Err(words)
    }
}

/// The text of bytes, refused with the given words where they are none.
pub fn text_of_bytes(bytes: &[u8], words: &str) -> (outcome: Result<String, Refusal>)
    ensures
        crate::clock::written(outcome, text_in(bytes@, words@)),
{
    match text_of_utf8(bytes) {
        Some(text) => {
            proof {
                vstd::utf8::encode_utf8_decode_utf8(text@);
            }
            Ok(text)
        },
        None => Err(refuse(words)),
    }
}

/// The one value of a name in a process's environment, which may not be empty.
pub open spec fn environment_value(entries: Seq<Seq<u8>>, name: Seq<char>) -> Result<
    Seq<char>,
    Seq<char>,
> {
    match one_value(entries, name) {
        None => Err("process environment has zero or duplicate "@ + name + " values"@),
        Some(bytes) => match text_in(bytes, "process environment "@ + name + " is not UTF-8"@) {
            Err(w) => Err(w),
            Ok(value) => if value.len() == 0 {
                Err("process environment "@ + name + " is empty"@)
            } else {
                Ok(value)
            },
        },
    }
}

/// The one value of a name in a process's environment.
pub fn required_process_environment_value(entries: &[Vec<u8>], name: &str) -> (outcome: Result<
    String,
    Refusal,
>)
    ensures
        crate::clock::written(outcome, environment_value(byte_strings(entries@), name@)),
{
    match only_value(entries, name) {
        None => Err(
            Refusal { text: cat3("process environment has zero or duplicate ", name, " values") },
        ),
        Some(bytes) => {
            let words = cat3("process environment ", name, " is not UTF-8");
            let value = text_of_bytes(bytes.as_slice(), words.as_str())?;
            if value.as_str().is_empty() {
                return Err(Refusal { text: cat3("process environment ", name, " is empty") });
            }
            Ok(value)
        },
    }
}

/// Whether each name stands before the next.
pub open spec fn ascending(names: Seq<Seq<char>>) -> bool {
    forall|i: int, j: int|
        0 <= i < j < names.len() ==> before(#[trigger] names[i], #[trigger] names[j])
}

/// Whether each name stands before the next.
pub fn is_ascending(names: &[String]) -> (is: bool)
    ensures
        is == ascending(texts(names@)),
{
    let ghost all = texts(names@);
    let mut i: usize = 1;
    while i < names.len()
        invariant
            1 <= i,
            names@.len() > 0 ==> i <= names@.len(),
            all == texts(names@),
            forall|a: int, b: int|
                0 <= a < b < i && b < all.len() ==> before(#[trigger] all[a], #[trigger] all[b]),
        decreases names@.len() - i,
    {
        assert(all[i - 1] == names@[i - 1]@);
        assert(all[i as int] == names@[i as int]@);
        if !text_before(names[i - 1].as_str(), names[i].as_str()) {
            assert(!before(all[i - 1], all[i as int]));
            return false;
        }
        proof {
            assert forall|a: int, b: int| 0 <= a < b < i + 1 && b < all.len() implies before(
                #[trigger] all[a],
                #[trigger] all[b],
            ) by {
                if b == i && a < i - 1 {
                    assert(before(all[a], all[i - 1]));
                    lemma_before_transitive(all[a], all[i - 1], all[b]);
                }
            }
        }
        i += 1;
    }
    true
}

/// The values of names in a process's environment, each name there exactly once.
pub open spec fn selected(entries: Seq<Seq<u8>>, names: Seq<Seq<char>>) -> Result<
    Seq<Pair>,
    Seq<char>,
>
    decreases names.len(),
{
    if names.len() == 0 {
        Ok(Seq::empty())
    } else {
        let name = names.last();
        match selected(entries, names.drop_last()) {
            Err(w) => Err(w),
            Ok(earlier) => match one_value(entries, name) {
                None => Err(
                    "workload process environment has missing or duplicate "@ + name,
                ),
                Some(bytes) => match text_in(
                    bytes,
                    "workload environment "@ + name + " is not UTF-8"@,
                ) {
                    Err(w) => Err(w),
                    Ok(value) => Ok(with(earlier, name, value)),
                },
            },
        }
    }
}

/// What selecting names from a process's environment comes to.
pub open spec fn selection(entries: Seq<Seq<u8>>, names: Seq<Seq<char>>) -> Result<
    Seq<Pair>,
    Seq<char>,
> {
    if ascending(names) {
        selected(entries, names)
    } else {
        Err("workload environment witness names are not unique and sorted"@)
    }
}

proof fn lemma_selection_fails(entries: Seq<Seq<u8>>, names: Seq<Seq<char>>, n: int)
    requires
        0 <= n <= names.len(),
        selected(entries, names.take(n)) is Err,
    ensures
        selected(entries, names) == selected(entries, names.take(n)),
    decreases names.len() - n,
{
    if n < names.len() {
        assert(names.take(n + 1).drop_last() =~= names.take(n));
        lemma_selection_fails(entries, names, n + 1);
    } else {
        assert(names.take(n) =~= names);
    }
}

/// The values of names in a process's environment, and of no other name.
pub fn select_process_environment(entries: &[Vec<u8>], names: &[String]) -> (outcome: Result<
    TextMap,
    Refusal,
>)
    ensures
        match (outcome, selection(byte_strings(entries@), texts(names@))) {
            (Ok(map), Ok(pairs)) => map@ == pairs,
            (Err(refusal), Err(w)) => refusal@ == w,
            _ => false,
        },
{
    if !is_ascending(names) {
        return Err(refuse("workload environment witness names are not unique and sorted"));
    }
    let ghost block = byte_strings(entries@);
    let ghost all = texts(names@);
    let mut map = TextMap::empty();
    let mut i: usize = 0;
    assert(all.take(0) =~= Seq::<Seq<char>>::empty());
    while i < names.len()
        invariant
            i <= names@.len(),
            block == byte_strings(entries@),
            all == texts(names@),
            ascending(all),
            selected(block, all.take(i as int)) == Ok::<Seq<Pair>, Seq<char>>(map@),
        decreases names@.len() - i,
    {
        let name = names[i].as_str();
        proof {
            assert(all.take(i + 1).drop_last() =~= all.take(i as int));
            assert(all.take(i + 1).last() == name@);
        }
        match only_value(entries, name) {
            None => {
                proof {
                    lemma_selection_fails(block, all, i + 1);
                }
                return Err(
                    Refusal {
                        text: cat2("workload process environment has missing or duplicate ", name),
                    },
                );
            },
            Some(bytes) => {
                let words = cat3("workload environment ", name, " is not UTF-8");
                match text_of_bytes(bytes.as_slice(), words.as_str()) {
                    Err(refusal) => {
                        proof {
                            lemma_selection_fails(block, all, i + 1);
                        }
                        return Err(refusal);
                    },
                    Ok(value) => {
                        map = map.inserted(name, value.as_str());
                    },
                }
            },
        }
        i += 1;
    }
    assert(all.take(i as int) =~= all);
    Ok(map)
}

/// The bytes of a command line: each argument's, and a zero byte behind each.
pub open spec fn command_line(arguments: Seq<Seq<char>>) -> Seq<u8>
    decreases arguments.len(),
{
    if arguments.len() == 0 {
        Seq::empty()
    } else {
        (command_line(arguments.drop_last()) + encode_utf8(arguments.last())).push(0u8)
    }
}

/// The bytes of a command line as the kernel keeps it.
pub fn proc_command_line(command: &[String]) -> (encoded: Vec<u8>)
    ensures
        encoded@ == command_line(texts(command@)),
{
    let ghost all = texts(command@);
    let mut encoded: Vec<u8> = Vec::new();
    let mut i: usize = 0;
    assert(all.take(0) =~= Seq::<Seq<char>>::empty());
    while i < command.len()
        invariant
            i <= command@.len(),
            all == texts(command@),
            encoded@ == command_line(all.take(i as int)),
        decreases command@.len() - i,
    {
        push_bytes(&mut encoded, command[i].as_str().as_bytes());
        encoded.push(0);
        i += 1;
        assert(all.take(i as int).drop_last() =~= all.take(i - 1));
        assert(all.take(i as int).last() == command@[i - 1]@);
    }
    assert(all.take(i as int) =~= all);
    encoded
}

/// Adds bytes behind others.
pub fn push_bytes(out: &mut Vec<u8>, more: &[u8])
    ensures
        final(out)@ == old(out)@ + more@,
{
    let mut i: usize = 0;
    while i < more.len()
        invariant
            i <= more@.len(),
            out@ == old(out)@ + more@.take(i as int),
        decreases more@.len() - i,
    {
        out.push(more[i]);
        i += 1;
        assert(out@ =~= old(out)@ + more@.take(i as int));
    }
    assert(more@.take(i as int) =~= more@);
}

/// Whether a path has no component that leaves where it stands.
pub open spec fn no_parent_steps(parts: Seq<Seq<char>>) -> bool {
    forall|i: int| 0 <= i < parts.len() ==> #[trigger] parts[i] != seq!['.', '.']
}

/// An absolute path seen through the root of a process.
pub open spec fn inside_process_root(process_root: Seq<char>, path: Seq<char>) -> Result<
    Seq<char>,
    Seq<char>,
> {
    if !absolute(process_root) || !absolute(path) {
        Err("process-root projection requires absolute paths"@)
    } else if !no_parent_steps(components(path)) {
        Err("process-root projection path is not normalized"@)
    } else {
        Ok(joined(process_root, joined_components(components(path))))
    }
}

/// An absolute path seen through the root of a process.
pub fn path_inside_process_root(process_root: &str, absolute_path: &str) -> (outcome: Result<
    String,
    Refusal,
>)
    ensures
        crate::clock::written(outcome, inside_process_root(process_root@, absolute_path@)),
{
    if !is_absolute(process_root) || !is_absolute(absolute_path) {
        return Err(refuse("process-root projection requires absolute paths"));
    }
    let parts = components_of(absolute_path);
    let ghost all = components(absolute_path@);
    assert(all.len() == parts@.len()) by {
        assert(texts(parts@).len() == parts@.len());
    }
    proof {
        reveal_strlit("..");
        assert(".."@ =~= seq!['.', '.']);
    }
    let mut i: usize = 0;
    while i < parts.len()
        invariant
            i <= parts@.len(),
            all == components(absolute_path@),
            texts(parts@) == all,
            ".."@ == seq!['.', '.'],
            absolute(process_root@),
            absolute(absolute_path@),
            forall|j: int| 0 <= j < i ==> #[trigger] all[j] != seq!['.', '.'],
        decreases parts@.len() - i,
    {
        assert(all[i as int] == parts@[i as int]@);
        if same_text(parts[i].as_str(), "..") {
            return Err(refuse("process-root projection path is not normalized"));
        }
        i += 1;
    }
    let rest = join_components(parts.as_slice(), parts.len());
    assert(all.take(parts@.len() as int) =~= all);
    Ok(join(process_root, rest.as_str()))
}

} // verus!

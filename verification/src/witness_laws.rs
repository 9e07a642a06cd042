//! What is read of a process: its command line, its environment, its status, its namespaces and
//! the files that it was handed.
use vstd::prelude::*;
use vstd::utf8::encode_utf8;

use crate::hash_laws::lemma_no_nul;
use crate::launch::{descriptor_of, descriptor_refusal, DescriptorSource};
use crate::paths::absolute;
use crate::procfs::{
    beginning, command_line, environment_entries, namespace_id, one_value, prefixed, status_hex,
    status_numbers, status_value, u32_numbers,
};
use crate::scan::{
    all_of, decimal, decimal_number, digit, ends, hexadecimal_number, lines, split, starts, trimmed,
    words,
};
use crate::stream::lemma_decimal;

verus! {

proof fn lemma_line_end(arguments: Seq<Seq<char>>)
    ensures
        arguments.len() == 0 ==> command_line(arguments).len() == 0,
        arguments.len() > 0 ==> command_line(arguments).len() > 0 && command_line(
            arguments,
        ).last() == 0u8,
{
}

/// A command line tells its arguments: no two lists of arguments that hold no null character
/// give the same.
pub proof fn a_command_line_tells_its_arguments(one: Seq<Seq<char>>, two: Seq<Seq<char>>)
    requires
        forall|i: int| 0 <= i < one.len() ==> !(#[trigger] one[i]).contains('\0'),
        forall|i: int| 0 <= i < two.len() ==> !(#[trigger] two[i]).contains('\0'),
        command_line(one) == command_line(two),
    ensures
        one == two,
    decreases one.len(),
{
    lemma_line_end(one);
    lemma_line_end(two);
    if one.len() == 0 || two.len() == 0 {
        assert(one =~= two);
    } else {
        let all = command_line(one);
        let a = command_line(one.drop_last());
        let b = command_line(two.drop_last());
        let x = encode_utf8(one.last());
        let y = encode_utf8(two.last());
        lemma_no_nul(one[one.len() - 1]);
        lemma_no_nul(two[two.len() - 1]);
        lemma_line_end(one.drop_last());
        lemma_line_end(two.drop_last());
        assert(all == (a + x).push(0u8));
        assert(all == (b + y).push(0u8));
        if a.len() < b.len() {
            assert(all[b.len() - 1] == 0u8);
            assert(all[b.len() - 1] == x[b.len() - 1 - a.len()]);
            assert(x.contains(0u8));
        } else if b.len() < a.len() {
            assert(all[a.len() - 1] == 0u8);
            assert(all[a.len() - 1] == y[a.len() - 1 - b.len()]);
            assert(y.contains(0u8));
        }
        assert(a =~= all.take(a.len() as int));
        assert(b =~= all.take(a.len() as int));
        assert(x =~= all.subrange(a.len() as int, all.len() - 1));
        assert(y =~= all.subrange(a.len() as int, all.len() - 1));
        vstd::utf8::encode_utf8_decode_utf8(one.last());
        vstd::utf8::encode_utf8_decode_utf8(two.last());
        a_command_line_tells_its_arguments(one.drop_last(), two.drop_last());
        assert(one =~= one.drop_last().push(one.last()));
        assert(two =~= two.drop_last().push(two.last()));
    }
}

/// A namespace is read back from the link that names it, and no link of another kind is read.
pub proof fn a_namespace_is_read_back(kind: Seq<char>, id: u64)
    requires
        id > 0,
    ensures
        namespace_id(kind + ":["@ + decimal(id as nat) + "]"@, kind) == Ok::<u64, Seq<char>>(id),
{
    reveal_strlit(":[");
    reveal_strlit("]");
    let prefix = kind + ":["@;
    let number = decimal(id as nat);
    let target = prefix + number + "]"@;
    let inner = target.skip(prefix.len() as int);
    lemma_decimal(id as nat);
    assert(inner =~= number + "]"@);
    assert(inner.skip(inner.len() - 1) =~= "]"@);
    assert(target.take(prefix.len() as int) =~= prefix);
    assert(starts(target, prefix));
    assert(ends(inner, "]"@));
    assert(inner.take(inner.len() - "]"@.len()) =~= number);
    assert(digit(number[0]));
    assert(all_of(number, |c: char| digit(c)));
}

proof fn lemma_only<A>(s: Seq<A>, pred: spec_fn(A) -> bool)
    requires
        s.filter(pred).len() == 1,
    ensures
        exists|i: int|
            0 <= i < s.len() && pred(#[trigger] s[i]) && s[i] == s.filter(pred)[0] && forall|j: int|
                0 <= j < s.len() && j != i ==> !pred(#[trigger] s[j]),
    decreases s.len(),
{
    reveal(Seq::filter);
    if s.len() > 0 {
        let fewer = s.drop_last();
        if pred(s.last()) {
            let i = s.len() - 1;
            assert(fewer.filter(pred).len() == 0);
            assert forall|j: int| 0 <= j < s.len() && j != i implies !pred(#[trigger] s[j]) by {
                if pred(s[j]) {
                    assert(fewer[j] == s[j]);
                    fewer.lemma_filter_contains(pred, j);
                }
            }
            assert(pred(s[i]) && s[i] == s.filter(pred)[0]);
        } else {
            lemma_only(fewer, pred);
            let i = choose|i: int|
                0 <= i < fewer.len() && pred(#[trigger] fewer[i]) && fewer[i] == fewer.filter(
                    pred,
                )[0] && forall|j: int|
                    0 <= j < fewer.len() && j != i ==> !pred(#[trigger] fewer[j]);
            assert(pred(s[i]) && s[i] == s.filter(pred)[0]);
            assert forall|j: int| 0 <= j < s.len() && j != i implies !pred(#[trigger] s[j]) by {
                if j < fewer.len() {
                    assert(fewer[j] == s[j]);
                }
            }
        }
    }
}

/// Whether a text writes a number, in decimal digits.
pub open spec fn writes(text: Seq<char>, n: u32) -> bool {
    match decimal_number(text, u32::MAX as int) {
        Some(m) => m as u32 == n,
        None => false,
    }
}

/// A field of a status is read from the one line that begins with its name and a colon, and
/// from none where more than one does.
pub proof fn a_status_field_is_read_from_its_own_line(status: Seq<char>, name: Seq<char>)
    ensures
        status_value(status, name) matches Ok(value) ==> exists|i: int|
            {
                &&& 0 <= i < lines(status).len()
                &&& starts(#[trigger] lines(status)[i], name + ":"@)
                &&& value == trimmed(lines(status)[i].skip(name.len() + 1int))
                &&& forall|j: int|
                    0 <= j < lines(status).len() && j != i ==> !starts(
                        #[trigger] lines(status)[j],
                        name + ":"@,
                    )
            },
        status_numbers(status, name) matches Ok(numbers) ==> {
            &&& status_value(status, name) is Ok
            &&& numbers.len() == words(status_value(status, name)->Ok_0).len()
            &&& forall|i: int|
                0 <= i < numbers.len() ==> writes(
                    words(status_value(status, name)->Ok_0)[i],
                    #[trigger] numbers[i],
                )
        },
        status_hex(status, name) matches Ok(n) ==> status_value(status, name) is Ok && (
        hexadecimal_number(status_value(status, name)->Ok_0, u64::MAX as int) matches Some(m) && m
            as u64 == n),
{
    reveal_strlit(":");
    if status_value(status, name) is Ok {
        let pred = prefixed(name + ":"@);
        lemma_only(lines(status), pred);
        let i = choose|i: int|
            0 <= i < lines(status).len() && pred(#[trigger] lines(status)[i]) && lines(status)[i]
                == lines(status).filter(pred)[0] && forall|j: int|
                0 <= j < lines(status).len() && j != i ==> !pred(#[trigger] lines(status)[j]);
        assert(starts(lines(status)[i], name + ":"@));
        assert forall|j: int| 0 <= j < lines(status).len() && j != i implies !starts(
            #[trigger] lines(status)[j],
            name + ":"@,
        ) by {
            assert(!pred(lines(status)[j]));
        }
    }
    if status_numbers(status, name) is Ok {
        lemma_numbers(words(status_value(status, name)->Ok_0));
    }
}

proof fn lemma_numbers(written: Seq<Seq<char>>)
    ensures
        u32_numbers(written) matches Some(numbers) ==> numbers.len() == written.len() && forall|
            i: int,
        |
            0 <= i < numbers.len() ==> writes(written[i], #[trigger] numbers[i]),
    decreases written.len(),
{
    if written.len() > 0 {
        let fewer = written.drop_last();
        lemma_numbers(fewer);
        if let Some(numbers) = u32_numbers(written) {
            let earlier = u32_numbers(fewer)->0;
            assert forall|i: int| 0 <= i < numbers.len() implies writes(
                written[i],
                #[trigger] numbers[i],
            ) by {
                if i < earlier.len() {
                    assert(writes(fewer[i], earlier[i]));
                }
            }
        }
    }
}

/// A value of an environment is all that stands behind the name and an equals sign in the one
/// entry that begins so; and an entry is what stands between null bytes.
pub proof fn a_value_is_read_from_its_own_entry(block: Seq<u8>, name: Seq<char>)
    ensures
        one_value(environment_entries(block), name) matches Some(value) ==> exists|i: int|
            {
                &&& 0 <= i < environment_entries(block).len()
                &&& #[trigger] environment_entries(block)[i] == encode_utf8(name + "="@) + value
                &&& forall|j: int|
                    0 <= j < environment_entries(block).len() && j != i ==> !starts(
                        #[trigger] environment_entries(block)[j],
                        encode_utf8(name + "="@),
                    )
            },
        forall|i: int|
            0 <= i < environment_entries(block).len() ==> split(block, 0u8).contains(
                #[trigger] environment_entries(block)[i],
            ) && environment_entries(block)[i].len() > 0,
{
    let entries = environment_entries(block);
    let filled = |entry: Seq<u8>| entry.len() > 0;
    assert forall|i: int| 0 <= i < entries.len() implies split(block, 0u8).contains(
        #[trigger] entries[i],
    ) && entries[i].len() > 0 by {
        assert(entries.contains(entries[i]));
        split(block, 0u8).lemma_filter_contains_rev(filled, entries[i]);
        split(block, 0u8).lemma_filter_pred(filled, i);
    }
    if let Some(value) = one_value(entries, name) {
        let prefix = encode_utf8(name + "="@);
        let pred = beginning(prefix);
        lemma_only(entries, pred);
        let i = choose|i: int|
            0 <= i < entries.len() && pred(#[trigger] entries[i]) && entries[i] == entries.filter(
                pred,
            )[0] && forall|j: int|
                0 <= j < entries.len() && j != i ==> !pred(#[trigger] entries[j]);
        assert(entries[i] =~= prefix + value);
        assert forall|j: int| 0 <= j < entries.len() && j != i implies !starts(
            #[trigger] entries[j],
            prefix,
        ) by {
            assert(!pred(entries[j]));
        }
    }
}

/// A file is handed to a process exactly where it is one that a start accepts: named and placed
/// so that the line that hands it over can be read, native, filled, root's alone to read and
/// with no other name; and what is told of it is what was found.
pub proof fn an_observed_descriptor_is_handed_over_as_found(
    fd_number: u32,
    fd_name: Seq<char>,
    source_path: Seq<char>,
    source: DescriptorSource,
)
    ensures
        descriptor_of(fd_number, fd_name, source_path, source) matches Ok(d) ==> {
            &&& descriptor_refusal(d) is None
            &&& source.is_file
            &&& (source.mode & 0o777) == 0o400
            &&& d.fd_number == fd_number
            &&& d.fd_name == fd_name
            &&& d.source_path == source_path
            &&& d.device == source.device
            &&& d.inode == source.inode
            &&& d.uid == source.uid
            &&& d.gid == source.gid
            &&& d.links == source.links
            &&& d.size == source.len
            &&& d.sha256 == source.sha256@
        },
        descriptor_of(fd_number, fd_name, source_path, source) is Ok <==> {
            &&& crate::launch::component_refusal(fd_name, ""@) is None
            &&& crate::launch::component_refusal(source_path, ""@) is None
            &&& absolute(source_path)
            &&& source.is_file
            &&& source.len > 0
            &&& source.uid == 0
            &&& source.gid == 0
            &&& source.mode & 0o777 == 0o400
            &&& source.links == 1
        },
{
}

} // verus!

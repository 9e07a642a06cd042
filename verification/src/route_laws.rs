//! What holds of a route from its rehearsal to its withdrawal.
use vstd::prelude::*;
use vstd::utf8::decode_utf8;

use crate::digest::{digest_id, driver_id_refusal, sha256_id_refusal};
use crate::launch::{host_char, host_port};
use crate::paths::absolute;
use crate::records::{ExpectedRouteView, IdunnExpectedIncarnationRecordView};
use crate::route::{
    baseline_refusal, bind_property, bindable, challenge_at, closing, configured, fragment_of,
    fragment_text, identifier_char, incumbent_refusal, installation_refusal, membership_id,
    membership_of, opening, rehearsal_arguments, restores, rollback_refusal, scheme_of, validated,
    Fragment, NginxRouteDriver, RouteBaseline, RouteBinding, RouteObservation,
    RoutePreflightReceipt, RouteRestoration,
};
use crate::scan::{
    all_of, alphanumeric, decimal, digit, ends, lemma_cut_last, lemma_split_join,
    lemma_split_single, split, stands_last, starts, unsigned_digits,
};
use crate::stream::lemma_decimal;
use crate::text::{bytes_option, Refusal};

verus! {

/// What is read of a route's fragment when it holds a content, or is not there.
pub open spec fn holding(content: Option<Vec<u8>>) -> Result<Option<Vec<u8>>, Refusal> {
    Ok(content)
}

/// A fragment without bytes routes nothing: it is the same as no fragment.
pub proof fn an_empty_fragment_is_no_route(empty: Vec<u8>)
    requires
        empty@.len() == 0,
    ensures
        configured(holding(Some(empty))) == configured(holding(None)),
{
}

/// What closes the endpoint of a route names exactly the rule that opened it, without the
/// tag of the route that stands behind it.
pub proof fn the_withdrawn_rule_is_the_admitted_one(
    binding: RouteBinding,
    host: Seq<char>,
    port: u16,
)
    ensures
        closing(binding, host, port).first() == "delete"@,
        closing(binding, host, port).skip(1) == opening(binding, host, port).take(
            opening(binding, host, port).len() - 2,
        ),
        opening(binding, host, port).last() == "Idunn route "@ + binding.route_id@,
{
    let opened = opening(binding, host, port);
    assert(closing(binding, host, port).skip(1) =~= opened.take(opened.len() - 2));
}

/// A candidate whose rehearsal left a receipt may be installed, as long as nothing was
/// reconfigured since.
pub proof fn a_rehearsed_candidate_may_be_installed(
    driver: NginxRouteDriver,
    expected: IdunnExpectedIncarnationRecordView,
    runtime_instance_id: Seq<char>,
    incumbent: Option<RouteObservation>,
    baseline: RouteBaseline,
    receipt: RoutePreflightReceipt,
    reading: Result<Option<Vec<u8>>, Refusal>,
)
    requires
        membership_of(driver.binding, expected) == Ok::<Seq<u8>, Seq<char>>(baseline.rendered@),
        driver.receipt_is(receipt, baseline, runtime_instance_id, incumbent),
        receipt.refusal() is None,
        configured(reading) == Ok::<Option<Seq<u8>>, Seq<char>>(bytes_option(baseline.current)),
    ensures
        installation_refusal(
            driver.binding,
            expected,
            runtime_instance_id,
            receipt,
            reading,
        ) is None,
{
}

/// An installation that was interrupted after its fragment was written may be repeated.
pub proof fn an_installation_may_be_repeated(
    binding: RouteBinding,
    expected: IdunnExpectedIncarnationRecordView,
    runtime_instance_id: Seq<char>,
    receipt: RoutePreflightReceipt,
    before: Result<Option<Vec<u8>>, Refusal>,
    written: Vec<u8>,
)
    requires
        installation_refusal(binding, expected, runtime_instance_id, receipt, before) is None,
        membership_of(binding, expected) == Ok::<Seq<u8>, Seq<char>>(written@),
        written@.len() > 0,
    ensures
        installation_refusal(
            binding,
            expected,
            runtime_instance_id,
            receipt,
            holding(Some(written)),
        ) is None,
{
}

/// An installed candidate can be rolled back by the receipt that it was installed with.
pub proof fn an_installed_candidate_can_be_rolled_back(
    binding: RouteBinding,
    expected: IdunnExpectedIncarnationRecordView,
    runtime_instance_id: Seq<char>,
    receipt: RoutePreflightReceipt,
    before: Result<Option<Vec<u8>>, Refusal>,
    written: Vec<u8>,
)
    requires
        installation_refusal(binding, expected, runtime_instance_id, receipt, before) is None,
        membership_of(binding, expected) == Ok::<Seq<u8>, Seq<char>>(written@),
        written@.len() > 0,
    ensures
        rollback_refusal(
            binding,
            expected,
            runtime_instance_id,
            receipt,
            holding(Some(written)),
        ) is None,
{
}

/// A rollback replaces the candidate's own fragment and nothing else: what another writer
/// has put there is refused.
pub proof fn a_rollback_never_overwrites_another_writer(
    binding: RouteBinding,
    expected: IdunnExpectedIncarnationRecordView,
    runtime_instance_id: Seq<char>,
    receipt: RoutePreflightReceipt,
    reading: Result<Option<Vec<u8>>, Refusal>,
)
    requires
        membership_of(binding, expected) is Ok,
        configured(reading) != Ok::<Option<Seq<u8>>, Seq<char>>(
            Some(membership_of(binding, expected)->Ok_0),
        ),
    ensures
        rollback_refusal(binding, expected, runtime_instance_id, receipt, reading) is Some,
{
}

/// Rolling back or abandoning a candidate puts back exactly what its rehearsal found,
/// whether that was an incumbent's configuration or none.
pub proof fn a_restoration_puts_back_what_the_rehearsal_found(
    driver: NginxRouteDriver,
    expected: IdunnExpectedIncarnationRecordView,
    runtime_instance_id: Seq<char>,
    incumbent: Option<RouteObservation>,
    found: Result<Option<Vec<u8>>, Refusal>,
    baseline: RouteBaseline,
    receipt: RoutePreflightReceipt,
    restoration: RouteRestoration,
)
    requires
        baseline_refusal(driver.binding, expected, found, incumbent) is None,
        configured(found) == Ok::<Option<Seq<u8>>, Seq<char>>(bytes_option(baseline.current)),
        driver.receipt_is(receipt, baseline, runtime_instance_id, incumbent),
        restores(restoration, bytes_option(receipt.incumbent_configuration)),
    ensures
        configured(holding(restoration.content)) == configured(found),
        restoration.close_endpoint == (configured(found)->Ok_0 is None),
{
    match found {
        Ok(Some(bytes)) => {
            if bytes@.len() > 0 {
                assert(restoration.content is Some);
            }
        },
        _ => {},
    }
}

/// A rehearsal starts only from what was admitted: an incumbent's membership is what is
/// configured, and without an incumbent nothing is.
pub proof fn a_rehearsal_starts_from_the_admitted_membership(
    binding: RouteBinding,
    expected: IdunnExpectedIncarnationRecordView,
    reading: Result<Option<Vec<u8>>, Refusal>,
    incumbent: Option<RouteObservation>,
)
    requires
        baseline_refusal(binding, expected, reading, incumbent) is None,
    ensures
        configured(reading) matches Ok(found) && membership_id(found) == (match incumbent {
            Some(admitted) => Some(admitted.membership_sha256@),
            None => None,
        }),
{
}

/// What stands between a beginning and an end on each of the lines that have both.
pub open spec fn given(lines: Seq<Seq<char>>, before: Seq<char>, after: Seq<char>) -> Seq<Seq<char>>
    decreases lines.len(),
{
    if lines.len() == 0 {
        Seq::empty()
    } else {
        let earlier = given(lines.drop_last(), before, after);
        let line = lines.last();
        if before.len() + after.len() <= line.len() && starts(line, before) && ends(line, after) {
            earlier.push(line.subrange(before.len() as int, line.len() - after.len()))
        } else {
            earlier
        }
    }
}

/// The lines of a fragment that an expected route is carried in.
pub open spec fn fragment_lines(
    binding: RouteBinding,
    expected: IdunnExpectedIncarnationRecordView,
) -> Seq<
    Seq<char>,
> {
    split(decode_utf8(membership_of(binding, expected)->Ok_0), '\n')
}

/// An endpoint as nginx is told it.
pub open spec fn socket(endpoint: (Seq<char>, u16)) -> Seq<char> {
    endpoint.0 + ":"@ + decimal(endpoint.1 as nat)
}

spec fn pieces(f: Fragment) -> Seq<Seq<char>> {
    seq![
        "# Idunn Expected "@ + f.expected_sha256,
        "upstream "@ + f.upstream + " {"@,
        "    server "@ + socket(f.candidate) + ";"@,
        "}"@,
        "server {"@,
        "    listen "@ + (socket(f.stable) + (if f.udp {
            " udp reuseport"@
        } else {
            ""@
        })) + ";"@,
        "    proxy_pass "@ + f.upstream + ";"@,
        "}"@,
        ""@,
    ]
}

spec fn on_lines(pieces: Seq<Seq<char>>) -> Seq<char>
    decreases pieces.len(),
{
    if pieces.len() <= 1 {
        if pieces.len() == 1 {
            pieces[0]
        } else {
            Seq::empty()
        }
    } else {
        pieces[0].push('\n') + on_lines(pieces.skip(1))
    }
}

proof fn lemma_on_lines(pieces: Seq<Seq<char>>)
    requires
        pieces.len() > 0,
        forall|i: int| 0 <= i < pieces.len() ==> !(#[trigger] pieces[i]).contains('\n'),
    ensures
        split(on_lines(pieces), '\n') == pieces,
    decreases pieces.len(),
{
    lemma_split_single(pieces[0], '\n');
    if pieces.len() == 1 {
        assert(seq![pieces[0]] =~= pieces);
    } else {
        let rest = pieces.skip(1);
        assert forall|i: int| 0 <= i < rest.len() implies !(#[trigger] rest[i]).contains('\n') by {
            assert(rest[i] == pieces[i + 1]);
        }
        lemma_on_lines(rest);
        lemma_split_join(pieces[0], '\n', on_lines(rest));
        assert(seq![pieces[0]] + rest =~= pieces);
    }
}

proof fn lemma_joined_plain(a: Seq<char>, b: Seq<char>)
    requires
        !a.contains('\n'),
        !b.contains('\n'),
    ensures
        !(a + b).contains('\n'),
{
    let c = a + b;
    assert forall|i: int| 0 <= i < c.len() implies c[i] != '\n' by {
        if i < a.len() {
            assert(a.contains(a[i]));
        } else {
            assert(b.contains(b[i - a.len()]));
        }
    }
}

proof fn lemma_socket_plain(endpoint: Seq<char>, scheme: Seq<char>)
    requires
        host_port(endpoint, scheme) is Ok,
    ensures
        !socket(host_port(endpoint, scheme)->Ok_0).contains('\n'),
{
    let found = host_port(endpoint, scheme)->Ok_0;
    let digits = decimal(found.1 as nat);
    lemma_decimal(found.1 as nat);
    reveal_strlit(":");
    assert forall|i: int| 0 <= i < found.0.len() implies found.0[i] != '\n' by {
        let kind = |c: char| host_char(c);
        assert(kind(found.0[i]));
    }
    assert forall|i: int| 0 <= i < digits.len() implies digits[i] != '\n' by {
        assert(digit(digits[i]));
    }
    lemma_joined_plain(found.0, ":"@);
    lemma_joined_plain(found.0 + ":"@, digits);
}

proof fn lemma_gather(h: Seq<char>, a: Seq<char>, b: Seq<char>, c: Seq<char>)
    ensures
        h + a + b + c == h + (a + b + c),
{
    assert(h + a + b + c =~= h + (a + b + c));
}

proof fn lemma_shift(h: Seq<char>, a: Seq<char>, b: Seq<char>)
    ensures
        h + a + b == h + (a + b),
{
    assert(h + a + b =~= h + (a + b));
}

proof fn lemma_end(u: Seq<char>, x: Seq<char>)
    ensures
        x + ";\n    proxy_pass "@ + u + ";\n}\n"@ == (x + ";"@).push('\n') + ((
        "    proxy_pass "@ + u + ";"@).push('\n') + ("}"@.push('\n') + ""@)),
{
    reveal_strlit(";\n    proxy_pass ");
    reveal_strlit("    proxy_pass ");
    reveal_strlit(";\n}\n");
    reveal_strlit("}");
    reveal_strlit(";");
    reveal_strlit("");
    assert(x + ";\n    proxy_pass "@ + u + ";\n}\n"@ =~= (x + ";"@).push('\n') + ((
    "    proxy_pass "@ + u + ";"@).push('\n') + ("}"@.push('\n') + ""@)));
}

proof fn lemma_middle(x: Seq<char>, y: Seq<char>)
    ensures
        x + ";\n}\nserver {\n    listen "@ + y == (x + ";"@).push('\n') + ("}"@.push('\n') + (
        "server {"@.push('\n') + ("    listen "@ + y))),
{
    reveal_strlit(";\n}\nserver {\n    listen ");
    reveal_strlit("    listen ");
    reveal_strlit("server {");
    reveal_strlit("}");
    reveal_strlit(";");
    assert(x + ";\n}\nserver {\n    listen "@ + y =~= (x + ";"@).push('\n') + ("}"@.push('\n') + (
    "server {"@.push('\n') + ("    listen "@ + y))));
}

proof fn lemma_beginning(x: Seq<char>, u: Seq<char>, y: Seq<char>)
    ensures
        x + "\nupstream "@ + u + " {\n    server "@ + y == x.push('\n') + (("upstream "@ + u
            + " {"@).push('\n') + ("    server "@ + y)),
{
    reveal_strlit("\nupstream ");
    reveal_strlit("upstream ");
    reveal_strlit(" {\n    server ");
    reveal_strlit(" {");
    reveal_strlit("    server ");
    assert(x + "\nupstream "@ + u + " {\n    server "@ + y =~= x.push('\n') + (("upstream "@ + u
        + " {"@).push('\n') + ("    server "@ + y)));
}

proof fn lemma_line(x: Seq<char>, y: Seq<char>, z: Seq<char>)
    ensures
        x + (y.push('\n') + z) == (x + y).push('\n') + z,
{
    assert(x + (y.push('\n') + z) =~= (x + y).push('\n') + z);
}

/// The text of a fragment in its three parts.
proof fn lemma_parts(f: Fragment)
    ensures
        ({
            let carried = if f.udp {
                " udp reuseport"@
            } else {
                ""@
            };
            let listener = socket(f.stable) + carried;
            let end = listener + ";\n    proxy_pass "@ + f.upstream + ";\n}\n"@;
            let middle = socket(f.candidate) + ";\n}\nserver {\n    listen "@ + end;
            fragment_text(f) == "# Idunn Expected "@ + f.expected_sha256 + "\nupstream "@
                + f.upstream + " {\n    server "@ + middle
        }),
{
    let carried = if f.udp {
        " udp reuseport"@
    } else {
        ""@
    };
    let listener = socket(f.stable) + carried;
    let a = ";\n    proxy_pass "@;
    let z = ";\n}\n"@;
    let m = ";\n}\nserver {\n    listen "@;
    let end = listener + a + f.upstream + z;
    let h = "# Idunn Expected "@ + f.expected_sha256 + "\nupstream "@ + f.upstream
        + " {\n    server "@;
    let c = decimal(f.candidate.1 as nat);
    let s = decimal(f.stable.1 as nat);
    lemma_gather(h, f.candidate.0, ":"@, c);
    let hc = h + socket(f.candidate);
    let hm = hc + m;
    lemma_gather(hm, f.stable.0, ":"@, s);
    lemma_shift(hm, socket(f.stable), carried);
    assert(fragment_text(f) == hm + listener + a + f.upstream + z);
    lemma_gather(hm + listener, a, f.upstream, z);
    lemma_shift(hm, listener, a + f.upstream + z);
    lemma_gather(listener, a, f.upstream, z);
    assert(fragment_text(f) == hm + end);
    lemma_shift(hc, m, end);
    lemma_shift(h, socket(f.candidate), m + end);
    lemma_shift(socket(f.candidate), m, end);
}

proof fn lemma_pieces(f: Fragment)
    ensures
        fragment_text(f) == on_lines(pieces(f)),
{
    let p = pieces(f);
    let carried = if f.udp {
        " udp reuseport"@
    } else {
        ""@
    };
    let listener = socket(f.stable) + carried;
    let end = listener + ";\n    proxy_pass "@ + f.upstream + ";\n}\n"@;
    let middle = socket(f.candidate) + ";\n}\nserver {\n    listen "@ + end;
    let t8 = p[8];
    let t7 = p[7].push('\n') + t8;
    let t6 = p[6].push('\n') + t7;
    let t5 = p[5].push('\n') + t6;
    let t4 = p[4].push('\n') + t5;
    let t3 = p[3].push('\n') + t4;
    let t2 = p[2].push('\n') + t3;
    let t1 = p[1].push('\n') + t2;
    let t0 = p[0].push('\n') + t1;
    lemma_end(f.upstream, listener);
    assert(end == (listener + ";"@).push('\n') + t6);
    lemma_line("    listen "@, listener + ";"@, t6);
    lemma_shift("    listen "@, listener, ";"@);
    assert("    listen "@ + end == t5);
    lemma_middle(socket(f.candidate), end);
    assert(middle == (socket(f.candidate) + ";"@).push('\n') + t3);
    lemma_line("    server "@, socket(f.candidate) + ";"@, t3);
    lemma_shift("    server "@, socket(f.candidate), ";"@);
    assert("    server "@ + middle == t2);
    lemma_beginning("# Idunn Expected "@ + f.expected_sha256, f.upstream, middle);
    lemma_parts(f);
    assert(fragment_text(f) == t0);
    assert(p.skip(1).skip(1) =~= p.skip(2));
    assert(p.skip(2).skip(1) =~= p.skip(3));
    assert(p.skip(3).skip(1) =~= p.skip(4));
    assert(p.skip(4).skip(1) =~= p.skip(5));
    assert(p.skip(5).skip(1) =~= p.skip(6));
    assert(p.skip(6).skip(1) =~= p.skip(7));
    assert(p.skip(7).skip(1) =~= p.skip(8));
    assert(on_lines(p.skip(8)) == t8);
    assert(on_lines(p.skip(7)) == t7);
    assert(on_lines(p.skip(6)) == t6);
    assert(on_lines(p.skip(5)) == t5);
    assert(on_lines(p.skip(4)) == t4);
    assert(on_lines(p.skip(3)) == t3);
    assert(on_lines(p.skip(2)) == t2);
    assert(on_lines(p.skip(1)) == t1);
    assert(on_lines(p) == t0);
}

proof fn lemma_given_one(before: Seq<char>, value: Seq<char>, after: Seq<char>)
    ensures
        ({
            let line = before + value + after;
            &&& before.len() + after.len() <= line.len()
            &&& starts(line, before)
            &&& ends(line, after)
            &&& line.subrange(before.len() as int, line.len() - after.len()) == value
        }),
{
    let line = before + value + after;
    assert(line.take(before.len() as int) =~= before);
    assert(line.skip(line.len() - after.len()) =~= after);
    assert(line.subrange(before.len() as int, line.len() - after.len()) =~= value);
}

proof fn lemma_not_started(line: Seq<char>, before: Seq<char>, i: int)
    requires
        0 <= i < before.len(),
        i < line.len() ==> line[i] != before[i],
    ensures
        !starts(line, before),
{
    if starts(line, before) {
        assert(line.take(before.len() as int)[i] == line[i]);
    }
}

/// One line of several is given for its beginning.
proof fn lemma_given_at(
    lines: Seq<Seq<char>>,
    before: Seq<char>,
    value: Seq<char>,
    after: Seq<char>,
    k: int,
    n: int,
)
    requires
        0 <= k < lines.len(),
        lines[k] == before + value + after,
        forall|i: int| 0 <= i < lines.len() && i != k ==> !starts(#[trigger] lines[i], before),
        0 <= n <= lines.len(),
    ensures
        given(lines.take(n), before, after) == (if n <= k {
            Seq::<Seq<char>>::empty()
        } else {
            seq![value]
        }),
    decreases n,
{
    lemma_given_one(before, value, after);
    if n > 0 {
        lemma_given_at(lines, before, value, after, k, n - 1);
        assert(lines.take(n).drop_last() =~= lines.take(n - 1));
        assert(lines.take(n).last() == lines[n - 1]);
        assert(Seq::<Seq<char>>::empty().push(value) =~= seq![value]);
    }
}

/// What is read back of the fragment of an expected route, line by line: it is of the
/// expectation; its one upstream has the candidate as its one server; its one listener is the
/// stable endpoint; and what the listener passes on goes to that same upstream, whose name is
/// of letters, digits and underscores alone.
pub proof fn a_fragment_forwards_to_its_own_candidate(
    binding: RouteBinding,
    expected: IdunnExpectedIncarnationRecordView,
)
    requires
        membership_of(binding, expected) is Ok,
        !expected.canonical_sha256.contains('\n'),
    ensures
        ({
            let lines = fragment_lines(binding, expected);
            let route = expected.route->0;
            let scheme = route.transport + "://"@;
            let upstream = given(lines, "upstream "@, " {"@);
            &&& upstream.len() == 1
            &&& upstream[0].len() > 0
            &&& forall|i: int|
                0 <= i < upstream[0].len() ==> alphanumeric(#[trigger] upstream[0][i])
                    || upstream[0][i] == '_'
            &&& given(lines, "    proxy_pass "@, ";"@) == upstream
            &&& host_port(route.candidate_endpoint, scheme) is Ok
            &&& given(lines, "    server "@, ";"@) == seq![
                socket(host_port(route.candidate_endpoint, scheme)->Ok_0),
            ]
            &&& host_port(route.stable_endpoint, scheme) is Ok
            &&& given(lines, "    listen "@, ";"@) == seq![
                socket(host_port(route.stable_endpoint, scheme)->Ok_0) + (
                if binding.driver is NginxStreamUdp {
                    " udp reuseport"@
                } else {
                    ""@
                }),
            ]
            &&& given(lines, "# Idunn Expected "@, ""@) == seq![expected.canonical_sha256]
            &&& route.stable_endpoint == binding.stable_endpoint@
            &&& host_port(route.candidate_endpoint, scheme)->Ok_0.0 == binding.private_host@
            &&& binding.private_port_start <= host_port(route.candidate_endpoint, scheme)->Ok_0.1
                <= binding.private_port_end
        }),
{
    let f = fragment_of(binding, expected)->Ok_0;
    let route = expected.route->0;
    let scheme = scheme_of(binding.driver, route.transport)->0;
    assert(scheme == route.transport + "://"@) by {
        reveal_strlit("://");
        reveal_strlit("http");
        reveal_strlit("http://");
        reveal_strlit("tcp");
        reveal_strlit("tcp://");
        reveal_strlit("rudp");
        reveal_strlit("rudp://");
        assert("http"@ + "://"@ =~= "http://"@);
        assert("tcp"@ + "://"@ =~= "tcp://"@);
        assert("rudp"@ + "://"@ =~= "rudp://"@);
    }
    lemma_pieces(f);
    let p = pieces(f);
    let text = fragment_text(f);
    vstd::utf8::encode_utf8_decode_utf8(text);
    lemma_socket_plain(route.candidate_endpoint, scheme);
    lemma_socket_plain(route.stable_endpoint, scheme);
    reveal_strlit("idunn_");
    assert forall|i: int| 0 <= i < f.upstream.len() implies alphanumeric(#[trigger] f.upstream[i])
        || f.upstream[i] == '_' by {
        if i < 6 {
            assert(f.upstream[i] == "idunn_"@[i]);
        } else {
            let c = binding.route_id@[i - 6];
            assert(f.upstream[i] == if identifier_char(c) {
                c
            } else {
                '_'
            });
        }
    }
    assert(!f.upstream.contains('\n'));
    reveal_strlit("# Idunn Expected ");
    reveal_strlit("upstream ");
    reveal_strlit(" {");
    reveal_strlit("    server ");
    reveal_strlit(";");
    reveal_strlit("}");
    reveal_strlit("server {");
    reveal_strlit("    listen ");
    reveal_strlit("    proxy_pass ");
    reveal_strlit("");
    reveal_strlit(" udp reuseport");
    let carried = if f.udp {
        " udp reuseport"@
    } else {
        ""@
    };
    lemma_joined_plain("# Idunn Expected "@, f.expected_sha256);
    lemma_joined_plain("upstream "@, f.upstream);
    lemma_joined_plain("upstream "@ + f.upstream, " {"@);
    lemma_joined_plain("    server "@, socket(f.candidate));
    lemma_joined_plain("    server "@ + socket(f.candidate), ";"@);
    lemma_joined_plain(socket(f.stable), carried);
    lemma_joined_plain("    listen "@, socket(f.stable) + carried);
    lemma_joined_plain("    listen "@ + (socket(f.stable) + carried), ";"@);
    lemma_joined_plain("    proxy_pass "@, f.upstream);
    lemma_joined_plain("    proxy_pass "@ + f.upstream, ";"@);
    lemma_on_lines(p);
    assert(p.take(9) =~= p);
    assert(p[0][0] == '#');
    assert(p[1][0] == 'u');
    assert(p[2][0] == ' ' && p[2][4] == 's');
    assert(p[3][0] == '}');
    assert(p[4][0] == 's');
    assert(p[5][0] == ' ' && p[5][4] == 'l');
    assert(p[6][0] == ' ' && p[6][4] == 'p');
    assert(p[7][0] == '}');
    assert(p[8].len() == 0);
    assert forall|i: int| 0 <= i < p.len() && i != 0 implies !starts(
        #[trigger] p[i],
        "# Idunn Expected "@,
    ) by {
        lemma_not_started(p[i], "# Idunn Expected "@, 0);
    }
    assert forall|i: int| 0 <= i < p.len() && i != 1 implies !starts(
        #[trigger] p[i],
        "upstream "@,
    ) by {
        lemma_not_started(p[i], "upstream "@, 0);
    }
    assert forall|i: int| 0 <= i < p.len() && i != 2 implies !starts(
        #[trigger] p[i],
        "    server "@,
    ) by {
        lemma_not_started(p[i], "    server "@, if i == 5 || i == 6 {
            4
        } else {
            0
        });
    }
    assert forall|i: int| 0 <= i < p.len() && i != 5 implies !starts(
        #[trigger] p[i],
        "    listen "@,
    ) by {
        lemma_not_started(p[i], "    listen "@, if i == 2 || i == 6 {
            4
        } else {
            0
        });
    }
    assert forall|i: int| 0 <= i < p.len() && i != 6 implies !starts(
        #[trigger] p[i],
        "    proxy_pass "@,
    ) by {
        lemma_not_started(p[i], "    proxy_pass "@, if i == 2 || i == 5 {
            4
        } else {
            0
        });
    }
    assert(p[0] =~= "# Idunn Expected "@ + f.expected_sha256 + ""@);
    lemma_given_at(p, "# Idunn Expected "@, f.expected_sha256, ""@, 0, 9);
    lemma_given_at(p, "upstream "@, f.upstream, " {"@, 1, 9);
    lemma_given_at(p, "    server "@, socket(f.candidate), ";"@, 2, 9);
    lemma_given_at(p, "    listen "@, socket(f.stable) + carried, ";"@, 5, 9);
    lemma_given_at(p, "    proxy_pass "@, f.upstream, ";"@, 6, 9);
}

/// Candidates of one route are told apart by what is configured for them: the same bytes are
/// rendered for two expectations only where these have the same digest and their candidates
/// the same host and port.
pub proof fn two_candidates_are_forwarded_to_their_own_endpoints(
    binding: RouteBinding,
    one: IdunnExpectedIncarnationRecordView,
    two: IdunnExpectedIncarnationRecordView,
)
    requires
        membership_of(binding, one) is Ok,
        membership_of(binding, two) is Ok,
        !one.canonical_sha256.contains('\n'),
        !two.canonical_sha256.contains('\n'),
    ensures
        ({
            let candidate = host_port(
                one.route->0.candidate_endpoint,
                one.route->0.transport + "://"@,
            );
            let other = host_port(
                two.route->0.candidate_endpoint,
                two.route->0.transport + "://"@,
            );
            &&& candidate is Ok
            &&& other is Ok
            &&& candidate->Ok_0 != other->Ok_0 ==> given(
                fragment_lines(binding, one),
                "    server "@,
                ";"@,
            ) != given(fragment_lines(binding, two), "    server "@, ";"@)
            &&& membership_of(binding, one) == membership_of(binding, two)
                ==> one.canonical_sha256 == two.canonical_sha256 && candidate == other
        }),
{
    a_fragment_forwards_to_its_own_candidate(binding, one);
    a_fragment_forwards_to_its_own_candidate(binding, two);
    let a = host_port(one.route->0.candidate_endpoint, one.route->0.transport + "://"@)->Ok_0;
    let b = host_port(two.route->0.candidate_endpoint, two.route->0.transport + "://"@)->Ok_0;
    let n = binding.private_host@.len() as int;
    reveal_strlit(":");
    if given(fragment_lines(binding, one), "    server "@, ";"@) == given(
        fragment_lines(binding, two),
        "    server "@,
        ";"@,
    ) {
        assert(seq![socket(a)][0] == seq![socket(b)][0]);
        assert(socket(a).skip(n + 1) =~= decimal(a.1 as nat));
        assert(socket(b).skip(n + 1) =~= decimal(b.1 as nat));
        lemma_decimal(a.1 as nat);
        lemma_decimal(b.1 as nat);
    }
    if membership_of(binding, one) == membership_of(binding, two) {
        assert(seq![one.canonical_sha256][0] == seq![two.canonical_sha256][0]);
    }
}

/// An endpoint is read back as the host and the port that it was written of.
pub proof fn an_endpoint_is_read_back(scheme: Seq<char>, host: Seq<char>, port: u16)
    requires
        host.len() > 0,
        forall|i: int| 0 <= i < host.len() ==> host_char(#[trigger] host[i]),
        port > 0,
    ensures
        host_port(scheme + socket((host, port)), scheme) == Ok::<(Seq<char>, u16), Seq<char>>(
            (host, port),
        ),
{
    let authority = socket((host, port));
    let endpoint = scheme + authority;
    let digits = decimal(port as nat);
    lemma_decimal(port as nat);
    reveal_strlit(":");
    assert(endpoint.skip(scheme.len() as int) =~= authority);
    assert(endpoint.take(scheme.len() as int) =~= scheme);
    assert forall|i: int| 0 <= i < authority.len() implies host_char(#[trigger] authority[i])
        || authority[i] == ':' by {
        if i < host.len() {
            assert(authority[i] == host[i]);
        } else if i > host.len() {
            assert(authority[i] == digits[i - host.len() - 1]);
            assert(digit(digits[i - host.len() - 1]));
        }
    }
    assert(stands_last(authority, ':', host.len() as int)) by {
        assert forall|j: int| host.len() < j < authority.len() implies authority[j] != ':' by {
            assert(authority[j] == digits[j - host.len() - 1]);
            assert(digit(digits[j - host.len() - 1]));
        }
    }
    lemma_cut_last(authority, ':', host.len() as int);
    assert(authority.take(host.len() as int) =~= host);
    assert(authority.skip(host.len() as int + 1) =~= digits);
    assert(unsigned_digits(digits) == digits) by {
        assert(digit(digits[0]));
    }
    assert(all_of(digits, |c: char| digit(c)));
    assert(all_of(host, |c: char| host_char(c)));
}

/// A candidate is rehearsed over its own configuration alone: what is bound over it is what was
/// given, at paths that the line cannot run together, in mounts of its own; and no two pairs of
/// paths are bound by the same line.
pub proof fn a_candidate_is_rehearsed_over_its_own_configuration(
    unit: Seq<char>,
    source: Seq<char>,
    destination: Seq<char>,
    other_source: Seq<char>,
    other_destination: Seq<char>,
    nginx: Seq<char>,
)
    ensures
        bind_property(source, destination) is Ok <==> {
            &&& absolute(source) && absolute(destination)
            &&& forall|i: int|
                0 <= i < source.len() ==> #[trigger] source[i] != ':' && source[i] != '\n'
                    && source[i] != '\r' && source[i] != '\0'
            &&& forall|i: int|
                0 <= i < destination.len() ==> #[trigger] destination[i] != ':' && destination[i]
                    != '\n' && destination[i] != '\r' && destination[i] != '\0'
        },
        bind_property(source, destination) matches Ok(bind) ==> {
            let arguments = rehearsal_arguments(unit, bind, nginx);
            &&& bind == "--property=BindReadOnlyPaths="@ + source + ":"@ + destination
            &&& bind_property(other_source, other_destination) == Ok::<Seq<char>, Seq<char>>(bind)
                ==> other_source == source && other_destination == destination
            &&& arguments.take(7).contains(bind)
            &&& arguments.take(7).contains("--unit="@ + unit)
            &&& arguments.take(7).contains("--property=PrivateMounts=yes"@)
            &&& arguments.take(7).contains("--wait"@)
            &&& arguments.take(7).contains("--collect"@)
            &&& arguments.take(7).contains("--property=Type=exec"@)
            &&& arguments.skip(7) == seq!["--"@, nginx, "-t"@]
        },
{
    lemma_bindable(source);
    lemma_bindable(destination);
    if let Ok(bind) = bind_property(source, destination) {
        let arguments = rehearsal_arguments(unit, bind, nginx);
        let options = arguments.take(7);
        assert(options[1] == "--collect"@ && options[4] == "--property=Type=exec"@);
        assert(options[0] == "--wait"@ && options[3] == "--unit="@ + unit && options[5]
            == "--property=PrivateMounts=yes"@ && options[6] == bind);
        assert(arguments.skip(7) =~= seq!["--"@, nginx, "-t"@]);
        if bind_property(other_source, other_destination) == Ok::<Seq<char>, Seq<char>>(bind) {
            reveal_strlit(":");
            let n = "--property=BindReadOnlyPaths="@.len() as int;
            let a = source.len() as int;
            let b = other_source.len() as int;
            assert(bind[n + a] == ':');
            assert(bind[n + b] == ':');
            if a < b {
                assert(other_source[a] == bind[n + a]);
                assert(other_source.contains(':'));
            } else if b < a {
                assert(source[b] == bind[n + b]);
                assert(source.contains(':'));
            }
            assert(bind.subrange(n, n + a) =~= source);
            assert(bind.subrange(n, n + a) =~= other_source);
            assert(bind.skip(n + a + 1) =~= destination);
            assert(bind.skip(n + a + 1) =~= other_destination);
        }
    }
}

proof fn lemma_bindable(path: Seq<char>)
    ensures
        bindable(path) <==> forall|i: int|
            0 <= i < path.len() ==> #[trigger] path[i] != ':' && path[i] != '\n' && path[i] != '\r'
                && path[i] != '\0',
{
    if bindable(path) {
        assert forall|i: int| 0 <= i < path.len() implies #[trigger] path[i] != ':' && path[i]
            != '\n' && path[i] != '\r' && path[i] != '\0' by {
            assert(path.contains(path[i]));
        }
    }
}

/// A challenge is put to the host and the port that its endpoint names, over the transport that
/// was expected, and over no other.
pub proof fn a_challenge_is_put_where_its_endpoint_is(
    route: ExpectedRouteView,
    message_id: Seq<char>,
    host: Seq<char>,
    port: u16,
)
    requires
        driver_id_refusal(message_id, "route challenge message"@) is None,
        host.len() > 0,
        forall|i: int| 0 <= i < host.len() ==> host_char(#[trigger] host[i]),
        port > 0,
    ensures
        route.transport == "http"@ || route.transport == "tcp"@ || route.transport == "rudp"@
            ==> challenge_at(route, message_id, route.transport + "://"@ + socket((host, port)))
            == Ok::<(Seq<char>, u16), Seq<char>>((host, port)),
        route.transport != "http"@ && route.transport != "tcp"@ && route.transport != "rudp"@
            ==> challenge_at(route, message_id, route.transport + "://"@ + socket((host, port)))
            is Err,
{
    reveal_strlit("http");
    reveal_strlit("tcp");
    reveal_strlit("rudp");
    reveal_strlit("://");
    reveal_strlit("http://");
    reveal_strlit("tcp://");
    reveal_strlit("rudp://");
    let scheme = route.transport + "://"@;
    an_endpoint_is_read_back(scheme, host, port);
    assert("http"@ + "://"@ =~= "http://"@);
    assert("tcp"@ + "://"@ =~= "tcp://"@);
    assert("rudp"@ + "://"@ =~= "rudp://"@);
}

/// What was admitted before is taken exactly where its instance and its membership have names of
/// digests and its configuration is the one that its membership names; and a candidate is valid
/// only where nothing of its rehearsal is left.
pub proof fn an_incumbent_is_the_one_that_its_membership_names(
    runtime: Seq<char>,
    membership: Seq<char>,
    configuration: Seq<u8>,
    validation: Result<(), Refusal>,
    deletion: Result<(), Refusal>,
)
    ensures
        incumbent_refusal(runtime, membership, configuration) is None <==> {
            &&& sha256_id_refusal(runtime, ""@) is None
            &&& sha256_id_refusal(membership, ""@) is None
            &&& configuration.len() > 0
            &&& membership == digest_id(configuration)
        },
        validated(validation, deletion) is None <==> validation is Ok && deletion is Ok,
{
}

/// A candidate is installed, and rolled back, only on a rehearsal of the same route, of the same
/// instance and of the very membership that is rendered of it.
pub proof fn a_membership_is_changed_on_its_own_rehearsal(
    binding: RouteBinding,
    expected: IdunnExpectedIncarnationRecordView,
    runtime_instance_id: Seq<char>,
    receipt: RoutePreflightReceipt,
    reading: Result<Option<Vec<u8>>, Refusal>,
)
    requires
        installation_refusal(binding, expected, runtime_instance_id, receipt, reading) is None
            || rollback_refusal(binding, expected, runtime_instance_id, receipt, reading) is None,
    ensures
        receipt.route_id@ == binding.route_id@,
        receipt.candidate_runtime_instance_id@ == runtime_instance_id,
        membership_of(binding, expected) matches Ok(rendered)
            && receipt.candidate_membership_sha256@ == digest_id(rendered),
{
}

/// A route's endpoint is let in at its own address and port, over the protocol that its driver
/// forwards, and is withdrawn by the rule that let it in.
pub proof fn an_endpoint_is_let_in_over_its_own_protocol(
    binding: RouteBinding,
    host: Seq<char>,
    port: u16,
)
    ensures
        opening(binding, host, port).take(8) == seq![
            "allow"@,
            "in"@,
            "to"@,
            host,
            "port"@,
            decimal(port as nat),
            "proto"@,
            if binding.driver is NginxStreamTcp {
                "tcp"@
            } else {
                "udp"@
            },
        ],
        closing(binding, host, port) == seq!["delete"@] + opening(binding, host, port).take(8),
{
    let opened = opening(binding, host, port);
    assert(opened.take(8) =~= seq![
        "allow"@,
        "in"@,
        "to"@,
        host,
        "port"@,
        decimal(port as nat),
        "proto"@,
        if binding.driver is NginxStreamTcp {
            "tcp"@
        } else {
            "udp"@
        },
    ]);
    assert(closing(binding, host, port) =~= seq!["delete"@] + opened.take(8));
}

} // verus!

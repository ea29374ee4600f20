//! The external text representation of the status snapshot.
//!
//! The consumer of the snapshot depends on this exact shape: field names
//! verbatim and case-sensitive, `states` omitted entirely when absent, every
//! other optional field serialized as an explicit `null` when absent. The
//! format is defined by the `ser_*` spec functions; the executable writer
//! produces exactly that text and the reader accepts exactly it.

use vstd::prelude::*;

use crate::status::GuestProxyAgentAggregateStatus;
use crate::status::ModuleState;
use crate::status::OverallState;
use crate::status::ProxyAgentDetailStatus;
use crate::status::ProxyAgentStatus;
use crate::status::ProxyConnectionSummary;

verus! {

// ---------------------------------------------------------------------------
// Ghost images of the records: every text field reduced to its contents.
// Two records are equal field for field exactly when their images are equal.
// ---------------------------------------------------------------------------

/// Ghost image of a `ProxyAgentDetailStatus`.
pub struct DetailR {
    pub status: ModuleState,
    pub message: Seq<char>,
    pub states: Option<Seq<(Seq<char>, Seq<char>)>>,
}

/// Ghost image of a `ProxyAgentStatus`.
pub struct AgentR {
    pub version: Seq<char>,
    pub status: OverallState,
    pub monitor: DetailR,
    pub key_latch: DetailR,
    pub ebpf_program: DetailR,
    pub proxy_listener: DetailR,
    pub telemetry_logger: DetailR,
    pub connections_count: u128,
}

/// Ghost image of a `ProxyConnectionSummary`.
pub struct SummaryR {
    pub user_name: Seq<char>,
    pub ip: Seq<char>,
    pub port: u16,
    pub process_cmd_line: Seq<char>,
    pub response_status: Seq<char>,
    pub count: u64,
    pub user_groups: Option<Seq<Seq<char>>>,
    pub process_full_path: Option<Seq<char>>,
}

/// Ghost image of a `GuestProxyAgentAggregateStatus`.
pub struct AggR {
    pub timestamp: Seq<char>,
    pub agent: AgentR,
    pub connections: Seq<SummaryR>,
    pub failed_auth: Seq<SummaryR>,
}

pub open spec fn pair_r(p: (String, String)) -> (Seq<char>, Seq<char>) {
    (p.0@, p.1@)
}

pub open spec fn detail_r(d: ProxyAgentDetailStatus) -> DetailR {
    DetailR {
        status: d.status,
        message: d.message@,
        states: match d.states {
            Option::Some(pairs) => Option::Some(pairs@.map_values(|p: (String, String)| pair_r(p))),
            Option::None => Option::None,
        },
    }
}

pub open spec fn agent_r(a: ProxyAgentStatus) -> AgentR {
    AgentR {
        version: a.version@,
        status: a.status,
        monitor: detail_r(a.monitorStatus),
        key_latch: detail_r(a.keyLatchStatus),
        ebpf_program: detail_r(a.ebpfProgramStatus),
        proxy_listener: detail_r(a.proxyListenerStatus),
        telemetry_logger: detail_r(a.telemetryLoggerStatus),
        connections_count: a.proxyConnectionsCount,
    }
}

pub open spec fn summary_r(s: ProxyConnectionSummary) -> SummaryR {
    SummaryR {
        user_name: s.userName@,
        ip: s.ip@,
        port: s.port,
        process_cmd_line: s.processCmdLine@,
        response_status: s.responseStatus@,
        count: s.count,
        user_groups: match s.userGroups {
            Option::Some(groups) => Option::Some(groups@.map_values(|g: String| g@)),
            Option::None => Option::None,
        },
        process_full_path: match s.processFullPath {
            Option::Some(path) => Option::Some(path@),
            Option::None => Option::None,
        },
    }
}

pub open spec fn agg_r(v: GuestProxyAgentAggregateStatus) -> AggR {
    AggR {
        timestamp: v.timestamp@,
        agent: agent_r(v.proxyAgentStatus),
        connections: v.proxyConnectionSummary@.map_values(
            |s: ProxyConnectionSummary| summary_r(s),
        ),
        failed_auth: v.failedAuthenticateSummary@.map_values(
            |s: ProxyConnectionSummary| summary_r(s),
        ),
    }
}

// ---------------------------------------------------------------------------
// The format, leaf to root.
// ---------------------------------------------------------------------------

/// The hexadecimal digit for one value below 16, lower case.
pub open spec fn hex_digit(d: int) -> char {
    if d == 0 {
        '0'
    } else if d == 1 {
        '1'
    } else if d == 2 {
        '2'
    } else if d == 3 {
        '3'
    } else if d == 4 {
        '4'
    } else if d == 5 {
        '5'
    } else if d == 6 {
        '6'
    } else if d == 7 {
        '7'
    } else if d == 8 {
        '8'
    } else if d == 9 {
        '9'
    } else if d == 10 {
        'a'
    } else if d == 11 {
        'b'
    } else if d == 12 {
        'c'
    } else if d == 13 {
        'd'
    } else if d == 14 {
        'e'
    } else {
        'f'
    }
}

/// How one character appears inside a quoted string: quote and backslash get
/// a backslash escape, control characters a `\u00XX` escape, the rest stand
/// as themselves.
pub open spec fn escape_char(c: char) -> Seq<char> {
    if c == '"' {
        seq!['\\', '"']
    } else if c == '\\' {
        seq!['\\', '\\']
    } else if (c as u32) < 32 {
        seq!['\\', 'u', '0', '0', hex_digit((c as u32) as int / 16), hex_digit((c as u32) as int % 16)]
    } else {
        seq![c]
    }
}

pub open spec fn escape(s: Seq<char>) -> Seq<char>
    decreases s.len(),
{
    if s.len() == 0 {
        Seq::empty()
    } else {
        escape_char(s[0]) + escape(s.skip(1))
    }
}

/// A quoted string.
pub open spec fn jstr(s: Seq<char>) -> Seq<char> {
    seq!['"'] + escape(s) + seq!['"']
}

/// The decimal digit for one value below 10.
pub open spec fn digit_char(d: int) -> char {
    if d == 0 {
        '0'
    } else if d == 1 {
        '1'
    } else if d == 2 {
        '2'
    } else if d == 3 {
        '3'
    } else if d == 4 {
        '4'
    } else if d == 5 {
        '5'
    } else if d == 6 {
        '6'
    } else if d == 7 {
        '7'
    } else if d == 8 {
        '8'
    } else {
        '9'
    }
}

/// An unsigned integer in decimal, most significant digit first.
pub open spec fn dec(n: nat) -> Seq<char>
    decreases n,
{
    if n < 10 {
        seq![digit_char(n as int)]
    } else {
        dec(n / 10) + seq![digit_char((n % 10) as int)]
    }
}

/// The tail of a comma-separated list: a comma before every part.
pub open spec fn join_rest(parts: Seq<Seq<char>>) -> Seq<char>
    decreases parts.len(),
{
    if parts.len() == 0 {
        Seq::empty()
    } else {
        seq![','] + parts[0] + join_rest(parts.skip(1))
    }
}

/// Parts separated by commas.
pub open spec fn join(parts: Seq<Seq<char>>) -> Seq<char> {
    if parts.len() == 0 {
        Seq::empty()
    } else {
        parts[0] + join_rest(parts.skip(1))
    }
}

pub open spec fn ser_pair(p: (Seq<char>, Seq<char>)) -> Seq<char> {
    jstr(p.0) + seq![':'] + jstr(p.1)
}

/// An object holding string keys and string values, in the held order.
#[verifier::opaque]
pub open spec fn ser_map(pairs: Seq<(Seq<char>, Seq<char>)>) -> Seq<char> {
    seq!['{'] + join(pairs.map_values(|p: (Seq<char>, Seq<char>)| ser_pair(p))) + seq!['}']
}

/// An array of strings.
#[verifier::opaque]
pub open spec fn ser_strlist(items: Seq<Seq<char>>) -> Seq<char> {
    seq!['['] + join(items.map_values(|s: Seq<char>| jstr(s))) + seq![']']
}

/// An absent value is an explicit `null`, never an omitted key.
#[verifier::opaque]
pub open spec fn ser_opt_strlist(o: Option<Seq<Seq<char>>>) -> Seq<char> {
    match o {
        Option::Some(items) => ser_strlist(items),
        Option::None => "null"@,
    }
}

#[verifier::opaque]
pub open spec fn ser_opt_str(o: Option<Seq<char>>) -> Seq<char> {
    match o {
        Option::Some(s) => jstr(s),
        Option::None => "null"@,
    }
}

pub open spec fn ser_mstate(m: ModuleState) -> Seq<char> {
    match m {
        ModuleState::UNKNOWN => "\"UNKNOWN\""@,
        ModuleState::RUNNING => "\"RUNNING\""@,
        ModuleState::STOPPED => "\"STOPPED\""@,
    }
}

pub open spec fn ser_ostate(m: OverallState) -> Seq<char> {
    match m {
        OverallState::SUCCESS => "\"SUCCESS\""@,
        OverallState::ERROR => "\"ERROR\""@,
        OverallState::UNKNOWN => "\"UNKNOWN\""@,
    }
}

/// `states` alone is omitted when absent; the other fields always appear.
#[verifier::opaque]
pub open spec fn ser_detail(d: DetailR) -> Seq<char> {
    "{\"status\":"@ + ser_mstate(d.status) + ",\"message\":"@ + jstr(d.message) + (match d.states {
        Option::Some(pairs) => ",\"states\":"@ + ser_map(pairs),
        Option::None => Seq::<char>::empty(),
    }) + "}"@
}

#[verifier::opaque]
pub open spec fn ser_agent(a: AgentR) -> Seq<char> {
    "{\"version\":"@ + jstr(a.version) + ",\"status\":"@ + ser_ostate(a.status)
        + ",\"monitorStatus\":"@ + ser_detail(a.monitor) + ",\"keyLatchStatus\":"@ + ser_detail(
        a.key_latch,
    ) + ",\"ebpfProgramStatus\":"@ + ser_detail(a.ebpf_program) + ",\"proxyListenerStatus\":"@
        + ser_detail(a.proxy_listener) + ",\"telemetryLoggerStatus\":"@ + ser_detail(
        a.telemetry_logger,
    ) + ",\"proxyConnectionsCount\":"@ + dec(a.connections_count as nat) + "}"@
}

#[verifier::opaque]
pub open spec fn ser_summary(s: SummaryR) -> Seq<char> {
    "{\"userName\":"@ + jstr(s.user_name) + ",\"ip\":"@ + jstr(s.ip) + ",\"port\":"@ + dec(
        s.port as nat,
    ) + ",\"processCmdLine\":"@ + jstr(s.process_cmd_line) + ",\"responseStatus\":"@ + jstr(
        s.response_status,
    ) + ",\"count\":"@ + dec(s.count as nat) + ",\"userGroups\":"@ + ser_opt_strlist(s.user_groups)
        + ",\"processFullPath\":"@ + ser_opt_str(s.process_full_path) + "}"@
}

#[verifier::opaque]
pub open spec fn ser_sumlist(items: Seq<SummaryR>) -> Seq<char> {
    seq!['['] + join(items.map_values(|s: SummaryR| ser_summary(s))) + seq![']']
}

#[verifier::opaque]
pub open spec fn ser_agg(v: AggR) -> Seq<char> {
    "{\"timestamp\":"@ + jstr(v.timestamp) + ",\"proxyAgentStatus\":"@ + ser_agent(v.agent)
        + ",\"proxyConnectionSummary\":"@ + ser_sumlist(v.connections)
        + ",\"failedAuthenticateSummary\":"@ + ser_sumlist(v.failed_auth) + "}"@
}

// ---------------------------------------------------------------------------
// The writer: produces exactly the text the format gives.
// ---------------------------------------------------------------------------

/// Relies on `String::push`: appends exactly the one character.
#[verifier::external_body]
fn push_char(out: &mut String, c: char)
    ensures
        final(out)@ == old(out)@ + seq![c],
{
    out.push(c);
}

proof fn lemma_escape_snoc(s: Seq<char>, c: char)
    ensures
        escape(s.push(c)) == escape(s) + escape_char(c),
    decreases s.len(),
{
    if s.len() == 0 {
        assert(s.push(c)[0] == c);
        assert(s.push(c).skip(1) =~= Seq::<char>::empty());
        assert(escape(s.push(c)) == escape_char(c) + escape(s.push(c).skip(1)));
        assert(escape(s.push(c).skip(1)) =~= Seq::<char>::empty());
        assert(escape(s.push(c)) =~= escape(s) + escape_char(c));
    } else {
        assert(s.push(c).skip(1) =~= s.skip(1).push(c));
        lemma_escape_snoc(s.skip(1), c);
        assert(s.push(c)[0] == s[0]);
        assert(escape(s.push(c)) == escape_char(s[0]) + escape(s.skip(1).push(c)));
        assert(escape_char(s[0]) + (escape(s.skip(1)) + escape_char(c)) =~= (escape_char(s[0])
            + escape(s.skip(1))) + escape_char(c));
    }
}

fn hex_digit_exec(d: u32) -> (c: char)
    requires
        d < 16,
    ensures
        c == hex_digit(d as int),
{
    if d == 0 {
        '0'
    } else if d == 1 {
        '1'
    } else if d == 2 {
        '2'
    } else if d == 3 {
        '3'
    } else if d == 4 {
        '4'
    } else if d == 5 {
        '5'
    } else if d == 6 {
        '6'
    } else if d == 7 {
        '7'
    } else if d == 8 {
        '8'
    } else if d == 9 {
        '9'
    } else if d == 10 {
        'a'
    } else if d == 11 {
        'b'
    } else if d == 12 {
        'c'
    } else if d == 13 {
        'd'
    } else if d == 14 {
        'e'
    } else {
        'f'
    }
}

fn write_escaped(out: &mut String, s: &str)
    ensures
        final(out)@ == old(out)@ + escape(s@),
{
    let n = s.unicode_len();
    let mut i: usize = 0;
    while i < n
        invariant
            n == s@.len(),
            i <= n,
            out@ == old(out)@ + escape(s@.take(i as int)),
        decreases n - i,
    {
        let c = s.get_char(i);
        proof {
            lemma_escape_snoc(s@.take(i as int), c);
            assert(s@.take(i as int).push(c) =~= s@.take(i as int + 1));
        }
        if c == '"' {
            push_char(out, '\\');
            push_char(out, '"');
        } else if c == '\\' {
            push_char(out, '\\');
            push_char(out, '\\');
        } else if (c as u32) < 32 {
            push_char(out, '\\');
            push_char(out, 'u');
            push_char(out, '0');
            push_char(out, '0');
            push_char(out, hex_digit_exec((c as u32) / 16));
            push_char(out, hex_digit_exec((c as u32) % 16));
        } else {
            push_char(out, c);
        }
        proof {
            assert(out@ =~= old(out)@ + escape(s@.take(i as int + 1)));
        }
        i = i + 1;
    }
    proof {
        assert(s@.take(n as int) =~= s@);
    }
}

fn write_jstr(out: &mut String, s: &str)
    ensures
        final(out)@ == old(out)@ + jstr(s@),
{
    push_char(out, '"');
    write_escaped(out, s);
    push_char(out, '"');
    proof {
        assert(out@ =~= old(out)@ + jstr(s@));
    }
}

fn digit_exec(d: u128) -> (c: char)
    requires
        d < 10,
    ensures
        c == digit_char(d as int),
{
    if d == 0 {
        '0'
    } else if d == 1 {
        '1'
    } else if d == 2 {
        '2'
    } else if d == 3 {
        '3'
    } else if d == 4 {
        '4'
    } else if d == 5 {
        '5'
    } else if d == 6 {
        '6'
    } else if d == 7 {
        '7'
    } else if d == 8 {
        '8'
    } else {
        '9'
    }
}

fn write_u128(out: &mut String, n: u128)
    ensures
        final(out)@ == old(out)@ + dec(n as nat),
    decreases n,
{
    if n < 10 {
        push_char(out, digit_exec(n));
    } else {
        write_u128(out, n / 10);
        push_char(out, digit_exec(n % 10));
        proof {
            assert(out@ =~= old(out)@ + dec(n as nat));
        }
    }
}

fn write_mstate(out: &mut String, m: &ModuleState)
    ensures
        final(out)@ == old(out)@ + ser_mstate(*m),
{
    match m {
        ModuleState::UNKNOWN => out.append("\"UNKNOWN\""),
        ModuleState::RUNNING => out.append("\"RUNNING\""),
        ModuleState::STOPPED => out.append("\"STOPPED\""),
    }
}

fn write_ostate(out: &mut String, m: &OverallState)
    ensures
        final(out)@ == old(out)@ + ser_ostate(*m),
{
    match m {
        OverallState::SUCCESS => out.append("\"SUCCESS\""),
        OverallState::ERROR => out.append("\"ERROR\""),
        OverallState::UNKNOWN => out.append("\"UNKNOWN\""),
    }
}

proof fn lemma_join_rest_snoc(parts: Seq<Seq<char>>, x: Seq<char>)
    ensures
        join_rest(parts.push(x)) == join_rest(parts) + seq![','] + x,
    decreases parts.len(),
{
    if parts.len() == 0 {
        assert(parts.push(x)[0] == x);
        assert(parts.push(x).skip(1) =~= Seq::<Seq<char>>::empty());
        assert(join_rest(parts.push(x)) == seq![','] + x + join_rest(parts.push(x).skip(1)));
        assert(join_rest(parts.push(x).skip(1)) =~= Seq::<char>::empty());
        assert(join_rest(parts.push(x)) =~= join_rest(parts) + seq![','] + x);
    } else {
        assert(parts.push(x).skip(1) =~= parts.skip(1).push(x));
        lemma_join_rest_snoc(parts.skip(1), x);
        assert(parts.push(x)[0] == parts[0]);
        assert(join_rest(parts.push(x)) == seq![','] + parts[0] + join_rest(
            parts.skip(1).push(x),
        ));
        assert(seq![','] + parts[0] + ((join_rest(parts.skip(1)) + seq![',']) + x) =~= ((seq![',']
            + parts[0] + join_rest(parts.skip(1))) + seq![',']) + x);
    }
}

proof fn lemma_join_snoc(parts: Seq<Seq<char>>, x: Seq<char>)
    ensures
        parts.len() == 0 ==> join(parts.push(x)) == x,
        parts.len() > 0 ==> join(parts.push(x)) == join(parts) + seq![','] + x,
{
    if parts.len() == 0 {
        assert(parts.push(x).skip(1) =~= Seq::<Seq<char>>::empty());
        assert(join(parts.push(x)) =~= x);
    } else {
        assert(parts.push(x).skip(1) =~= parts.skip(1).push(x));
        lemma_join_rest_snoc(parts.skip(1), x);
        assert(join(parts.push(x)) =~= join(parts) + seq![','] + x);
    }
}

fn write_map(out: &mut String, pairs: &Vec<(String, String)>)
    ensures
        final(out)@ == old(out)@ + ser_map(
            pairs@.map_values(|p: (String, String)| pair_r(p)),
        ),
{
    proof {
        reveal(ser_map);
    }
    let ghost reprs = pairs@.map_values(|p: (String, String)| pair_r(p));
    let ghost parts = reprs.map_values(|p: (Seq<char>, Seq<char>)| ser_pair(p));
    push_char(out, '{');
    let mut i: usize = 0;
    while i < pairs.len()
        invariant
            i <= pairs@.len(),
            reprs == pairs@.map_values(|p: (String, String)| pair_r(p)),
            parts == reprs.map_values(|p: (Seq<char>, Seq<char>)| ser_pair(p)),
            out@ == old(out)@ + seq!['{'] + join(parts.take(i as int)),
        decreases pairs@.len() - i,
    {
        proof {
            lemma_join_snoc(parts.take(i as int), parts[i as int]);
            assert(parts.take(i as int).push(parts[i as int]) =~= parts.take(i as int + 1));
        }
        if i > 0 {
            push_char(out, ',');
        }
        write_jstr(out, pairs[i].0.as_str());
        push_char(out, ':');
        write_jstr(out, pairs[i].1.as_str());
        proof {
            assert(out@ =~= old(out)@ + seq!['{'] + join(parts.take(i as int + 1)));
        }
        i = i + 1;
    }
    push_char(out, '}');
    proof {
        assert(parts.take(pairs@.len() as int) =~= parts);
        assert(out@ =~= old(out)@ + ser_map(reprs));
    }
}

fn write_strlist(out: &mut String, items: &Vec<String>)
    ensures
        final(out)@ == old(out)@ + ser_strlist(items@.map_values(|g: String| g@)),
{
    proof {
        reveal(ser_strlist);
    }
    let ghost reprs = items@.map_values(|g: String| g@);
    let ghost parts = reprs.map_values(|s: Seq<char>| jstr(s));
    push_char(out, '[');
    let mut i: usize = 0;
    while i < items.len()
        invariant
            i <= items@.len(),
            reprs == items@.map_values(|g: String| g@),
            parts == reprs.map_values(|s: Seq<char>| jstr(s)),
            out@ == old(out)@ + seq!['['] + join(parts.take(i as int)),
        decreases items@.len() - i,
    {
        proof {
            lemma_join_snoc(parts.take(i as int), parts[i as int]);
            assert(parts.take(i as int).push(parts[i as int]) =~= parts.take(i as int + 1));
        }
        if i > 0 {
            push_char(out, ',');
        }
        write_jstr(out, items[i].as_str());
        proof {
            assert(out@ =~= old(out)@ + seq!['['] + join(parts.take(i as int + 1)));
        }
        i = i + 1;
    }
    push_char(out, ']');
    proof {
        assert(parts.take(items@.len() as int) =~= parts);
        assert(out@ =~= old(out)@ + ser_strlist(reprs));
    }
}

proof fn seq_assoc(a: Seq<char>, b: Seq<char>, c: Seq<char>)
    ensures
        a + b + c == a + (b + c),
{
    assert(a + b + c =~= a + (b + c));
}

fn write_detail(out: &mut String, d: &ProxyAgentDetailStatus)
    ensures
        final(out)@ == old(out)@ + ser_detail(detail_r(*d)),
{
    proof {
        reveal(ser_detail);
    }
    out.append("{\"status\":");
    write_mstate(out, &d.status);
    out.append(",\"message\":");
    write_jstr(out, d.message.as_str());
    match &d.states {
        Option::Some(pairs) => {
            out.append(",\"states\":");
            write_map(out, pairs);
        },
        Option::None => {},
    }
    out.append("}");
    proof {
        assert(out@ =~= old(out)@ + ser_detail(detail_r(*d)));
    }
}

fn write_agent(out: &mut String, a: &ProxyAgentStatus)
    ensures
        final(out)@ == old(out)@ + ser_agent(agent_r(*a)),
{
    proof {
        reveal(ser_agent);
    }
    let ghost base = out@;
    let ghost mut acc: Seq<char> = Seq::empty();
    out.append("{\"version\":");
    proof {
        acc = "{\"version\":"@;
    }
    write_jstr(out, a.version.as_str());
    proof {
        seq_assoc(base, acc, jstr(a.version@));
        acc = acc + jstr(a.version@);
    }
    out.append(",\"status\":");
    proof {
        seq_assoc(base, acc, ",\"status\":"@);
        acc = acc + ",\"status\":"@;
    }
    write_ostate(out, &a.status);
    proof {
        seq_assoc(base, acc, ser_ostate(a.status));
        acc = acc + ser_ostate(a.status);
    }
    out.append(",\"monitorStatus\":");
    proof {
        seq_assoc(base, acc, ",\"monitorStatus\":"@);
        acc = acc + ",\"monitorStatus\":"@;
    }
    write_detail(out, &a.monitorStatus);
    proof {
        seq_assoc(base, acc, ser_detail(detail_r(a.monitorStatus)));
        acc = acc + ser_detail(detail_r(a.monitorStatus));
    }
    out.append(",\"keyLatchStatus\":");
    proof {
        seq_assoc(base, acc, ",\"keyLatchStatus\":"@);
        acc = acc + ",\"keyLatchStatus\":"@;
    }
    write_detail(out, &a.keyLatchStatus);
    proof {
        seq_assoc(base, acc, ser_detail(detail_r(a.keyLatchStatus)));
        acc = acc + ser_detail(detail_r(a.keyLatchStatus));
    }
    out.append(",\"ebpfProgramStatus\":");
    proof {
        seq_assoc(base, acc, ",\"ebpfProgramStatus\":"@);
        acc = acc + ",\"ebpfProgramStatus\":"@;
    }
    write_detail(out, &a.ebpfProgramStatus);
    proof {
        seq_assoc(base, acc, ser_detail(detail_r(a.ebpfProgramStatus)));
        acc = acc + ser_detail(detail_r(a.ebpfProgramStatus));
    }
    out.append(",\"proxyListenerStatus\":");
    proof {
        seq_assoc(base, acc, ",\"proxyListenerStatus\":"@);
        acc = acc + ",\"proxyListenerStatus\":"@;
    }
    write_detail(out, &a.proxyListenerStatus);
    proof {
        seq_assoc(base, acc, ser_detail(detail_r(a.proxyListenerStatus)));
        acc = acc + ser_detail(detail_r(a.proxyListenerStatus));
    }
    out.append(",\"telemetryLoggerStatus\":");
    proof {
        seq_assoc(base, acc, ",\"telemetryLoggerStatus\":"@);
        acc = acc + ",\"telemetryLoggerStatus\":"@;
    }
    write_detail(out, &a.telemetryLoggerStatus);
    proof {
        seq_assoc(base, acc, ser_detail(detail_r(a.telemetryLoggerStatus)));
        acc = acc + ser_detail(detail_r(a.telemetryLoggerStatus));
    }
    out.append(",\"proxyConnectionsCount\":");
    proof {
        seq_assoc(base, acc, ",\"proxyConnectionsCount\":"@);
        acc = acc + ",\"proxyConnectionsCount\":"@;
    }
    write_u128(out, a.proxyConnectionsCount);
    proof {
        seq_assoc(base, acc, dec(a.proxyConnectionsCount as nat));
        acc = acc + dec(a.proxyConnectionsCount as nat);
    }
    out.append("}");
    proof {
        seq_assoc(base, acc, "}"@);
        acc = acc + "}"@;
        assert(acc == ser_agent(agent_r(*a)));
    }
}

fn write_summary(out: &mut String, s: &ProxyConnectionSummary)
    ensures
        final(out)@ == old(out)@ + ser_summary(summary_r(*s)),
{
    proof {
        reveal(ser_summary);
        reveal(ser_opt_strlist);
        reveal(ser_opt_str);
    }
    let ghost base = out@;
    let ghost mut acc: Seq<char> = Seq::empty();
    out.append("{\"userName\":");
    proof {
        acc = "{\"userName\":"@;
    }
    write_jstr(out, s.userName.as_str());
    proof {
        seq_assoc(base, acc, jstr(s.userName@));
        acc = acc + jstr(s.userName@);
    }
    out.append(",\"ip\":");
    proof {
        seq_assoc(base, acc, ",\"ip\":"@);
        acc = acc + ",\"ip\":"@;
    }
    write_jstr(out, s.ip.as_str());
    proof {
        seq_assoc(base, acc, jstr(s.ip@));
        acc = acc + jstr(s.ip@);
    }
    out.append(",\"port\":");
    proof {
        seq_assoc(base, acc, ",\"port\":"@);
        acc = acc + ",\"port\":"@;
    }
    write_u128(out, s.port as u128);
    proof {
        seq_assoc(base, acc, dec(s.port as nat));
        acc = acc + dec(s.port as nat);
    }
    out.append(",\"processCmdLine\":");
    proof {
        seq_assoc(base, acc, ",\"processCmdLine\":"@);
        acc = acc + ",\"processCmdLine\":"@;
    }
    write_jstr(out, s.processCmdLine.as_str());
    proof {
        seq_assoc(base, acc, jstr(s.processCmdLine@));
        acc = acc + jstr(s.processCmdLine@);
    }
    out.append(",\"responseStatus\":");
    proof {
        seq_assoc(base, acc, ",\"responseStatus\":"@);
        acc = acc + ",\"responseStatus\":"@;
    }
    write_jstr(out, s.responseStatus.as_str());
    proof {
        seq_assoc(base, acc, jstr(s.responseStatus@));
        acc = acc + jstr(s.responseStatus@);
    }
    out.append(",\"count\":");
    proof {
        seq_assoc(base, acc, ",\"count\":"@);
        acc = acc + ",\"count\":"@;
    }
    write_u128(out, s.count as u128);
    proof {
        seq_assoc(base, acc, dec(s.count as nat));
        acc = acc + dec(s.count as nat);
    }
    out.append(",\"userGroups\":");
    proof {
        seq_assoc(base, acc, ",\"userGroups\":"@);
        acc = acc + ",\"userGroups\":"@;
    }
    match &s.userGroups {
        Option::Some(groups) => {
            write_strlist(out, groups);
            proof {
                seq_assoc(base, acc, ser_strlist(groups@.map_values(|g: String| g@)));
                acc = acc + ser_strlist(groups@.map_values(|g: String| g@));
            }
        },
        Option::None => {
            out.append("null");
            proof {
                seq_assoc(base, acc, "null"@);
                acc = acc + "null"@;
            }
        },
    }
    proof {
        assert(acc == "{\"userName\":"@ + jstr(s.userName@) + ",\"ip\":"@ + jstr(s.ip@)
            + ",\"port\":"@ + dec(s.port as nat) + ",\"processCmdLine\":"@ + jstr(
            s.processCmdLine@,
        ) + ",\"responseStatus\":"@ + jstr(s.responseStatus@) + ",\"count\":"@ + dec(s.count as nat)
            + ",\"userGroups\":"@ + ser_opt_strlist(summary_r(*s).user_groups));
    }
    out.append(",\"processFullPath\":");
    proof {
        seq_assoc(base, acc, ",\"processFullPath\":"@);
        acc = acc + ",\"processFullPath\":"@;
    }
    match &s.processFullPath {
        Option::Some(path) => {
            write_jstr(out, path.as_str());
            proof {
                seq_assoc(base, acc, jstr(path@));
                acc = acc + jstr(path@);
            }
        },
        Option::None => {
            out.append("null");
            proof {
                seq_assoc(base, acc, "null"@);
                acc = acc + "null"@;
            }
        },
    }
    out.append("}");
    proof {
        seq_assoc(base, acc, "}"@);
        acc = acc + "}"@;
        assert(acc == ser_summary(summary_r(*s)));
    }
}

fn write_sumlist(out: &mut String, items: &Vec<ProxyConnectionSummary>)
    ensures
        final(out)@ == old(out)@ + ser_sumlist(
            items@.map_values(|s: ProxyConnectionSummary| summary_r(s)),
        ),
{
    proof {
        reveal(ser_sumlist);
    }
    let ghost reprs = items@.map_values(|s: ProxyConnectionSummary| summary_r(s));
    let ghost parts = reprs.map_values(|s: SummaryR| ser_summary(s));
    push_char(out, '[');
    let mut i: usize = 0;
    while i < items.len()
        invariant
            i <= items@.len(),
            reprs == items@.map_values(|s: ProxyConnectionSummary| summary_r(s)),
            parts == reprs.map_values(|s: SummaryR| ser_summary(s)),
            out@ == old(out)@ + seq!['['] + join(parts.take(i as int)),
        decreases items@.len() - i,
    {
        proof {
            lemma_join_snoc(parts.take(i as int), parts[i as int]);
            assert(parts.take(i as int).push(parts[i as int]) =~= parts.take(i as int + 1));
        }
        if i > 0 {
            push_char(out, ',');
        }
        write_summary(out, &items[i]);
        proof {
            assert(out@ =~= old(out)@ + seq!['['] + join(parts.take(i as int + 1)));
        }
        i = i + 1;
    }
    push_char(out, ']');
    proof {
        assert(parts.take(items@.len() as int) =~= parts);
        assert(out@ =~= old(out)@ + ser_sumlist(reprs));
    }
}

/// The snapshot's external text form, exactly as the format gives it.
pub fn to_json(v: &GuestProxyAgentAggregateStatus) -> (r: String)
    ensures
        r@ == ser_agg(agg_r(*v)),
{
    proof {
        reveal(ser_agg);
    }
    let mut out = String::new();
    out.append("{\"timestamp\":");
    write_jstr(&mut out, v.timestamp.as_str());
    out.append(",\"proxyAgentStatus\":");
    write_agent(&mut out, &v.proxyAgentStatus);
    out.append(",\"proxyConnectionSummary\":");
    write_sumlist(&mut out, &v.proxyConnectionSummary);
    out.append(",\"failedAuthenticateSummary\":");
    write_sumlist(&mut out, &v.failedAuthenticateSummary);
    out.append("}");
    proof {
        assert(out@ =~= ser_agg(agg_r(*v)));
    }
    out
}

// ---------------------------------------------------------------------------
// The reader's grammar: scan functions over the remaining input. Each one
// says exactly which texts are accepted and what value and length they carry.
// ---------------------------------------------------------------------------

pub open spec fn is_digit(c: char) -> bool {
    48 <= c as u32 <= 57
}

pub open spec fn digit_val(c: char) -> nat {
    (c as u32 - 48) as nat
}

/// The value of a lower-case hexadecimal digit, or 16 for any other character.
pub open spec fn hex_val(c: char) -> int {
    if is_digit(c) {
        c as u32 - 48
    } else if 97 <= c as u32 <= 102 {
        c as u32 - 87
    } else {
        16
    }
}

/// A fixed literal: consumed whole or not at all.
pub open spec fn scan_lit(t: Seq<char>, lit: Seq<char>) -> Option<nat> {
    if lit.len() <= t.len() && t.take(lit.len() as int) == lit {
        Option::Some(lit.len())
    } else {
        Option::None
    }
}

/// A run of decimal digits, left to right: the value accumulated so far and
/// how many characters were read. Reading stops at the first non-digit.
pub open spec fn scan_digits(t: Seq<char>, acc: nat) -> (nat, nat)
    decreases t.len(),
{
    if t.len() == 0 || !is_digit(t[0]) {
        (acc, 0)
    } else {
        let r = scan_digits(t.skip(1), acc * 10 + digit_val(t[0]));
        (r.0, (r.1 + 1) as nat)
    }
}

/// The inside of a quoted string, after the opening quote: the contents
/// gathered so far and the count of characters consumed, closing quote
/// included. Exactly the writer's escapes are accepted: `\"`, `\\`, and
/// `\u00XX` with lower-case hex below 32; a bare control character is not.
pub open spec fn scan_string(t: Seq<char>, acc: Seq<char>) -> Option<(Seq<char>, nat)>
    decreases t.len(),
{
    if t.len() == 0 {
        Option::None
    } else if t[0] == '"' {
        Option::Some((acc, 1))
    } else if t[0] == '\\' {
        if t.len() >= 2 && t[1] == '"' {
            match scan_string(t.skip(2), acc.push('"')) {
                Option::Some(p) => Option::Some((p.0, (p.1 + 2) as nat)),
                Option::None => Option::None,
            }
        } else if t.len() >= 2 && t[1] == '\\' {
            match scan_string(t.skip(2), acc.push('\\')) {
                Option::Some(p) => Option::Some((p.0, (p.1 + 2) as nat)),
                Option::None => Option::None,
            }
        } else if t.len() >= 6 && t[1] == 'u' && t[2] == '0' && t[3] == '0' && hex_val(t[4]) < 16
            && hex_val(t[5]) < 16 && hex_val(t[4]) * 16 + hex_val(t[5]) < 32 {
            match scan_string(
                t.skip(6),
                acc.push(((hex_val(t[4]) * 16 + hex_val(t[5])) as u32) as char),
            ) {
                Option::Some(p) => Option::Some((p.0, (p.1 + 6) as nat)),
                Option::None => Option::None,
            }
        } else {
            Option::None
        }
    } else if (t[0] as u32) >= 32 {
        match scan_string(t.skip(1), acc.push(t[0])) {
            Option::Some(p) => Option::Some((p.0, (p.1 + 1) as nat)),
            Option::None => Option::None,
        }
    } else {
        Option::None
    }
}

/// A quoted string, opening quote included.
pub open spec fn scan_jstr(t: Seq<char>) -> Option<(Seq<char>, nat)> {
    if t.len() >= 1 && t[0] == '"' {
        match scan_string(t.skip(1), Seq::empty()) {
            Option::Some(p) => Option::Some((p.0, (p.1 + 1) as nat)),
            Option::None => Option::None,
        }
    } else {
        Option::None
    }
}

// ---------------------------------------------------------------------------
// Completeness of the leaf scans: each one, fed a written value followed by
// anything, yields exactly that value and consumes exactly its text.
// ---------------------------------------------------------------------------

proof fn lemma_scan_lit_complete(lit: Seq<char>, rest: Seq<char>)
    ensures
        scan_lit(lit + rest, lit) == Option::Some(lit.len()),
        (lit + rest).skip(lit.len() as int) == rest,
{
    assert((lit + rest).take(lit.len() as int) =~= lit);
    assert((lit + rest).skip(lit.len() as int) =~= rest);
}

proof fn lemma_scan_string_complete(x: Seq<char>, rest: Seq<char>, acc: Seq<char>)
    ensures
        scan_string(escape(x) + seq!['"'] + rest, acc) == Option::Some(
            (acc + x, (escape(x).len() + 1) as nat),
        ),
    decreases x.len(),
{
    let t = escape(x) + seq!['"'] + rest;
    if x.len() == 0 {
        assert(t[0] == '"');
        assert(acc + x =~= acc);
    } else {
        let c = x[0];
        let e = escape_char(c);
        assert(escape(x) == e + escape(x.skip(1)));
        let t2 = escape(x.skip(1)) + seq!['"'] + rest;
        assert(t =~= e + t2);
        lemma_scan_string_complete(x.skip(1), rest, acc.push(c));
        assert(acc.push(c) + x.skip(1) =~= acc + x);
        if c == '"' {
            assert(t[0] == '\\' && t[1] == '"');
            assert(t.skip(2) =~= t2);
        } else if c == '\\' {
            assert(t[0] == '\\' && t[1] == '\\');
            assert(t.skip(2) =~= t2);
        } else if (c as u32) < 32 {
            assert(t[0] == '\\' && t[1] == 'u' && t[2] == '0' && t[3] == '0');
            assert(t[4] == hex_digit((c as u32) as int / 16));
            assert(t[5] == hex_digit((c as u32) as int % 16));
            assert(hex_val(hex_digit((c as u32) as int / 16)) == (c as u32) / 16);
            assert(hex_val(hex_digit((c as u32) as int % 16)) == (c as u32) % 16);
            assert(hex_val(t[4]) * 16 + hex_val(t[5]) == c as u32);
            vstd::utf8::char_u32_cast(c, c as u32);
            assert((((c as u32) as u32) as char) == c);
            assert(t.skip(6) =~= t2);
        } else {
            assert(t[0] == c);
            assert(t[0] != '"' && t[0] != '\\' && (t[0] as u32) >= 32);
            assert(t.skip(1) =~= t2);
        }
    }
}

proof fn lemma_scan_jstr_complete(x: Seq<char>, rest: Seq<char>)
    ensures
        scan_jstr(jstr(x) + rest) == Option::Some((x, jstr(x).len())),
    decreases x.len(),
{
    let t = jstr(x) + rest;
    assert(t[0] == '"');
    assert(t.skip(1) =~= escape(x) + seq!['"'] + rest);
    lemma_scan_string_complete(x, rest, Seq::empty());
    assert(Seq::empty() + x =~= x);
    assert(jstr(x).len() == escape(x).len() + 2);
}

pub open spec fn pow10(k: nat) -> nat
    decreases k,
{
    if k == 0 {
        1
    } else {
        10 * pow10((k - 1) as nat)
    }
}

proof fn lemma_scan_dec(n: nat, rest: Seq<char>, acc: nat)
    ensures
        scan_digits(dec(n) + rest, acc).0 == scan_digits(rest, acc * pow10(dec(n).len()) + n).0,
        scan_digits(dec(n) + rest, acc).1 == scan_digits(rest, acc * pow10(dec(n).len()) + n).1
            + dec(n).len(),
    decreases n,
{
    if n < 10 {
        let t = dec(n) + rest;
        assert(t[0] == digit_char(n as int));
        assert(is_digit(digit_char(n as int)) && digit_val(digit_char(n as int)) == n);
        assert(t.skip(1) =~= rest);
        assert(dec(n).len() == 1);
        assert(pow10(0) == 1);
        assert(pow10(1) == 10);
    } else {
        let k = dec(n / 10).len();
        let d = digit_char((n % 10) as int);
        assert(dec(n) == dec(n / 10) + seq![d]);
        let mid = seq![d] + rest;
        assert(dec(n) + rest =~= dec(n / 10) + mid);
        lemma_scan_dec(n / 10, mid, acc);
        assert(mid[0] == d);
        assert(is_digit(d) && digit_val(d) == n % 10);
        assert(mid.skip(1) =~= rest);
        let a2 = acc * pow10(k) + n / 10;
        assert(scan_digits(mid, a2).0 == scan_digits(rest, a2 * 10 + n % 10).0);
        assert(scan_digits(mid, a2).1 == scan_digits(rest, a2 * 10 + n % 10).1 + 1);
        assert(dec(n).len() == k + 1);
        assert(pow10(k + 1) == 10 * pow10(k));
        assert(a2 * 10 + n % 10 == acc * (10 * pow10(k)) + n) by (nonlinear_arith)
            requires
                a2 == acc * pow10(k) + n / 10,
                n >= 10,
        {
        }
    }
}

proof fn lemma_scan_digits_lower(t: Seq<char>, acc: nat)
    ensures
        scan_digits(t, acc).0 >= acc,
    decreases t.len(),
{
    if t.len() == 0 || !is_digit(t[0]) {
    } else {
        lemma_scan_digits_lower(t.skip(1), acc * 10 + digit_val(t[0]));
    }
}

/// Completeness of the digit scan: a written number followed by anything
/// that is not a digit reads back as itself.
proof fn lemma_scan_dec_complete(n: nat, rest: Seq<char>)
    requires
        rest.len() == 0 || !is_digit(rest[0]),
    ensures
        scan_digits(dec(n) + rest, 0) == (n, dec(n).len()),
{
    lemma_scan_dec(n, rest, 0);
    assert(scan_digits(rest, 0 * pow10(dec(n).len()) + n) == (n, 0nat));
}

// ---------------------------------------------------------------------------
// The executable reader's leaves, each returning exactly what its scan says.
// ---------------------------------------------------------------------------

fn expect_lit(s: &Vec<char>, i: usize, lit: &str) -> (r: Option<usize>)
    requires
        i <= s@.len(),
    ensures
        match r {
            Option::Some(j) => i <= j <= s@.len() && scan_lit(s@.skip(i as int), lit@)
                == Option::Some((j - i) as nat),
            Option::None => scan_lit(s@.skip(i as int), lit@) is None,
        },
{
    let n = lit.unicode_len();
    if n > s.len() - i {
        proof {
            assert(s@.skip(i as int).len() == s@.len() - i);
        }
        return Option::None;
    }
    let end = i + n;
    let mut m: usize = i;
    while m < end
        invariant
            i <= m <= end,
            end == i + n,
            i + n <= s@.len(),
            n == lit@.len(),
            forall|t: int| i <= t < m ==> s@[t] == lit@[t - i],
        decreases end - m,
    {
        if s[m] != lit.get_char(m - i) {
            proof {
                assert(s@.skip(i as int)[m - i] == s@[m as int]);
                assert(s@.skip(i as int).take(n as int)[m - i] != lit@[m - i]);
            }
            return Option::None;
        }
        m = m + 1;
    }
    proof {
        assert(forall|t: int|
            0 <= t < n ==> s@.skip(i as int).take(n as int)[t] == s@[i + t] && s@[i + t]
                == lit@[t]);
        assert(s@.skip(i as int).take(n as int) =~= lit@);
    }
    Option::Some(end)
}

fn parse_u128(s: &Vec<char>, i: usize) -> (r: Option<(u128, usize)>)
    requires
        i <= s@.len(),
    ensures
        match r {
            Option::Some(p) => i < p.1 <= s@.len() && scan_digits(s@.skip(i as int), 0) == (
                p.0 as nat,
                (p.1 - i) as nat,
            ),
            Option::None => scan_digits(s@.skip(i as int), 0).1 == 0 || scan_digits(
                s@.skip(i as int),
                0,
            ).0 > u128::MAX,
        },
{
    let ghost t0 = s@.skip(i as int);
    let mut j: usize = i;
    let mut acc: u128 = 0;
    if j == s.len() {
        proof {
            assert(s@.skip(i as int).len() == 0);
        }
        return Option::None;
    }
    let c0 = s[j];
    if !(48 <= (c0 as u32) && (c0 as u32) <= 57) {
        proof {
            assert(t0[0] == c0);
            assert(!is_digit(c0));
        }
        return Option::None;
    }
    while j < s.len() && 48 <= (s[j] as u32) && (s[j] as u32) <= 57
        invariant
            i <= j <= s@.len(),
            t0 == s@.skip(i as int),
            scan_digits(t0, 0).0 == scan_digits(s@.skip(j as int), acc as nat).0,
            scan_digits(t0, 0).1 == scan_digits(s@.skip(j as int), acc as nat).1 + (j - i),
        decreases s@.len() - j,
    {
        let c = s[j];
        let d = (c as u32 - 48) as u128;
        proof {
            assert(s@.skip(j as int)[0] == c);
            assert(is_digit(c) && digit_val(c) == d as nat);
            assert(s@.skip(j as int).skip(1) =~= s@.skip(j as int + 1));
        }
        if acc > (u128::MAX - d) / 10 {
            proof {
                assert(acc * 10 + d > u128::MAX) by (nonlinear_arith)
                    requires
                        acc > (u128::MAX - d) / 10,
                        d < 10,
                {
                }
                lemma_scan_digits_lower(s@.skip(j as int + 1), acc as nat * 10 + d as nat);
            }
            return Option::None;
        }
        proof {
            assert(acc * 10 + d <= u128::MAX) by (nonlinear_arith)
                requires
                    acc <= (u128::MAX - d) / 10,
                    d < 10,
            {
            }
        }
        acc = acc * 10 + d;
        j = j + 1;
    }
    proof {
        if j < s@.len() {
            assert(s@.skip(j as int)[0] == s@[j as int]);
        }
        assert(scan_digits(s@.skip(j as int), acc as nat) == (acc as nat, 0nat));
    }
    Option::Some((acc, j))
}

fn hex_val_exec(c: char) -> (r: u32)
    ensures
        r == hex_val(c),
{
    let u = c as u32;
    if 48 <= u && u <= 57 {
        u - 48
    } else if 97 <= u && u <= 102 {
        u - 87
    } else {
        16
    }
}

fn parse_jstr(s: &Vec<char>, i: usize) -> (r: Option<(String, usize)>)
    requires
        i <= s@.len(),
    ensures
        match r {
            Option::Some(p) => i < p.1 <= s@.len() && scan_jstr(s@.skip(i as int)) == Option::Some(
                (p.0@, (p.1 - i) as nat),
            ),
            Option::None => scan_jstr(s@.skip(i as int)) is None,
        },
{
    if i == s.len() || s[i] != '"' {
        proof {
            if i < s@.len() {
                assert(s@.skip(i as int)[0] == s@[i as int]);
            }
        }
        return Option::None;
    }
    proof {
        assert(s@.skip(i as int)[0] == '"');
        assert(s@.skip(i as int).skip(1) =~= s@.skip(i as int + 1));
    }
    let ghost t0 = s@.skip(i as int + 1);
    let mut j: usize = i + 1;
    let mut acc = String::new();
    loop
        invariant
            i + 1 <= j <= s@.len(),
            t0 == s@.skip(i as int + 1),
            s@.skip(i as int)[0] == '"',
            s@.skip(i as int).skip(1) == t0,
            (match scan_string(s@.skip(j as int), acc@) {
                Option::Some(p) => scan_string(t0, Seq::empty()) == Option::Some(
                    (p.0, (p.1 + (j - i - 1)) as nat),
                ),
                Option::None => scan_string(t0, Seq::empty()) is None,
            }),
        decreases s@.len() - j,
    {
        if j == s.len() {
            proof {
                assert(s@.skip(j as int).len() == 0);
            }
            return Option::None;
        }
        let c = s[j];
        proof {
            assert(s@.skip(j as int)[0] == c);
        }
        if c == '"' {
            proof {
                assert(scan_string(s@.skip(j as int), acc@) == Option::Some((acc@, 1nat)));
            }
            return Option::Some((acc, j + 1));
        }
        if c == '\\' {
            if s.len() - j < 2 {
                proof {
                    assert(s@.skip(j as int).len() < 2);
                    assert(scan_string(s@.skip(j as int), acc@) is None);
                }
                return Option::None;
            }
            let c2 = s[j + 1];
            proof {
                assert(s@.skip(j as int)[1] == c2);
                assert(s@.skip(j as int).skip(2) =~= s@.skip(j as int + 2));
            }
            if c2 == '"' {
                let ghost a0 = acc@;
                push_char(&mut acc, '"');
                proof {
                    assert(a0.push('"') =~= acc@);
                }
                j = j + 2;
            } else if c2 == '\\' {
                let ghost a0 = acc@;
                push_char(&mut acc, '\\');
                proof {
                    assert(a0.push('\\') =~= acc@);
                }
                j = j + 2;
            } else if c2 == 'u' {
                if s.len() - j < 6 {
                    proof {
                        assert(s@.skip(j as int).len() < 6);
                        assert(scan_string(s@.skip(j as int), acc@) is None);
                    }
                    return Option::None;
                }
                let h1 = hex_val_exec(s[j + 4]);
                let h2 = hex_val_exec(s[j + 5]);
                proof {
                    assert(s@.skip(j as int)[2] == s@[j + 2]);
                    assert(s@.skip(j as int)[3] == s@[j + 3]);
                    assert(s@.skip(j as int)[4] == s@[j + 4]);
                    assert(s@.skip(j as int)[5] == s@[j + 5]);
                    assert(s@.skip(j as int).skip(6) =~= s@.skip(j as int + 6));
                }
                if s[j + 2] != '0' || s[j + 3] != '0' || h1 >= 16 || h2 >= 16 || h1 * 16 + h2
                    >= 32 {
                    return Option::None;
                }
                let ghost a0 = acc@;
                let v = h1 * 16 + h2;
                let e = (v as u8) as char;
                proof {
                    assert(e as u32 == v);
                    vstd::utf8::char_u32_cast(e, v);
                    assert((v as char) == e);
                }
                push_char(&mut acc, e);
                proof {
                    assert(a0.push(e) =~= acc@);
                }
                j = j + 6;
            } else {
                return Option::None;
            }
        } else if (c as u32) >= 32 {
            proof {
                assert(s@.skip(j as int).skip(1) =~= s@.skip(j as int + 1));
            }
            let ghost a0 = acc@;
            push_char(&mut acc, c);
            proof {
                assert(a0.push(c) =~= acc@);
            }
            j = j + 1;
        } else {
            proof {
                assert(scan_string(s@.skip(j as int), acc@) is None);
            }
            return Option::None;
        }
    }
}

// ---------------------------------------------------------------------------
// The grammar above the leaves: one scan per record shape.
// ---------------------------------------------------------------------------

/// A decimal number no larger than `max`.
pub open spec fn scan_uint(t: Seq<char>, max: nat) -> Option<(nat, nat)> {
    let r = scan_digits(t, 0);
    if r.1 >= 1 && r.0 <= max {
        Option::Some(r)
    } else {
        Option::None
    }
}

pub open spec fn scan_mstate(t: Seq<char>) -> Option<(ModuleState, nat)> {
    if scan_lit(t, "\"UNKNOWN\""@) is Some {
        Option::Some((ModuleState::UNKNOWN, "\"UNKNOWN\""@.len()))
    } else if scan_lit(t, "\"RUNNING\""@) is Some {
        Option::Some((ModuleState::RUNNING, "\"RUNNING\""@.len()))
    } else if scan_lit(t, "\"STOPPED\""@) is Some {
        Option::Some((ModuleState::STOPPED, "\"STOPPED\""@.len()))
    } else {
        Option::None
    }
}

pub open spec fn scan_ostate(t: Seq<char>) -> Option<(OverallState, nat)> {
    if scan_lit(t, "\"SUCCESS\""@) is Some {
        Option::Some((OverallState::SUCCESS, "\"SUCCESS\""@.len()))
    } else if scan_lit(t, "\"ERROR\""@) is Some {
        Option::Some((OverallState::ERROR, "\"ERROR\""@.len()))
    } else if scan_lit(t, "\"UNKNOWN\""@) is Some {
        Option::Some((OverallState::UNKNOWN, "\"UNKNOWN\""@.len()))
    } else {
        Option::None
    }
}

/// One `"key":"value"` pair of a states object.
#[verifier::opaque]
pub open spec fn scan_pair(t: Seq<char>) -> Option<((Seq<char>, Seq<char>), nat)> {
    match scan_jstr(t) {
        Option::None => Option::None,
        Option::Some((k, n1)) => if n1 < t.len() && t[n1 as int] == ':' {
            match scan_jstr(t.skip(n1 as int + 1)) {
                Option::None => Option::None,
                Option::Some((v, n2)) => Option::Some((((k, v)), (n1 + 1 + n2) as nat)),
            }
        } else {
            Option::None
        },
    }
}

/// The pairs of a non-empty states object, up to and including the `}`.
#[verifier::opaque]
pub open spec fn scan_pairs(t: Seq<char>, acc: Seq<(Seq<char>, Seq<char>)>) -> Option<
    (Seq<(Seq<char>, Seq<char>)>, nat),
>
    decreases t.len(),
{
    match scan_pair(t) {
        Option::None => Option::None,
        Option::Some((p, n)) => if n < t.len() && t[n as int] == ',' && n >= 1 {
            match scan_pairs(t.skip(n as int + 1), acc.push(p)) {
                Option::None => Option::None,
                Option::Some((ps, m)) => Option::Some((ps, (n + 1 + m) as nat)),
            }
        } else if n < t.len() && t[n as int] == '}' {
            Option::Some((acc.push(p), (n + 1) as nat))
        } else {
            Option::None
        },
    }
}

#[verifier::opaque]
pub open spec fn scan_map(t: Seq<char>) -> Option<(Seq<(Seq<char>, Seq<char>)>, nat)> {
    if t.len() >= 1 && t[0] == '{' {
        if t.len() >= 2 && t[1] == '}' {
            Option::Some((Seq::empty(), 2))
        } else {
            match scan_pairs(t.skip(1), Seq::empty()) {
                Option::None => Option::None,
                Option::Some((ps, m)) => Option::Some((ps, (m + 1) as nat)),
            }
        }
    } else {
        Option::None
    }
}

/// The strings of a non-empty array, up to and including the `]`.
#[verifier::opaque]
pub open spec fn scan_strs(t: Seq<char>, acc: Seq<Seq<char>>) -> Option<(Seq<Seq<char>>, nat)>
    decreases t.len(),
{
    match scan_jstr(t) {
        Option::None => Option::None,
        Option::Some((x, n)) => if n < t.len() && t[n as int] == ',' && n >= 1 {
            match scan_strs(t.skip(n as int + 1), acc.push(x)) {
                Option::None => Option::None,
                Option::Some((xs, m)) => Option::Some((xs, (n + 1 + m) as nat)),
            }
        } else if n < t.len() && t[n as int] == ']' {
            Option::Some((acc.push(x), (n + 1) as nat))
        } else {
            Option::None
        },
    }
}

#[verifier::opaque]
pub open spec fn scan_strlist(t: Seq<char>) -> Option<(Seq<Seq<char>>, nat)> {
    if t.len() >= 1 && t[0] == '[' {
        if t.len() >= 2 && t[1] == ']' {
            Option::Some((Seq::empty(), 2))
        } else {
            match scan_strs(t.skip(1), Seq::empty()) {
                Option::None => Option::None,
                Option::Some((xs, m)) => Option::Some((xs, (m + 1) as nat)),
            }
        }
    } else {
        Option::None
    }
}

#[verifier::opaque]
pub open spec fn scan_opt_strlist(t: Seq<char>) -> Option<(Option<Seq<Seq<char>>>, nat)> {
    if scan_lit(t, "null"@) is Some {
        Option::Some((Option::None, "null"@.len()))
    } else {
        match scan_strlist(t) {
            Option::None => Option::None,
            Option::Some((xs, n)) => Option::Some((Option::Some(xs), n)),
        }
    }
}

#[verifier::opaque]
pub open spec fn scan_opt_str(t: Seq<char>) -> Option<(Option<Seq<char>>, nat)> {
    if scan_lit(t, "null"@) is Some {
        Option::Some((Option::None, "null"@.len()))
    } else {
        match scan_jstr(t) {
            Option::None => Option::None,
            Option::Some((x, n)) => Option::Some((Option::Some(x), n)),
        }
    }
}

#[verifier::opaque]
pub open spec fn scan_detail(t: Seq<char>) -> Option<(DetailR, nat)> {
    match scan_lit(t, "{\"status\":"@) {
        Option::None => Option::None,
        Option::Some(n1) => match scan_mstate(t.skip(n1 as int)) {
            Option::None => Option::None,
            Option::Some((st, n2)) => match scan_lit(t.skip(n1 as int + n2), ",\"message\":"@) {
                Option::None => Option::None,
                Option::Some(n3) => match scan_jstr(t.skip(n1 as int + n2 + n3)) {
                    Option::None => Option::None,
                    Option::Some((msg, n4)) => {
                        let p = n1 + n2 + n3 + n4;
                        if p < t.len() && t[p as int] == '}' {
                            Option::Some(
                                (
                                    DetailR { status: st, message: msg, states: Option::None },
                                    (p + 1) as nat,
                                ),
                            )
                        } else {
                            match scan_lit(t.skip(p as int), ",\"states\":"@) {
                                Option::None => Option::None,
                                Option::Some(n5) => match scan_map(t.skip(p as int + n5)) {
                                    Option::None => Option::None,
                                    Option::Some((m, n6)) => {
                                        let q = p + n5 + n6;
                                        if q < t.len() && t[q as int] == '}' {
                                            Option::Some(
                                                (
                                                    DetailR {
                                                        status: st,
                                                        message: msg,
                                                        states: Option::Some(m),
                                                    },
                                                    (q + 1) as nat,
                                                ),
                                            )
                                        } else {
                                            Option::None
                                        }
                                    },
                                },
                            }
                        }
                    },
                },
            },
        },
    }
}

#[verifier::opaque]
pub open spec fn scan_agent(t: Seq<char>) -> Option<(AgentR, nat)> {
    match scan_lit(t, "{\"version\":"@) {
        Option::None => Option::None,
        Option::Some(n1) => match scan_jstr(t.skip(n1 as int)) {
            Option::None => Option::None,
            Option::Some((ver, n2)) => match scan_lit(t.skip(n1 as int + n2), ",\"status\":"@) {
                Option::None => Option::None,
                Option::Some(n3) => match scan_ostate(t.skip(n1 as int + n2 + n3)) {
                    Option::None => Option::None,
                    Option::Some((st, n4)) => {
                        let p1 = n1 + n2 + n3 + n4;
                        match scan_agent_d1(t.skip(p1 as int), ver, st) {
                            Option::None => Option::None,
                            Option::Some((a, m)) => Option::Some((a, (p1 + m) as nat)),
                        }
                    },
                },
            },
        },
    }
}

/// An agent record from `monitorStatus` on, given the fields already read.
#[verifier::opaque]
pub open spec fn scan_agent_d1(u: Seq<char>, ver: Seq<char>, st: OverallState) -> Option<
    (AgentR, nat),
> {
    match scan_lit(u, ",\"monitorStatus\":"@) {
        Option::None => Option::None,
        Option::Some(n1) => match scan_detail(u.skip(n1 as int)) {
            Option::None => Option::None,
            Option::Some((mon, n2)) => match scan_lit(
                u.skip(n1 as int + n2),
                ",\"keyLatchStatus\":"@,
            ) {
                Option::None => Option::None,
                Option::Some(n3) => match scan_detail(u.skip(n1 as int + n2 + n3)) {
                    Option::None => Option::None,
                    Option::Some((key, n4)) => {
                        let p = n1 + n2 + n3 + n4;
                        match scan_agent_d2(u.skip(p as int), ver, st, mon, key) {
                            Option::None => Option::None,
                            Option::Some((a, m)) => Option::Some((a, (p + m) as nat)),
                        }
                    },
                },
            },
        },
    }
}

/// An agent record from `ebpfProgramStatus` on.
#[verifier::opaque]
pub open spec fn scan_agent_d2(
    u: Seq<char>,
    ver: Seq<char>,
    st: OverallState,
    mon: DetailR,
    key: DetailR,
) -> Option<(AgentR, nat)> {
    match scan_lit(u, ",\"ebpfProgramStatus\":"@) {
        Option::None => Option::None,
        Option::Some(n1) => match scan_detail(u.skip(n1 as int)) {
            Option::None => Option::None,
            Option::Some((ebpf, n2)) => match scan_lit(
                u.skip(n1 as int + n2),
                ",\"proxyListenerStatus\":"@,
            ) {
                Option::None => Option::None,
                Option::Some(n3) => match scan_detail(u.skip(n1 as int + n2 + n3)) {
                    Option::None => Option::None,
                    Option::Some((lst, n4)) => {
                        let p = n1 + n2 + n3 + n4;
                        match scan_agent_tail(u.skip(p as int), ver, st, mon, key, ebpf, lst) {
                            Option::None => Option::None,
                            Option::Some((a, m)) => Option::Some((a, (p + m) as nat)),
                        }
                    },
                },
            },
        },
    }
}

/// An agent record from `telemetryLoggerStatus` to its closing brace.
#[verifier::opaque]
pub open spec fn scan_agent_tail(
    u: Seq<char>,
    ver: Seq<char>,
    st: OverallState,
    mon: DetailR,
    key: DetailR,
    ebpf: DetailR,
    lst: DetailR,
) -> Option<(AgentR, nat)> {
    match scan_lit(u, ",\"telemetryLoggerStatus\":"@) {
        Option::None => Option::None,
        Option::Some(n1) => match scan_detail(u.skip(n1 as int)) {
            Option::None => Option::None,
            Option::Some((tel, n2)) => match scan_lit(
                u.skip(n1 as int + n2),
                ",\"proxyConnectionsCount\":"@,
            ) {
                Option::None => Option::None,
                Option::Some(n3) => match scan_uint(
                    u.skip(n1 as int + n2 + n3),
                    u128::MAX as nat,
                ) {
                    Option::None => Option::None,
                    Option::Some((cnt, n4)) => {
                        let p = n1 + n2 + n3 + n4;
                        if p < u.len() && u[p as int] == '}' {
                            Option::Some(
                                (
                                    AgentR {
                                        version: ver,
                                        status: st,
                                        monitor: mon,
                                        key_latch: key,
                                        ebpf_program: ebpf,
                                        proxy_listener: lst,
                                        telemetry_logger: tel,
                                        connections_count: cnt as u128,
                                    },
                                    (p + 1) as nat,
                                ),
                            )
                        } else {
                            Option::None
                        }
                    },
                },
            },
        },
    }
}

#[verifier::opaque]
pub open spec fn scan_summary(t: Seq<char>) -> Option<(SummaryR, nat)> {
    match scan_lit(t, "{\"userName\":"@) {
        Option::None => Option::None,
        Option::Some(n1) => match scan_jstr(t.skip(n1 as int)) {
            Option::None => Option::None,
            Option::Some((user, n2)) => match scan_lit(t.skip(n1 as int + n2), ",\"ip\":"@) {
                Option::None => Option::None,
                Option::Some(n3) => match scan_jstr(t.skip(n1 as int + n2 + n3)) {
                    Option::None => Option::None,
                    Option::Some((ip, n4)) => {
                        let p1 = n1 + n2 + n3 + n4;
                        match scan_lit(t.skip(p1 as int), ",\"port\":"@) {
                            Option::None => Option::None,
                            Option::Some(n5) => match scan_uint(
                                t.skip(p1 as int + n5),
                                u16::MAX as nat,
                            ) {
                                Option::None => Option::None,
                                Option::Some((port, n6)) => {
                                    let p2 = p1 + n5 + n6;
                                    match scan_summary_rest(
                                        t.skip(p2 as int),
                                        user,
                                        ip,
                                        port as u16,
                                    ) {
                                        Option::None => Option::None,
                                        Option::Some((v, m)) => Option::Some((v, (p2 + m) as nat)),
                                    }
                                },
                            },
                        }
                    },
                },
            },
        },
    }
}

/// A summary record from `processCmdLine` on, given the fields already read.
#[verifier::opaque]
pub open spec fn scan_summary_rest(u: Seq<char>, user: Seq<char>, ip: Seq<char>, port: u16) -> Option<
    (SummaryR, nat),
> {
    match scan_lit(u, ",\"processCmdLine\":"@) {
        Option::None => Option::None,
        Option::Some(n1) => match scan_jstr(u.skip(n1 as int)) {
            Option::None => Option::None,
            Option::Some((cmd, n2)) => match scan_lit(
                u.skip(n1 as int + n2),
                ",\"responseStatus\":"@,
            ) {
                Option::None => Option::None,
                Option::Some(n3) => match scan_jstr(u.skip(n1 as int + n2 + n3)) {
                    Option::None => Option::None,
                    Option::Some((resp, n4)) => {
                        let p = n1 + n2 + n3 + n4;
                        match scan_lit(u.skip(p as int), ",\"count\":"@) {
                            Option::None => Option::None,
                            Option::Some(n5) => match scan_uint(
                                u.skip(p as int + n5),
                                u64::MAX as nat,
                            ) {
                                Option::None => Option::None,
                                Option::Some((cnt, n6)) => {
                                    let q = p + n5 + n6;
                                    match scan_summary_tail(
                                        u.skip(q as int),
                                        user,
                                        ip,
                                        port,
                                        cmd,
                                        resp,
                                        cnt as u64,
                                    ) {
                                        Option::None => Option::None,
                                        Option::Some((v, m)) => Option::Some((v, (q + m) as nat)),
                                    }
                                },
                            },
                        }
                    },
                },
            },
        },
    }
}

/// A summary record from `userGroups` to its closing brace.
#[verifier::opaque]
pub open spec fn scan_summary_tail(
    u: Seq<char>,
    user: Seq<char>,
    ip: Seq<char>,
    port: u16,
    cmd: Seq<char>,
    resp: Seq<char>,
    cnt: u64,
) -> Option<(SummaryR, nat)> {
    match scan_lit(u, ",\"userGroups\":"@) {
        Option::None => Option::None,
        Option::Some(n1) => match scan_opt_strlist(u.skip(n1 as int)) {
            Option::None => Option::None,
            Option::Some((groups, n2)) => match scan_lit(
                u.skip(n1 as int + n2),
                ",\"processFullPath\":"@,
            ) {
                Option::None => Option::None,
                Option::Some(n3) => match scan_opt_str(u.skip(n1 as int + n2 + n3)) {
                    Option::None => Option::None,
                    Option::Some((path, n4)) => {
                        let p = n1 + n2 + n3 + n4;
                        if p < u.len() && u[p as int] == '}' {
                            Option::Some(
                                (
                                    SummaryR {
                                        user_name: user,
                                        ip: ip,
                                        port: port,
                                        process_cmd_line: cmd,
                                        response_status: resp,
                                        count: cnt,
                                        user_groups: groups,
                                        process_full_path: path,
                                    },
                                    (p + 1) as nat,
                                ),
                            )
                        } else {
                            Option::None
                        }
                    },
                },
            },
        },
    }
}

/// The summaries of a non-empty array, up to and including the `]`.
#[verifier::opaque]
pub open spec fn scan_summaries(t: Seq<char>, acc: Seq<SummaryR>) -> Option<(Seq<SummaryR>, nat)>
    decreases t.len(),
{
    match scan_summary(t) {
        Option::None => Option::None,
        Option::Some((x, n)) => if n < t.len() && t[n as int] == ',' && n >= 1 {
            match scan_summaries(t.skip(n as int + 1), acc.push(x)) {
                Option::None => Option::None,
                Option::Some((xs, m)) => Option::Some((xs, (n + 1 + m) as nat)),
            }
        } else if n < t.len() && t[n as int] == ']' {
            Option::Some((acc.push(x), (n + 1) as nat))
        } else {
            Option::None
        },
    }
}

#[verifier::opaque]
pub open spec fn scan_sumlist(t: Seq<char>) -> Option<(Seq<SummaryR>, nat)> {
    if t.len() >= 1 && t[0] == '[' {
        if t.len() >= 2 && t[1] == ']' {
            Option::Some((Seq::empty(), 2))
        } else {
            match scan_summaries(t.skip(1), Seq::empty()) {
                Option::None => Option::None,
                Option::Some((xs, m)) => Option::Some((xs, (m + 1) as nat)),
            }
        }
    } else {
        Option::None
    }
}

#[verifier::opaque]
pub open spec fn scan_agg(t: Seq<char>) -> Option<(AggR, nat)> {
    match scan_lit(t, "{\"timestamp\":"@) {
        Option::None => Option::None,
        Option::Some(n1) => match scan_jstr(t.skip(n1 as int)) {
            Option::None => Option::None,
            Option::Some((ts, n2)) => {
                let p = n1 + n2;
                match scan_agg_rest(t.skip(p as int), ts) {
                    Option::None => Option::None,
                    Option::Some((v, m)) => Option::Some((v, (p + m) as nat)),
                }
            },
        },
    }
}

/// A snapshot from `proxyAgentStatus` on, given the timestamp already read.
#[verifier::opaque]
pub open spec fn scan_agg_rest(u: Seq<char>, ts: Seq<char>) -> Option<(AggR, nat)> {
    match scan_lit(u, ",\"proxyAgentStatus\":"@) {
        Option::None => Option::None,
        Option::Some(n1) => match scan_agent(u.skip(n1 as int)) {
            Option::None => Option::None,
            Option::Some((agent, n2)) => {
                let p = n1 + n2;
                match scan_agg_tail(u.skip(p as int), ts, agent) {
                    Option::None => Option::None,
                    Option::Some((v, m)) => Option::Some((v, (p + m) as nat)),
                }
            },
        },
    }
}

/// A snapshot from `proxyConnectionSummary` to its closing brace.
#[verifier::opaque]
pub open spec fn scan_agg_tail(u: Seq<char>, ts: Seq<char>, agent: AgentR) -> Option<(AggR, nat)> {
    match scan_lit(u, ",\"proxyConnectionSummary\":"@) {
        Option::None => Option::None,
        Option::Some(n1) => match scan_sumlist(u.skip(n1 as int)) {
            Option::None => Option::None,
            Option::Some((conns, n2)) => match scan_lit(
                u.skip(n1 as int + n2),
                ",\"failedAuthenticateSummary\":"@,
            ) {
                Option::None => Option::None,
                Option::Some(n3) => match scan_sumlist(u.skip(n1 as int + n2 + n3)) {
                    Option::None => Option::None,
                    Option::Some((fails, n4)) => {
                        let p = n1 + n2 + n3 + n4;
                        if p < u.len() && u[p as int] == '}' {
                            Option::Some(
                                (
                                    AggR {
                                        timestamp: ts,
                                        agent: agent,
                                        connections: conns,
                                        failed_auth: fails,
                                    },
                                    (p + 1) as nat,
                                ),
                            )
                        } else {
                            Option::None
                        }
                    },
                },
            },
        },
    }
}

// ---------------------------------------------------------------------------
// The executable reader, one function per scan.
// ---------------------------------------------------------------------------

fn parse_mstate(s: &Vec<char>, i: usize) -> (r: Option<(ModuleState, usize)>)
    requires
        i <= s@.len(),
    ensures
        match r {
            Option::Some(p) => i < p.1 <= s@.len() && scan_mstate(s@.skip(i as int))
                == Option::Some((p.0, (p.1 - i) as nat)),
            Option::None => scan_mstate(s@.skip(i as int)) is None,
        },
{
    match expect_lit(s, i, "\"UNKNOWN\"") {
        Option::Some(j) => {
            proof {
                reveal_strlit("\"UNKNOWN\"");
            }
            return Option::Some((ModuleState::UNKNOWN, j));
        },
        Option::None => {},
    }
    match expect_lit(s, i, "\"RUNNING\"") {
        Option::Some(j) => {
            proof {
                reveal_strlit("\"RUNNING\"");
            }
            return Option::Some((ModuleState::RUNNING, j));
        },
        Option::None => {},
    }
    match expect_lit(s, i, "\"STOPPED\"") {
        Option::Some(j) => {
            proof {
                reveal_strlit("\"STOPPED\"");
            }
            return Option::Some((ModuleState::STOPPED, j));
        },
        Option::None => {},
    }
    Option::None
}

fn parse_ostate(s: &Vec<char>, i: usize) -> (r: Option<(OverallState, usize)>)
    requires
        i <= s@.len(),
    ensures
        match r {
            Option::Some(p) => i < p.1 <= s@.len() && scan_ostate(s@.skip(i as int))
                == Option::Some((p.0, (p.1 - i) as nat)),
            Option::None => scan_ostate(s@.skip(i as int)) is None,
        },
{
    match expect_lit(s, i, "\"SUCCESS\"") {
        Option::Some(j) => {
            proof {
                reveal_strlit("\"SUCCESS\"");
            }
            return Option::Some((OverallState::SUCCESS, j));
        },
        Option::None => {},
    }
    match expect_lit(s, i, "\"ERROR\"") {
        Option::Some(j) => {
            proof {
                reveal_strlit("\"ERROR\"");
            }
            return Option::Some((OverallState::ERROR, j));
        },
        Option::None => {},
    }
    match expect_lit(s, i, "\"UNKNOWN\"") {
        Option::Some(j) => {
            proof {
                reveal_strlit("\"UNKNOWN\"");
            }
            return Option::Some((OverallState::UNKNOWN, j));
        },
        Option::None => {},
    }
    Option::None
}

fn parse_uint(s: &Vec<char>, i: usize, max: u128) -> (r: Option<(u128, usize)>)
    requires
        i <= s@.len(),
    ensures
        match r {
            Option::Some(p) => i < p.1 <= s@.len() && p.0 <= max && scan_uint(
                s@.skip(i as int),
                max as nat,
            ) == Option::Some((p.0 as nat, (p.1 - i) as nat)),
            Option::None => scan_uint(s@.skip(i as int), max as nat) is None,
        },
{
    match parse_u128(s, i) {
        Option::Some(p) => {
            if p.0 <= max {
                Option::Some(p)
            } else {
                Option::None
            }
        },
        Option::None => Option::None,
    }
}

fn parse_pair(s: &Vec<char>, i: usize) -> (r: Option<((String, String), usize)>)
    requires
        i <= s@.len(),
    ensures
        match r {
            Option::Some(p) => i < p.1 <= s@.len() && scan_pair(s@.skip(i as int)) == Option::Some(
                ((p.0.0@, p.0.1@), (p.1 - i) as nat),
            ),
            Option::None => scan_pair(s@.skip(i as int)) is None,
        },
{
    proof {
        reveal(scan_pair);
    }
    let ghost t = s@.skip(i as int);
    let (k, j1) = match parse_jstr(s, i) {
        Option::Some(p) => p,
        Option::None => {
            return Option::None;
        },
    };
    if j1 == s.len() || s[j1] != ':' {
        proof {
            if j1 < s@.len() {
                assert(t[j1 - i] == s@[j1 as int]);
            }
        }
        return Option::None;
    }
    proof {
        assert(t[j1 - i] == ':');
        assert(t.skip((j1 - i) as int + 1) =~= s@.skip(j1 as int + 1));
    }
    let (v, j2) = match parse_jstr(s, j1 + 1) {
        Option::Some(p) => p,
        Option::None => {
            return Option::None;
        },
    };
    Option::Some(((k, v), j2))
}

fn parse_map(s: &Vec<char>, i: usize) -> (r: Option<(Vec<(String, String)>, usize)>)
    requires
        i <= s@.len(),
    ensures
        match r {
            Option::Some(p) => i < p.1 <= s@.len() && scan_map(s@.skip(i as int)) == Option::Some(
                (p.0@.map_values(|q: (String, String)| pair_r(q)), (p.1 - i) as nat),
            ),
            Option::None => scan_map(s@.skip(i as int)) is None,
        },
{
    proof {
        reveal(scan_map);
        reveal(scan_pairs);
        reveal(scan_pair);
    }
    let ghost t = s@.skip(i as int);
    if i == s.len() || s[i] != '{' {
        proof {
            if i < s@.len() {
                assert(t[0] == s@[i as int]);
            }
        }
        return Option::None;
    }
    proof {
        assert(t[0] == '{');
        assert(t.skip(1) =~= s@.skip(i as int + 1));
    }
    if i + 1 < s.len() && s[i + 1] == '}' {
        proof {
            assert(t[1] == '}');
        }
        let empty: Vec<(String, String)> = Vec::new();
        proof {
            assert(empty@.map_values(|q: (String, String)| pair_r(q)) =~= Seq::<
                (Seq<char>, Seq<char>),
            >::empty());
        }
        return Option::Some((empty, i + 2));
    }
    proof {
        if i + 1 < s@.len() {
            assert(t[1] == s@[i + 1]);
        }
        assert(!(t.len() >= 2 && t[1] == '}'));
    }
    let mut acc: Vec<(String, String)> = Vec::new();
    let mut j: usize = i + 1;
    proof {
        assert(acc@.map_values(|q: (String, String)| pair_r(q)) =~= Seq::<
            (Seq<char>, Seq<char>),
        >::empty());
    }
    loop
        invariant
            i + 1 <= j <= s@.len(),
            s@.skip(i as int)[0] == '{',
            !(s@.skip(i as int).len() >= 2 && s@.skip(i as int)[1] == '}'),
            s@.skip(i as int).skip(1) == s@.skip(i as int + 1),
            (match scan_pairs(
                s@.skip(j as int),
                acc@.map_values(|q: (String, String)| pair_r(q)),
            ) {
                Option::Some(p) => scan_pairs(s@.skip(i as int + 1), Seq::empty())
                    == Option::Some((p.0, (p.1 + (j - i - 1)) as nat)),
                Option::None => scan_pairs(s@.skip(i as int + 1), Seq::empty()) is None,
            }),
        decreases s@.len() - j,
    {
        proof {
            reveal(scan_map);
            reveal(scan_pairs);
        }
        let ((k, v), j2) = match parse_pair(s, j) {
            Option::Some(p) => p,
            Option::None => {
                return Option::None;
            },
        };
        if j2 < s.len() && s[j2] == ',' {
            proof {
                assert(s@.skip(j as int)[j2 - j] == s@[j2 as int]);
                assert(s@.skip(j as int).skip((j2 - j) as int + 1) =~= s@.skip(j2 as int + 1));
                let ghost ar = acc@.map_values(|q: (String, String)| pair_r(q));
                assert(acc@.push((k, v)).map_values(|q: (String, String)| pair_r(q)) =~= ar.push(
                    (k@, v@),
                ));
            }
            acc.push((k, v));
            j = j2 + 1;
        } else if j2 < s.len() && s[j2] == '}' {
            proof {
                assert(s@.skip(j as int)[j2 - j] == s@[j2 as int]);
                let ghost ar = acc@.map_values(|q: (String, String)| pair_r(q));
                assert(acc@.push((k, v)).map_values(|q: (String, String)| pair_r(q)) =~= ar.push(
                    (k@, v@),
                ));
            }
            acc.push((k, v));
            return Option::Some((acc, j2 + 1));
        } else {
            proof {
                if j2 < s@.len() {
                    assert(s@.skip(j as int)[j2 - j] == s@[j2 as int]);
                }
            }
            return Option::None;
        }
    }
}

fn parse_strlist(s: &Vec<char>, i: usize) -> (r: Option<(Vec<String>, usize)>)
    requires
        i <= s@.len(),
    ensures
        match r {
            Option::Some(p) => i < p.1 <= s@.len() && scan_strlist(s@.skip(i as int))
                == Option::Some((p.0@.map_values(|g: String| g@), (p.1 - i) as nat)),
            Option::None => scan_strlist(s@.skip(i as int)) is None,
        },
{
    proof {
        reveal(scan_strlist);
        reveal(scan_strs);
    }
    let ghost t = s@.skip(i as int);
    if i == s.len() || s[i] != '[' {
        proof {
            if i < s@.len() {
                assert(t[0] == s@[i as int]);
            }
        }
        return Option::None;
    }
    proof {
        assert(t[0] == '[');
        assert(t.skip(1) =~= s@.skip(i as int + 1));
    }
    if i + 1 < s.len() && s[i + 1] == ']' {
        proof {
            assert(t[1] == ']');
        }
        let empty: Vec<String> = Vec::new();
        proof {
            assert(empty@.map_values(|g: String| g@) =~= Seq::<Seq<char>>::empty());
        }
        return Option::Some((empty, i + 2));
    }
    proof {
        if i + 1 < s@.len() {
            assert(t[1] == s@[i + 1]);
        }
        assert(!(t.len() >= 2 && t[1] == ']'));
    }
    let mut acc: Vec<String> = Vec::new();
    let mut j: usize = i + 1;
    proof {
        assert(acc@.map_values(|g: String| g@) =~= Seq::<Seq<char>>::empty());
    }
    loop
        invariant
            i + 1 <= j <= s@.len(),
            s@.skip(i as int)[0] == '[',
            !(s@.skip(i as int).len() >= 2 && s@.skip(i as int)[1] == ']'),
            s@.skip(i as int).skip(1) == s@.skip(i as int + 1),
            (match scan_strs(s@.skip(j as int), acc@.map_values(|g: String| g@)) {
                Option::Some(p) => scan_strs(s@.skip(i as int + 1), Seq::empty()) == Option::Some(
                    (p.0, (p.1 + (j - i - 1)) as nat),
                ),
                Option::None => scan_strs(s@.skip(i as int + 1), Seq::empty()) is None,
            }),
        decreases s@.len() - j,
    {
        proof {
            reveal(scan_strlist);
            reveal(scan_strs);
        }
        let (x, j2) = match parse_jstr(s, j) {
            Option::Some(p) => p,
            Option::None => {
                return Option::None;
            },
        };
        if j2 < s.len() && s[j2] == ',' {
            proof {
                assert(s@.skip(j as int)[j2 - j] == s@[j2 as int]);
                assert(s@.skip(j as int).skip((j2 - j) as int + 1) =~= s@.skip(j2 as int + 1));
                let ghost ar = acc@.map_values(|g: String| g@);
                assert(acc@.push(x).map_values(|g: String| g@) =~= ar.push(x@));
            }
            acc.push(x);
            j = j2 + 1;
        } else if j2 < s.len() && s[j2] == ']' {
            proof {
                assert(s@.skip(j as int)[j2 - j] == s@[j2 as int]);
                let ghost ar = acc@.map_values(|g: String| g@);
                assert(acc@.push(x).map_values(|g: String| g@) =~= ar.push(x@));
            }
            acc.push(x);
            return Option::Some((acc, j2 + 1));
        } else {
            proof {
                if j2 < s@.len() {
                    assert(s@.skip(j as int)[j2 - j] == s@[j2 as int]);
                }
            }
            return Option::None;
        }
    }
}

fn parse_opt_strlist(s: &Vec<char>, i: usize) -> (r: Option<(Option<Vec<String>>, usize)>)
    requires
        i <= s@.len(),
    ensures
        match r {
            Option::Some(p) => i < p.1 <= s@.len() && scan_opt_strlist(s@.skip(i as int))
                == Option::Some(
                (
                    match p.0 {
                        Option::Some(v) => Option::Some(v@.map_values(|g: String| g@)),
                        Option::None => Option::None,
                    },
                    (p.1 - i) as nat,
                ),
            ),
            Option::None => scan_opt_strlist(s@.skip(i as int)) is None,
        },
{
    proof {
        reveal(scan_opt_strlist);
    }
    match expect_lit(s, i, "null") {
        Option::Some(j) => {
            proof {
                reveal_strlit("null");
            }
            return Option::Some((Option::None, j));
        },
        Option::None => {},
    }
    match parse_strlist(s, i) {
        Option::Some(p) => Option::Some((Option::Some(p.0), p.1)),
        Option::None => Option::None,
    }
}

fn parse_opt_str(s: &Vec<char>, i: usize) -> (r: Option<(Option<String>, usize)>)
    requires
        i <= s@.len(),
    ensures
        match r {
            Option::Some(p) => i < p.1 <= s@.len() && scan_opt_str(s@.skip(i as int))
                == Option::Some(
                (
                    match p.0 {
                        Option::Some(v) => Option::Some(v@),
                        Option::None => Option::None,
                    },
                    (p.1 - i) as nat,
                ),
            ),
            Option::None => scan_opt_str(s@.skip(i as int)) is None,
        },
{
    proof {
        reveal(scan_opt_str);
    }
    match expect_lit(s, i, "null") {
        Option::Some(j) => {
            proof {
                reveal_strlit("null");
            }
            return Option::Some((Option::None, j));
        },
        Option::None => {},
    }
    match parse_jstr(s, i) {
        Option::Some(p) => Option::Some((Option::Some(p.0), p.1)),
        Option::None => Option::None,
    }
}

#[verifier::rlimit(100)]
fn parse_detail(s: &Vec<char>, i: usize) -> (r: Option<(ProxyAgentDetailStatus, usize)>)
    requires
        i <= s@.len(),
    ensures
        match r {
            Option::Some(p) => i < p.1 <= s@.len() && scan_detail(s@.skip(i as int))
                == Option::Some((detail_r(p.0), (p.1 - i) as nat)),
            Option::None => scan_detail(s@.skip(i as int)) is None,
        },
{
    proof {
        reveal(scan_detail);
    }
    let ghost t = s@.skip(i as int);
    let j1 = match expect_lit(s, i, "{\"status\":") {
        Option::Some(j) => j,
        Option::None => {
            return Option::None;
        },
    };
    proof {
        assert(t.skip((j1 - i) as int) =~= s@.skip(j1 as int));
    }
    let (st, j2) = match parse_mstate(s, j1) {
        Option::Some(p) => p,
        Option::None => {
            return Option::None;
        },
    };
    proof {
        assert(t.skip((j2 - i) as int) =~= s@.skip(j2 as int));
    }
    let j3 = match expect_lit(s, j2, ",\"message\":") {
        Option::Some(j) => j,
        Option::None => {
            return Option::None;
        },
    };
    proof {
        assert(t.skip((j3 - i) as int) =~= s@.skip(j3 as int));
    }
    let (msg, j4) = match parse_jstr(s, j3) {
        Option::Some(p) => p,
        Option::None => {
            return Option::None;
        },
    };
    proof {
        assert(t.skip((j4 - i) as int) =~= s@.skip(j4 as int));
        if j4 < s@.len() {
            assert(t[j4 - i] == s@[j4 as int]);
        }
    }
    if j4 < s.len() && s[j4] == '}' {
        let d = ProxyAgentDetailStatus { status: st, message: msg, states: Option::None };
        return Option::Some((d, j4 + 1));
    }
    let j5 = match expect_lit(s, j4, ",\"states\":") {
        Option::Some(j) => j,
        Option::None => {
            return Option::None;
        },
    };
    proof {
        assert(t.skip((j5 - i) as int) =~= s@.skip(j5 as int));
    }
    let (pairs, j6) = match parse_map(s, j5) {
        Option::Some(p) => p,
        Option::None => {
            return Option::None;
        },
    };
    proof {
        assert(t.skip((j6 - i) as int) =~= s@.skip(j6 as int));
        if j6 < s@.len() {
            assert(t[j6 - i] == s@[j6 as int]);
        }
    }
    if j6 < s.len() && s[j6] == '}' {
        let d = ProxyAgentDetailStatus { status: st, message: msg, states: Option::Some(pairs) };
        return Option::Some((d, j6 + 1));
    }
    Option::None
}

#[verifier::rlimit(100)]
fn parse_agent(s: &Vec<char>, i: usize) -> (r: Option<(ProxyAgentStatus, usize)>)
    requires
        i <= s@.len(),
    ensures
        match r {
            Option::Some(p) => i < p.1 <= s@.len() && scan_agent(s@.skip(i as int))
                == Option::Some((agent_r(p.0), (p.1 - i) as nat)),
            Option::None => scan_agent(s@.skip(i as int)) is None,
        },
{
    proof {
        reveal(scan_agent);
    }
    let ghost t = s@.skip(i as int);
    let j1 = match expect_lit(s, i, "{\"version\":") {
        Option::Some(j) => j,
        Option::None => {
            return Option::None;
        },
    };
    proof {
        assert(t.skip((j1 - i) as int) =~= s@.skip(j1 as int));
    }
    let (ver, j2) = match parse_jstr(s, j1) {
        Option::Some(p) => p,
        Option::None => {
            return Option::None;
        },
    };
    proof {
        assert(t.skip((j2 - i) as int) =~= s@.skip(j2 as int));
    }
    let j3 = match expect_lit(s, j2, ",\"status\":") {
        Option::Some(j) => j,
        Option::None => {
            return Option::None;
        },
    };
    proof {
        assert(t.skip((j3 - i) as int) =~= s@.skip(j3 as int));
    }
    let (st, j4) = match parse_ostate(s, j3) {
        Option::Some(p) => p,
        Option::None => {
            return Option::None;
        },
    };
    proof {
        assert(t.skip((j4 - i) as int) =~= s@.skip(j4 as int));
    }
    match parse_agent_d1(s, j4, ver, st) {
        Option::Some(p) => Option::Some(p),
        Option::None => Option::None,
    }
}

#[verifier::rlimit(100)]
fn parse_agent_d1(s: &Vec<char>, i: usize, ver: String, st: OverallState) -> (r: Option<
    (ProxyAgentStatus, usize),
>)
    requires
        i <= s@.len(),
    ensures
        match r {
            Option::Some(p) => i < p.1 <= s@.len() && scan_agent_d1(s@.skip(i as int), ver@, st)
                == Option::Some((agent_r(p.0), (p.1 - i) as nat)),
            Option::None => scan_agent_d1(s@.skip(i as int), ver@, st) is None,
        },
{
    proof {
        reveal(scan_agent_d1);
    }
    let ghost t = s@.skip(i as int);
    let j1 = match expect_lit(s, i, ",\"monitorStatus\":") {
        Option::Some(j) => j,
        Option::None => {
            return Option::None;
        },
    };
    proof {
        assert(t.skip((j1 - i) as int) =~= s@.skip(j1 as int));
    }
    let (mon, j2) = match parse_detail(s, j1) {
        Option::Some(p) => p,
        Option::None => {
            return Option::None;
        },
    };
    proof {
        assert(t.skip((j2 - i) as int) =~= s@.skip(j2 as int));
    }
    let j3 = match expect_lit(s, j2, ",\"keyLatchStatus\":") {
        Option::Some(j) => j,
        Option::None => {
            return Option::None;
        },
    };
    proof {
        assert(t.skip((j3 - i) as int) =~= s@.skip(j3 as int));
    }
    let (key, j4) = match parse_detail(s, j3) {
        Option::Some(p) => p,
        Option::None => {
            return Option::None;
        },
    };
    proof {
        assert(t.skip((j4 - i) as int) =~= s@.skip(j4 as int));
    }
    match parse_agent_d2(s, j4, ver, st, mon, key) {
        Option::Some(p) => Option::Some(p),
        Option::None => Option::None,
    }
}

#[verifier::rlimit(100)]
fn parse_agent_d2(
    s: &Vec<char>,
    i: usize,
    ver: String,
    st: OverallState,
    mon: ProxyAgentDetailStatus,
    key: ProxyAgentDetailStatus,
) -> (r: Option<(ProxyAgentStatus, usize)>)
    requires
        i <= s@.len(),
    ensures
        match r {
            Option::Some(p) => i < p.1 <= s@.len() && scan_agent_d2(
                s@.skip(i as int),
                ver@,
                st,
                detail_r(mon),
                detail_r(key),
            ) == Option::Some((agent_r(p.0), (p.1 - i) as nat)),
            Option::None => scan_agent_d2(
                s@.skip(i as int),
                ver@,
                st,
                detail_r(mon),
                detail_r(key),
            ) is None,
        },
{
    proof {
        reveal(scan_agent_d2);
    }
    let ghost t = s@.skip(i as int);
    let j1 = match expect_lit(s, i, ",\"ebpfProgramStatus\":") {
        Option::Some(j) => j,
        Option::None => {
            return Option::None;
        },
    };
    proof {
        assert(t.skip((j1 - i) as int) =~= s@.skip(j1 as int));
    }
    let (ebpf, j2) = match parse_detail(s, j1) {
        Option::Some(p) => p,
        Option::None => {
            return Option::None;
        },
    };
    proof {
        assert(t.skip((j2 - i) as int) =~= s@.skip(j2 as int));
    }
    let j3 = match expect_lit(s, j2, ",\"proxyListenerStatus\":") {
        Option::Some(j) => j,
        Option::None => {
            return Option::None;
        },
    };
    proof {
        assert(t.skip((j3 - i) as int) =~= s@.skip(j3 as int));
    }
    let (lst, j4) = match parse_detail(s, j3) {
        Option::Some(p) => p,
        Option::None => {
            return Option::None;
        },
    };
    proof {
        assert(t.skip((j4 - i) as int) =~= s@.skip(j4 as int));
    }
    match parse_agent_tail(s, j4, ver, st, mon, key, ebpf, lst) {
        Option::Some(p) => Option::Some(p),
        Option::None => Option::None,
    }
}

#[verifier::rlimit(100)]
fn parse_agent_tail(
    s: &Vec<char>,
    i: usize,
    ver: String,
    st: OverallState,
    mon: ProxyAgentDetailStatus,
    key: ProxyAgentDetailStatus,
    ebpf: ProxyAgentDetailStatus,
    lst: ProxyAgentDetailStatus,
) -> (r: Option<(ProxyAgentStatus, usize)>)
    requires
        i <= s@.len(),
    ensures
        match r {
            Option::Some(p) => i < p.1 <= s@.len() && scan_agent_tail(
                s@.skip(i as int),
                ver@,
                st,
                detail_r(mon),
                detail_r(key),
                detail_r(ebpf),
                detail_r(lst),
            ) == Option::Some((agent_r(p.0), (p.1 - i) as nat)),
            Option::None => scan_agent_tail(
                s@.skip(i as int),
                ver@,
                st,
                detail_r(mon),
                detail_r(key),
                detail_r(ebpf),
                detail_r(lst),
            ) is None,
        },
{
    proof {
        reveal(scan_agent_tail);
    }
    let ghost t = s@.skip(i as int);
    let j1 = match expect_lit(s, i, ",\"telemetryLoggerStatus\":") {
        Option::Some(j) => j,
        Option::None => {
            return Option::None;
        },
    };
    proof {
        assert(t.skip((j1 - i) as int) =~= s@.skip(j1 as int));
    }
    let (tel, j2) = match parse_detail(s, j1) {
        Option::Some(p) => p,
        Option::None => {
            return Option::None;
        },
    };
    proof {
        assert(t.skip((j2 - i) as int) =~= s@.skip(j2 as int));
    }
    let j3 = match expect_lit(s, j2, ",\"proxyConnectionsCount\":") {
        Option::Some(j) => j,
        Option::None => {
            return Option::None;
        },
    };
    proof {
        assert(t.skip((j3 - i) as int) =~= s@.skip(j3 as int));
    }
    let (cnt, j4) = match parse_uint(s, j3, u128::MAX) {
        Option::Some(p) => p,
        Option::None => {
            return Option::None;
        },
    };
    proof {
        if j4 < s@.len() {
            assert(t[j4 - i] == s@[j4 as int]);
        }
    }
    if j4 < s.len() && s[j4] == '}' {
        let a = ProxyAgentStatus {
            version: ver,
            status: st,
            monitorStatus: mon,
            keyLatchStatus: key,
            ebpfProgramStatus: ebpf,
            proxyListenerStatus: lst,
            telemetryLoggerStatus: tel,
            proxyConnectionsCount: cnt,
        };
        return Option::Some((a, j4 + 1));
    }
    Option::None
}

#[verifier::rlimit(100)]
fn parse_summary(s: &Vec<char>, i: usize) -> (r: Option<(ProxyConnectionSummary, usize)>)
    requires
        i <= s@.len(),
    ensures
        match r {
            Option::Some(p) => i < p.1 <= s@.len() && scan_summary(s@.skip(i as int))
                == Option::Some((summary_r(p.0), (p.1 - i) as nat)),
            Option::None => scan_summary(s@.skip(i as int)) is None,
        },
{
    proof {
        reveal(scan_summary);
    }
    let ghost t = s@.skip(i as int);
    let j1 = match expect_lit(s, i, "{\"userName\":") {
        Option::Some(j) => j,
        Option::None => {
            return Option::None;
        },
    };
    proof {
        assert(t.skip((j1 - i) as int) =~= s@.skip(j1 as int));
    }
    let (user, j2) = match parse_jstr(s, j1) {
        Option::Some(p) => p,
        Option::None => {
            return Option::None;
        },
    };
    proof {
        assert(t.skip((j2 - i) as int) =~= s@.skip(j2 as int));
    }
    let j3 = match expect_lit(s, j2, ",\"ip\":") {
        Option::Some(j) => j,
        Option::None => {
            return Option::None;
        },
    };
    proof {
        assert(t.skip((j3 - i) as int) =~= s@.skip(j3 as int));
    }
    let (ip, j4) = match parse_jstr(s, j3) {
        Option::Some(p) => p,
        Option::None => {
            return Option::None;
        },
    };
    proof {
        assert(t.skip((j4 - i) as int) =~= s@.skip(j4 as int));
    }
    let j5 = match expect_lit(s, j4, ",\"port\":") {
        Option::Some(j) => j,
        Option::None => {
            return Option::None;
        },
    };
    proof {
        assert(t.skip((j5 - i) as int) =~= s@.skip(j5 as int));
    }
    let (port, j6) = match parse_uint(s, j5, u16::MAX as u128) {
        Option::Some(p) => p,
        Option::None => {
            return Option::None;
        },
    };
    proof {
        assert(t.skip((j6 - i) as int) =~= s@.skip(j6 as int));
    }
    match parse_summary_rest(s, j6, user, ip, port as u16) {
        Option::Some(p) => Option::Some(p),
        Option::None => Option::None,
    }
}

#[verifier::rlimit(100)]
fn parse_summary_rest(s: &Vec<char>, i: usize, user: String, ip: String, port: u16) -> (r: Option<
    (ProxyConnectionSummary, usize),
>)
    requires
        i <= s@.len(),
    ensures
        match r {
            Option::Some(p) => i < p.1 <= s@.len() && scan_summary_rest(
                s@.skip(i as int),
                user@,
                ip@,
                port,
            ) == Option::Some((summary_r(p.0), (p.1 - i) as nat)),
            Option::None => scan_summary_rest(s@.skip(i as int), user@, ip@, port) is None,
        },
{
    proof {
        reveal(scan_summary_rest);
    }
    let ghost t = s@.skip(i as int);
    let j1 = match expect_lit(s, i, ",\"processCmdLine\":") {
        Option::Some(j) => j,
        Option::None => {
            return Option::None;
        },
    };
    proof {
        assert(t.skip((j1 - i) as int) =~= s@.skip(j1 as int));
    }
    let (cmd, j2) = match parse_jstr(s, j1) {
        Option::Some(p) => p,
        Option::None => {
            return Option::None;
        },
    };
    proof {
        assert(t.skip((j2 - i) as int) =~= s@.skip(j2 as int));
    }
    let j3 = match expect_lit(s, j2, ",\"responseStatus\":") {
        Option::Some(j) => j,
        Option::None => {
            return Option::None;
        },
    };
    proof {
        assert(t.skip((j3 - i) as int) =~= s@.skip(j3 as int));
    }
    let (resp, j4) = match parse_jstr(s, j3) {
        Option::Some(p) => p,
        Option::None => {
            return Option::None;
        },
    };
    proof {
        assert(t.skip((j4 - i) as int) =~= s@.skip(j4 as int));
    }
    let j5 = match expect_lit(s, j4, ",\"count\":") {
        Option::Some(j) => j,
        Option::None => {
            return Option::None;
        },
    };
    proof {
        assert(t.skip((j5 - i) as int) =~= s@.skip(j5 as int));
    }
    let (cnt, j6) = match parse_uint(s, j5, u64::MAX as u128) {
        Option::Some(p) => p,
        Option::None => {
            return Option::None;
        },
    };
    proof {
        assert(t.skip((j6 - i) as int) =~= s@.skip(j6 as int));
    }
    match parse_summary_tail(s, j6, user, ip, port, cmd, resp, cnt as u64) {
        Option::Some(p) => Option::Some(p),
        Option::None => Option::None,
    }
}

#[verifier::rlimit(100)]
fn parse_summary_tail(
    s: &Vec<char>,
    i: usize,
    user: String,
    ip: String,
    port: u16,
    cmd: String,
    resp: String,
    cnt: u64,
) -> (r: Option<(ProxyConnectionSummary, usize)>)
    requires
        i <= s@.len(),
    ensures
        match r {
            Option::Some(p) => i < p.1 <= s@.len() && scan_summary_tail(
                s@.skip(i as int),
                user@,
                ip@,
                port,
                cmd@,
                resp@,
                cnt,
            ) == Option::Some((summary_r(p.0), (p.1 - i) as nat)),
            Option::None => scan_summary_tail(
                s@.skip(i as int),
                user@,
                ip@,
                port,
                cmd@,
                resp@,
                cnt,
            ) is None,
        },
{
    proof {
        reveal(scan_summary_tail);
    }
    let ghost t = s@.skip(i as int);
    let j1 = match expect_lit(s, i, ",\"userGroups\":") {
        Option::Some(j) => j,
        Option::None => {
            return Option::None;
        },
    };
    proof {
        assert(t.skip((j1 - i) as int) =~= s@.skip(j1 as int));
    }
    let (groups, j2) = match parse_opt_strlist(s, j1) {
        Option::Some(p) => p,
        Option::None => {
            return Option::None;
        },
    };
    proof {
        assert(t.skip((j2 - i) as int) =~= s@.skip(j2 as int));
    }
    let j3 = match expect_lit(s, j2, ",\"processFullPath\":") {
        Option::Some(j) => j,
        Option::None => {
            return Option::None;
        },
    };
    proof {
        assert(t.skip((j3 - i) as int) =~= s@.skip(j3 as int));
    }
    let (path, j4) = match parse_opt_str(s, j3) {
        Option::Some(p) => p,
        Option::None => {
            return Option::None;
        },
    };
    proof {
        if j4 < s@.len() {
            assert(t[j4 - i] == s@[j4 as int]);
        }
    }
    if j4 < s.len() && s[j4] == '}' {
        let v = ProxyConnectionSummary {
            userName: user,
            ip: ip,
            port: port,
            processCmdLine: cmd,
            responseStatus: resp,
            count: cnt,
            userGroups: groups,
            processFullPath: path,
        };
        return Option::Some((v, j4 + 1));
    }
    Option::None
}

#[verifier::rlimit(100)]
fn parse_sumlist(s: &Vec<char>, i: usize) -> (r: Option<(Vec<ProxyConnectionSummary>, usize)>)
    requires
        i <= s@.len(),
    ensures
        match r {
            Option::Some(p) => i < p.1 <= s@.len() && scan_sumlist(s@.skip(i as int))
                == Option::Some(
                (
                    p.0@.map_values(|x: ProxyConnectionSummary| summary_r(x)),
                    (p.1 - i) as nat,
                ),
            ),
            Option::None => scan_sumlist(s@.skip(i as int)) is None,
        },
{
    proof {
        reveal(scan_sumlist);
        reveal(scan_summaries);
    }
    let ghost t = s@.skip(i as int);
    if i == s.len() || s[i] != '[' {
        proof {
            if i < s@.len() {
                assert(t[0] == s@[i as int]);
            }
        }
        return Option::None;
    }
    proof {
        assert(t[0] == '[');
        assert(t.skip(1) =~= s@.skip(i as int + 1));
    }
    if i + 1 < s.len() && s[i + 1] == ']' {
        proof {
            assert(t[1] == ']');
        }
        let empty: Vec<ProxyConnectionSummary> = Vec::new();
        proof {
            assert(empty@.map_values(|x: ProxyConnectionSummary| summary_r(x)) =~= Seq::<
                SummaryR,
            >::empty());
        }
        return Option::Some((empty, i + 2));
    }
    proof {
        if i + 1 < s@.len() {
            assert(t[1] == s@[i + 1]);
        }
        assert(!(t.len() >= 2 && t[1] == ']'));
    }
    let mut acc: Vec<ProxyConnectionSummary> = Vec::new();
    let mut j: usize = i + 1;
    proof {
        assert(acc@.map_values(|x: ProxyConnectionSummary| summary_r(x)) =~= Seq::<
            SummaryR,
        >::empty());
    }
    loop
        invariant
            i + 1 <= j <= s@.len(),
            s@.skip(i as int)[0] == '[',
            !(s@.skip(i as int).len() >= 2 && s@.skip(i as int)[1] == ']'),
            s@.skip(i as int).skip(1) == s@.skip(i as int + 1),
            (match scan_summaries(
                s@.skip(j as int),
                acc@.map_values(|x: ProxyConnectionSummary| summary_r(x)),
            ) {
                Option::Some(p) => scan_summaries(s@.skip(i as int + 1), Seq::empty())
                    == Option::Some((p.0, (p.1 + (j - i - 1)) as nat)),
                Option::None => scan_summaries(s@.skip(i as int + 1), Seq::empty()) is None,
            }),
        decreases s@.len() - j,
    {
        proof {
            reveal(scan_sumlist);
            reveal(scan_summaries);
        }
        let (x, j2) = match parse_summary(s, j) {
            Option::Some(p) => p,
            Option::None => {
                return Option::None;
            },
        };
        if j2 < s.len() && s[j2] == ',' {
            proof {
                assert(s@.skip(j as int)[j2 - j] == s@[j2 as int]);
                assert(s@.skip(j as int).skip((j2 - j) as int + 1) =~= s@.skip(j2 as int + 1));
                let ghost ar = acc@.map_values(|x: ProxyConnectionSummary| summary_r(x));
                assert(acc@.push(x).map_values(|x: ProxyConnectionSummary| summary_r(x))
                    =~= ar.push(summary_r(x)));
            }
            acc.push(x);
            j = j2 + 1;
        } else if j2 < s.len() && s[j2] == ']' {
            proof {
                assert(s@.skip(j as int)[j2 - j] == s@[j2 as int]);
                let ghost ar = acc@.map_values(|x: ProxyConnectionSummary| summary_r(x));
                assert(acc@.push(x).map_values(|x: ProxyConnectionSummary| summary_r(x))
                    =~= ar.push(summary_r(x)));
            }
            acc.push(x);
            return Option::Some((acc, j2 + 1));
        } else {
            proof {
                if j2 < s@.len() {
                    assert(s@.skip(j as int)[j2 - j] == s@[j2 as int]);
                }
            }
            return Option::None;
        }
    }
}

/// The snapshot a text holds, if the text is exactly a written snapshot.
/// Returns a value exactly when the whole input is accepted by the grammar,
/// and then the value the grammar carries: `scan_agg` succeeds on `s`
/// consuming all of it, with the returned value's image.
#[verifier::rlimit(100)]
fn parse_agg_tail(s: &Vec<char>, i: usize, ts: String, agent: ProxyAgentStatus) -> (r: Option<
    (GuestProxyAgentAggregateStatus, usize),
>)
    requires
        i <= s@.len(),
    ensures
        match r {
            Option::Some(p) => i < p.1 <= s@.len() && scan_agg_tail(
                s@.skip(i as int),
                ts@,
                agent_r(agent),
            ) == Option::Some((agg_r(p.0), (p.1 - i) as nat)),
            Option::None => scan_agg_tail(s@.skip(i as int), ts@, agent_r(agent)) is None,
        },
{
    proof {
        reveal(scan_agg_tail);
    }
    let ghost t = s@.skip(i as int);
    let j1 = match expect_lit(s, i, ",\"proxyConnectionSummary\":") {
        Option::Some(j) => j,
        Option::None => {
            return Option::None;
        },
    };
    proof {
        assert(t.skip((j1 - i) as int) =~= s@.skip(j1 as int));
    }
    let (conns, j2) = match parse_sumlist(s, j1) {
        Option::Some(p) => p,
        Option::None => {
            return Option::None;
        },
    };
    proof {
        assert(t.skip((j2 - i) as int) =~= s@.skip(j2 as int));
    }
    let j3 = match expect_lit(s, j2, ",\"failedAuthenticateSummary\":") {
        Option::Some(j) => j,
        Option::None => {
            return Option::None;
        },
    };
    proof {
        assert(t.skip((j3 - i) as int) =~= s@.skip(j3 as int));
    }
    let (fails, j4) = match parse_sumlist(s, j3) {
        Option::Some(p) => p,
        Option::None => {
            return Option::None;
        },
    };
    proof {
        if j4 < s@.len() {
            assert(t[j4 - i] == s@[j4 as int]);
        }
    }
    if j4 < s.len() && s[j4] == '}' {
        let v = GuestProxyAgentAggregateStatus {
            timestamp: ts,
            proxyAgentStatus: agent,
            proxyConnectionSummary: conns,
            failedAuthenticateSummary: fails,
        };
        return Option::Some((v, j4 + 1));
    }
    Option::None
}

#[verifier::rlimit(100)]
fn parse_agg(s: &Vec<char>, i: usize) -> (r: Option<(GuestProxyAgentAggregateStatus, usize)>)
    requires
        i <= s@.len(),
    ensures
        match r {
            Option::Some(p) => i < p.1 <= s@.len() && scan_agg(s@.skip(i as int)) == Option::Some(
                (agg_r(p.0), (p.1 - i) as nat),
            ),
            Option::None => scan_agg(s@.skip(i as int)) is None,
        },
{
    proof {
        reveal(scan_agg);
        reveal(scan_agg_rest);
    }
    let ghost t = s@.skip(i as int);
    let j1 = match expect_lit(s, i, "{\"timestamp\":") {
        Option::Some(j) => j,
        Option::None => {
            return Option::None;
        },
    };
    proof {
        assert(t.skip((j1 - i) as int) =~= s@.skip(j1 as int));
    }
    let (ts, j2) = match parse_jstr(s, j1) {
        Option::Some(p) => p,
        Option::None => {
            return Option::None;
        },
    };
    proof {
        assert(t.skip((j2 - i) as int) =~= s@.skip(j2 as int));
    }
    let j3 = match expect_lit(s, j2, ",\"proxyAgentStatus\":") {
        Option::Some(j) => j,
        Option::None => {
            return Option::None;
        },
    };
    proof {
        assert(t.skip((j2 - i) as int).skip((j3 - j2) as int) =~= s@.skip(j3 as int));
    }
    let (agent, j4) = match parse_agent(s, j3) {
        Option::Some(p) => p,
        Option::None => {
            return Option::None;
        },
    };
    proof {
        assert(t.skip((j2 - i) as int).skip((j4 - j2) as int) =~= s@.skip(j4 as int));
    }
    match parse_agg_tail(s, j4, ts, agent) {
        Option::Some(p) => Option::Some(p),
        Option::None => Option::None,
    }
}

/// The snapshot a text holds, if the text is exactly a written snapshot.
/// Returns a value exactly when the grammar accepts the whole input, and
/// then the value the text carries.
#[verifier::rlimit(100)]
pub fn from_json(s: &str) -> (r: Option<GuestProxyAgentAggregateStatus>)
    ensures
        match r {
            Option::Some(v) => scan_agg(s@) == Option::Some((agg_r(v), s@.len() as nat)),
            Option::None => (match scan_agg(s@) {
                Option::Some(p) => p.1 != s@.len(),
                Option::None => true,
            }),
        },
{
    let n = s.unicode_len();
    let mut chars: Vec<char> = Vec::new();
    let mut k: usize = 0;
    while k < n
        invariant
            k <= n,
            n == s@.len(),
            chars@ == s@.take(k as int),
        decreases n - k,
    {
        let c = s.get_char(k);
        proof {
            assert(s@.take(k as int).push(c) =~= s@.take(k as int + 1));
        }
        chars.push(c);
        k = k + 1;
    }
    proof {
        assert(chars@ =~= s@);
        assert(chars@.skip(0) =~= s@);
    }
    match parse_agg(&chars, 0) {
        Option::Some((v, end)) => {
            if end == chars.len() {
                Option::Some(v)
            } else {
                Option::None
            }
        },
        Option::None => Option::None,
    }
}

} // verus!

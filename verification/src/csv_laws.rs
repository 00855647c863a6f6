//! Reading a CSV snapshot back.

use crate::app::{App, Group, Host, HostStatus};
use crate::clock::Stamp;
use crate::csv::{
    doubled, field_text, group_lines, header_line, host_fields, host_lines, is_special,
    needs_quotes, record_text, snapshot_fields, snapshot_time,
};
use crate::host::role_of;
use crate::text::joined_ports;
use crate::text_laws::{all_digits, decimal_is_read_back, number, ports_are_read_back, split};
use vstd::prelude::*;

verus! {

/// How far a field without quotes reaches.
pub open spec fn plain_end(s: Seq<char>) -> int
    decreases s.len(),
{
    if s.len() == 0 || s[0] == ',' || s[0] == '\n' {
        0
    } else {
        1 + plain_end(s.drop_first())
    }
}

/// Reads the rest of a field after its opening quote: the field, and what
/// follows its closing quote.
pub open spec fn read_quoted(s: Seq<char>) -> (Seq<char>, Seq<char>)
    decreases s.len(),
{
    if s.len() == 0 {
        (s, s)
    } else if s[0] != '"' {
        let (field, rest) = read_quoted(s.drop_first());
        (seq![s[0]] + field, rest)
    } else if s.len() > 1 && s[1] == '"' {
        let (field, rest) = read_quoted(s.skip(2));
        (seq!['"'] + field, rest)
    } else {
        (seq![], s.drop_first())
    }
}

/// Reads a field: the field, and what follows it.
pub open spec fn read_field(s: Seq<char>) -> (Seq<char>, Seq<char>) {
    if s.len() > 0 && s[0] == '"' {
        read_quoted(s.drop_first())
    } else {
        (s.take(plain_end(s)), s.skip(plain_end(s)))
    }
}

proof fn plain_end_in_range(s: Seq<char>)
    ensures
        0 <= plain_end(s) <= s.len(),
    decreases s.len(),
{
    if s.len() > 0 {
        plain_end_in_range(s.drop_first());
    }
}

proof fn quoted_rest_is_shorter(s: Seq<char>)
    ensures
        read_quoted(s).1.len() <= s.len(),
    decreases s.len(),
{
    if s.len() > 0 {
        quoted_rest_is_shorter(s.drop_first());
        if s.len() > 1 {
            quoted_rest_is_shorter(s.skip(2));
        }
    }
}

/// Reading a field leaves no more than there was, and less unless the field is
/// empty.
pub proof fn field_rest_is_shorter(s: Seq<char>)
    ensures
        read_field(s).1.len() <= s.len(),
        s.len() > 0 && s[0] != ',' && s[0] != '\n' ==> read_field(s).1.len() < s.len(),
{
    plain_end_in_range(s);
    if s.len() > 0 {
        quoted_rest_is_shorter(s.drop_first());
        plain_end_in_range(s.drop_first());
    }
}

/// Reads a record up to the end of its line: its fields, and what follows.
pub open spec fn read_record(s: Seq<char>) -> (Seq<Seq<char>>, Seq<char>)
    decreases s.len(),
{
    proof {
        field_rest_is_shorter(s);
    }
    let (field, rest) = read_field(s);
    if rest.len() > 0 && rest[0] == ',' {
        let (fields, tail) = read_record(rest.drop_first());
        (seq![field] + fields, tail)
    } else if rest.len() > 0 && rest[0] == '\n' {
        (seq![field], rest.drop_first())
    } else {
        (seq![field], rest)
    }
}

/// Reading a record leaves less than there was.
pub proof fn record_rest_is_shorter(s: Seq<char>)
    ensures
        read_record(s).1.len() <= s.len(),
        s.len() > 0 ==> read_record(s).1.len() < s.len(),
    decreases s.len(),
{
    field_rest_is_shorter(s);
    let rest = read_field(s).1;
    if rest.len() > 0 && rest[0] == ',' {
        record_rest_is_shorter(rest.drop_first());
    } else if s.len() > 0 && (s[0] == ',' || s[0] == '\n') {
        assert(plain_end(s) == 0);
        assert(s.skip(0) =~= s);
    }
}

/// Reads all records of a file.
pub open spec fn read_records(s: Seq<char>) -> Seq<Seq<Seq<char>>>
    decreases s.len(),
{
    if s.len() == 0 {
        seq![]
    } else {
        proof {
            record_rest_is_shorter(s);
        }
        seq![read_record(s).0] + read_records(read_record(s).1)
    }
}

/// The text can follow a field.
pub open spec fn ends_field(rest: Seq<char>) -> bool {
    rest.len() == 0 || rest[0] == ',' || rest[0] == '\n'
}

/// A character as it stands between quotes.
spec fn quoted_char(c: char) -> Seq<char> {
    if c == '"' {
        seq!['"', '"']
    } else {
        seq![c]
    }
}

proof fn doubled_from_front(s: Seq<char>)
    requires
        s.len() > 0,
    ensures
        doubled(s) == quoted_char(s[0]) + doubled(s.drop_first()),
    decreases s.len(),
{
    let front = s.drop_last();
    let tail = s.drop_first();
    if s.len() == 1 {
        assert(front =~= seq![]);
        assert(tail =~= seq![]);
        assert(doubled(s) =~= quoted_char(s[0]) + doubled(tail));
    } else {
        doubled_from_front(front);
        assert(front.drop_first() =~= tail.drop_last());
        assert(doubled(s) =~= quoted_char(s[0]) + doubled(tail));
    }
}

proof fn quoted_text_is_read_back(s: Seq<char>, rest: Seq<char>)
    requires
        ends_field(rest),
    ensures
        read_quoted(doubled(s) + seq!['"'] + rest) == (s, rest),
    decreases s.len(),
{
    let t = doubled(s) + seq!['"'] + rest;
    if s.len() == 0 {
        assert(t =~= seq!['"'] + rest);
        assert(t.drop_first() =~= rest);
        assert(s =~= seq![]);
    } else {
        doubled_from_front(s);
        let next = doubled(s.drop_first()) + seq!['"'] + rest;
        quoted_text_is_read_back(s.drop_first(), rest);
        assert(t =~= quoted_char(s[0]) + next);
        assert(s =~= seq![s[0]] + s.drop_first());
        if s[0] == '"' {
            assert(t.skip(2) =~= next);
        } else {
            assert(t.drop_first() =~= next);
        }
    }
}

proof fn plain_text_is_read_back(s: Seq<char>, rest: Seq<char>)
    requires
        !needs_quotes(s),
        ends_field(rest),
    ensures
        plain_end(s + rest) == s.len(),
    decreases s.len(),
{
    if s.len() == 0 {
        assert(s + rest =~= rest);
    } else {
        assert(!is_special(s[0]));
        assert((s + rest)[0] == s[0]);
        assert(!needs_quotes(s.drop_first())) by {
            assert forall|i: int| 0 <= i < s.drop_first().len() implies !is_special(
                #[trigger] s.drop_first()[i],
            ) by {
                assert(s.drop_first()[i] == s[i + 1]);
            }
        }
        plain_text_is_read_back(s.drop_first(), rest);
        assert((s + rest).drop_first() =~= s.drop_first() + rest);
    }
}

/// A field reads back as what was written, whatever characters it holds.
pub proof fn field_is_read_back(s: Seq<char>, rest: Seq<char>)
    requires
        ends_field(rest),
    ensures
        read_field(field_text(s) + rest) == (s, rest),
{
    let t = field_text(s) + rest;
    if needs_quotes(s) {
        quoted_text_is_read_back(s, rest);
        assert(t.drop_first() =~= doubled(s) + seq!['"'] + rest);
        assert(t[0] == '"');
    } else {
        plain_text_is_read_back(s, rest);
        assert(t == s + rest);
        if s.len() > 0 {
            assert(!is_special(s[0]));
            assert(t[0] == s[0]);
        }
        assert(t.take(s.len() as int) =~= s);
        assert(t.skip(s.len() as int) =~= rest);
    }
}

proof fn comma_is_one_char()
    ensures
        ","@ =~= seq![','],
        "\n"@ =~= seq!['\n'],
{
    reveal_strlit(",");
    reveal_strlit("\n");
}

proof fn record_from_front(fields: Seq<Seq<char>>)
    requires
        fields.len() > 1,
    ensures
        record_text(fields) == field_text(fields[0]) + ","@ + record_text(fields.drop_first()),
    decreases fields.len(),
{
    let front = fields.drop_last();
    let tail = fields.drop_first();
    assert(record_text(fields) == record_text(front) + ","@ + field_text(fields.last()));
    if fields.len() > 2 {
        record_from_front(front);
        assert(front.drop_first() =~= tail.drop_last());
        assert(record_text(tail) == record_text(tail.drop_last()) + ","@ + field_text(
            tail.last(),
        ));
    } else {
        assert(record_text(front) == field_text(fields[0]));
        assert(record_text(tail) == field_text(fields.last()));
    }
    assert(record_text(fields) =~= field_text(fields[0]) + ","@ + record_text(tail));
}

/// A record reads back as the fields that were written.
pub proof fn record_is_read_back(fields: Seq<Seq<char>>, rest: Seq<char>)
    requires
        fields.len() > 0,
    ensures
        read_record(record_text(fields) + "\n"@ + rest) == (fields, rest),
    decreases fields.len(),
{
    comma_is_one_char();
    let t = record_text(fields) + "\n"@ + rest;
    if fields.len() == 1 {
        let after = "\n"@ + rest;
        field_is_read_back(fields[0], after);
        assert(t =~= field_text(fields[0]) + after);
        assert(after.drop_first() =~= rest);
        assert(fields =~= seq![fields[0]]);
    } else {
        record_from_front(fields);
        let next = record_text(fields.drop_first()) + "\n"@ + rest;
        let after = ","@ + next;
        record_is_read_back(fields.drop_first(), rest);
        field_is_read_back(fields[0], after);
        assert(t =~= field_text(fields[0]) + after);
        assert(after.drop_first() =~= next);
        assert(fields =~= seq![fields[0]] + fields.drop_first());
    }
}

/// The names of the columns.
pub open spec fn column_names() -> Seq<Seq<char>> {
    seq![
        "group"@,
        "host"@,
        "ip"@,
        "status"@,
        "role"@,
        "open_ports"@,
        "latency_ms"@,
        "last_seen"@,
        "last_checked"@,
    ]
}

proof fn header_is_a_record()
    ensures
        header_line() == record_text(column_names()) + "\n"@,
{
    reveal_strlit("group,host,ip,status,role,open_ports,latency_ms,last_seen,last_checked\n");
    reveal_strlit("group");
    reveal_strlit("host");
    reveal_strlit("ip");
    reveal_strlit("status");
    reveal_strlit("role");
    reveal_strlit("open_ports");
    reveal_strlit("latency_ms");
    reveal_strlit("last_seen");
    reveal_strlit("last_checked");
    comma_is_one_char();
    let names = column_names();
    assert(field_text("group"@) == "group"@);
    assert(field_text("host"@) == "host"@);
    assert(field_text("ip"@) == "ip"@);
    assert(field_text("status"@) == "status"@);
    assert(field_text("role"@) == "role"@);
    assert(field_text("open_ports"@) == "open_ports"@);
    assert(field_text("latency_ms"@) == "latency_ms"@);
    assert(field_text("last_seen"@) == "last_seen"@);
    assert(field_text("last_checked"@) == "last_checked"@);
    record_from_front(names);
    record_from_front(names.skip(1));
    assert(names.drop_first() =~= names.skip(1));
    assert(names.skip(1).drop_first() =~= names.skip(2));
    assert(names.skip(2).drop_first() =~= names.skip(3));
    assert(names.skip(3).drop_first() =~= names.skip(4));
    assert(names.skip(4).drop_first() =~= names.skip(5));
    assert(names.skip(5).drop_first() =~= names.skip(6));
    assert(names.skip(6).drop_first() =~= names.skip(7));
    assert(names.skip(7).drop_first() =~= names.skip(8));
    record_from_front(names.skip(2));
    record_from_front(names.skip(3));
    record_from_front(names.skip(4));
    record_from_front(names.skip(5));
    record_from_front(names.skip(6));
    record_from_front(names.skip(7));
    assert(header_line() =~= record_text(names) + "\n"@);
}

/// The records of the first `n` hosts of a group.
pub open spec fn host_records(group: Group, n: int) -> Seq<Seq<Seq<char>>>
    decreases n,
{
    if n <= 0 {
        seq![]
    } else {
        host_records(group, n - 1).push(snapshot_fields(group.name@, group.hosts@[n - 1]@))
    }
}

/// The records of the hosts of the first `n` groups.
pub open spec fn group_records(groups: Seq<Group>, n: int) -> Seq<Seq<Seq<char>>>
    decreases n,
{
    if n <= 0 {
        seq![]
    } else {
        group_records(groups, n - 1) + host_records(
            groups[n - 1],
            groups[n - 1].hosts@.len() as int,
        )
    }
}

proof fn host_lines_are_read_back(group: Group, n: int, rest: Seq<char>)
    ensures
        read_records(host_lines(group, n) + rest) == host_records(group, n) + read_records(rest),
    decreases n,
{
    if n <= 0 {
        assert(host_lines(group, n) + rest =~= rest);
        assert(host_records(group, n) + read_records(rest) =~= read_records(rest));
    } else {
        let fields = snapshot_fields(group.name@, group.hosts@[n - 1]@);
        let line = record_text(fields) + "\n"@ + rest;
        host_lines_are_read_back(group, n - 1, line);
        record_is_read_back(fields, rest);
        comma_is_one_char();
        assert(line.len() > 0);
        assert(host_lines(group, n) + rest =~= host_lines(group, n - 1) + line);
        assert(host_records(group, n - 1) + (seq![fields] + read_records(rest)) =~= host_records(
            group,
            n,
        ) + read_records(rest));
    }
}

proof fn group_lines_are_read_back(groups: Seq<Group>, n: int, rest: Seq<char>)
    ensures
        read_records(group_lines(groups, n) + rest) == group_records(groups, n) + read_records(
            rest,
        ),
    decreases n,
{
    if n <= 0 {
        assert(group_lines(groups, n) + rest =~= rest);
        assert(group_records(groups, n) + read_records(rest) =~= read_records(rest));
    } else {
        let group = groups[n - 1];
        let m = group.hosts@.len() as int;
        let tail = host_lines(group, m) + rest;
        group_lines_are_read_back(groups, n - 1, tail);
        host_lines_are_read_back(group, m, rest);
        assert(group_lines(groups, n) + rest =~= group_lines(groups, n - 1) + tail);
        assert(group_records(groups, n - 1) + (host_records(group, m) + read_records(rest))
            =~= group_records(groups, n) + read_records(rest));
    }
}

/// A snapshot reads back as the column names and one record per host, in order,
/// with the fields that were written.
pub proof fn snapshot_is_read_back(app: App)
    ensures
        read_records(app.snapshot_text()) == seq![column_names()] + group_records(
            app.groups@,
            app.groups@.len() as int,
        ),
{
    let n = app.groups@.len() as int;
    let lines = group_lines(app.groups@, n);
    header_is_a_record();
    comma_is_one_char();
    record_is_read_back(column_names(), lines);
    assert(app.snapshot_text().len() > 0);
    group_lines_are_read_back(app.groups@, n, seq![]);
    assert(lines + seq![] =~= lines);
    assert(group_records(app.groups@, n) + read_records(seq![]) =~= group_records(
        app.groups@,
        n,
    ));
}

// ── What a record tells ──────────────────────────────────────────────────

/// A field stands as it is unless it holds a comma, a quote or a line break; then it
/// stands between quotes.
pub proof fn only_special_fields_are_quoted(s: Seq<char>)
    ensures
        s.contains(',') || s.contains('"') || s.contains('\n') || s.contains('\r') ==> {
            &&& field_text(s).len() >= s.len() + 2
            &&& field_text(s)[0] == '"'
            &&& field_text(s).last() == '"'
        },
        !s.contains(',') && !s.contains('"') && !s.contains('\n') && !s.contains('\r')
            ==> field_text(s) == s,
{
    doubling_makes_no_shorter(s);
    if s.contains(',') || s.contains('"') || s.contains('\n') || s.contains('\r') {
        let i = choose|i: int|
            0 <= i < s.len() && (s[i] == ',' || s[i] == '"' || s[i] == '\n' || s[i] == '\r');
        assert(is_special(s[i]));
    } else if needs_quotes(s) {
        let i = choose|i: int| 0 <= i < s.len() && is_special(#[trigger] s[i]);
        assert(s.contains(s[i]));
    }
}

proof fn doubling_makes_no_shorter(s: Seq<char>)
    ensures
        doubled(s).len() >= s.len(),
    decreases s.len(),
{
    if s.len() > 0 {
        doubling_makes_no_shorter(s.drop_last());
    }
}

/// The field holds just these ports: numbers with semicolons between them, and
/// nothing where there is no port.
pub open spec fn tells_ports(field: Seq<char>, ports: Seq<u16>) -> bool {
    if ports.len() == 0 {
        field.len() == 0
    } else {
        &&& split(field, ';').len() == ports.len()
        &&& forall|i: int|
            0 <= i < ports.len() ==> number(#[trigger] split(field, ';')[i]) == ports[i]
    }
}

/// The record has the nine fields of a host: its group, name and address, the word
/// for its status, its role, all of its open ports, its latency in milliseconds, and
/// the texts of the times at which it was seen and checked.
pub open spec fn tells_of(
    record: Seq<Seq<char>>,
    group: Seq<char>,
    host: Host,
    last_seen: Seq<char>,
    last_checked: Seq<char>,
) -> bool {
    &&& record.len() == 9
    &&& record[0] == group
    &&& record[1] == host.name@
    &&& record[2] == host.ip@
    &&& record[3] == match host.status {
        HostStatus::Unknown => "unknown"@,
        HostStatus::Up => "up"@,
        HostStatus::Down => "down"@,
    }
    &&& record[4] == role_of(host.open_ports@)
    &&& tells_ports(record[5], host.open_ports@)
    &&& match host.latency_ms {
        Some(ms) => record[6].len() > 0 && all_digits(record[6]) && number(record[6]) == ms,
        None => record[6].len() == 0,
    }
    &&& record[7] == last_seen
    &&& record[8] == last_checked
}

/// The text of a time in a snapshot: date and time of day, or nothing.
pub open spec fn tells_time(field: Seq<char>, time: Option<Stamp>) -> bool {
    match time {
        Some(t) => field == t.text("%Y-%m-%d %H:%M:%S"@),
        None => field.len() == 0,
    }
}

proof fn ports_are_told(ports: Seq<u16>)
    ensures
        tells_ports(joined_ports(ports, ";"@), ports),
{
    reveal_strlit(";");
    assert(";"@ =~= seq![';']);
    if ports.len() > 0 {
        ports_are_read_back(ports, ';');
    }
}

/// The fields of a host's line tell all of the host, whatever the number of its
/// ports.
pub proof fn fields_tell_of_the_host(
    group: Seq<char>,
    host: Host,
    last_seen: Seq<char>,
    last_checked: Seq<char>,
)
    ensures
        tells_of(
            host_fields(group, host@, last_seen, last_checked),
            group,
            host,
            last_seen,
            last_checked,
        ),
{
    ports_are_told(host.open_ports@);
    if let Some(ms) = host.latency_ms {
        decimal_is_read_back(ms as nat);
    }
}

/// A host's line reads back as a record that tells all of the host: its open ports,
/// read as numbers between semicolons, are just those of the host.
pub proof fn line_tells_of_the_host(
    group: Seq<char>,
    host: Host,
    last_seen: Seq<char>,
    last_checked: Seq<char>,
)
    ensures
        ({
            let line = record_text(host_fields(group, host@, last_seen, last_checked));
            tells_of(read_record(line + "\n"@).0, group, host, last_seen, last_checked)
        }),
{
    let fields = host_fields(group, host@, last_seen, last_checked);
    fields_tell_of_the_host(group, host, last_seen, last_checked);
    record_is_read_back(fields, seq![]);
    assert(record_text(fields) + "\n"@ + seq![] =~= record_text(fields) + "\n"@);
}

/// How many hosts the first `g` groups have.
pub open spec fn hosts_in_front(groups: Seq<Group>, g: int) -> int
    decreases g,
{
    if g <= 0 {
        0
    } else {
        hosts_in_front(groups, g - 1) + groups[g - 1].hosts@.len()
    }
}

proof fn host_records_are_in_order(group: Group, n: int)
    requires
        0 <= n <= group.hosts@.len(),
    ensures
        host_records(group, n).len() == n,
        forall|h: int|
            0 <= h < n ==> #[trigger] host_records(group, n)[h] == snapshot_fields(
                group.name@,
                group.hosts@[h]@,
            ),
    decreases n,
{
    if n > 0 {
        host_records_are_in_order(group, n - 1);
    }
}

proof fn group_records_are_in_order(groups: Seq<Group>, n: int, g: int, h: int)
    requires
        0 <= n <= groups.len(),
        0 <= g < n ==> 0 <= h < groups[g].hosts@.len(),
    ensures
        group_records(groups, n).len() == hosts_in_front(groups, n),
        0 <= g < n ==> 0 <= hosts_in_front(groups, g) + h < hosts_in_front(groups, n),
        0 <= g < n ==> group_records(groups, n)[hosts_in_front(groups, g) + h] == snapshot_fields(
            groups[g].name@,
            groups[g].hosts@[h]@,
        ),
    decreases n,
{
    if n > 0 {
        let last = groups[n - 1];
        group_records_are_in_order(groups, n - 1, g, h);
        group_records_are_in_order(groups, n - 1, -1, 0);
        host_records_are_in_order(last, last.hosts@.len() as int);
    }
}

/// A snapshot has a first record with the names of the columns and then one record
/// for each host, in the order of groups and hosts, which tells all of the host.
pub proof fn snapshot_tells_of_every_host(app: App, g: int, h: int)
    requires
        0 <= g < app.groups@.len(),
        0 <= h < app.groups@[g].hosts@.len(),
    ensures
        ({
            let records = read_records(app.snapshot_text());
            let host = app.groups@[g].hosts@[h];
            let record = records[1 + hosts_in_front(app.groups@, g) + h];
            &&& records.len() == 1 + hosts_in_front(app.groups@, app.groups@.len() as int)
            &&& records[0] == column_names()
            &&& 0 < 1 + hosts_in_front(app.groups@, g) + h < records.len()
            &&& tells_of(record, app.groups@[g].name@, host, record[7], record[8])
            &&& tells_time(record[7], host.last_seen)
            &&& tells_time(record[8], host.last_checked)
        }),
{
    let n = app.groups@.len() as int;
    let host = app.groups@[g].hosts@[h];
    snapshot_is_read_back(app);
    group_records_are_in_order(app.groups@, n, g, h);
    group_records_are_in_order(app.groups@, g, -1, 0);
    let records = read_records(app.snapshot_text());
    let fields = snapshot_fields(app.groups@[g].name@, host@);
    assert(hosts_in_front(app.groups@, g) >= 0);
    assert(records[1 + hosts_in_front(app.groups@, g) + h] == fields);
    fields_tell_of_the_host(
        app.groups@[g].name@,
        host,
        snapshot_time(host.last_seen),
        snapshot_time(host.last_checked),
    );
}

/// A snapshot of no groups has the names of the columns alone, on a line of its own.
pub proof fn empty_snapshot_has_the_column_names(app: App)
    requires
        app.groups@.len() == 0,
    ensures
        app.snapshot_text()
            == "group,host,ip,status,role,open_ports,latency_ms,last_seen,last_checked\n"@,
{
}

} // verus!

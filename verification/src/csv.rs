//! CSV snapshots of all hosts, in the notation of RFC 4180.

use crate::app::{App, Group, Host};
use crate::clock::Stamp;
use crate::host::{role_of, HostView};
use crate::text::{decimal, decimal_string, join_ports, joined_ports};
use vstd::prelude::*;

verus! {

/// The character makes quotes necessary.
pub open spec fn is_special(c: char) -> bool {
    c == ',' || c == '"' || c == '\n' || c == '\r'
}

/// The field cannot stand without quotes.
pub open spec fn needs_quotes(s: Seq<char>) -> bool {
    exists|i: int| 0 <= i < s.len() && is_special(#[trigger] s[i])
}

/// The text with each quote written twice.
pub open spec fn doubled(s: Seq<char>) -> Seq<char>
    decreases s.len(),
{
    if s.len() == 0 {
        s
    } else if s.last() == '"' {
        doubled(s.drop_last()).push('"').push('"')
    } else {
        doubled(s.drop_last()).push(s.last())
    }
}

/// A field as a CSV file has it.
pub open spec fn field_text(s: Seq<char>) -> Seq<char> {
    if needs_quotes(s) {
        seq!['"'] + doubled(s) + seq!['"']
    } else {
        s
    }
}

/// Quotes a CSV field if it contains a comma, quote, or newline (RFC 4180).
pub fn csv_field(s: &str) -> (r: String)
    ensures
        r@ == field_text(s@),
{
    let mut quote = false;
    let mut body = String::new();
    for c in it: s.chars()
        invariant
            it.seq() == s@,
            body@ == doubled(s@.take(it.index())),
            quote == needs_quotes(s@.take(it.index())),
    {
        let ghost i = it.index();
        assert(s@.take(i + 1).drop_last() == s@.take(i));
        assert(s@.take(i + 1).last() == c);
        proof {
            assert(forall|k: int| 0 <= k < i ==> s@.take(i)[k] == #[trigger] s@.take(i + 1)[k]);
            if quote {
                let k = choose|k: int| 0 <= k < i && is_special(#[trigger] s@.take(i)[k]);
                assert(is_special(s@.take(i + 1)[k]));
            }
            if is_special(c) {
                assert(is_special(s@.take(i + 1)[i]));
            }
        }
        if c == ',' || c == '"' || c == '\n' || c == '\r' {
            quote = true;
        }
        if c == '"' {
            body.push('"');
        }
        body.push(c);
    }
    assert(s@.take(s@.len() as int) == s@);
    if quote {
        let mut r = String::new();
        r.push('"');
        r.append(body.as_str());
        r.push('"');
        assert(r@ =~= seq!['"'] + doubled(s@) + seq!['"']);
        r
    } else {
        s.to_string()
    }
}

/// The fields, each as a CSV file has it, with commas between them.
pub open spec fn record_text(fields: Seq<Seq<char>>) -> Seq<char>
    decreases fields.len(),
{
    if fields.len() == 0 {
        seq![]
    } else if fields.len() == 1 {
        field_text(fields[0])
    } else {
        record_text(fields.drop_last()) + ","@ + field_text(fields.last())
    }
}

/// The first line of a snapshot.
pub open spec fn header_line() -> Seq<char> {
    "group,host,ip,status,role,open_ports,latency_ms,last_seen,last_checked\n"@
}

/// The fields of a host's line, given the texts of its two times.
pub open spec fn host_fields(
    group: Seq<char>,
    host: HostView,
    last_seen: Seq<char>,
    last_checked: Seq<char>,
) -> Seq<Seq<char>> {
    seq![
        group,
        host.name,
        host.ip,
        host.status.label_text(),
        role_of(host.open_ports),
        joined_ports(host.open_ports, ";"@),
        match host.latency_ms {
            Some(ms) => decimal(ms as nat),
            None => seq![],
        },
        last_seen,
        last_checked,
    ]
}

/// The notation of the times in a snapshot.
pub open spec fn snapshot_notation() -> Seq<char> {
    "%Y-%m-%d %H:%M:%S"@
}

/// An optional time as a snapshot has it: empty if there is none.
pub open spec fn snapshot_time(time: Option<Stamp>) -> Seq<char> {
    match time {
        Some(t) => t.text(snapshot_notation()),
        None => seq![],
    }
}

/// The fields of a host's line.
pub open spec fn snapshot_fields(group: Seq<char>, host: HostView) -> Seq<Seq<char>> {
    host_fields(group, host, snapshot_time(host.last_seen), snapshot_time(host.last_checked))
}

/// The lines of the first `n` hosts of a group.
pub open spec fn host_lines(group: Group, n: int) -> Seq<char>
    decreases n,
{
    if n <= 0 {
        seq![]
    } else {
        host_lines(group, n - 1) + record_text(
            snapshot_fields(group.name@, group.hosts@[n - 1]@),
        ) + "\n"@
    }
}

/// The lines of the hosts of the first `n` groups.
pub open spec fn group_lines(groups: Seq<Group>, n: int) -> Seq<char>
    decreases n,
{
    if n <= 0 {
        seq![]
    } else {
        group_lines(groups, n - 1) + host_lines(
            groups[n - 1],
            groups[n - 1].hosts@.len() as int,
        )
    }
}

/// A host's line, without the line break, given the texts of its two times.
pub fn csv_line(group: &str, host: &Host, last_seen: &str, last_checked: &str) -> (r: String)
    ensures
        r@ == record_text(host_fields(group@, host@, last_seen@, last_checked@)),
{
    assert(host.open_ports@.take(host.open_ports@.len() as int) == host.open_ports@);
    let ports = join_ports(&host.open_ports, host.open_ports.len(), ";");
    let latency = match host.latency_ms {
        Some(ms) => decimal_string(ms),
        None => String::new(),
    };
    let fields: Vec<&str> = vec![
        group,
        host.name.as_str(),
        host.ip.as_str(),
        host.status.label(),
        host.role_label(),
        ports.as_str(),
        latency.as_str(),
        last_seen,
        last_checked,
    ];
    let ghost goal = host_fields(group@, host@, last_seen@, last_checked@);
    let mut line = String::new();
    for i in 0..fields.len()
        invariant
            fields@.len() == goal.len(),
            forall|k: int| 0 <= k < goal.len() ==> (#[trigger] fields@[k])@ == goal[k],
            line@ == record_text(goal.take(i as int)),
    {
        assert(goal.take(i + 1).drop_last() == goal.take(i as int));
        let field = csv_field(fields[i]);
        if i > 0 {
            line.append(",");
        }
        line.append(field.as_str());
        assert(line@ =~= record_text(goal.take(i + 1)));
    }
    assert(goal.take(goal.len() as int) == goal);
    line
}

/// An optional time as a snapshot has it.
fn time_text(time: &Option<Stamp>) -> (r: String)
    ensures
        r@ == snapshot_time(*time),
{
    match time {
        Some(t) => t.format("%Y-%m-%d %H:%M:%S"),
        None => String::new(),
    }
}

impl App {
    /// The text of a snapshot.
    pub open spec fn snapshot_text(self) -> Seq<char> {
        header_line() + group_lines(self.groups@, self.groups@.len() as int)
    }

    /// Builds the CSV snapshot text for ALL hosts.
    pub fn build_csv(&self) -> (r: String)
        ensures
            r@ == self.snapshot_text(),
    {
        let mut out =
            "group,host,ip,status,role,open_ports,latency_ms,last_seen,last_checked\n".to_string();
        assert(out@ =~= header_line() + group_lines(self.groups@, 0));
        for g in 0..self.groups.len()
            invariant
                out@ == header_line() + group_lines(self.groups@, g as int),
        {
            let group = &self.groups[g];
            let ghost before = out@;
            assert(out@ =~= before + host_lines(*group, 0));
            for h in 0..group.hosts.len()
                invariant
                    group == self.groups@[g as int],
                    out@ == before + host_lines(*group, h as int),
            {
                let host = &group.hosts[h];
                let seen = time_text(&host.last_seen);
                let checked = time_text(&host.last_checked);
                let line = csv_line(
                    group.name.as_str(),
                    host,
                    seen.as_str(),
                    checked.as_str(),
                );
                out.append(line.as_str());
                out.append("\n");
                assert(out@ =~= before + host_lines(*group, h + 1));
            }
            assert(out@ =~= header_line() + group_lines(self.groups@, g + 1));
        }
        out
    }
}

/// The name of the file that a snapshot is written to, from the text of the time.
pub fn snapshot_name(time: &str) -> (r: String)
    ensures
        r@ == "netprobe-snapshot-"@ + time@ + ".csv"@,
{
    let mut name = "netprobe-snapshot-".to_string();
    name.append(time);
    name.append(".csv");
    name
}

/// The name of the file that a snapshot is written to now.
pub fn snapshot_name_now() -> (r: String)
    ensures
        exists|now: Stamp|
            now.is_valid() && r@ == "netprobe-snapshot-"@ + #[trigger] now.text("%Y%m%d-%H%M%S"@) + ".csv"@,
{
    let now = Stamp::now();
    let time = now.format("%Y%m%d-%H%M%S");
    let name = snapshot_name(time.as_str());
    assert(time@ == now.text("%Y%m%d-%H%M%S"@));
    name
}

} // verus!

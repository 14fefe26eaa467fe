//! The texts of the notifications that go to the operator.
use crate::database::{ClientRecord, ClientRow};
use crate::registry::records;
use crate::text::{decimal_i64, int_digits};
use vstd::prelude::*;
use vstd::string::*;

verus! {

/// The name shown for a client that has supplied none.
pub const DEFAULT_HOSTNAME: &'static str = "(no hostname)";

/// The name under which a client is shown: its hostname, or the placeholder
/// where the hostname is missing or empty.
pub open spec fn shown_hostname(hostname: Option<Seq<char>>) -> Seq<char> {
    match hostname {
        Some(name) if name.len() > 0 => name,
        _ => DEFAULT_HOSTNAME@,
    }
}

/// The text that announces a client that has come online.
pub open spec fn online_text(hostname: Seq<char>, id: i32, uuid: Seq<char>) -> Seq<char> {
    hostname + " ("@ + int_digits(id as int) + ": "@ + uuid + ") comes online"@
}

/// The line that names one client in the list of those gone offline.
pub open spec fn offline_line(c: ClientRecord) -> Seq<char> {
    "<b>"@ + shown_hostname(c.hostname) + "</b>: <code>"@ + c.uuid + "</code>"@
}

/// The lines put one under the other: a line break between each two, none
/// at the end.
pub open spec fn joined(lines: Seq<Seq<char>>) -> Seq<char>
    decreases lines.len(),
{
    if lines.len() == 0 {
        Seq::<char>::empty()
    } else if lines.len() == 1 {
        lines[0]
    } else {
        joined(lines.drop_last()) + "\n"@ + lines.last()
    }
}

/// The text that lists the clients gone offline: a heading, then one line
/// for each client, in the order given.
pub open spec fn offline_text(clients: Seq<ClientRecord>) -> Seq<char> {
    "Clients offline:\n"@ + joined(clients.map_values(|c: ClientRecord| offline_line(c)))
}

/// The name under which a client with the given hostname is shown.
pub fn hostname_or_default(hostname: Option<&str>) -> (shown: String)
    ensures
        shown@ == shown_hostname(
            match hostname {
                Some(name) => Some(name@),
                None => None,
            },
        ),
{
    match hostname {
        Some(name) => {
            if name.unicode_len() > 0 {
                String::from_str(name)
            } else {
                String::from_str(DEFAULT_HOSTNAME)
            }
        },
        None => String::from_str(DEFAULT_HOSTNAME),
    }
}

/// Writes the text that announces a client that has come online.
pub fn online_message(hostname: &str, id: i32, uuid: &str) -> (text: String)
    ensures
        text@ == online_text(hostname@, id, uuid@),
{
    let mut text = String::from_str(hostname);
    text.append(" (");
    text.append(decimal_i64(id as i64).as_str());
    text.append(": ");
    text.append(uuid);
    text.append(") comes online");
    text
}

/// Writes the text that lists the clients gone offline.
pub fn offline_message(clients: &Vec<ClientRow>) -> (text: String)
    ensures
        text@ == offline_text(records(clients@)),
{
    let ghost lines = records(clients@).map_values(|c: ClientRecord| offline_line(c));
    let mut text = String::from_str("Clients offline:\n");
    let mut i: usize = 0;
    proof {
        assert(lines.take(0) =~= Seq::empty());
    }
    while i < clients.len()
        invariant
            0 <= i <= clients.len(),
            lines == records(clients@).map_values(|c: ClientRecord| offline_line(c)),
            text@ == "Clients offline:\n"@ + joined(lines.take(i as int)),
        decreases clients.len() - i,
    {
        let row = &clients[i];
        let ghost before = text@;
        if i > 0 {
            text.append("\n");
        }
        text.append("<b>");
        let shown = match row.get_hostname() {
            Some(name) => hostname_or_default(Some(name.as_str())),
            None => hostname_or_default(None),
        };
        text.append(shown.as_str());
        text.append("</b>: <code>");
        text.append(row.get_uuid().as_str());
        text.append("</code>");
        proof {
            let done = lines.take(i as int);
            let next = lines.take(i as int + 1);
            assert(next.drop_last() =~= done);
            assert(next.last() == offline_line(row@));
            assert(text@ =~= "Clients offline:\n"@ + joined(next));
        }
        i += 1;
    }
    proof {
        assert(lines.take(i as int) =~= lines);
    }
    text
}

} // verus!

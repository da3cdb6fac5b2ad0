//! The connection listing of `netstat -n` (as macOS prints it).
use vstd::prelude::*;

use crate::num::{decimal, digit_of, lemma_read_back_radix, parse_radix, parse_unsigned};
use crate::text::{
    chars_of, copy_range, lines_of, owned, split_lines, split_words, string_of, views, words_of,
};
use crate::types::{connection_views, ConnectionView, NetworkConnection};

verus! {

/// The index of the last `c` below `j`, or -1.
pub open spec fn last_index(s: Seq<char>, c: char, j: int) -> int
    decreases j,
{
    if j <= 0 {
        -1
    } else if s[j - 1] == c {
        j - 1
    } else {
        last_index(s, c, j - 1)
    }
}

proof fn lemma_last_index(s: Seq<char>, c: char, j: int)
    requires
        0 <= j <= s.len(),
    ensures
        -1 <= last_index(s, c, j) < j,
        last_index(s, c, j) >= 0 ==> s[last_index(s, c, j)] == c,
    decreases j,
{
    if j > 0 && s[j - 1] != c {
        lemma_last_index(s, c, j - 1);
    }
}

/// An endpoint `ADDR.PORT` split at its last dot, the port read in decimal
/// (0 where it is no 16-bit number); without a dot, the whole text and port 0.
pub open spec fn addr_port_of(s: Seq<char>) -> (Seq<char>, u16) {
    let p = last_index(s, '.', s.len() as int);
    if p < 0 {
        (s, 0u16)
    } else {
        (
            s.subrange(0, p),
            match parse_unsigned(s.subrange(p + 1, s.len() as int), 10, 0xffff) {
                Some(v) => v as u16,
                None => 0u16,
            },
        )
    }
}

fn addr_port_chars(s: &Vec<char>) -> (r: (String, u16))
    ensures
        (r.0@, r.1) == addr_port_of(s@),
{
    proof {
        lemma_last_index(s@, '.', s.len() as int);
    }
    let mut j = s.len();
    while j > 0 && s[j - 1] != '.'
        invariant
            j <= s.len(),
            last_index(s@, '.', j as int) == last_index(s@, '.', s.len() as int),
        decreases j,
    {
        j = j - 1;
    }
    if j == 0 {
        return (string_of(s), 0);
    }
    let addr = copy_range(s, 0, j - 1);
    let port_text = copy_range(s, j, s.len());
    let port: u16 = match parse_radix(&port_text, 10, 0xffff) {
        Some(v) => v as u16,
        None => 0,
    };
    (string_of(&addr), port)
}

/// Splits an endpoint `ADDR.PORT` at its last dot.
pub fn split_addr_port(s: &str) -> (r: (String, u16))
    ensures
        (r.0@, r.1) == addr_port_of(s@),
{
    addr_port_chars(&chars_of(s))
}

proof fn lemma_last_index_skips(s: Seq<char>, c: char, k: int, j: int)
    requires
        0 <= k <= j <= s.len(),
        forall|i: int| k <= i < j ==> s[i] != c,
    ensures
        last_index(s, c, j) == last_index(s, c, k),
    decreases j,
{
    if j > k {
        lemma_last_index_skips(s, c, k, j - 1);
    }
}

/// An endpoint written as an address, a dot and a port in decimal splits
/// back into that address and that port, whatever dots the address holds.
pub proof fn lemma_split_undoes_join(addr: Seq<char>, port: u16)
    ensures
        addr_port_of(addr + seq!['.'] + decimal(port as nat)) == (addr, port),
{
    let d = decimal(port as nat);
    let s = addr + seq!['.'] + d;
    lemma_read_back_radix(port as nat, 10, 0xffff);
    assert forall|i: int| addr.len() + 1 <= i < s.len() implies s[i] != '.' by {
        let k = i - addr.len() - 1;
        assert(s[i] == d[k]);
        assert(digit_of(d[k], 10) is Some);
    }
    lemma_last_index_skips(s, '.', addr.len() + 1int, s.len() as int);
    assert(s[addr.len() as int] == '.');
    assert(last_index(s, '.', addr.len() + 1int) == addr.len());
    assert(s.subrange(0, addr.len() as int) =~= addr);
    assert(s.subrange(addr.len() + 1int, s.len() as int) =~= d);
}

/// The rows of a listing: its lines after the two header lines.
pub open spec fn listing_rows(output: Seq<char>) -> Seq<Seq<char>> {
    let all = lines_of(output);
    if all.len() <= 2 {
        seq![]
    } else {
        all.subrange(2, all.len() as int)
    }
}

/// The connection a row (split into words, at least five) describes.
pub open spec fn listing_connection(words: Seq<Seq<char>>, protocol: Seq<char>) -> ConnectionView {
    let local = addr_port_of(words[3]);
    let remote = addr_port_of(words[4]);
    ConnectionView {
        protocol: protocol,
        local_address: local.0,
        local_port: local.1,
        remote_address: remote.0,
        remote_port: remote.1,
        state: if words.len() > 5 {
            words[5]
        } else {
            "N/A"@
        },
        pid: None,
        process_name: None,
    }
}

/// A listing row whose fourth and fifth words are endpoints `ADDR.PORT`
/// gives a connection of the row's protocol between those two endpoints,
/// with the sixth word as its state (`"N/A"` where the row has none) and no
/// owning process.
pub proof fn lemma_listing_row_fields(
    words: Seq<Seq<char>>,
    protocol: Seq<char>,
    local: Seq<char>,
    local_port: u16,
    remote: Seq<char>,
    remote_port: u16,
)
    requires
        words.len() >= 5,
        words[3] == local + seq!['.'] + decimal(local_port as nat),
        words[4] == remote + seq!['.'] + decimal(remote_port as nat),
    ensures
        listing_connection(words, protocol).protocol == protocol,
        listing_connection(words, protocol).local_address == local,
        listing_connection(words, protocol).local_port == local_port,
        listing_connection(words, protocol).remote_address == remote,
        listing_connection(words, protocol).remote_port == remote_port,
        words.len() > 5 ==> listing_connection(words, protocol).state == words[5],
        words.len() == 5 ==> listing_connection(words, protocol).state == "N/A"@,
        listing_connection(words, protocol).pid is None,
        listing_connection(words, protocol).process_name is None,
{
    lemma_split_undoes_join(local, local_port);
    lemma_split_undoes_join(remote, remote_port);
}

/// The connections of the first `k` rows; rows of fewer than four words are
/// passed over.
pub open spec fn listing_upto(rows: Seq<Seq<char>>, k: int, protocol: Seq<char>) -> Seq<
    ConnectionView,
>
    decreases k,
{
    if k <= 0 {
        seq![]
    } else {
        let prev = listing_upto(rows, k - 1, protocol);
        let w = words_of(rows[k - 1]);
        if w.len() >= 4 {
            prev.push(listing_connection(w, protocol))
        } else {
            prev
        }
    }
}

/// The connections a listing shows.
pub open spec fn listing_connections(output: Seq<char>, protocol: Seq<char>) -> Seq<ConnectionView> {
    listing_upto(listing_rows(output), listing_rows(output).len() as int, protocol)
}

/// No row of the listing has exactly four words: such a row has a local
/// endpoint and no remote one, and the reader does not accept it.
pub open spec fn listing_readable(output: Seq<char>) -> bool {
    forall|i: int|
        0 <= i < listing_rows(output).len() ==> words_of(#[trigger] listing_rows(output)[i]).len()
            != 4
}

/// The connections `netstat -n` shows for one protocol.
pub fn parse_netstat(output: &str, protocol: &str) -> (r: Vec<NetworkConnection>)
    requires
        listing_readable(output@),
    ensures
        connection_views(r@) == listing_connections(output@, protocol@),
{
    let lines = split_lines(&chars_of(output));
    let proto = chars_of(protocol);
    let ghost rows = listing_rows(output@);
    proof {
        if lines.len() > 2 {
            assert(rows =~= views(lines@).subrange(2, lines.len() as int));
        } else {
            assert(rows =~= seq![]);
        }
    }
    let mut res: Vec<NetworkConnection> = Vec::new();
    let mut i: usize = 2;
    while i < lines.len()
        invariant
            2 <= i,
            i <= lines.len() || (lines.len() <= 2 && i == 2),
            rows == listing_rows(output@),
            listing_readable(output@),
            proto@ == protocol@,
            lines.len() > 2 ==> rows.len() == lines.len() - 2,
            lines.len() <= 2 ==> rows.len() == 0,
            forall|j: int| 0 <= j < rows.len() ==> #[trigger] rows[j] == lines@[j + 2]@,
            connection_views(res@) == listing_upto(rows, i - 2, protocol@),
        decreases lines.len() - i,
    {
        let words = split_words(&lines[i]);
        proof {
            assert(rows[i - 2] == lines@[i as int]@);
        }
        if words.len() >= 4 {
            let ghost w = views(words@);
            proof {
                assert(w == words_of(rows[i - 2]));
                assert(w.len() != 4);
                assert(w[3] == words@[3]@);
                assert(w[4] == words@[4]@);
                if words.len() > 5 {
                    assert(w[5] == words@[5]@);
                }
            }
            let local = addr_port_chars(&words[3]);
            let remote = addr_port_chars(&words[4]);
            let state = if words.len() > 5 {
                string_of(&words[5])
            } else {
                owned("N/A")
            };
            let conn = NetworkConnection {
                protocol: string_of(&proto),
                local_address: local.0,
                local_port: local.1,
                remote_address: remote.0,
                remote_port: remote.1,
                state: state,
                pid: None,
                process_name: None,
            };
            proof {
                assert(conn@ == listing_connection(w, protocol@));
            }
            let ghost before = res@;
            res.push(conn);
            proof {
                assert(connection_views(res@) =~= connection_views(before).push(conn@));
            }
        }
        i = i + 1;
    }
    proof {
        if lines.len() <= 2 {
            assert(listing_upto(rows, 0, protocol@) =~= seq![]);
        }
    }
    res
}

/// `listing_readable`, decided.
pub fn netstat_readable(output: &str) -> (b: bool)
    ensures
        b == listing_readable(output@),
{
    let lines = split_lines(&chars_of(output));
    let ghost rows = listing_rows(output@);
    proof {
        if lines.len() > 2 {
            assert(rows =~= views(lines@).subrange(2, lines.len() as int));
        } else {
            assert(rows =~= seq![]);
        }
    }
    let mut i: usize = 2;
    while i < lines.len()
        invariant
            2 <= i,
            rows == listing_rows(output@),
            lines.len() > 2 ==> rows.len() == lines.len() - 2,
            lines.len() <= 2 ==> rows.len() == 0,
            forall|j: int| 0 <= j < rows.len() ==> #[trigger] rows[j] == lines@[j + 2]@,
            forall|j: int| 0 <= j < i - 2 && j < rows.len() ==> words_of(#[trigger] rows[j]).len() != 4,
        decreases lines.len() - i,
    {
        let words = split_words(&lines[i]);
        proof {
            assert(rows[i - 2] == lines@[i as int]@);
        }
        if words.len() == 4 {
            return false;
        }
        i = i + 1;
    }
    true
}

} // verus!

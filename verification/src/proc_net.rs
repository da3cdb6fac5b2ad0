//! The kernel's socket tables (`/proc/net/tcp`, `tcp6`, `udp`, `udp6`):
//! addresses, states and the connections they list.
use std::collections::HashMap;
use vstd::prelude::*;

use crate::num::{decimal, hex, hex2, parse_radix, parse_unsigned, push_radix};
use crate::text::{
    char_pred, chars_eq, chars_of, copy_range, find_char, find_from, has_prefix, lemma_find_from,
    lines_of, owned, split_lines, split_words, starts_with, string_of, trim, trim_chars, views,
    words_of,
};
use crate::types::{connection_views, opt_view, ConnectionView, NetworkConnection};

verus! {

broadcast use vstd::std_specs::hash::group_hash_axioms;

/// The number of bytes UTF-8 takes for `c`.
pub open spec fn char_len(c: char) -> nat {
    let u = c as u32;
    if u < 0x80 {
        1
    } else if u < 0x800 {
        2
    } else if u < 0x10000 {
        3
    } else {
        4
    }
}

/// The UTF-8 length of the first `k` characters of `s`.
pub open spec fn byte_len_upto(s: Seq<char>, k: int) -> nat
    decreases k,
{
    if k <= 0 {
        0
    } else {
        byte_len_upto(s, k - 1) + char_len(s[k - 1])
    }
}

/// The UTF-8 length of `s` (what `str::len` gives).
pub open spec fn byte_len(s: Seq<char>) -> nat {
    byte_len_upto(s, s.len() as int)
}

/// The character index, at or after `k`, at which `b` bytes of `s` end.
pub open spec fn index_at_byte_from(s: Seq<char>, b: nat, k: int) -> Option<int>
    decreases s.len() - k,
{
    if k < 0 || k > s.len() {
        None
    } else if byte_len_upto(s, k) == b {
        Some(k)
    } else if k == s.len() || byte_len_upto(s, k) > b {
        None
    } else {
        index_at_byte_from(s, b, k + 1)
    }
}

/// The character index at which the first `b` bytes of `s` end, if byte
/// offset `b` falls between two characters.
pub open spec fn index_at_byte(s: Seq<char>, b: nat) -> Option<int> {
    index_at_byte_from(s, b, 0)
}

proof fn lemma_byte_len_mono(s: Seq<char>, k: int, j: int)
    requires
        0 <= k <= j,
    ensures
        byte_len_upto(s, k) <= byte_len_upto(s, j),
    decreases j,
{
    if k < j {
        lemma_byte_len_mono(s, k, j - 1);
    }
}

/// The index of the first `':'` of `h`, or its length.
pub open spec fn colon_at(h: Seq<char>) -> int {
    find_from(h, 0, char_pred(':'))
}

/// `h` splits on `':'` into exactly two parts.
pub open spec fn has_two_parts(h: Seq<char>) -> bool {
    colon_at(h) < h.len() && find_from(h, colon_at(h) + 1, char_pred(':')) >= h.len()
}

/// The part of `h` before its colon.
pub open spec fn addr_part(h: Seq<char>) -> Seq<char> {
    h.subrange(0, colon_at(h))
}

/// The part of `h` after its colon.
pub open spec fn port_part(h: Seq<char>) -> Seq<char> {
    h.subrange(colon_at(h) + 1, h.len() as int)
}

/// A hexadecimal 32-bit word, or 0 where the text is no such word.
pub open spec fn hex_word(s: Seq<char>) -> nat {
    match parse_unsigned(s, 16, 0xffff_ffff) {
        Some(v) => v,
        None => 0,
    }
}

/// Dotted-decimal text of the four bytes of `v`, least significant first.
pub open spec fn ipv4_text(v: nat) -> Seq<char> {
    decimal(v % 256) + seq!['.'] + decimal((v / 256) % 256) + seq!['.'] + decimal(
        (v / 65536) % 256,
    ) + seq!['.'] + decimal((v / 16777216) % 256)
}

/// The dotted text of an address word lists its four bytes, least
/// significant first (the order in which they sit in memory on a
/// little-endian host).
pub proof fn lemma_ipv4_bytes(a: nat, b: nat, c: nat, d: nat)
    requires
        a < 256,
        b < 256,
        c < 256,
        d < 256,
    ensures
        ipv4_text(a + 256 * b + 65536 * c + 16777216 * d) == decimal(a) + seq!['.'] + decimal(b)
            + seq!['.'] + decimal(c) + seq!['.'] + decimal(d),
{
    let v = a + 256 * b + 65536 * c + 16777216 * d;
    assert(v % 256 == a && (v / 256) % 256 == b && (v / 65536) % 256 == c && (v / 16777216) % 256 == d)
        by (nonlinear_arith)
        requires
            v == a + 256 * b + 65536 * c + 16777216 * d,
            a < 256,
            b < 256,
            c < 256,
            d < 256,
    ;
}

/// The eight hex digits of `v`, most significant byte first, with a colon
/// after the first four.
pub open spec fn word_text(v: nat) -> Seq<char> {
    hex2((v / 16777216) % 256) + hex2((v / 65536) % 256) + seq![':'] + hex2((v / 256) % 256)
        + hex2(v % 256)
}

/// The four 8-byte segments of a 32-byte address field.
pub open spec fn segment(a: Seq<char>, i: int) -> Seq<char> {
    let lo = if i == 0 {
        0
    } else {
        index_at_byte(a, (8 * i) as nat)->0
    };
    let hi = if i == 3 {
        a.len() as int
    } else {
        index_at_byte(a, (8 * (i + 1)) as nat)->0
    };
    a.subrange(lo, hi)
}

/// The text of a 32-byte address field: each 8-byte segment read as a hex
/// word and written back as two colon-separated groups of four hex digits.
/// This is how the table's words read on a little-endian host.
pub open spec fn ipv6_text(a: Seq<char>) -> Seq<char> {
    word_text(hex_word(segment(a, 0))) + seq![':'] + word_text(hex_word(segment(a, 1))) + seq![':']
        + word_text(hex_word(segment(a, 2))) + seq![':'] + word_text(hex_word(segment(a, 3)))
}

/// The address text and port of a table field `ADDR:PORT`, both in hex.
pub open spec fn address_of(h: Seq<char>) -> (Seq<char>, u16) {
    if !has_two_parts(h) {
        ("Unknown"@, 0u16)
    } else {
        let a = addr_part(h);
        let port: u16 = match parse_unsigned(port_part(h), 16, 0xffff) {
            Some(v) => v as u16,
            None => 0u16,
        };
        let text = if byte_len(a) == 8 {
            ipv4_text(hex_word(a))
        } else if byte_len(a) == 32 {
            ipv6_text(a)
        } else {
            "Unknown"@
        };
        (text, port)
    }
}

/// The address field can be cut at its 8-byte offsets; a 32-byte field that
/// cannot is one the table reader does not accept.
pub open spec fn address_sliceable(h: Seq<char>) -> bool {
    has_two_parts(h) && byte_len(addr_part(h)) == 32 ==> {
        &&& index_at_byte(addr_part(h), 8) is Some
        &&& index_at_byte(addr_part(h), 16) is Some
        &&& index_at_byte(addr_part(h), 24) is Some
    }
}

/// The name of a TCP state code; UDP sockets have none.
pub open spec fn state_name(hex: Seq<char>, protocol: Seq<char>) -> Seq<char> {
    if has_prefix(protocol, "UDP"@) {
        "N/A"@
    } else if hex == "01"@ {
        "ESTABLISHED"@
    } else if hex == "02"@ {
        "SYN_SENT"@
    } else if hex == "03"@ {
        "SYN_RECV"@
    } else if hex == "04"@ {
        "FIN_WAIT1"@
    } else if hex == "05"@ {
        "FIN_WAIT2"@
    } else if hex == "06"@ {
        "TIME_WAIT"@
    } else if hex == "07"@ {
        "CLOSE"@
    } else if hex == "08"@ {
        "CLOSE_WAIT"@
    } else if hex == "09"@ {
        "LAST_ACK"@
    } else if hex == "0A"@ {
        "LISTEN"@
    } else if hex == "0B"@ {
        "CLOSING"@
    } else {
        "UNKNOWN"@
    }
}

/// The kernel's TCP state codes, as the table names them for every protocol
/// other than UDP: 01 ESTABLISHED, 02 SYN_SENT, 03 SYN_RECV, 04 FIN_WAIT1,
/// 05 FIN_WAIT2, 06 TIME_WAIT, 07 CLOSE, 08 CLOSE_WAIT, 09 LAST_ACK,
/// 0A LISTEN, 0B CLOSING.
pub proof fn lemma_tcp_state_codes(protocol: Seq<char>)
    requires
        !has_prefix(protocol, "UDP"@),
    ensures
        state_name("01"@, protocol) == "ESTABLISHED"@,
        state_name("02"@, protocol) == "SYN_SENT"@,
        state_name("03"@, protocol) == "SYN_RECV"@,
        state_name("04"@, protocol) == "FIN_WAIT1"@,
        state_name("05"@, protocol) == "FIN_WAIT2"@,
        state_name("06"@, protocol) == "TIME_WAIT"@,
        state_name("07"@, protocol) == "CLOSE"@,
        state_name("08"@, protocol) == "CLOSE_WAIT"@,
        state_name("09"@, protocol) == "LAST_ACK"@,
        state_name("0A"@, protocol) == "LISTEN"@,
        state_name("0B"@, protocol) == "CLOSING"@,
{
    reveal_strlit("01");
    assert("01"@[1] == '1');
    reveal_strlit("02");
    assert("02"@[1] == '2');
    reveal_strlit("03");
    assert("03"@[1] == '3');
    reveal_strlit("04");
    assert("04"@[1] == '4');
    reveal_strlit("05");
    assert("05"@[1] == '5');
    reveal_strlit("06");
    assert("06"@[1] == '6');
    reveal_strlit("07");
    assert("07"@[1] == '7');
    reveal_strlit("08");
    assert("08"@[1] == '8');
    reveal_strlit("09");
    assert("09"@[1] == '9');
    reveal_strlit("0A");
    assert("0A"@[1] == 'A');
    reveal_strlit("0B");
    assert("0B"@[1] == 'B');
}

/// A UDP socket has no state: every code reads `"N/A"`.
pub proof fn lemma_udp_has_no_state(hex: Seq<char>, protocol: Seq<char>)
    requires
        has_prefix(protocol, "UDP"@),
    ensures
        state_name(hex, protocol) == "N/A"@,
{
}

/// The inode of a table row's inode field, or 0 where it is no number.
pub open spec fn inode_of(w: Seq<char>) -> u64 {
    match parse_unsigned(w, 10, 0xffff_ffff_ffff_ffff) {
        Some(v) => v as u64,
        None => 0,
    }
}

/// The connection a table row (split into words) describes.
pub open spec fn row_connection(
    words: Seq<Seq<char>>,
    protocol: Seq<char>,
    owners: Map<u64, (u32, String)>,
) -> ConnectionView {
    let local = address_of(words[1]);
    let remote = address_of(words[2]);
    let inode = inode_of(words[9]);
    ConnectionView {
        protocol: protocol,
        local_address: local.0,
        local_port: local.1,
        remote_address: remote.0,
        remote_port: remote.1,
        state: state_name(words[3], protocol),
        pid: if owners.contains_key(inode) {
            Some(owners[inode].0)
        } else {
            None
        },
        process_name: if owners.contains_key(inode) {
            Some(owners[inode].1@)
        } else {
            None
        },
    }
}

/// A table row reads by field position: the local endpoint is the second
/// field, the remote endpoint the third, the state code the fourth and the
/// inode the tenth; the owning process is the one `owners` gives for that
/// inode, if any.
pub proof fn lemma_row_fields(words: Seq<Seq<char>>, protocol: Seq<char>, owners: Map<u64, (u32, String)>)
    requires
        words.len() >= 10,
    ensures
        row_connection(words, protocol, owners).protocol == protocol,
        (row_connection(words, protocol, owners).local_address, row_connection(words, protocol, owners).local_port)
            == address_of(words[1]),
        (row_connection(words, protocol, owners).remote_address, row_connection(words, protocol, owners).remote_port)
            == address_of(words[2]),
        row_connection(words, protocol, owners).state == state_name(words[3], protocol),
        owners.contains_key(inode_of(words[9])) ==> row_connection(words, protocol, owners).pid == Some(
            owners[inode_of(words[9])].0,
        ) && row_connection(words, protocol, owners).process_name == Some(owners[inode_of(words[9])].1@),
        !owners.contains_key(inode_of(words[9])) ==> row_connection(words, protocol, owners).pid is None
            && row_connection(words, protocol, owners).process_name is None,
{
}

/// The connections of the first `k` rows: rows of fewer than ten words are
/// passed over.
pub open spec fn connections_upto(
    rows: Seq<Seq<char>>,
    k: int,
    protocol: Seq<char>,
    owners: Map<u64, (u32, String)>,
) -> Seq<ConnectionView>
    decreases k,
{
    if k <= 0 {
        seq![]
    } else {
        let prev = connections_upto(rows, k - 1, protocol, owners);
        let w = words_of(rows[k - 1]);
        if w.len() >= 10 {
            prev.push(row_connection(w, protocol, owners))
        } else {
            prev
        }
    }
}

/// The rows of a table: its lines after the header line.
pub open spec fn table_rows(content: Seq<char>) -> Seq<Seq<char>> {
    let all = lines_of(content);
    if all.len() == 0 {
        seq![]
    } else {
        all.subrange(1, all.len() as int)
    }
}

/// The connections a socket table lists.
pub open spec fn table_connections(
    content: Seq<char>,
    protocol: Seq<char>,
    owners: Map<u64, (u32, String)>,
) -> Seq<ConnectionView> {
    connections_upto(table_rows(content), table_rows(content).len() as int, protocol, owners)
}

/// Every row of the table that is read has address fields that can be cut.
pub open spec fn table_sliceable(content: Seq<char>) -> bool {
    forall|i: int|
        0 <= i < table_rows(content).len() && words_of(#[trigger] table_rows(content)[i]).len()
            >= 10 ==> address_sliceable(words_of(table_rows(content)[i])[1]) && address_sliceable(
            words_of(table_rows(content)[i])[2],
        )
}

fn char_byte_len(c: char) -> (n: usize)
    ensures
        n == char_len(c),
{
    let u = c as u32;
    if u < 0x80 {
        1
    } else if u < 0x800 {
        2
    } else if u < 0x10000 {
        3
    } else {
        4
    }
}

/// The character index at which the first `b` bytes of `s` end.
fn index_at(s: &Vec<char>, b: usize) -> (r: Option<usize>)
    requires
        b <= 1024,
    ensures
        match r {
            Some(k) => index_at_byte(s@, b as nat) == Some(k as int),
            None => index_at_byte(s@, b as nat) is None,
        },
{
    let mut k: usize = 0;
    let mut acc: usize = 0;
    loop
        invariant
            k <= s.len(),
            b <= 1024,
            acc == byte_len_upto(s@, k as int),
            acc <= b,
            index_at_byte_from(s@, b as nat, 0) == index_at_byte_from(s@, b as nat, k as int),
        decreases s.len() - k,
    {
        if acc == b {
            return Some(k);
        }
        if k == s.len() {
            return None;
        }
        let next = acc + char_byte_len(s[k]);
        if next > b {
            proof {
                assert(index_at_byte_from(s@, b as nat, (k + 1) as int) is None);
            }
            return None;
        }
        acc = next;
        k = k + 1;
    }
}

/// `byte_len(s) == n`.
fn byte_len_is(s: &Vec<char>, n: usize) -> (r: bool)
    requires
        n <= 1024,
    ensures
        r == (byte_len(s@) == n),
{
    let mut k: usize = 0;
    let mut acc: usize = 0;
    while k < s.len()
        invariant
            k <= s.len(),
            n <= 1024,
            acc == byte_len_upto(s@, k as int),
            acc <= n,
        decreases s.len() - k,
    {
        let next = acc + char_byte_len(s[k]);
        if next > n {
            proof {
                lemma_byte_len_mono(s@, (k + 1) as int, s.len() as int);
            }
            return false;
        }
        acc = next;
        k = k + 1;
    }
    acc == n
}

/// Appends `b` as two lower-case hex digits.
fn push_hex2(out: &mut Vec<char>, b: u64)
    requires
        b < 256,
    ensures
        final(out)@ == old(out)@ + hex2(b as nat),
{
    if b < 16 {
        out.push('0');
        push_radix(out, b, 16);
        proof {
            assert(final(out)@ =~= old(out)@ + seq!['0'].add(hex(b as nat)));
        }
    } else {
        push_radix(out, b, 16);
    }
}

/// Appends `word_text(v)`.
fn push_word(out: &mut Vec<char>, v: u64)
    requires
        v <= 0xffff_ffff,
    ensures
        final(out)@ == old(out)@ + word_text(v as nat),
{
    push_hex2(out, (v / 16777216) % 256);
    push_hex2(out, (v / 65536) % 256);
    out.push(':');
    push_hex2(out, (v / 256) % 256);
    push_hex2(out, v % 256);
    proof {
        assert(final(out)@ =~= old(out)@ + word_text(v as nat));
    }
}

/// `hex_word` of `s`.
fn read_hex_word(s: &Vec<char>) -> (v: u64)
    ensures
        v == hex_word(s@),
        v <= 0xffff_ffff,
{
    match parse_radix(s, 16, 0xffff_ffff) {
        Some(v) => v,
        None => 0,
    }
}

/// The text and port of a table field, over its characters.
#[verifier::spinoff_prover]
fn address_chars(h: &Vec<char>) -> (r: (String, u16))
    requires
        address_sliceable(h@),
    ensures
        (r.0@, r.1) == address_of(h@),
{
    let c = find_char(h, 0, ':');
    proof {
        lemma_find_from(h@, 0, char_pred(':'));
    }
    if c >= h.len() {
        return (owned("Unknown"), 0);
    }
    let c2 = find_char(h, c + 1, ':');
    proof {
        lemma_find_from(h@, c + 1, char_pred(':'));
    }
    if c2 < h.len() {
        return (owned("Unknown"), 0);
    }
    let a = copy_range(h, 0, c);
    let p = copy_range(h, c + 1, h.len());
    let port: u16 = match parse_radix(&p, 16, 0xffff) {
        Some(v) => v as u16,
        None => 0,
    };
    let mut out: Vec<char> = Vec::new();
    if byte_len_is(&a, 8) {
        let v = read_hex_word(&a);
        push_radix(&mut out, v % 256, 10);
        out.push('.');
        push_radix(&mut out, (v / 256) % 256, 10);
        out.push('.');
        push_radix(&mut out, (v / 65536) % 256, 10);
        out.push('.');
        push_radix(&mut out, (v / 16777216) % 256, 10);
        proof {
            assert(out@ =~= ipv4_text(v as nat));
        }
        (string_of(&out), port)
    } else if byte_len_is(&a, 32) {
        let k1 = index_at(&a, 8).unwrap();
        let k2 = index_at(&a, 16).unwrap();
        let k3 = index_at(&a, 24).unwrap();
        proof {
            lemma_index_at_byte_bound(a@, 8);
            lemma_index_at_byte_bound(a@, 16);
            lemma_index_at_byte_bound(a@, 24);
            lemma_index_at_byte_order(a@, 8, 16);
            lemma_index_at_byte_order(a@, 16, 24);
        }
        let s0 = copy_range(&a, 0, k1);
        let s1 = copy_range(&a, k1, k2);
        let s2 = copy_range(&a, k2, k3);
        let s3 = copy_range(&a, k3, a.len());
        push_word(&mut out, read_hex_word(&s0));
        out.push(':');
        push_word(&mut out, read_hex_word(&s1));
        out.push(':');
        push_word(&mut out, read_hex_word(&s2));
        out.push(':');
        push_word(&mut out, read_hex_word(&s3));
        proof {
            assert(s0@ == segment(a@, 0));
            assert(s1@ == segment(a@, 1));
            assert(s2@ == segment(a@, 2));
            assert(s3@ == segment(a@, 3));
            assert(out@ =~= ipv6_text(a@));
        }
        (string_of(&out), port)
    } else {
        (owned("Unknown"), port)
    }
}

proof fn lemma_index_at_byte_from_bound(s: Seq<char>, b: nat, k: int)
    requires
        0 <= k <= s.len(),
    ensures
        index_at_byte_from(s, b, k) matches Some(j) ==> k <= j <= s.len() && byte_len_upto(s, j)
            == b,
    decreases s.len() - k,
{
    if byte_len_upto(s, k) != b && k < s.len() && byte_len_upto(s, k) <= b {
        lemma_index_at_byte_from_bound(s, b, k + 1);
    }
}

proof fn lemma_index_at_byte_bound(s: Seq<char>, b: nat)
    ensures
        index_at_byte(s, b) matches Some(j) ==> 0 <= j <= s.len() && byte_len_upto(s, j) == b,
{
    lemma_index_at_byte_from_bound(s, b, 0);
}

proof fn lemma_index_at_byte_order(s: Seq<char>, b1: nat, b2: nat)
    requires
        b1 < b2,
        index_at_byte(s, b1) is Some,
        index_at_byte(s, b2) is Some,
    ensures
        index_at_byte(s, b1)->0 < index_at_byte(s, b2)->0,
{
    lemma_index_at_byte_bound(s, b1);
    lemma_index_at_byte_bound(s, b2);
    let j1 = index_at_byte(s, b1)->0;
    let j2 = index_at_byte(s, b2)->0;
    if j2 <= j1 {
        lemma_byte_len_mono(s, j2, j1);
    }
}

/// The address text and port of a socket table field `ADDR:PORT`.
pub fn parse_address(hex: &str) -> (r: (String, u16))
    requires
        address_sliceable(hex@),
    ensures
        (r.0@, r.1) == address_of(hex@),
{
    let h = chars_of(hex);
    address_chars(&h)
}

/// `state_name` over characters.
fn state_chars(hex: &Vec<char>, protocol: &Vec<char>) -> (r: String)
    ensures
        r@ == state_name(hex@, protocol@),
{
    if starts_with(protocol, &chars_of("UDP")) {
        return owned("N/A");
    }
    let name = if chars_eq(hex, &chars_of("01")) {
        "ESTABLISHED"
    } else if chars_eq(hex, &chars_of("02")) {
        "SYN_SENT"
    } else if chars_eq(hex, &chars_of("03")) {
        "SYN_RECV"
    } else if chars_eq(hex, &chars_of("04")) {
        "FIN_WAIT1"
    } else if chars_eq(hex, &chars_of("05")) {
        "FIN_WAIT2"
    } else if chars_eq(hex, &chars_of("06")) {
        "TIME_WAIT"
    } else if chars_eq(hex, &chars_of("07")) {
        "CLOSE"
    } else if chars_eq(hex, &chars_of("08")) {
        "CLOSE_WAIT"
    } else if chars_eq(hex, &chars_of("09")) {
        "LAST_ACK"
    } else if chars_eq(hex, &chars_of("0A")) {
        "LISTEN"
    } else if chars_eq(hex, &chars_of("0B")) {
        "CLOSING"
    } else {
        "UNKNOWN"
    };
    owned(name)
}

/// The name of a socket's state code; `"N/A"` for UDP sockets.
pub fn parse_state(hex: &str, protocol: &str) -> (r: String)
    ensures
        r@ == state_name(hex@, protocol@),
{
    state_chars(&chars_of(hex), &chars_of(protocol))
}

/// The connections a socket table lists, each joined to the process that
/// owns its inode where `inode_map` knows one.
pub fn parse_proc_net(content: &str, protocol: &str, inode_map: &HashMap<u64, (u32, String)>) -> (r:
    Vec<NetworkConnection>)
    requires
        table_sliceable(content@),
    ensures
        connection_views(r@) == table_connections(content@, protocol@, inode_map@),
{
    let chars = chars_of(content);
    let proto = chars_of(protocol);
    let lines = split_lines(&chars);
    let ghost rows = table_rows(content@);
    proof {
        if lines.len() > 0 {
            assert(rows =~= views(lines@).subrange(1, lines.len() as int));
        } else {
            assert(rows =~= seq![]);
        }
    }
    let mut res: Vec<NetworkConnection> = Vec::new();
    let mut i: usize = 1;
    while i < lines.len()
        invariant
            1 <= i,
            i <= lines.len() || (lines.len() == 0 && i == 1),
            rows == table_rows(content@),
            table_sliceable(content@),
            proto@ == protocol@,
            lines.len() > 0 ==> rows.len() == lines.len() - 1,
            lines.len() == 0 ==> rows.len() == 0,
            forall|j: int| 0 <= j < rows.len() ==> #[trigger] rows[j] == lines@[j + 1]@,
            connection_views(res@) == connections_upto(rows, i - 1, protocol@, inode_map@),
        decreases lines.len() - i,
    {
        let words = split_words(&lines[i]);
        let ghost row = rows[i - 1];
        proof {
            assert(row == lines@[i as int]@);
        }
        if words.len() >= 10 {
            let ghost w = views(words@);
            proof {
                assert(w == words_of(row));
                assert(address_sliceable(w[1]) && address_sliceable(w[2]));
                assert(w[1] == words@[1]@);
                assert(w[2] == words@[2]@);
                assert(w[3] == words@[3]@);
                assert(w[9] == words@[9]@);
            }
            let local = address_chars(&words[1]);
            let remote = address_chars(&words[2]);
            let state = state_chars(&words[3], &proto);
            let inode: u64 = match parse_radix(&words[9], 10, 0xffff_ffff_ffff_ffff) {
                Some(v) => v,
                None => 0,
            };
            let (pid, process_name) = match inode_map.get(&inode) {
                Some(owner) => (Some(owner.0), Some(owner.1.clone())),
                None => (None, None),
            };
            let conn = NetworkConnection {
                protocol: string_of(&proto),
                local_address: local.0,
                local_port: local.1,
                remote_address: remote.0,
                remote_port: remote.1,
                state: state,
                pid: pid,
                process_name: process_name,
            };
            proof {
                assert(conn@ == row_connection(w, protocol@, inode_map@));
            }
            let ghost before = res@;
            res.push(conn);
            proof {
                assert(connection_views(res@) =~= connection_views(before).push(conn@));
            }
        }
        i = i + 1;
    }
    proof {
        if lines.len() == 0 {
            assert(connections_upto(rows, 0, protocol@, inode_map@) =~= seq![]);
            assert(rows.len() == 0);
        } else {
            assert(i == lines.len());
            assert(rows.len() == i - 1);
        }
        assert(table_connections(content@, protocol@, inode_map@) == connections_upto(
            rows,
            rows.len() as int,
            protocol@,
            inode_map@,
        ));
    }
    res
}

/// `address_sliceable`, decided.
fn address_accepts(h: &Vec<char>) -> (b: bool)
    ensures
        b == address_sliceable(h@),
{
    let c = find_char(h, 0, ':');
    proof {
        lemma_find_from(h@, 0, char_pred(':'));
    }
    if c >= h.len() {
        return true;
    }
    let c2 = find_char(h, c + 1, ':');
    if c2 < h.len() {
        return true;
    }
    let a = copy_range(h, 0, c);
    if !byte_len_is(&a, 32) {
        return true;
    }
    index_at(&a, 8).is_some() && index_at(&a, 16).is_some() && index_at(&a, 24).is_some()
}

/// Every row of a socket table that would be read has address fields that
/// can be cut at their byte offsets, so `parse_proc_net` accepts the table.
pub fn table_accepts(content: &str) -> (b: bool)
    ensures
        b == table_sliceable(content@),
{
    let chars = chars_of(content);
    let lines = split_lines(&chars);
    let ghost rows = table_rows(content@);
    proof {
        if lines.len() > 0 {
            assert(rows =~= views(lines@).subrange(1, lines.len() as int));
        } else {
            assert(rows =~= seq![]);
        }
    }
    let mut i: usize = 1;
    while i < lines.len()
        invariant
            1 <= i,
            rows == table_rows(content@),
            lines.len() > 0 ==> rows.len() == lines.len() - 1,
            lines.len() == 0 ==> rows.len() == 0,
            forall|j: int| 0 <= j < rows.len() ==> #[trigger] rows[j] == lines@[j + 1]@,
            forall|j: int|
                0 <= j < i - 1 && j < rows.len() && words_of(#[trigger] rows[j]).len() >= 10
                    ==> address_sliceable(words_of(rows[j])[1]) && address_sliceable(
                    words_of(rows[j])[2],
                ),
        decreases lines.len() - i,
    {
        let words = split_words(&lines[i]);
        proof {
            assert(rows[i - 1] == lines@[i as int]@);
        }
        if words.len() >= 10 {
            proof {
                assert(words@[1]@ == words_of(rows[i - 1])[1]);
                assert(words@[2]@ == words_of(rows[i - 1])[2]);
            }
            if !(address_accepts(&words[1]) && address_accepts(&words[2])) {
                return false;
            }
        }
        i = i + 1;
    }
    true
}

/// The socket tables the caller read (`None` where a file could not be read).
pub struct ProcNetTables {
    pub tcp: Option<String>,
    pub tcp6: Option<String>,
    pub udp: Option<String>,
    pub udp6: Option<String>,
}

/// The connections of one table that may be missing.
pub open spec fn maybe_table(
    content: Option<String>,
    protocol: Seq<char>,
    owners: Map<u64, (u32, String)>,
) -> Seq<ConnectionView> {
    match content {
        Some(c) => table_connections(c@, protocol, owners),
        None => seq![],
    }
}

/// Each table that was read is accepted by `parse_proc_net`.
pub open spec fn tables_accepted(t: ProcNetTables) -> bool {
    &&& (t.tcp matches Some(c) ==> table_sliceable(c@))
    &&& (t.tcp6 matches Some(c) ==> table_sliceable(c@))
    &&& (t.udp matches Some(c) ==> table_sliceable(c@))
    &&& (t.udp6 matches Some(c) ==> table_sliceable(c@))
}

/// The connections of all four tables: TCP, TCP6, UDP, then UDP6.
pub open spec fn all_connections(t: ProcNetTables, owners: Map<u64, (u32, String)>) -> Seq<
    ConnectionView,
> {
    maybe_table(t.tcp, "TCP"@, owners) + maybe_table(t.tcp6, "TCP6"@, owners) + maybe_table(
        t.udp,
        "UDP"@,
        owners,
    ) + maybe_table(t.udp6, "UDP6"@, owners)
}

fn add_table(
    out: &mut Vec<NetworkConnection>,
    content: &Option<String>,
    protocol: &str,
    inode_map: &HashMap<u64, (u32, String)>,
)
    requires
        content matches Some(c) ==> table_sliceable(c@),
    ensures
        connection_views(final(out)@) == connection_views(old(out)@) + maybe_table(
            *content,
            protocol@,
            inode_map@,
        ),
{
    match content {
        Some(c) => {
            let mut more = parse_proc_net(c.as_str(), protocol, inode_map);
            let ghost before = out@;
            let ghost added = more@;
            out.append(&mut more);
            proof {
                assert(connection_views(out@) =~= connection_views(before) + connection_views(added));
            }
        },
        None => {
            proof {
                assert(connection_views(out@) =~= connection_views(out@) + seq![]);
            }
        },
    }
}

/// The sockets the kernel's four tables list, each joined to its owning
/// process where `inode_map` knows the socket's inode.
pub fn get_network_connections(tables: &ProcNetTables, inode_map: &HashMap<u64, (u32, String)>) -> (r:
    Vec<NetworkConnection>)
    requires
        tables_accepted(*tables),
    ensures
        connection_views(r@) == all_connections(*tables, inode_map@),
{
    let mut out: Vec<NetworkConnection> = Vec::new();
    proof {
        assert(connection_views(out@) =~= seq![]);
    }
    add_table(&mut out, &tables.tcp, "TCP", inode_map);
    add_table(&mut out, &tables.tcp6, "TCP6", inode_map);
    add_table(&mut out, &tables.udp, "UDP", inode_map);
    add_table(&mut out, &tables.udp6, "UDP6", inode_map);
    proof {
        assert(connection_views(out@) =~= all_connections(*tables, inode_map@));
    }
    out
}

/// Every character is an ASCII digit.
pub open spec fn ascii_digits(s: Seq<char>) -> bool {
    forall|i: int| 0 <= i < s.len() ==> '0' <= #[trigger] s[i] <= '9'
}

/// The process id a `/proc` entry name stands for: names of ASCII digits only
/// that fit in 32 bits.
pub open spec fn pid_of_entry(name: Seq<char>) -> Option<u32> {
    if ascii_digits(name) {
        match parse_unsigned(name, 10, 0xffff_ffff) {
            Some(v) => Some(v as u32),
            None => None,
        }
    } else {
        None
    }
}

/// The process id a `/proc` entry name stands for.
pub fn parse_pid_entry(name: &str) -> (r: Option<u32>)
    ensures
        r == pid_of_entry(name@),
{
    let n = chars_of(name);
    let mut k: usize = 0;
    while k < n.len()
        invariant
            k <= n.len(),
            n@ == name@,
            forall|i: int| 0 <= i < k ==> '0' <= #[trigger] n@[i] <= '9',
        decreases n.len() - k,
    {
        if !('0' <= n[k] && n[k] <= '9') {
            proof {
                assert(!('0' <= name@[k as int] <= '9'));
            }
            return None;
        }
        k = k + 1;
    }
    match parse_radix(&n, 10, 0xffff_ffff) {
        Some(v) => Some(v as u32),
        None => None,
    }
}

/// The inode a file-descriptor link names, where it is `socket:[INODE]`.
pub open spec fn socket_inode(link: Seq<char>) -> Option<u64> {
    let p = "socket:["@;
    if has_prefix(link, p) && link.len() >= p.len() + 1 && link.last() == ']' {
        match parse_unsigned(link.subrange(p.len() as int, link.len() - 1), 10, 0xffff_ffff_ffff_ffff) {
            Some(v) => Some(v as u64),
            None => None,
        }
    } else {
        None
    }
}

/// The inode a file-descriptor link names, where it is a socket.
pub fn parse_socket_link(link: &str) -> (r: Option<u64>)
    ensures
        r == socket_inode(link@),
{
    let l = chars_of(link);
    let p = chars_of("socket:[");
    proof {
        reveal_strlit("socket:[");
    }
    if !starts_with(&l, &p) {
        return None;
    }
    if l.len() < p.len() + 1 || l[l.len() - 1] != ']' {
        return None;
    }
    let mid = copy_range(&l, p.len(), l.len() - 1);
    match parse_radix(&mid, 10, 0xffff_ffff_ffff_ffff) {
        Some(v) => Some(v),
        None => None,
    }
}

/// The name a process's `comm` file gives, trimmed; `"Unknown"` where the
/// file could not be read.
pub fn process_comm(content: &Option<String>) -> (r: String)
    ensures
        r@ == match opt_view(*content) {
            Some(c) => trim(c),
            None => "Unknown"@,
        },
{
    match content {
        Some(c) => string_of(&trim_chars(&chars_of(c.as_str()))),
        None => owned("Unknown"),
    }
}

/// Records that socket `link` belongs to process `pid` named `comm`, where
/// the link names a socket; otherwise leaves the map as it was.
pub fn record_socket(map: &mut HashMap<u64, (u32, String)>, link: &str, pid: u32, comm: &String)
    ensures
        match socket_inode(link@) {
            Some(inode) => final(map)@ == old(map)@.insert(inode, (pid, *comm)),
            None => final(map)@ == old(map)@,
        },
{
    match parse_socket_link(link) {
        Some(inode) => {
            map.insert(inode, (pid, comm.clone()));
        },
        None => {},
    }
}

} // verus!

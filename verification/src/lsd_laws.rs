use vstd::prelude::*;

use crate::format::{decimal, digit_char};
use crate::format::{hex_char, hex_text};
use crate::laws::{law_info_hash_hex_round_trip, lemma_hex_text_digits};
use crate::lsd::{
    announce_text, encode_parts, hash_lines, hash_views, header_step, info_hash_value, is_control_byte,
    port_value, request_line, scan_headers, spec_decode, HeaderState, LsdError,
};
use vstd::utf8::{
    decode_utf8, encode_scalar, encode_utf8, encode_utf8_decode_utf8, encode_utf8_valid_utf8,
};
use crate::text::{
    all_digits, char_index, digit_value, digits_value, eq_ignore_ascii_case, is_white_space,
    line_end, parse_u16, strip_plus, trim, trim_end, trim_start,
};

verus! {

/// The two characters that end a line.
pub open spec fn crlf() -> Seq<char> {
    seq!['\r', '\n']
}

/// Whether a text holds no carriage return.
pub open spec fn cr_free(s: Seq<char>) -> bool {
    forall|i: int| 0 <= i < s.len() ==> s[i] != '\r'
}

/// Lines, each followed by `\r\n`.
pub open spec fn crlf_lines(lines: Seq<Seq<char>>) -> Seq<char>
    decreases lines.len(),
{
    if lines.len() == 0 {
        Seq::empty()
    } else {
        lines[0] + crlf() + crlf_lines(lines.drop_first())
    }
}

/// Where lines end does not depend on text before them.
proof fn lemma_line_end_shift(x: Seq<char>, r: Seq<char>, i: int)
    requires
        0 <= i,
    ensures
        line_end(x + r, x.len() + i) == x.len() + line_end(r, i),
    decreases r.len() - i,
{
    let t = x + r;
    if i + 1 >= r.len() {
    } else {
        assert(t[x.len() + i] == r[i]);
        assert(t[x.len() + i + 1] == r[i + 1]);
        if !(r[i] == '\r' && r[i + 1] == '\n') {
            lemma_line_end_shift(x, r, i + 1);
        }
    }
}

/// A line without carriage returns ends at its own length.
proof fn lemma_line_end_of_line(line: Seq<char>, rest: Seq<char>, k: int)
    requires
        cr_free(line),
        0 <= k <= line.len(),
    ensures
        line_end(line + crlf() + rest, k) == line.len(),
    decreases line.len() - k,
{
    let t = line + crlf() + rest;
    assert(t[line.len() as int] == '\r');
    assert(t[line.len() as int + 1] == '\n');
    if k < line.len() {
        assert(t[k] == line[k]);
        lemma_line_end_of_line(line, rest, k + 1);
    }
}

/// The first colon of a name without colons, then a colon, is after the name.
pub proof fn lemma_colon_after_name(name: Seq<char>, rest: Seq<char>, k: int)
    requires
        forall|i: int| 0 <= i < name.len() ==> name[i] != ':',
        0 <= k <= name.len(),
    ensures
        char_index(name + seq![':'] + rest, ':', k) == name.len(),
    decreases name.len() - k,
{
    let t = name + seq![':'] + rest;
    assert(t[name.len() as int] == ':');
    if k < name.len() {
        assert(t[k] == name[k]);
        lemma_colon_after_name(name, rest, k + 1);
    }
}

/// A leading space is trimmed away.
pub proof fn lemma_trim_space(v: Seq<char>)
    ensures
        trim(seq![' '] + v) == trim(v),
{
    let s = seq![' '] + v;
    assert(is_white_space(' '));
    assert(s.drop_first() =~= v);
    assert(trim_start(s) == trim_start(v));
}

/// A text that neither begins nor ends with white space is its own trim.
pub proof fn lemma_trim_unchanged(v: Seq<char>)
    requires
        v.len() > 0,
        !is_white_space(v[0]),
        !is_white_space(v.last()),
    ensures
        trim(v) == v,
{
    assert(trim_start(v) == v);
    assert(trim_end(v) == v);
}

/// The digit character of a digit reads back as the digit.
proof fn lemma_digit_char(d: nat)
    requires
        d < 10,
    ensures
        digit_value(digit_char(d)) == d,
        '0' <= digit_char(d) <= '9',
{
}

/// A number written in decimal reads back as itself.
pub proof fn lemma_decimal_reads_back(n: nat)
    ensures
        decimal(n).len() > 0,
        all_digits(decimal(n)),
        digits_value(decimal(n)) == n,
        '0' <= decimal(n)[0] <= '9',
        '0' <= decimal(n).last() <= '9',
    decreases n,
{
    if n < 10 {
        lemma_digit_char(n);
        assert(decimal(n) == seq![digit_char(n)]);
        assert(decimal(n).drop_last() =~= Seq::<char>::empty());
        assert(digits_value(decimal(n)) == digits_value(Seq::<char>::empty()) * 10 + digit_value(digit_char(n)));
    } else {
        lemma_decimal_reads_back(n / 10);
        lemma_digit_char(n % 10);
        let s = decimal(n);
        assert(s == decimal(n / 10).push(digit_char(n % 10)));
        assert(s.drop_last() =~= decimal(n / 10));
        assert(s[0] == decimal(n / 10)[0]);
        assert(s.last() == digit_char(n % 10));
        assert(digits_value(s) == digits_value(decimal(n / 10)) * 10 + digit_value(digit_char(n % 10)));
        assert((n / 10) * 10 + n % 10 == n) by (nonlinear_arith);
    }
}

/// A port written in decimal parses back as itself.
pub proof fn lemma_port_parses_back(port: u16)
    ensures
        parse_u16(decimal(port as nat)) == Some(port),
{
    let d = decimal(port as nat);
    lemma_decimal_reads_back(port as nat);
    assert(strip_plus(d) == d);
}

/// Header lines read in order, up to the first empty line or the last line.
pub open spec fn process_lines(lines: Seq<Seq<char>>, st: HeaderState) -> Result<HeaderState, LsdError>
    decreases lines.len(),
{
    if lines.len() == 0 {
        Ok(st)
    } else if lines[0].len() == 0 {
        Ok(st)
    } else {
        match header_step(lines[0], st) {
            Err(e) => Err(e),
            Ok(next) => process_lines(lines.drop_first(), next),
        }
    }
}

/// Scanning the lines after a line that ends at `x.len()` reads them in order.
pub proof fn lemma_scan_lines(x: Seq<char>, lines: Seq<Seq<char>>, st: HeaderState)
    requires
        forall|i: int| 0 <= i < lines.len() ==> cr_free(#[trigger] lines[i]),
    ensures
        scan_headers(x + crlf() + crlf_lines(lines), x.len() as int, st) == process_lines(lines, st),
    decreases lines.len(),
{
    let t = x + crlf() + crlf_lines(lines);
    let start: int = x.len() as int + 2;
    lemma_line_end_shift(x + crlf(), crlf_lines(lines), 0);
    assert((x + crlf()) + crlf_lines(lines) =~= t);
    if lines.len() == 0 {
        assert(crlf_lines(lines) =~= Seq::<char>::empty());
        assert(line_end(t, start) == start);
    } else {
        let l0 = lines[0];
        let rest = crlf_lines(lines.drop_first());
        assert(crlf_lines(lines) == l0 + crlf() + rest);
        assert(cr_free(l0));
        lemma_line_end_of_line(l0, rest, 0);
        assert(line_end(t, start) == start + l0.len());
        assert(t.subrange(start, start + l0.len() as int) =~= l0);
        if l0.len() > 0 {
            match header_step(l0, st) {
                Err(e) => {},
                Ok(next) => {
                    let x2 = x + crlf() + l0;
                    assert(t =~= x2 + crlf() + rest);
                    assert forall|i: int| 0 <= i < lines.drop_first().len() implies cr_free(
                        #[trigger] lines.drop_first()[i],
                    ) by {
                        assert(lines.drop_first()[i] == lines[i + 1]);
                    }
                    lemma_scan_lines(x2, lines.drop_first(), next);
                    assert(x2.len() == start + l0.len());
                },
            }
        }
    }
}

/// Splits a header line into its name, the colon, and the rest.
proof fn lemma_split_header(name: Seq<char>, value: Seq<char>)
    requires
        forall|i: int| 0 <= i < name.len() ==> name[i] != ':',
    ensures
        ({
            let line = name + seq![':', ' '] + value;
            let c = char_index(line, ':', 0);
            &&& c == name.len()
            &&& line.subrange(0, c) == name
            &&& trim(line.subrange(c + 1, line.len() as int)) == trim(value)
        }),
{
    let line = name + seq![':', ' '] + value;
    assert(line =~= name + seq![':'] + (seq![' '] + value));
    lemma_colon_after_name(name, seq![' '] + value, 0);
    let c = name.len() as int;
    assert(line.subrange(0, c) =~= name);
    assert(line.subrange(c + 1, line.len() as int) =~= seq![' '] + value);
    lemma_trim_space(value);
}

/// The host line says nothing.
pub proof fn lemma_host_line(st: HeaderState)
    ensures
        header_step("Host: 239.192.152.143:6771"@, st) == Ok::<HeaderState, LsdError>(st),
{
    reveal_strlit("Host: 239.192.152.143:6771");
    reveal_strlit("port");
    reveal_strlit("cookie");
    reveal_strlit("infohash");
    let name = seq!['H', 'o', 's', 't'];
    let value = seq!['2', '3', '9', '.', '1', '9', '2', '.', '1', '5', '2', '.', '1', '4', '3', ':', '6', '7', '7', '1'];
    assert("Host: 239.192.152.143:6771"@ =~= name + seq![':', ' '] + value);
    lemma_split_header(name, value);
    assert(!eq_ignore_ascii_case(name, "port"@));
}

/// The port line sets the port.
pub proof fn lemma_port_line(port: u16, st: HeaderState)
    requires
        port != 0,
    ensures
        header_step("Port: "@ + decimal(port as nat), st) == Ok::<HeaderState, LsdError>((Some(port), st.1, st.2)),
{
    reveal_strlit("Port: ");
    reveal_strlit("port");
    let name = seq!['P', 'o', 'r', 't'];
    let value = decimal(port as nat);
    assert("Port: "@ + value =~= name + seq![':', ' '] + value);
    lemma_split_header(name, value);
    lemma_decimal_reads_back(port as nat);
    lemma_trim_unchanged(value);
    lemma_port_parses_back(port);
    assert(eq_ignore_ascii_case(name, "port"@));
    assert(port_value(value) == Some(port));
}

/// The cookie line sets the cookie, trimmed.
pub proof fn lemma_cookie_line(cookie: Seq<char>, st: HeaderState)
    requires
        trim(cookie) == cookie,
    ensures
        header_step("Cookie: "@ + cookie, st) == Ok::<HeaderState, LsdError>((st.0, Some(cookie), st.2)),
{
    reveal_strlit("Cookie: ");
    reveal_strlit("port");
    reveal_strlit("cookie");
    let name = seq!['C', 'o', 'o', 'k', 'i', 'e'];
    assert("Cookie: "@ + cookie =~= name + seq![':', ' '] + cookie);
    lemma_split_header(name, cookie);
    assert(eq_ignore_ascii_case(name, "cookie"@));
    assert(!eq_ignore_ascii_case(name, "port"@));
}

/// An info hash line adds its hash.
pub proof fn lemma_hash_line(hash: Seq<u8>, st: HeaderState)
    requires
        hash.len() == 20,
    ensures
        header_step("Infohash: "@ + hex_text(hash), st) == Ok::<HeaderState, LsdError>((st.0, st.1, st.2.push(hash))),
{
    reveal_strlit("Infohash: ");
    reveal_strlit("port");
    reveal_strlit("cookie");
    reveal_strlit("infohash");
    let name = seq!['I', 'n', 'f', 'o', 'h', 'a', 's', 'h'];
    let value = hex_text(hash);
    assert("Infohash: "@ + value =~= name + seq![':', ' '] + value);
    lemma_split_header(name, value);
    lemma_hex_text_digits(hash);
    assert(value[0] == hex_char(hash[0] as nat / 16));
    assert(value.last() == value[39int]);
    assert(value.last() == hex_char(hash[19] as nat % 16));
    lemma_trim_unchanged(value);
    law_info_hash_hex_round_trip(hash);
    assert(eq_ignore_ascii_case(name, "infohash"@));
    assert(!eq_ignore_ascii_case(name, "port"@));
    assert(!eq_ignore_ascii_case(name, "cookie"@));
}

/// A list of lines with one more at the end.
proof fn lemma_crlf_lines_push(lines: Seq<Seq<char>>, line: Seq<char>)
    ensures
        crlf_lines(lines.push(line)) == crlf_lines(lines) + line + crlf(),
    decreases lines.len(),
{
    if lines.len() == 0 {
        let one = lines.push(line);
        assert(one[0] == line);
        assert(one.drop_first() =~= Seq::<Seq<char>>::empty());
        assert(crlf_lines(one.drop_first()) == Seq::<char>::empty());
        assert(crlf_lines(lines) == Seq::<char>::empty());
        assert(crlf_lines(one) =~= crlf_lines(lines) + line + crlf());
    } else {
        lemma_crlf_lines_push(lines.drop_first(), line);
        assert(lines.push(line).drop_first() =~= lines.drop_first().push(line));
        assert(crlf_lines(lines.push(line)) =~= crlf_lines(lines) + line + crlf());
    }
}

/// Two lists of lines, one after the other.
proof fn lemma_crlf_lines_append(a: Seq<Seq<char>>, b: Seq<Seq<char>>)
    ensures
        crlf_lines(a + b) == crlf_lines(a) + crlf_lines(b),
    decreases a.len(),
{
    if a.len() == 0 {
        assert(a + b =~= b);
        assert(crlf_lines(a) =~= Seq::<char>::empty());
        assert(crlf_lines(a + b) =~= crlf_lines(a) + crlf_lines(b));
    } else {
        lemma_crlf_lines_append(a.drop_first(), b);
        assert((a + b).drop_first() =~= a.drop_first() + b);
        assert((a + b)[0] == a[0]);
        assert(crlf_lines(a + b) =~= crlf_lines(a) + crlf_lines(b));
    }
}

/// The info hash line of a hash.
pub open spec fn hash_line(hash: [u8; 20]) -> Seq<char> {
    "Infohash: "@ + hex_text(hash@)
}

/// The info hash lines of hashes, in order.
pub open spec fn hash_line_seq(hashes: Seq<[u8; 20]>) -> Seq<Seq<char>> {
    hashes.map_values(|h: [u8; 20]| hash_line(h))
}

/// The info hash lines of an announcement are its hashes' lines.
proof fn lemma_hash_lines(hashes: Seq<[u8; 20]>)
    ensures
        hash_lines(hashes) == crlf_lines(hash_line_seq(hashes)),
    decreases hashes.len(),
{
    reveal_strlit("\r\n");
    if hashes.len() == 0 {
        assert(hash_line_seq(hashes) =~= Seq::<Seq<char>>::empty());
    } else {
        let init = hashes.drop_last();
        lemma_hash_lines(init);
        assert(hash_line_seq(hashes) =~= hash_line_seq(init).push(hash_line(hashes.last())));
        lemma_crlf_lines_push(hash_line_seq(init), hash_line(hashes.last()));
        assert("\r\n"@ =~= crlf());
        assert(hash_lines(hashes) =~= crlf_lines(hash_line_seq(hashes)));
    }
}

/// Reading the hash lines, then an empty line, adds the hashes in order.
proof fn lemma_process_hash_lines(hashes: Seq<[u8; 20]>, port: Option<u16>, cookie: Option<Seq<char>>, seen: Seq<Seq<u8>>)
    ensures
        process_lines(hash_line_seq(hashes) + seq![Seq::<char>::empty()], (port, cookie, seen))
            == Ok::<HeaderState, LsdError>((port, cookie, seen + hash_views(hashes))),
    decreases hashes.len(),
{
    let lines = hash_line_seq(hashes) + seq![Seq::<char>::empty()];
    if hashes.len() == 0 {
        assert(lines[0] =~= Seq::<char>::empty());
        assert(seen + hash_views(hashes) =~= seen);
    } else {
        let h = hashes[0];
        reveal_strlit("Infohash: ");
        assert(lines[0] == hash_line(h));
        assert(lines[0].len() > 0);
        lemma_hash_line(h@, (port, cookie, seen));
        let rest = hashes.drop_first();
        assert(lines.drop_first() =~= hash_line_seq(rest) + seq![Seq::<char>::empty()]);
        lemma_process_hash_lines(rest, port, cookie, seen.push(h@));
        assert(seen.push(h@) + hash_views(rest) =~= seen + hash_views(hashes));
    }
}

/// A cookie without control bytes holds no carriage return.
proof fn lemma_cookie_has_no_cr(cookie: Seq<char>)
    requires
        forall|i: int| 0 <= i < encode_utf8(cookie).len() ==> !is_control_byte(#[trigger] encode_utf8(cookie)[i]),
    ensures
        cr_free(cookie),
    decreases cookie.len(),
{
    if cookie.len() > 0 {
        let first = encode_scalar(cookie[0] as u32);
        let rest = cookie.drop_first();
        assert(encode_utf8(cookie) == first + encode_utf8(rest));
        if cookie[0] == '\r' {
            assert((13u32 & 0x7F) == 13) by (bit_vector);
            assert(first == seq![13u8]);
            assert(encode_utf8(cookie)[0] == 13u8);
            assert(false);
        }
        assert forall|j: int| 0 <= j < encode_utf8(rest).len() implies !is_control_byte(
            #[trigger] encode_utf8(rest)[j],
        ) by {
            assert(encode_utf8(cookie)[first.len() + j] == encode_utf8(rest)[j]);
        }
        lemma_cookie_has_no_cr(rest);
        assert forall|i: int| 0 <= i < cookie.len() implies cookie[i] != '\r' by {
            if i > 0 {
                assert(cookie[i] == rest[i - 1]);
            }
        }
    }
}

/// The lines after the request line of an announcement.
pub open spec fn announce_lines(port: u16, cookie: Seq<char>, hashes: Seq<[u8; 20]>) -> Seq<Seq<char>> {
    seq!["Host: 239.192.152.143:6771"@, "Port: "@ + decimal(port as nat), "Cookie: "@ + cookie] + hash_line_seq(hashes)
        + seq![Seq::<char>::empty()]
}

/// An announcement is its request line and then its lines, each ended by
/// `\r\n`.
proof fn lemma_announce_layout(port: u16, cookie: Seq<char>, hashes: Seq<[u8; 20]>)
    ensures
        announce_text(port, cookie, hashes) == request_line() + crlf() + crlf_lines(announce_lines(port, cookie, hashes)),
{
    reveal_strlit("BT-SEARCH * HTTP/1.1\r\nHost: 239.192.152.143:6771\r\nPort: ");
    reveal_strlit("BT-SEARCH * HTTP/1.1");
    reveal_strlit("Host: 239.192.152.143:6771");
    reveal_strlit("Port: ");
    reveal_strlit("\r\nCookie: ");
    reveal_strlit("Cookie: ");
    reveal_strlit("\r\n");
    let host = "Host: 239.192.152.143:6771"@;
    let port_line = "Port: "@ + decimal(port as nat);
    let cookie_line = "Cookie: "@ + cookie;
    let head = seq![host, port_line, cookie_line];
    let tail = hash_line_seq(hashes) + seq![Seq::<char>::empty()];
    lemma_crlf_lines_append(head, tail);
    lemma_crlf_lines_append(hash_line_seq(hashes), seq![Seq::<char>::empty()]);
    lemma_hash_lines(hashes);
    assert(seq![host, port_line, cookie_line] + tail =~= announce_lines(port, cookie, hashes));
    let d1 = head.drop_first();
    let d2 = d1.drop_first();
    let d3 = d2.drop_first();
    assert(d1 =~= seq![port_line, cookie_line]);
    assert(d2 =~= seq![cookie_line]);
    assert(d3 =~= Seq::<Seq<char>>::empty());
    assert(crlf_lines(d3) == Seq::<char>::empty());
    assert(crlf_lines(d2) == cookie_line + crlf() + crlf_lines(d3));
    assert(crlf_lines(d1) == port_line + crlf() + crlf_lines(d2));
    assert(crlf_lines(head) == host + crlf() + crlf_lines(d1));
    let empty_line = seq![Seq::<char>::empty()];
    assert(empty_line.drop_first() =~= Seq::<Seq<char>>::empty());
    assert(crlf_lines(empty_line.drop_first()) == Seq::<char>::empty());
    assert(crlf_lines(empty_line) == empty_line[0] + crlf() + crlf_lines(empty_line.drop_first()));
    assert(crlf_lines(empty_line) =~= crlf());
    assert("BT-SEARCH * HTTP/1.1\r\nHost: 239.192.152.143:6771\r\nPort: "@ =~= request_line() + crlf() + host + crlf()
        + "Port: "@);
    assert("\r\nCookie: "@ =~= crlf() + "Cookie: "@);
    assert(announce_text(port, cookie, hashes) =~= request_line() + crlf() + crlf_lines(
        announce_lines(port, cookie, hashes),
    ));
}

/// Reading back an announcement this library wrote gives its port and its
/// hashes in order, and tells whether it carries `own_cookie`. This holds
/// for every announcement that could be written whose cookie neither begins
/// nor ends with white space (such white space is trimmed when read).
pub proof fn law_lsd_round_trip(port: u16, cookie: Seq<char>, hashes: Seq<[u8; 20]>, own_cookie: Seq<char>)
    requires
        encode_parts(port, cookie, hashes) is Ok,
        trim(cookie) == cookie,
    ensures
        spec_decode(encode_utf8(announce_text(port, cookie, hashes)), own_cookie) == Ok::<
            (u16, Seq<Seq<u8>>, bool),
            LsdError,
        >((port, hash_views(hashes), cookie == own_cookie)),
{
    let t = announce_text(port, cookie, hashes);
    let lines = announce_lines(port, cookie, hashes);
    encode_utf8_valid_utf8(t);
    encode_utf8_decode_utf8(t);
    assert(decode_utf8(encode_utf8(t)) == t);
    lemma_announce_layout(port, cookie, hashes);
    reveal_strlit("BT-SEARCH * HTTP/1.1");
    reveal_strlit("Host: 239.192.152.143:6771");
    reveal_strlit("Port: ");
    reveal_strlit("Cookie: ");
    reveal_strlit("Infohash: ");
    assert(cr_free(request_line()));
    lemma_line_end_of_line(request_line(), crlf_lines(lines), 0);
    assert(t.subrange(0, 20) =~= request_line());
    lemma_cookie_has_no_cr(cookie);
    lemma_decimal_reads_back(port as nat);
    assert forall|i: int| 0 <= i < lines.len() implies cr_free(#[trigger] lines[i]) by {
        if i == 1 {
            assert forall|k: int| 0 <= k < lines[i].len() implies lines[i][k] != '\r' by {
                if k >= 6 {
                    assert(lines[i][k] == decimal(port as nat)[k - 6]);
                    assert(all_digits(decimal(port as nat)));
                    assert(crate::text::is_digit(decimal(port as nat)[k - 6]));
                }
            }
        } else if i == 2 {
            assert forall|k: int| 0 <= k < lines[i].len() implies lines[i][k] != '\r' by {
                if k >= 8 {
                    assert(lines[i][k] == cookie[k - 8]);
                }
            }
        } else if 3 <= i < lines.len() - 1 {
            let h = hashes[i - 3];
            assert(lines[i] == hash_line(h));
            lemma_hex_text_digits(h@);
            assert forall|k: int| 0 <= k < lines[i].len() implies lines[i][k] != '\r' by {
                if k >= 10 {
                    let d = k - 10;
                    assert(lines[i][k] == hex_text(h@)[d]);
                    if d % 2 == 0 {
                        assert(d == 2 * (d / 2));
                        assert(hex_text(h@)[d] == hex_char(h@[d / 2] as nat / 16));
                    } else {
                        assert(d == 2 * (d / 2) + 1);
                        assert(hex_text(h@)[d] == hex_char(h@[d / 2] as nat % 16));
                    }
                }
            }
        }
    }
    let init: HeaderState = (None, None, Seq::empty());
    lemma_scan_lines(request_line(), lines, init);
    lemma_host_line(init);
    assert(lines[0] == "Host: 239.192.152.143:6771"@);
    let after_host = lines.drop_first();
    assert(after_host[0] == "Port: "@ + decimal(port as nat));
    lemma_port_line(port, init);
    let after_port = after_host.drop_first();
    assert(after_port[0] == "Cookie: "@ + cookie);
    lemma_cookie_line(cookie, (Some(port), None, Seq::empty()));
    let after_cookie = after_port.drop_first();
    assert(after_cookie =~= hash_line_seq(hashes) + seq![Seq::<char>::empty()]);
    lemma_process_hash_lines(hashes, Some(port), Some(cookie), Seq::empty());
    assert(Seq::<Seq<u8>>::empty() + hash_views(hashes) =~= hash_views(hashes));
    let st_port: HeaderState = (Some(port), None, Seq::empty());
    let st_cookie: HeaderState = (Some(port), Some(cookie), Seq::empty());
    assert(process_lines(after_cookie, st_cookie) == Ok::<HeaderState, LsdError>(
        (Some(port), Some(cookie), hash_views(hashes)),
    ));
    assert(after_port[0].len() > 0);
    assert(process_lines(after_port, st_port) == process_lines(after_cookie, st_cookie));
    assert(after_host[0].len() > 0);
    assert(process_lines(after_host, init) == process_lines(after_port, st_port));
    assert(lines[0].len() > 0);
    assert(process_lines(lines, init) == process_lines(after_host, init));
    assert(process_lines(lines, init) == Ok::<HeaderState, LsdError>((Some(port), Some(cookie), hash_views(hashes))));
}

} // verus!

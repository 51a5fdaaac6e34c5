//! The wire codec: JSON-style tagged frames over the persistent connection.
//!
//! Client to server, tagged by request kind:
//! - `{"type":"CreateMatch"}`
//! - `{"type":"ListMatches"}`
//! - `{"type":"JoinMatch","data":"<32 lowercase hex digits>"}`
//!
//! Server to client, tagged by response kind:
//! - `{"type":"LoginResponse","data":{"id":"<hex>","name":"<name>"}}`
//! - `{"type":"ListMatchesResponse","data":[{"id":"<hex>","player1":"<name>","player2":null},...]}`
//!
//! Ids travel as exactly 32 lowercase hex digits; display names travel with
//! `"` and `\` escaped by a backslash.  The decoder accepts exactly the
//! canonical form above — anything else is dropped by the session.

use vstd::prelude::*;
use crate::model::{ClientMatch, ClientUser};

verus! {

/// A decoded inbound application frame.
#[derive(Clone, Copy, Debug, PartialEq, Eq, Structural)]
pub enum WsDto {
    CreateMatch,
    JoinMatch(u128),
    ListMatches,
}

/// An outbound application frame.
#[derive(Clone, Debug)]
pub enum WsResponseDto {
    ListMatchesResponse(Vec<ClientMatch>),
    LoginResponse(ClientUser),
}

/// A command relayed to a connection's outbound channel, forwarded to the
/// client as an encoded request frame.
#[derive(Clone, Copy, Debug)]
pub struct WsMessage(pub WsDto);

/// `c` is one of the 16 lowercase hex digits.
pub open spec fn is_hex_digit(c: char) -> bool {
    c == '0' || c == '1' || c == '2' || c == '3' || c == '4' || c == '5' || c == '6' || c == '7'
        || c == '8' || c == '9' || c == 'a' || c == 'b' || c == 'c' || c == 'd' || c == 'e'
        || c == 'f'
}

/// The value of a hex digit.
pub open spec fn hex_digit_val(c: char) -> nat {
    if c == '0' { 0 } else if c == '1' { 1 } else if c == '2' { 2 } else if c == '3' { 3 }
    else if c == '4' { 4 } else if c == '5' { 5 } else if c == '6' { 6 } else if c == '7' { 7 }
    else if c == '8' { 8 } else if c == '9' { 9 } else if c == 'a' { 10 } else if c == 'b' { 11 }
    else if c == 'c' { 12 } else if c == 'd' { 13 } else if c == 'e' { 14 } else { 15 }
}

/// The hex digit of a value below 16.
pub open spec fn hex_char(v: nat) -> char {
    if v == 0 { '0' } else if v == 1 { '1' } else if v == 2 { '2' } else if v == 3 { '3' }
    else if v == 4 { '4' } else if v == 5 { '5' } else if v == 6 { '6' } else if v == 7 { '7' }
    else if v == 8 { '8' } else if v == 9 { '9' } else if v == 10 { 'a' } else if v == 11 { 'b' }
    else if v == 12 { 'c' } else if v == 13 { 'd' } else if v == 14 { 'e' } else { 'f' }
}

/// `v` written as `n` hex digits, most significant first.
pub open spec fn spec_hex(v: nat, n: nat) -> Seq<char>
    decreases n,
{
    if n == 0 {
        Seq::empty()
    } else {
        spec_hex(v / 16, (n - 1) as nat).push(hex_char(v % 16))
    }
}

/// The value of a string of hex digits, most significant first.
pub open spec fn hex_val(s: Seq<char>) -> nat
    decreases s.len(),
{
    if s.len() == 0 {
        0
    } else {
        hex_val(s.drop_last()) * 16 + hex_digit_val(s.last())
    }
}

/// Every character of `s` is a lowercase hex digit.
pub open spec fn all_hex_digits(s: Seq<char>) -> bool {
    forall|i: int| 0 <= i < s.len() ==> is_hex_digit(#[trigger] s[i])
}

/// 16 to the `n`th power.
pub open spec fn pow16(n: nat) -> nat
    decreases n,
{
    if n == 0 {
        1
    } else {
        16 * pow16((n - 1) as nat)
    }
}

proof fn lemma_pow16_mono(i: nat, j: nat)
    requires
        i <= j,
    ensures
        pow16(i) <= pow16(j),
        pow16(i) >= 1,
    decreases j,
{
    if j > 0 {
        if i == j {
            lemma_pow16_mono((i - 1) as nat, (j - 1) as nat);
        } else {
            lemma_pow16_mono(i, (j - 1) as nat);
        }
    }
}

proof fn lemma_pow16_32()
    ensures
        pow16(32) == 0x100000000000000000000000000000000,
{
    assert(pow16(32) == 0x100000000000000000000000000000000) by {
        reveal_with_fuel(pow16, 33);
    }
}

/// A hex rendering decodes back to the value it was made from.
proof fn lemma_hex_roundtrip(v: nat, n: nat)
    requires
        v < pow16(n),
    ensures
        spec_hex(v, n).len() == n,
        all_hex_digits(spec_hex(v, n)),
        hex_val(spec_hex(v, n)) == v,
    decreases n,
{
    if n > 0 {
        assert(v / 16 < pow16((n - 1) as nat)) by (nonlinear_arith)
            requires
                v < pow16(n),
                pow16(n) == 16 * pow16((n - 1) as nat),
        ;
        lemma_hex_roundtrip(v / 16, (n - 1) as nat);
        let s = spec_hex(v, n);
        assert(s.drop_last() =~= spec_hex(v / 16, (n - 1) as nat));
        assert(s.last() == hex_char(v % 16));
        assert(hex_val(s) == (v / 16) * 16 + v % 16);
        assert((v / 16) * 16 + v % 16 == v) by (nonlinear_arith);
        assert forall|i: int| 0 <= i < s.len() implies is_hex_digit(#[trigger] s[i]) by {
            if i < s.len() - 1 {
                assert(s[i] == spec_hex(v / 16, (n - 1) as nat)[i]);
            }
        }
    }
}

/// The canonical `JoinMatch` frame around its 32 hex digits.
pub open spec fn join_prefix() -> Seq<char> {
    "{\"type\":\"JoinMatch\",\"data\":\""@
}

/// The closing of the canonical `JoinMatch` frame.
pub open spec fn join_suffix() -> Seq<char> {
    "\"}"@
}

/// The canonical encoding of a request frame.
pub open spec fn spec_encode_request(d: WsDto) -> Seq<char> {
    match d {
        WsDto::CreateMatch => "{\"type\":\"CreateMatch\"}"@,
        WsDto::ListMatches => "{\"type\":\"ListMatches\"}"@,
        WsDto::JoinMatch(id) => join_prefix() + spec_hex(id as nat, 32) + join_suffix(),
    }
}

/// What the decoder accepts: exactly the canonical request frames.
pub open spec fn spec_decode_request(t: Seq<char>) -> Option<WsDto> {
    if t == "{\"type\":\"CreateMatch\"}"@ {
        Some(WsDto::CreateMatch)
    } else if t == "{\"type\":\"ListMatches\"}"@ {
        Some(WsDto::ListMatches)
    } else if t.len() == join_prefix().len() as int + 32 + join_suffix().len() && t.subrange(
        0,
        join_prefix().len() as int,
    ) == join_prefix() && t.subrange(t.len() - 2, t.len() as int) == join_suffix()
        && all_hex_digits(t.subrange(join_prefix().len() as int, join_prefix().len() as int + 32)) {
        Some(
            WsDto::JoinMatch(
                hex_val(t.subrange(join_prefix().len() as int, join_prefix().len() as int + 32)) as u128,
            ),
        )
    } else {
        None
    }
}

/// Character-for-character equality of two strings.
fn str_eq(a: &str, b: &str) -> (r: bool)
    ensures
        r == (a@ == b@),
{
    let na = a.unicode_len();
    let nb = b.unicode_len();
    if na != nb {
        return false;
    }
    let mut i: usize = 0;
    while i < na
        invariant
            na == a@.len(),
            na == b@.len(),
            i <= na,
            forall|j: int| 0 <= j < i ==> a@[j] == b@[j],
        decreases na - i,
    {
        if a.get_char(i) != b.get_char(i) {
            return false;
        }
        i += 1;
    }
    proof {
        assert(a@ =~= b@);
    }
    true
}

/// The value of one hex digit, or `None` for any other character.
fn parse_hex_digit(c: char) -> (r: Option<u8>)
    ensures
        match r {
            Some(d) => is_hex_digit(c) && d as nat == hex_digit_val(c) && d < 16,
            None => !is_hex_digit(c),
        },
{
    match c {
        '0' => Some(0),
        '1' => Some(1),
        '2' => Some(2),
        '3' => Some(3),
        '4' => Some(4),
        '5' => Some(5),
        '6' => Some(6),
        '7' => Some(7),
        '8' => Some(8),
        '9' => Some(9),
        'a' => Some(10),
        'b' => Some(11),
        'c' => Some(12),
        'd' => Some(13),
        'e' => Some(14),
        'f' => Some(15),
        _ => None,
    }
}

/// The hex digit of a value below 16, as a one-character string.
fn hex_digit_str(d: u8) -> (r: &'static str)
    requires
        d < 16,
    ensures
        r@ == seq![hex_char(d as nat)],
{
    let r: &'static str = match d {
        0 => "0",
        1 => "1",
        2 => "2",
        3 => "3",
        4 => "4",
        5 => "5",
        6 => "6",
        7 => "7",
        8 => "8",
        9 => "9",
        10 => "a",
        11 => "b",
        12 => "c",
        13 => "d",
        14 => "e",
        _ => "f",
    };
    proof {
        reveal_strlit("0");
        reveal_strlit("1");
        reveal_strlit("2");
        reveal_strlit("3");
        reveal_strlit("4");
        reveal_strlit("5");
        reveal_strlit("6");
        reveal_strlit("7");
        reveal_strlit("8");
        reveal_strlit("9");
        reveal_strlit("a");
        reveal_strlit("b");
        reveal_strlit("c");
        reveal_strlit("d");
        reveal_strlit("e");
        reveal_strlit("f");
        assert(r@ =~= seq![hex_char(d as nat)]);
    }
    r
}

/// `v` as exactly 32 lowercase hex digits, most significant first.
pub fn encode_hex32(v: u128) -> (r: String)
    ensures
        r@ == spec_hex(v as nat, 32),
{
    encode_hex_rec(v, 32)
}

fn encode_hex_rec(v: u128, n: usize) -> (r: String)
    ensures
        r@ == spec_hex(v as nat, n as nat),
    decreases n,
{
    if n == 0 {
        String::new()
    } else {
        let mut r = encode_hex_rec(v / 16, n - 1);
        let d = (v % 16) as u8;
        r.append(hex_digit_str(d));
        proof {
            assert(r@ =~= spec_hex(v as nat, n as nat));
        }
        r
    }
}

/// Encodes a request frame canonically.
pub fn encode_request(d: &WsDto) -> (r: String)
    ensures
        r@ == spec_encode_request(*d),
{
    match d {
        WsDto::CreateMatch => "{\"type\":\"CreateMatch\"}".to_owned(),
        WsDto::ListMatches => "{\"type\":\"ListMatches\"}".to_owned(),
        WsDto::JoinMatch(id) => {
            let mut r = "{\"type\":\"JoinMatch\",\"data\":\"".to_owned();
            let hex = encode_hex32(*id);
            r.append(hex.as_str());
            r.append("\"}");
            proof {
                assert(r@ =~= spec_encode_request(*d));
            }
            r
        },
    }
}

/// Decodes an inbound text frame; `None` for anything but the canonical
/// request frames.
pub fn decode_request(s: &str) -> (r: Option<WsDto>)
    ensures
        r == spec_decode_request(s@),
{
    if str_eq(s, "{\"type\":\"CreateMatch\"}") {
        return Some(WsDto::CreateMatch);
    }
    if str_eq(s, "{\"type\":\"ListMatches\"}") {
        return Some(WsDto::ListMatches);
    }
    let pre = "{\"type\":\"JoinMatch\",\"data\":\"";
    proof {
        reveal_strlit("{\"type\":\"JoinMatch\",\"data\":\"");
        reveal_strlit("\"}");
    }
    let pre_len = pre.unicode_len();
    let n = s.unicode_len();
    if n != pre_len + 34 {
        return None;
    }
    if !str_eq(s.substring_char(0, pre_len), pre) {
        return None;
    }
    if !str_eq(s.substring_char(n - 2, n), "\"}") {
        return None;
    }
    let ghost mid = s@.subrange(pre_len as int, pre_len + 32);
    let mut acc: u128 = 0;
    let mut i: usize = 0;
    while i < 32
        invariant
            i <= 32,
            pre_len == join_prefix().len(),
            n == s@.len(),
            n == pre_len + 34,
            mid == s@.subrange(pre_len as int, pre_len + 32),
            forall|j: int| 0 <= j < i ==> is_hex_digit(#[trigger] mid[j]),
            acc as nat == hex_val(mid.subrange(0, i as int)),
            (acc as nat) < pow16(i as nat),
            s@ != "{\"type\":\"CreateMatch\"}"@,
            s@ != "{\"type\":\"ListMatches\"}"@,
        decreases 32 - i,
    {
        let c = s.get_char(pre_len + i);
        proof {
            assert(c == mid[i as int]);
        }
        let d = match parse_hex_digit(c) {
            None => {
                return None;
            },
            Some(d) => d,
        };
        proof {
            lemma_pow16_mono(i as nat, 31);
            lemma_pow16_32();
            assert(acc * 16 + 15 < pow16((i + 1) as nat)) by (nonlinear_arith)
                requires
                    (acc as nat) < pow16(i as nat),
                    pow16((i + 1) as nat) == 16 * pow16(i as nat),
            ;
            assert(pow16((i + 1) as nat) <= pow16(32)) by {
                lemma_pow16_mono((i + 1) as nat, 32);
            }
        }
        acc = acc * 16 + (d as u128);
        proof {
            assert(mid.subrange(0, i + 1).drop_last() =~= mid.subrange(0, i as int));
            assert(mid.subrange(0, i + 1).last() == mid[i as int]);
        }
        i += 1;
    }
    proof {
        assert(mid.subrange(0, 32) =~= mid);
        assert(all_hex_digits(mid));
    }
    Some(WsDto::JoinMatch(acc))
}

/// Round trip: every request frame the library encodes decodes back to the
/// same value.
pub proof fn lemma_request_codec_roundtrip(d: WsDto)
    ensures
        spec_decode_request(spec_encode_request(d)) == Some(d),
{
    reveal_strlit("{\"type\":\"CreateMatch\"}");
    reveal_strlit("{\"type\":\"ListMatches\"}");
    reveal_strlit("{\"type\":\"JoinMatch\",\"data\":\"");
    reveal_strlit("\"}");
    match d {
        WsDto::CreateMatch => {
        },
        WsDto::ListMatches => {
            assert("{\"type\":\"ListMatches\"}"@ != "{\"type\":\"CreateMatch\"}"@) by {
                assert("{\"type\":\"ListMatches\"}"@[9] != "{\"type\":\"CreateMatch\"}"@[9]);
            }
        },
        WsDto::JoinMatch(id) => {
            let t = spec_encode_request(d);
            lemma_pow16_32();
            lemma_hex_roundtrip(id as nat, 32);
            assert(t.len() == 62);
            assert(t != "{\"type\":\"CreateMatch\"}"@) by {
                assert("{\"type\":\"CreateMatch\"}"@.len() == 22);
            }
            assert(t != "{\"type\":\"ListMatches\"}"@) by {
                assert("{\"type\":\"ListMatches\"}"@.len() == 22);
            }
            assert(t.subrange(0, join_prefix().len() as int) =~= join_prefix());
            assert(t.subrange(t.len() - 2, t.len() as int) =~= join_suffix());
            assert(t.subrange(join_prefix().len() as int, join_prefix().len() as int + 32) =~= spec_hex(
                id as nat,
                32,
            ));
        },
    }
}

/// A string of hex digits re-encodes to itself from its value.
proof fn lemma_hex_val_encode(s: Seq<char>)
    requires
        all_hex_digits(s),
    ensures
        hex_val(s) < pow16(s.len()),
        spec_hex(hex_val(s), s.len()) == s,
    decreases s.len(),
{
    if s.len() > 0 {
        let t = s.drop_last();
        assert(all_hex_digits(t)) by {
            assert(forall|i: int| 0 <= i < t.len() ==> t[i] == s[i]);
        }
        lemma_hex_val_encode(t);
        let v = hex_val(s);
        assert(hex_digit_val(s.last()) < 16);
        assert(v < pow16(s.len())) by (nonlinear_arith)
            requires
                v == hex_val(t) * 16 + hex_digit_val(s.last()),
                hex_val(t) < pow16((s.len() - 1) as nat),
                hex_digit_val(s.last()) < 16,
                pow16(s.len()) == 16 * pow16((s.len() - 1) as nat),
        ;
        assert(v / 16 == hex_val(t) && v % 16 == hex_digit_val(s.last())) by (nonlinear_arith)
            requires
                v == hex_val(t) * 16 + hex_digit_val(s.last()),
                hex_digit_val(s.last()) < 16,
        ;
        assert(is_hex_digit(s.last()));
        assert(hex_char(hex_digit_val(s.last())) == s.last());
        assert(spec_hex(v, s.len()) =~= s);
    }
}

/// Canonicity: any frame the decoder accepts is exactly the canonical
/// encoding of the value it decodes to.
pub proof fn lemma_request_codec_canonical(t: Seq<char>, d: WsDto)
    requires
        spec_decode_request(t) == Some(d),
    ensures
        t == spec_encode_request(d),
{
    reveal_strlit("{\"type\":\"CreateMatch\"}");
    reveal_strlit("{\"type\":\"ListMatches\"}");
    reveal_strlit("{\"type\":\"JoinMatch\",\"data\":\"");
    reveal_strlit("\"}");
    if t == "{\"type\":\"CreateMatch\"}"@ || t == "{\"type\":\"ListMatches\"}"@ {
    } else {
        let mid = t.subrange(join_prefix().len() as int, join_prefix().len() as int + 32);
        lemma_hex_val_encode(mid);
        lemma_pow16_32();
        assert(d == WsDto::JoinMatch(hex_val(mid) as u128));
        assert((hex_val(mid) as u128) as nat == hex_val(mid));
        assert(spec_hex(hex_val(mid), 32) == mid);
        assert(spec_encode_request(d) =~= t);
    }
}

/// One character of a display name on the wire: `"` and `\` get a backslash
/// in front, everything else stands for itself.
pub open spec fn escape_char(c: char) -> Seq<char> {
    if c == '"' {
        seq!['\\', '"']
    } else if c == '\\' {
        seq!['\\', '\\']
    } else {
        seq![c]
    }
}

/// A display name on the wire.
pub open spec fn spec_escape(s: Seq<char>) -> Seq<char>
    decreases s.len(),
{
    if s.len() == 0 {
        Seq::empty()
    } else {
        spec_escape(s.drop_last()) + escape_char(s.last())
    }
}

/// The encoding of the confirmed `{id, name}` pair.
pub open spec fn spec_encode_client_user(u: ClientUser) -> Seq<char> {
    "{\"id\":\""@ + spec_hex(u.id as nat, 32) + "\",\"name\":\""@ + spec_escape(u.name@) + "\"}"@
}

/// The encoding of one listed match.
pub open spec fn spec_encode_client_match(m: ClientMatch) -> Seq<char> {
    "{\"id\":\""@ + spec_hex(m.id as nat, 32) + "\",\"player1\":\""@ + spec_escape(m.player1@)
        + "\",\"player2\":"@ + (match m.player2 {
        Some(p) => "\""@ + spec_escape(p@) + "\""@,
        None => "null"@,
    }) + "}"@
}

/// The comma-separated encodings of the listed matches, in order.
pub open spec fn spec_encode_match_list(ms: Seq<ClientMatch>) -> Seq<char>
    decreases ms.len(),
{
    if ms.len() == 0 {
        Seq::empty()
    } else if ms.len() == 1 {
        spec_encode_client_match(ms[0])
    } else {
        spec_encode_match_list(ms.drop_last()) + ","@ + spec_encode_client_match(ms.last())
    }
}

/// The canonical encoding of a response frame.
pub open spec fn spec_encode_response(r: WsResponseDto) -> Seq<char> {
    match r {
        WsResponseDto::LoginResponse(u) => "{\"type\":\"LoginResponse\",\"data\":"@
            + spec_encode_client_user(u) + "}"@,
        WsResponseDto::ListMatchesResponse(ms) => "{\"type\":\"ListMatchesResponse\",\"data\":["@
            + spec_encode_match_list(ms@) + "]}"@,
    }
}

/// One character as a string.
///
/// Relies on `String::from` for `char`: the string holding exactly that
/// character.
#[verifier::external_body]
fn char_to_string(c: char) -> (r: String)
    ensures
        r@ == seq![c],
{
    String::from(c)
}

/// Appends the escaped form of `s` to `out`.
fn escape_into(out: &mut String, s: &str)
    ensures
        final(out)@ == old(out)@ + spec_escape(s@),
{
    proof {
        reveal_strlit("\\\"");
        reveal_strlit("\\\\");
    }
    let n = s.unicode_len();
    let mut i: usize = 0;
    while i < n
        invariant
            n == s@.len(),
            i <= n,
            out@ == old(out)@ + spec_escape(s@.subrange(0, i as int)),
        decreases n - i,
    {
        let c = s.get_char(i);
        if c == '"' {
            out.append("\\\"");
        } else if c == '\\' {
            out.append("\\\\");
        } else {
            let cs = char_to_string(c);
            out.append(cs.as_str());
        }
        proof {
            reveal_strlit("\\\"");
            reveal_strlit("\\\\");
            assert(s@.subrange(0, i + 1).drop_last() =~= s@.subrange(0, i as int));
            assert(s@.subrange(0, i + 1).last() == s@[i as int]);
            if c == '"' {
                assert("\\\""@ =~= escape_char(s@[i as int]));
            } else if c == '\\' {
                assert("\\\\"@ =~= escape_char(s@[i as int]));
            } else {
                assert(seq![c] =~= escape_char(s@[i as int]));
            }
            assert(out@ =~= old(out)@ + spec_escape(s@.subrange(0, i + 1)));
        }
        i += 1;
    }
    proof {
        assert(s@.subrange(0, n as int) =~= s@);
    }
}

/// Appends the encoding of the confirmed `{id, name}` pair to `out`.
fn encode_client_user_into(out: &mut String, u: &ClientUser)
    ensures
        final(out)@ == old(out)@ + spec_encode_client_user(*u),
{
    out.append("{\"id\":\"");
    let hex = encode_hex32(u.id);
    out.append(hex.as_str());
    out.append("\",\"name\":\"");
    escape_into(out, u.name.as_str());
    out.append("\"}");
    proof {
        assert(out@ =~= old(out)@ + spec_encode_client_user(*u));
    }
}

/// Appends the encoding of one listed match to `out`.
fn encode_client_match_into(out: &mut String, m: &ClientMatch)
    ensures
        final(out)@ == old(out)@ + spec_encode_client_match(*m),
{
    out.append("{\"id\":\"");
    let hex = encode_hex32(m.id);
    out.append(hex.as_str());
    out.append("\",\"player1\":\"");
    escape_into(out, m.player1.as_str());
    out.append("\",\"player2\":");
    match &m.player2 {
        Some(p) => {
            out.append("\"");
            escape_into(out, p.as_str());
            out.append("\"");
        },
        None => {
            out.append("null");
        },
    }
    out.append("}");
    proof {
        assert(out@ =~= old(out)@ + spec_encode_client_match(*m));
    }
}

/// Encodes a response frame canonically.
pub fn encode_response(r: &WsResponseDto) -> (out: String)
    ensures
        out@ == spec_encode_response(*r),
{
    match r {
        WsResponseDto::LoginResponse(u) => {
            let mut out = "{\"type\":\"LoginResponse\",\"data\":".to_owned();
            encode_client_user_into(&mut out, u);
            out.append("}");
            proof {
                assert(out@ =~= spec_encode_response(*r));
            }
            out
        },
        WsResponseDto::ListMatchesResponse(ms) => {
            let mut out = "{\"type\":\"ListMatchesResponse\",\"data\":[".to_owned();
            let ghost base = out@;
            let mut i: usize = 0;
            while i < ms.len()
                invariant
                    i <= ms@.len(),
                    base == "{\"type\":\"ListMatchesResponse\",\"data\":["@,
                    out@ == base + spec_encode_match_list(ms@.subrange(0, i as int)),
                decreases ms@.len() - i,
            {
                if i > 0 {
                    out.append(",");
                }
                encode_client_match_into(&mut out, &ms[i]);
                proof {
                    assert(ms@.subrange(0, i + 1).drop_last() =~= ms@.subrange(0, i as int));
                    assert(ms@.subrange(0, i + 1).last() == ms@[i as int]);
                    assert(out@ =~= base + spec_encode_match_list(ms@.subrange(0, i + 1)));
                }
                i += 1;
            }
            out.append("]}");
            proof {
                assert(ms@.subrange(0, ms@.len() as int) =~= ms@);
                assert(out@ =~= spec_encode_response(*r));
            }
            out
        },
    }
}

} // verus!

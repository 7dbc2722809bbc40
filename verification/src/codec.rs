//! The wire codec for request and response envelopes.
//!
//! An envelope is a tagged union carried as a length-delimited field whose
//! key names the populated variant; the field body is the variant's own
//! record, itself a sequence of key-prefixed fields. Integers travel as
//! base-128 varints of their 64-bit sign extension; byte strings as a
//! varint length followed by the bytes. A field holding its default value
//! (zero, or an empty byte string) is omitted, and an envelope with no
//! populated variant is the empty payload. The codec is canonical: the
//! encoder emits one byte sequence per value, and the decoder accepts
//! exactly those sequences, so malformed bytes produce a decode failure
//! and never a partial value.

use vstd::prelude::*;
use crate::messages::{ClientMessage, ClientMsg, ServerMessage, ServerMsg};
use crate::varint::{varint, parse_varint, encode_varint, decode_varint};
use crate::varint::{lemma_parse_varint_round_trip, lemma_parse_varint_sound};

verus! {

/// Key of the echo variant of either envelope (field one, length-delimited).
pub const KEY_ONEOF_ECHO: u8 = 0x0A;

/// Key of the addition variant of either envelope (field two, length-delimited).
pub const KEY_ONEOF_ADD: u8 = 0x12;

/// Key of the content field of an echo record (field one, length-delimited).
pub const KEY_ECHO_CONTENT: u8 = 0x0A;

/// Key of the first summand of an addition request (field one, varint).
pub const KEY_ADD_A: u8 = 0x08;

/// Key of the second summand of an addition request (field two, varint).
pub const KEY_ADD_B: u8 = 0x10;

/// Key of the result field of an addition response (field one, varint).
pub const KEY_ADD_RESULT: u8 = 0x08;

/// Decoding failed: the payload is not the encoding of any envelope.
#[derive(Clone, Copy, Debug, PartialEq, Eq, Structural)]
pub struct DecodeError;

/// The 64-bit sign extension of a 32-bit value, the domain varints carry.
pub open spec fn sext32(x: i32) -> u64 {
    if x >= 0 {
        x as u64
    } else {
        (x + 0x1_0000_0000_0000_0000) as u64
    }
}

/// Whether `v` is the sign extension of some 32-bit value.
pub open spec fn is_sext32(v: u64) -> bool {
    v < 0x8000_0000 || v >= 0xFFFF_FFFF_8000_0000
}

/// The 32-bit value whose sign extension is `v`.
pub open spec fn unsext32(v: u64) -> i32
    recommends
        is_sext32(v),
{
    if v < 0x8000_0000 {
        v as i32
    } else {
        (v - 0x1_0000_0000_0000_0000) as i32
    }
}

/// A byte-string field: key, varint length, bytes; omitted when empty.
pub open spec fn enc_bytes_field(key: u8, content: Seq<u8>) -> Seq<u8> {
    if content.len() == 0 {
        Seq::empty()
    } else {
        seq![key] + varint(content.len() as u64) + content
    }
}

/// A 32-bit integer field: key, varint of the sign extension; omitted when zero.
pub open spec fn enc_i32_field(key: u8, x: i32) -> Seq<u8> {
    if x == 0 {
        Seq::empty()
    } else {
        seq![key] + varint(sext32(x))
    }
}

/// The body of an echo record.
pub open spec fn enc_echo_body(content: Seq<u8>) -> Seq<u8> {
    enc_bytes_field(KEY_ECHO_CONTENT, content)
}

/// The body of an addition request record.
pub open spec fn enc_add_req_body(a: i32, b: i32) -> Seq<u8> {
    enc_i32_field(KEY_ADD_A, a) + enc_i32_field(KEY_ADD_B, b)
}

/// The body of an addition response record.
pub open spec fn enc_add_resp_body(result: i32) -> Seq<u8> {
    enc_i32_field(KEY_ADD_RESULT, result)
}

/// A populated variant of an envelope: key, varint length, record body.
pub open spec fn enc_oneof(key: u8, body: Seq<u8>) -> Seq<u8> {
    seq![key] + varint(body.len() as u64) + body
}

/// The encoding of a request envelope.
pub open spec fn enc_client(m: ClientMsg) -> Seq<u8> {
    match m {
        ClientMsg::Unset => Seq::empty(),
        ClientMsg::Echo { content } => enc_oneof(KEY_ONEOF_ECHO, enc_echo_body(content)),
        ClientMsg::Add { a, b } => enc_oneof(KEY_ONEOF_ADD, enc_add_req_body(a, b)),
    }
}

/// The encoding of a response envelope.
pub open spec fn enc_server(m: ServerMsg) -> Seq<u8> {
    match m {
        ServerMsg::Unset => Seq::empty(),
        ServerMsg::Echo { content } => enc_oneof(KEY_ONEOF_ECHO, enc_echo_body(content)),
        ServerMsg::AddResult { result } => enc_oneof(KEY_ONEOF_ADD, enc_add_resp_body(result)),
    }
}

/// An envelope whose encoded variant body the wire's length varint can
/// carry: the body is the content plus a key byte and a length varint of
/// at most ten bytes. Every envelope a machine can hold satisfies it.
pub open spec fn client_msg_wf(m: ClientMsg) -> bool {
    match m {
        ClientMsg::Echo { content } => content.len() + 11 <= u64::MAX,
        _ => true,
    }
}

/// Counterpart of `client_msg_wf` for response envelopes.
pub open spec fn server_msg_wf(m: ServerMsg) -> bool {
    match m {
        ServerMsg::Echo { content } => content.len() + 11 <= u64::MAX,
        _ => true,
    }
}

/// The body of a length-delimited field whose key stands at the front of
/// `b`: the varint length after the key must cover the rest of `b` exactly.
pub open spec fn parse_len_body(b: Seq<u8>) -> Option<Seq<u8>> {
    if b.len() == 0 {
        None
    } else {
        parse_len_body_nonempty(b)
    }
}

/// `parse_len_body` on a payload known to hold at least the key byte.
pub open spec fn parse_len_body_nonempty(b: Seq<u8>) -> Option<Seq<u8>> {
    match parse_varint(b.skip(1)) {
        None => None,
        Some((len, n)) => {
            if 1 + n + len == b.len() {
                Some(b.skip(1 + n))
            } else {
                None
            }
        },
    }
}

/// A 32-bit integer field at the front of `b` (key already inspected):
/// the value and the bytes that follow. The varint must be the sign
/// extension of a nonzero 32-bit value, since zero fields are omitted.
pub open spec fn parse_i32_field(b: Seq<u8>) -> Option<(i32, Seq<u8>)> {
    if b.len() == 0 {
        None
    } else {
        parse_i32_field_nonempty(b)
    }
}

/// `parse_i32_field` on a payload known to hold at least the key byte.
pub open spec fn parse_i32_field_nonempty(b: Seq<u8>) -> Option<(i32, Seq<u8>)> {
    match parse_varint(b.skip(1)) {
        None => None,
        Some((v, n)) => {
            if is_sext32(v) && v != 0 {
                Some((unsext32(v), b.skip(1 + n)))
            } else {
                None
            }
        },
    }
}

/// Decode the body of an echo record.
pub open spec fn dec_echo_body(b: Seq<u8>) -> Option<Seq<u8>> {
    if b.len() == 0 {
        Some(Seq::empty())
    } else if b[0] == KEY_ECHO_CONTENT {
        match parse_len_body(b) {
            None => None,
            Some(content) => {
                if content.len() > 0 {
                    Some(content)
                } else {
                    None
                }
            },
        }
    } else {
        None
    }
}

/// Decode the body of an addition request record: field one then field
/// two, each present exactly when nonzero.
pub open spec fn dec_add_req_body(b: Seq<u8>) -> Option<(i32, i32)> {
    if b.len() == 0 {
        Some((0, 0))
    } else if b[0] == KEY_ADD_A {
        match parse_i32_field(b) {
            None => None,
            Some((a, rest)) => {
                if rest.len() == 0 {
                    Some((a, 0))
                } else if rest[0] == KEY_ADD_B {
                    match parse_i32_field(rest) {
                        None => None,
                        Some((bv, rest2)) => {
                            if rest2.len() == 0 {
                                Some((a, bv))
                            } else {
                                None
                            }
                        },
                    }
                } else {
                    None
                }
            },
        }
    } else if b[0] == KEY_ADD_B {
        match parse_i32_field(b) {
            None => None,
            Some((bv, rest2)) => {
                if rest2.len() == 0 {
                    Some((0, bv))
                } else {
                    None
                }
            },
        }
    } else {
        None
    }
}

/// Decode the body of an addition response record.
pub open spec fn dec_add_resp_body(b: Seq<u8>) -> Option<i32> {
    if b.len() == 0 {
        Some(0)
    } else if b[0] == KEY_ADD_RESULT {
        match parse_i32_field(b) {
            None => None,
            Some((r, rest)) => {
                if rest.len() == 0 {
                    Some(r)
                } else {
                    None
                }
            },
        }
    } else {
        None
    }
}

/// Decode a request envelope.
pub open spec fn dec_client(b: Seq<u8>) -> Option<ClientMsg> {
    if b.len() == 0 {
        Some(ClientMsg::Unset)
    } else if b[0] == KEY_ONEOF_ECHO {
        match parse_len_body(b) {
            None => None,
            Some(body) => match dec_echo_body(body) {
                None => None,
                Some(content) => Some(ClientMsg::Echo { content }),
            },
        }
    } else if b[0] == KEY_ONEOF_ADD {
        match parse_len_body(b) {
            None => None,
            Some(body) => match dec_add_req_body(body) {
                None => None,
                Some(ab) => Some(ClientMsg::Add { a: ab.0, b: ab.1 }),
            },
        }
    } else {
        None
    }
}

/// Decode a response envelope.
pub open spec fn dec_server(b: Seq<u8>) -> Option<ServerMsg> {
    if b.len() == 0 {
        Some(ServerMsg::Unset)
    } else if b[0] == KEY_ONEOF_ECHO {
        match parse_len_body(b) {
            None => None,
            Some(body) => match dec_echo_body(body) {
                None => None,
                Some(content) => Some(ServerMsg::Echo { content }),
            },
        }
    } else if b[0] == KEY_ONEOF_ADD {
        match parse_len_body(b) {
            None => None,
            Some(body) => match dec_add_resp_body(body) {
                None => None,
                Some(result) => Some(ServerMsg::AddResult { result }),
            },
        }
    } else {
        None
    }
}

/// Sign extension is injective, zero-preserving, and inverted by `unsext32`.
pub proof fn lemma_sext32_inverse(x: i32)
    ensures
        is_sext32(sext32(x)),
        unsext32(sext32(x)) == x,
        sext32(x) == 0 <==> x == 0,
{
}

/// Every value `is_sext32` accepts is the sign extension of its `unsext32`.
pub proof fn lemma_unsext32_inverse(v: u64)
    requires
        is_sext32(v),
    ensures
        sext32(unsext32(v)) == v,
{
}

/// A length-delimited field parses back to the body it was built from.
pub proof fn lemma_parse_len_body_round_trip(key: u8, body: Seq<u8>)
    requires
        body.len() <= u64::MAX,
    ensures
        parse_len_body(enc_oneof(key, body)) == Some(body),
{
    let len = body.len() as u64;
    let b = enc_oneof(key, body);
    lemma_parse_varint_round_trip(len, body);
    assert(b.skip(1) =~= varint(len) + body);
    let n = varint(len).len() as int;
    assert(b.skip(1 + n) =~= body);
}

/// A successful length-delimited parse came from exactly one encoding.
pub proof fn lemma_parse_len_body_sound(b: Seq<u8>)
    ensures
        parse_len_body(b) matches Some(body) ==> {
            &&& body.len() <= u64::MAX
            &&& b =~= enc_oneof(b[0], body)
        },
{
    if parse_len_body(b) is Some {
        let body = parse_len_body(b).unwrap();
        let (len, n) = parse_varint(b.skip(1)).unwrap();
        lemma_parse_varint_sound(b.skip(1));
        assert(b.skip(1).subrange(0, n) == varint(len));
        assert(body == b.skip(1 + n));
        assert(body.len() == len);
        assert(b.skip(1) =~= b.skip(1).subrange(0, n) + b.skip(1 + n));
        assert(b =~= seq![b[0]] + b.skip(1));
        assert(b =~= seq![b[0]] + b.skip(1).subrange(0, n) + b.skip(1 + n));
    }
}

/// A nonzero integer field parses back to the value it was built from.
pub proof fn lemma_parse_i32_field_round_trip(key: u8, x: i32, rest: Seq<u8>)
    requires
        x != 0,
    ensures
        parse_i32_field(seq![key] + varint(sext32(x)) + rest) == Some((x, rest)),
{
    let b = seq![key] + varint(sext32(x)) + rest;
    lemma_parse_varint_round_trip(sext32(x), rest);
    assert(b.skip(1) =~= varint(sext32(x)) + rest);
    let n = varint(sext32(x)).len() as int;
    assert(b.skip(1 + n) =~= rest);
    lemma_sext32_inverse(x);
}

/// A successful integer-field parse came from exactly one encoding.
pub proof fn lemma_parse_i32_field_sound(b: Seq<u8>)
    ensures
        parse_i32_field(b) matches Some(p) ==> {
            &&& p.0 != 0
            &&& b =~= seq![b[0]] + varint(sext32(p.0)) + p.1
        },
{
    if parse_i32_field(b) is Some {
        let (x, rest) = parse_i32_field(b).unwrap();
        let (v, n) = parse_varint(b.skip(1)).unwrap();
        lemma_parse_varint_sound(b.skip(1));
        lemma_unsext32_inverse(v);
        assert(b.skip(1).subrange(0, n) == varint(v));
        assert(b.skip(1) =~= b.skip(1).subrange(0, n) + b.skip(1 + n));
        assert(b =~= seq![b[0]] + b.skip(1));
        assert(b =~= seq![b[0]] + b.skip(1).subrange(0, n) + b.skip(1 + n));
    }
}

/// An echo record round-trips through its body codec.
pub proof fn lemma_echo_body_round_trip(content: Seq<u8>)
    requires
        content.len() <= u64::MAX,
    ensures
        dec_echo_body(enc_echo_body(content)) == Some(content),
{
    if content.len() > 0 {
        lemma_parse_len_body_round_trip(KEY_ECHO_CONTENT, content);
        assert(enc_echo_body(content) == enc_oneof(KEY_ECHO_CONTENT, content));
    }
}

/// A decoded echo body came from exactly one record encoding.
pub proof fn lemma_echo_body_sound(b: Seq<u8>)
    ensures
        dec_echo_body(b) matches Some(content) ==> {
            &&& content.len() <= u64::MAX
            &&& b =~= enc_echo_body(content)
        },
{
    if b.len() > 0 && b[0] == KEY_ECHO_CONTENT {
        lemma_parse_len_body_sound(b);
    }
}

/// An addition request record round-trips through its body codec.
pub proof fn lemma_add_req_body_round_trip(a: i32, b: i32)
    ensures
        dec_add_req_body(enc_add_req_body(a, b)) == Some((a, b)),
{
    let e = enc_add_req_body(a, b);
    if a == 0 && b == 0 {
        assert(e =~= Seq::<u8>::empty());
    } else if a == 0 {
        assert(e =~= seq![KEY_ADD_B] + varint(sext32(b)) + Seq::<u8>::empty());
        lemma_parse_i32_field_round_trip(KEY_ADD_B, b, Seq::empty());
        assert(e[0] == KEY_ADD_B);
        lemma_sext32_inverse(b);
        assert(KEY_ADD_B != KEY_ADD_A);
    } else if b == 0 {
        assert(e =~= seq![KEY_ADD_A] + varint(sext32(a)) + Seq::<u8>::empty());
        lemma_parse_i32_field_round_trip(KEY_ADD_A, a, Seq::empty());
        assert(e[0] == KEY_ADD_A);
    } else {
        let eb = seq![KEY_ADD_B] + varint(sext32(b)) + Seq::<u8>::empty();
        assert(e =~= seq![KEY_ADD_A] + varint(sext32(a)) + eb);
        lemma_parse_i32_field_round_trip(KEY_ADD_A, a, eb);
        assert(e[0] == KEY_ADD_A);
        assert(eb[0] == KEY_ADD_B);
        lemma_parse_i32_field_round_trip(KEY_ADD_B, b, Seq::empty());
    }
}

/// A decoded addition request came from exactly one record encoding.
pub proof fn lemma_add_req_body_sound(b: Seq<u8>)
    ensures
        dec_add_req_body(b) matches Some(ab) ==> b =~= enc_add_req_body(ab.0, ab.1),
{
    if dec_add_req_body(b) is Some {
        let (x, y) = dec_add_req_body(b).unwrap();
        if b.len() == 0 {
            assert(b =~= enc_add_req_body(0, 0));
        } else if b[0] == KEY_ADD_A {
            lemma_parse_i32_field_sound(b);
            let (a, rest) = parse_i32_field(b).unwrap();
            if rest.len() == 0 {
                assert(b =~= enc_add_req_body(a, 0));
            } else {
                lemma_parse_i32_field_sound(rest);
                let (bv, rest2) = parse_i32_field(rest).unwrap();
                assert(rest =~= seq![KEY_ADD_B] + varint(sext32(bv)) + rest2);
                assert(rest2.len() == 0);
                assert(rest =~= seq![KEY_ADD_B] + varint(sext32(bv)));
                assert(b =~= enc_add_req_body(a, bv));
            }
        } else {
            lemma_parse_i32_field_sound(b);
            let (bv, rest2) = parse_i32_field(b).unwrap();
            assert(b =~= enc_add_req_body(0, bv));
        }
    }
}

/// An addition response record round-trips through its body codec.
pub proof fn lemma_add_resp_body_round_trip(result: i32)
    ensures
        dec_add_resp_body(enc_add_resp_body(result)) == Some(result),
{
    let e = enc_add_resp_body(result);
    if result == 0 {
        assert(e =~= Seq::<u8>::empty());
    } else {
        assert(e =~= seq![KEY_ADD_RESULT] + varint(sext32(result)) + Seq::<u8>::empty());
        lemma_parse_i32_field_round_trip(KEY_ADD_RESULT, result, Seq::empty());
        assert(e[0] == KEY_ADD_RESULT);
    }
}

/// A decoded addition response came from exactly one record encoding.
pub proof fn lemma_add_resp_body_sound(b: Seq<u8>)
    ensures
        dec_add_resp_body(b) matches Some(r) ==> b =~= enc_add_resp_body(r),
{
    if dec_add_resp_body(b) is Some {
        if b.len() > 0 {
            lemma_parse_i32_field_sound(b);
            let (r, rest) = parse_i32_field(b).unwrap();
            assert(b =~= enc_add_resp_body(r));
        }
    }
}

/// Decoding inverts encoding on every well-formed request envelope.
pub proof fn lemma_client_round_trip(m: ClientMsg)
    requires
        client_msg_wf(m),
    ensures
        dec_client(enc_client(m)) == Some(m),
{
    match m {
        ClientMsg::Unset => {},
        ClientMsg::Echo { content } => {
            let body = enc_echo_body(content);
            crate::varint::lemma_varint_len(content.len() as u64);
            lemma_parse_len_body_round_trip(KEY_ONEOF_ECHO, body);
            lemma_echo_body_round_trip(content);
            assert(enc_client(m)[0] == KEY_ONEOF_ECHO);
        },
        ClientMsg::Add { a, b } => {
            let body = enc_add_req_body(a, b);
            crate::varint::lemma_varint_len(sext32(a));
            crate::varint::lemma_varint_len(sext32(b));
            lemma_parse_len_body_round_trip(KEY_ONEOF_ADD, body);
            lemma_add_req_body_round_trip(a, b);
            assert(enc_client(m)[0] == KEY_ONEOF_ADD);
        },
    }
}

/// Decoding is sound: every accepted payload is the encoding of the
/// envelope returned, which is well formed.
pub proof fn lemma_client_sound(b: Seq<u8>)
    ensures
        dec_client(b) matches Some(m) ==> b =~= enc_client(m),
{
    if dec_client(b) is Some && b.len() > 0 {
        lemma_parse_len_body_sound(b);
        let body = parse_len_body(b).unwrap();
        if b[0] == KEY_ONEOF_ECHO {
            lemma_echo_body_sound(body);
        } else {
            lemma_add_req_body_sound(body);
        }
    }
}

/// Decoding inverts encoding on every well-formed response envelope.
pub proof fn lemma_server_round_trip(m: ServerMsg)
    requires
        server_msg_wf(m),
    ensures
        dec_server(enc_server(m)) == Some(m),
{
    match m {
        ServerMsg::Unset => {},
        ServerMsg::Echo { content } => {
            let body = enc_echo_body(content);
            crate::varint::lemma_varint_len(content.len() as u64);
            lemma_parse_len_body_round_trip(KEY_ONEOF_ECHO, body);
            lemma_echo_body_round_trip(content);
            assert(enc_server(m)[0] == KEY_ONEOF_ECHO);
        },
        ServerMsg::AddResult { result } => {
            let body = enc_add_resp_body(result);
            crate::varint::lemma_varint_len(sext32(result));
            lemma_parse_len_body_round_trip(KEY_ONEOF_ADD, body);
            lemma_add_resp_body_round_trip(result);
            assert(enc_server(m)[0] == KEY_ONEOF_ADD);
        },
    }
}

/// Counterpart of `lemma_client_sound` for response envelopes.
pub proof fn lemma_server_sound(b: Seq<u8>)
    ensures
        dec_server(b) matches Some(m) ==> b =~= enc_server(m),
{
    if dec_server(b) is Some && b.len() > 0 {
        lemma_parse_len_body_sound(b);
        let body = parse_len_body(b).unwrap();
        if b[0] == KEY_ONEOF_ECHO {
            lemma_echo_body_sound(body);
        } else {
            lemma_add_resp_body_sound(body);
        }
    }
}

/// Compute the 64-bit sign extension of `x`.
fn sext32_exec(x: i32) -> (r: u64)
    ensures
        r == sext32(x),
{
    if x >= 0 {
        x as u64
    } else {
        let m: u64 = (-(x as i64)) as u64;
        u64::MAX - m + 1
    }
}

/// Recover the 32-bit value from its sign extension.
fn unsext32_exec(v: u64) -> (r: i32)
    requires
        is_sext32(v),
    ensures
        r == unsext32(v),
{
    if v < 0x8000_0000 {
        v as i32
    } else {
        let m: u64 = (u64::MAX - v) + 1;
        (-(m as i64)) as i32
    }
}

/// Append a byte-string field to `out`.
fn encode_bytes_field(key: u8, content: &[u8], out: &mut Vec<u8>)
    ensures
        final(out)@ == old(out)@ + enc_bytes_field(key, content@),
{
    if content.len() == 0 {
        assert(out@ =~= old(out)@ + enc_bytes_field(key, content@));
        return ;
    }
    out.push(key);
    encode_varint(content.len() as u64, out);
    let ghost mid = out@;
    let mut i: usize = 0;
    while i < content.len()
        invariant
            i <= content@.len(),
            out@ == mid + content@.subrange(0, i as int),
        decreases content@.len() - i,
    {
        out.push(*vstd::slice::slice_index_get(content, i));
        assert(out@ =~= mid + content@.subrange(0, i as int + 1));
        i = i + 1;
    }
    assert(content@.subrange(0, content@.len() as int) =~= content@);
    assert(out@ =~= old(out)@ + enc_bytes_field(key, content@));
}

/// Append a 32-bit integer field to `out`.
fn encode_i32_field(key: u8, x: i32, out: &mut Vec<u8>)
    ensures
        final(out)@ == old(out)@ + enc_i32_field(key, x),
{
    if x == 0 {
        assert(out@ =~= old(out)@ + enc_i32_field(key, x));
        return ;
    }
    out.push(key);
    encode_varint(sext32_exec(x), out);
    assert(out@ =~= old(out)@ + enc_i32_field(key, x));
}

/// Build a populated variant from its record body: key, length, body.
fn encode_oneof_vec(key: u8, body: Vec<u8>) -> (r: Vec<u8>)
    ensures
        r@ == enc_oneof(key, body@),
{
    let ghost bv = body@;
    let mut out: Vec<u8> = Vec::new();
    out.push(key);
    let mut body = body;
    encode_varint(body.len() as u64, &mut out);
    out.append(&mut body);
    assert(out@ =~= seq![key] + varint(bv.len() as u64) + bv);
    out
}

/// Encode a request envelope to its wire payload.
pub fn encode_client(m: &ClientMessage) -> (r: Vec<u8>)
    ensures
        r@ == enc_client(m@),
{
    match m {
        ClientMessage::Unset => {
            let out: Vec<u8> = Vec::new();
            assert(out@ =~= enc_client(ClientMsg::Unset));
            out
        },
        ClientMessage::Echo { content } => {
            let mut body: Vec<u8> = Vec::new();
            encode_bytes_field(KEY_ECHO_CONTENT, content.as_slice(), &mut body);
            assert(body@ =~= enc_echo_body(content@));
            encode_oneof_vec(KEY_ONEOF_ECHO, body)
        },
        ClientMessage::Add { a, b } => {
            let mut body: Vec<u8> = Vec::new();
            encode_i32_field(KEY_ADD_A, *a, &mut body);
            encode_i32_field(KEY_ADD_B, *b, &mut body);
            assert(body@ =~= enc_add_req_body(*a, *b));
            encode_oneof_vec(KEY_ONEOF_ADD, body)
        },
    }
}

/// Encode a response envelope to its wire payload.
pub fn encode_server(m: &ServerMessage) -> (r: Vec<u8>)
    ensures
        r@ == enc_server(m@),
{
    match m {
        ServerMessage::Unset => {
            let out: Vec<u8> = Vec::new();
            assert(out@ =~= enc_server(ServerMsg::Unset));
            out
        },
        ServerMessage::Echo { content } => {
            let mut body: Vec<u8> = Vec::new();
            encode_bytes_field(KEY_ECHO_CONTENT, content.as_slice(), &mut body);
            assert(body@ =~= enc_echo_body(content@));
            encode_oneof_vec(KEY_ONEOF_ECHO, body)
        },
        ServerMessage::AddResult { result } => {
            let mut body: Vec<u8> = Vec::new();
            encode_i32_field(KEY_ADD_RESULT, *result, &mut body);
            assert(body@ =~= enc_add_resp_body(*result));
            encode_oneof_vec(KEY_ONEOF_ADD, body)
        },
    }
}

/// Locate the body of the length-delimited field at `start`: the length
/// varint after the key must cover the rest of the buffer exactly.
fn body_start(buf: &[u8], start: usize) -> (r: Option<usize>)
    requires
        start < buf@.len(),
    ensures
        match r {
            Some(s) => {
                &&& start < s <= buf@.len()
                &&& parse_len_body(buf@.skip(start as int)) == Some(buf@.skip(s as int))
            },
            None => parse_len_body(buf@.skip(start as int)) is None,
        },
{
    let blen = buf.len();
    proof {
        assert(buf@.skip(start as int).skip(1) =~= buf@.skip(start as int + 1));
    }
    match decode_varint(buf, start + 1) {
        None => None,
        Some((len, end)) => {
            if len == (buf.len() - end) as u64 {
                proof {
                    let n = end - start - 1;
                    assert(buf@.skip(start as int).skip(1 + n) =~= buf@.skip(end as int));
                }
                Some(end)
            } else {
                None
            }
        },
    }
}

/// Decode the integer field at `start` (its key already matched): the
/// value and the position just past its varint.
fn parse_i32_at(buf: &[u8], start: usize) -> (r: Option<(i32, usize)>)
    requires
        start < buf@.len(),
    ensures
        match r {
            Some(p) => {
                &&& start < p.1 <= buf@.len()
                &&& parse_i32_field(buf@.skip(start as int)) == Some((p.0, buf@.skip(p.1 as int)))
            },
            None => parse_i32_field(buf@.skip(start as int)) is None,
        },
{
    let blen = buf.len();
    proof {
        assert(buf@.skip(start as int).skip(1) =~= buf@.skip(start as int + 1));
    }
    match decode_varint(buf, start + 1) {
        None => None,
        Some((v, end)) => {
            if v != 0 && (v < 0x8000_0000 || v >= 0xFFFF_FFFF_8000_0000) {
                let x = unsext32_exec(v);
                proof {
                    let n = end - start - 1;
                    assert(buf@.skip(start as int).skip(1 + n) =~= buf@.skip(end as int));
                }
                Some((x, end))
            } else {
                None
            }
        },
    }
}

/// Decode the echo record that fills `buf` from `start` on.
fn decode_echo_body(buf: &[u8], start: usize) -> (r: Option<Vec<u8>>)
    requires
        start <= buf@.len(),
    ensures
        match r {
            Some(content) => dec_echo_body(buf@.skip(start as int)) == Some(content@),
            None => dec_echo_body(buf@.skip(start as int)) is None,
        },
{
    if start == buf.len() {
        let content: Vec<u8> = Vec::new();
        assert(content@ =~= Seq::<u8>::empty());
        return Some(content);
    }
    if *vstd::slice::slice_index_get(buf, start) != KEY_ECHO_CONTENT {
        return None;
    }
    match body_start(buf, start) {
        None => None,
        Some(s) => {
            if s < buf.len() {
                let content = vstd::slice::slice_to_vec(
                    vstd::slice::slice_subrange(buf, s, buf.len()),
                );
                assert(content@ =~= buf@.skip(s as int));
                Some(content)
            } else {
                None
            }
        },
    }
}

/// Decode the addition request record that fills `buf` from `start` on.
fn decode_add_req_body(buf: &[u8], start: usize) -> (r: Option<(i32, i32)>)
    requires
        start <= buf@.len(),
    ensures
        match r {
            Some(ab) => dec_add_req_body(buf@.skip(start as int)) == Some(ab),
            None => dec_add_req_body(buf@.skip(start as int)) is None,
        },
{
    if start == buf.len() {
        return Some((0, 0));
    }
    let key = *vstd::slice::slice_index_get(buf, start);
    if key == KEY_ADD_A {
        match parse_i32_at(buf, start) {
            None => None,
            Some((a, p)) => {
                if p == buf.len() {
                    Some((a, 0))
                } else if *vstd::slice::slice_index_get(buf, p) == KEY_ADD_B {
                    match parse_i32_at(buf, p) {
                        None => None,
                        Some((bv, p2)) => {
                            if p2 == buf.len() {
                                Some((a, bv))
                            } else {
                                None
                            }
                        },
                    }
                } else {
                    None
                }
            },
        }
    } else if key == KEY_ADD_B {
        match parse_i32_at(buf, start) {
            None => None,
            Some((bv, p2)) => {
                if p2 == buf.len() {
                    Some((0, bv))
                } else {
                    None
                }
            },
        }
    } else {
        None
    }
}

/// Decode the addition response record that fills `buf` from `start` on.
fn decode_add_resp_body(buf: &[u8], start: usize) -> (r: Option<i32>)
    requires
        start <= buf@.len(),
    ensures
        match r {
            Some(result) => dec_add_resp_body(buf@.skip(start as int)) == Some(result),
            None => dec_add_resp_body(buf@.skip(start as int)) is None,
        },
{
    if start == buf.len() {
        return Some(0);
    }
    if *vstd::slice::slice_index_get(buf, start) != KEY_ADD_RESULT {
        return None;
    }
    match parse_i32_at(buf, start) {
        None => None,
        Some((result, p)) => {
            if p == buf.len() {
                Some(result)
            } else {
                None
            }
        },
    }
}

/// Decode one wire payload as a request envelope. Fails exactly on the
/// payloads that encode no envelope; never yields a partial value.
pub fn decode_client(buf: &[u8]) -> (r: Result<ClientMessage, DecodeError>)
    ensures
        match r {
            Ok(m) => dec_client(buf@) == Some(m@),
            Err(_) => dec_client(buf@) is None,
        },
{
    proof {
        assert(buf@.skip(0) =~= buf@);
    }
    if buf.len() == 0 {
        return Ok(ClientMessage::Unset);
    }
    let key = *vstd::slice::slice_index_get(buf, 0);
    if key == KEY_ONEOF_ECHO {
        match body_start(buf, 0) {
            None => Err(DecodeError),
            Some(s) => match decode_echo_body(buf, s) {
                None => Err(DecodeError),
                Some(content) => Ok(ClientMessage::Echo { content }),
            },
        }
    } else if key == KEY_ONEOF_ADD {
        match body_start(buf, 0) {
            None => Err(DecodeError),
            Some(s) => match decode_add_req_body(buf, s) {
                None => Err(DecodeError),
                Some((a, b)) => Ok(ClientMessage::Add { a, b }),
            },
        }
    } else {
        Err(DecodeError)
    }
}

/// Decode one wire payload as a response envelope.
pub fn decode_server(buf: &[u8]) -> (r: Result<ServerMessage, DecodeError>)
    ensures
        match r {
            Ok(m) => dec_server(buf@) == Some(m@),
            Err(_) => dec_server(buf@) is None,
        },
{
    proof {
        assert(buf@.skip(0) =~= buf@);
    }
    if buf.len() == 0 {
        return Ok(ServerMessage::Unset);
    }
    let key = *vstd::slice::slice_index_get(buf, 0);
    if key == KEY_ONEOF_ECHO {
        match body_start(buf, 0) {
            None => Err(DecodeError),
            Some(s) => match decode_echo_body(buf, s) {
                None => Err(DecodeError),
                Some(content) => Ok(ServerMessage::Echo { content }),
            },
        }
    } else if key == KEY_ONEOF_ADD {
        match body_start(buf, 0) {
            None => Err(DecodeError),
            Some(s) => match decode_add_resp_body(buf, s) {
                None => Err(DecodeError),
                Some(result) => Ok(ServerMessage::AddResult { result }),
            },
        }
    } else {
        Err(DecodeError)
    }
}

} // verus!

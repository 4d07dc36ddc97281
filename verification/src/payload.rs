//! The wire payloads of the registration subsystem.
//!
//! A `register` message carries `{"id":<node>,"grpcEndpoint":<endpoint>}`
//! and a `deregister` message carries `{"id":<node>}`, both as compact
//! JSON with the two string values escaped exactly as the standard
//! compact JSON encoder writes them: `"` and `\` get a backslash, the
//! named control characters get their short escapes, the remaining
//! control bytes become `\u00XX` with lowercase hex digits, and every
//! other byte stands unchanged.

use vstd::prelude::*;

verus! {

/// The lowercase hex digit of a value below 16.
pub open spec fn hex_digit(n: u8) -> u8
    recommends
        n < 16,
{
    if n < 10 {
        (0x30 + n) as u8
    } else {
        (0x57 + n) as u8
    }
}

/// The bytes a single byte becomes inside a JSON string literal.
pub open spec fn escaped_byte(b: u8) -> Seq<u8> {
    if b == 0x22 {  // "
        seq![0x5cu8, 0x22u8]
    } else if b == 0x5c {  // backslash
        seq![0x5cu8, 0x5cu8]
    } else if b == 0x08 {
        seq![0x5cu8, 0x62u8]  // \b
    } else if b == 0x09 {
        seq![0x5cu8, 0x74u8]  // \t
    } else if b == 0x0a {
        seq![0x5cu8, 0x6eu8]  // \n
    } else if b == 0x0c {
        seq![0x5cu8, 0x66u8]  // \f
    } else if b == 0x0d {
        seq![0x5cu8, 0x72u8]  // \r
    } else if b < 0x20 {
        seq![0x5cu8, 0x75u8, 0x30u8, 0x30u8, hex_digit(b / 16), hex_digit(b % 16)]
    } else {
        seq![b]
    }
}

/// A byte string escaped for use inside a JSON string literal.
pub open spec fn escape_bytes(s: Seq<u8>) -> Seq<u8>
    decreases s.len(),
{
    if s.len() == 0 {
        Seq::empty()
    } else {
        escape_bytes(s.drop_last()) + escaped_byte(s.last())
    }
}

/// `{"id":"`
pub open spec fn id_prefix() -> Seq<u8> {
    seq![0x7bu8, 0x22u8, 0x69u8, 0x64u8, 0x22u8, 0x3au8, 0x22u8]
}

/// `","grpcEndpoint":"`
pub open spec fn endpoint_infix() -> Seq<u8> {
    seq![
        0x22u8, 0x2cu8, 0x22u8, 0x67u8, 0x72u8, 0x70u8, 0x63u8, 0x45u8, 0x6eu8, 0x64u8, 0x70u8,
        0x6fu8, 0x69u8, 0x6eu8, 0x74u8, 0x22u8, 0x3au8, 0x22u8,
    ]
}

/// `"}`
pub open spec fn object_suffix() -> Seq<u8> {
    seq![0x22u8, 0x7du8]
}

/// The payload published on the `register` channel for a node with the
/// given identity and endpoint bytes.
pub open spec fn register_payload_spec(id: Seq<u8>, endpoint: Seq<u8>) -> Seq<u8> {
    id_prefix() + escape_bytes(id) + endpoint_infix() + escape_bytes(endpoint) + object_suffix()
}

/// The payload published on the `deregister` channel for a node with the
/// given identity bytes.
pub open spec fn deregister_payload_spec(id: Seq<u8>) -> Seq<u8> {
    id_prefix() + escape_bytes(id) + object_suffix()
}

/// Escaping one more byte extends the escaped prefix.
proof fn lemma_escape_step(s: Seq<u8>, i: int)
    requires
        0 <= i < s.len(),
    ensures
        escape_bytes(s.take(i + 1)) == escape_bytes(s.take(i)) + escaped_byte(s[i]),
{
    assert(s.take(i + 1).drop_last() =~= s.take(i));
    assert(s.take(i + 1).last() == s[i]);
}

/// Appends the escaped form of `src` to `out`.
pub fn escape_into(src: &Vec<u8>, out: &mut Vec<u8>)
    ensures
        final(out)@ == old(out)@ + escape_bytes(src@),
{
    let n = src.len();
    let mut i: usize = 0;
    while i < n
        invariant
            n == src@.len(),
            i <= n,
            out@ == old(out)@ + escape_bytes(src@.take(i as int)),
        decreases n - i,
    {
        let b = src[i];
        if b == 0x22 {
            out.push(0x5c);
            out.push(0x22);
        } else if b == 0x5c {
            out.push(0x5c);
            out.push(0x5c);
        } else if b == 0x08 {
            out.push(0x5c);
            out.push(0x62);
        } else if b == 0x09 {
            out.push(0x5c);
            out.push(0x74);
        } else if b == 0x0a {
            out.push(0x5c);
            out.push(0x6e);
        } else if b == 0x0c {
            out.push(0x5c);
            out.push(0x66);
        } else if b == 0x0d {
            out.push(0x5c);
            out.push(0x72);
        } else if b < 0x20 {
            out.push(0x5c);
            out.push(0x75);
            out.push(0x30);
            out.push(0x30);
            let hi = b / 16;
            let lo = b % 16;
            out.push(if hi < 10 { 0x30 + hi } else { 0x57 + hi });
            out.push(if lo < 10 { 0x30 + lo } else { 0x57 + lo });
        } else {
            out.push(b);
        }
        proof {
            lemma_escape_step(src@, i as int);
            assert(out@ =~= old(out)@ + escape_bytes(src@.take(i + 1)));
        }
        i = i + 1;
    }
    proof {
        assert(src@.take(n as int) =~= src@);
    }
}

/// Builds the `register` payload from the node identity and endpoint
/// bytes.
pub fn register_payload_bytes(id: &Vec<u8>, endpoint: &Vec<u8>) -> (out: Vec<u8>)
    ensures
        out@ == register_payload_spec(id@, endpoint@),
{
    let mut out: Vec<u8> = Vec::new();
    push_id_prefix(&mut out);
    escape_into(id, &mut out);
    push_endpoint_infix(&mut out);
    escape_into(endpoint, &mut out);
    push_object_suffix(&mut out);
    out
}

/// Builds the `deregister` payload from the node identity bytes.
pub fn deregister_payload_bytes(id: &Vec<u8>) -> (out: Vec<u8>)
    ensures
        out@ == deregister_payload_spec(id@),
{
    let mut out: Vec<u8> = Vec::new();
    push_id_prefix(&mut out);
    escape_into(id, &mut out);
    push_object_suffix(&mut out);
    out
}

fn push_id_prefix(out: &mut Vec<u8>)
    ensures
        final(out)@ == old(out)@ + id_prefix(),
{
    out.push(0x7b);
    out.push(0x22);
    out.push(0x69);
    out.push(0x64);
    out.push(0x22);
    out.push(0x3a);
    out.push(0x22);
    proof {
        assert(out@ =~= old(out)@ + id_prefix());
    }
}

fn push_endpoint_infix(out: &mut Vec<u8>)
    ensures
        final(out)@ == old(out)@ + endpoint_infix(),
{
    out.push(0x22);
    out.push(0x2c);
    out.push(0x22);
    out.push(0x67);
    out.push(0x72);
    out.push(0x70);
    out.push(0x63);
    out.push(0x45);
    out.push(0x6e);
    out.push(0x64);
    out.push(0x70);
    out.push(0x6f);
    out.push(0x69);
    out.push(0x6e);
    out.push(0x74);
    out.push(0x22);
    out.push(0x3a);
    out.push(0x22);
    proof {
        assert(out@ =~= old(out)@ + endpoint_infix());
    }
}

fn push_object_suffix(out: &mut Vec<u8>)
    ensures
        final(out)@ == old(out)@ + object_suffix(),
{
    out.push(0x22);
    out.push(0x7d);
    proof {
        assert(out@ =~= old(out)@ + object_suffix());
    }
}

} // verus!

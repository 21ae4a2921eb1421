use vstd::prelude::*;
use vstd::string::StrSliceExecFns;
use vstd::utf8::encode_utf8;
use crate::runtime::{CallView, FunctionCall, Timestamp};

verus! {

#[verifier::external_type_specification]
#[verifier::external_body]
pub struct ExJsonError(serde_json::Error);

/// A lowercase hexadecimal digit.
pub open spec fn hex_digit(d: u8) -> u8 {
    if d < 10 {
        (48 + d) as u8
    } else {
        (87 + d) as u8
    }
}

/// How a JSON string writes one byte of UTF-8: `"` and `\` escaped with a
/// backslash, the short escapes for backspace, tab, line feed, form feed
/// and carriage return, `\u00XX` for the other control bytes, any other
/// byte as it is.
pub open spec fn escape_byte(b: u8) -> Seq<u8> {
    if b == 0x22 {
        seq![92u8, 34u8]
    } else if b == 0x5c {
        seq![92u8, 92u8]
    } else if b == 0x08 {
        seq![92u8, 98u8]
    } else if b == 0x09 {
        seq![92u8, 116u8]
    } else if b == 0x0a {
        seq![92u8, 110u8]
    } else if b == 0x0c {
        seq![92u8, 102u8]
    } else if b == 0x0d {
        seq![92u8, 114u8]
    } else if b < 0x20 {
        seq![92u8, 117u8, 48u8, 48u8, hex_digit(b / 16), hex_digit(b % 16)]
    } else {
        seq![b]
    }
}

pub open spec fn escape_bytes(b: Seq<u8>) -> Seq<u8>
    decreases b.len(),
{
    if b.len() == 0 {
        Seq::empty()
    } else {
        escape_bytes(b.drop_last()) + escape_byte(b.last())
    }
}

/// The JSON string literal for the text `s`: its UTF-8 bytes, escaped,
/// between double quotes.
pub open spec fn json_string_of(s: Seq<char>) -> Seq<u8> {
    seq![34u8] + escape_bytes(encode_utf8(s)) + seq![34u8]
}

/// Relies on `serde_json::to_vec` applied to a `str`: it writes the string
/// between double quotes, escaping each UTF-8 byte through its `ESCAPE`
/// table, into a `Vec`, which cannot fail.
#[verifier::external_body]
fn json_string(s: &str) -> (r: Result<Vec<u8>, serde_json::Error>)
    ensures
        r is Ok,
        r matches Ok(v) ==> v@ == json_string_of(s@),
{
    serde_json::to_vec(s)
}

/// Decimal digits of `n`, most significant first, in ASCII.
pub open spec fn decimal(n: nat) -> Seq<u8>
    decreases n,
{
    if n < 10 {
        seq![(48 + n) as u8]
    } else {
        decimal(n / 10) + seq![(48 + n % 10) as u8]
    }
}

/// Decimal form of a signed integer, with a leading `-` when negative.
pub open spec fn signed_decimal(v: int) -> Seq<u8> {
    if v < 0 {
        seq![45u8] + decimal((-v) as nat)
    } else {
        decimal(v as nat)
    }
}

/// The bytes of an ASCII text.
pub open spec fn ascii(s: Seq<char>) -> Seq<u8> {
    s.map_values(|c: char| (c as u32) as u8)
}

/// A timestamp as JSON: `{"secs_since_epoch":S,"nanos_since_epoch":N}`.
pub open spec fn time_json(t: Timestamp) -> Seq<u8> {
    ascii("{\"secs_since_epoch\":"@) + decimal(t.secs as nat) + ascii(",\"nanos_since_epoch\":"@) + decimal(
        t.nanos as nat,
    ) + ascii("}"@)
}

/// One line of the trace log for `c`, given the JSON form of its name:
/// `{"index":I,"name":N,"start":T,"end":T}` and a newline.
pub open spec fn record_line(c: CallView, name_json: Seq<u8>) -> Seq<u8> {
    ascii("{\"index\":"@) + signed_decimal(c.index) + ascii(",\"name\":"@) + name_json + ascii(",\"start\":"@)
        + time_json(c.start) + ascii(",\"end\":"@) + time_json(c.end) + ascii("}\n"@)
}

fn push_decimal(out: &mut Vec<u8>, n: u64)
    ensures
        final(out)@ == old(out)@ + decimal(n as nat),
    decreases n,
{
    if n >= 10 {
        push_decimal(out, n / 10);
    }
    out.push((48 + n % 10) as u8);
    proof {
        if n >= 10 {
            assert(decimal(n as nat) == decimal((n / 10) as nat) + seq![(48 + n % 10) as u8]);
        }
        assert(final(out)@ =~= old(out)@ + decimal(n as nat));
    }
}

fn push_signed(out: &mut Vec<u8>, v: i32)
    ensures
        final(out)@ == old(out)@ + signed_decimal(v as int),
{
    if v < 0 {
        out.push(45u8);
        let magnitude: i64 = -(v as i64);
        push_decimal(out, magnitude as u64);
        assert(final(out)@ =~= old(out)@ + signed_decimal(v as int));
    } else {
        push_decimal(out, v as u64);
    }
}

fn push_ascii(out: &mut Vec<u8>, s: &str)
    ensures
        final(out)@ == old(out)@ + ascii(s@),
{
    let n = s.unicode_len();
    let mut i: usize = 0;
    while i < n
        invariant
            n == s@.len(),
            i <= n,
            out@ == old(out)@ + ascii(s@.subrange(0, i as int)),
        decreases n - i,
    {
        let c = s.get_char(i);
        out.push((c as u32) as u8);
        i = i + 1;
        assert(out@ =~= old(out)@ + ascii(s@.subrange(0, i as int)));
    }
    assert(s@.subrange(0, n as int) =~= s@);
}

fn push_bytes(out: &mut Vec<u8>, b: &Vec<u8>)
    ensures
        final(out)@ == old(out)@ + b@,
{
    let mut i: usize = 0;
    while i < b.len()
        invariant
            i <= b.len(),
            out@ == old(out)@ + b@.subrange(0, i as int),
        decreases b.len() - i,
    {
        out.push(b[i]);
        i = i + 1;
        assert(out@ =~= old(out)@ + b@.subrange(0, i as int));
    }
    assert(b@.subrange(0, b.len() as int) =~= b@);
}

fn push_time(out: &mut Vec<u8>, t: Timestamp)
    ensures
        final(out)@ == old(out)@ + time_json(t),
{
    push_ascii(out, "{\"secs_since_epoch\":");
    push_decimal(out, t.secs);
    push_ascii(out, ",\"nanos_since_epoch\":");
    push_decimal(out, t.nanos as u64);
    push_ascii(out, "}");
    assert(final(out)@ =~= old(out)@ + time_json(t));
}

/// The trace line of `c`, given `name_json`, the JSON string that encodes
/// its name.
pub fn encode_record(c: &FunctionCall, name_json: &Vec<u8>) -> (r: Vec<u8>)
    ensures
        r@ == record_line(c@, name_json@),
{
    let mut out: Vec<u8> = Vec::new();
    push_ascii(&mut out, "{\"index\":");
    push_signed(&mut out, c.index);
    push_ascii(&mut out, ",\"name\":");
    push_bytes(&mut out, name_json);
    push_ascii(&mut out, ",\"start\":");
    push_time(&mut out, c.start);
    push_ascii(&mut out, ",\"end\":");
    push_time(&mut out, c.end);
    push_ascii(&mut out, "}\n");
    assert(out@ =~= record_line(c@, name_json@));
    out
}

/// The trace line of `c`: one JSON object and a newline, ready to be
/// appended to the trace log.
pub fn trace_line(c: &FunctionCall) -> (r: Vec<u8>)
    ensures
        r@ == record_line(c@, json_string_of(c.name@)),
{
    match json_string(c.name.as_str()) {
        Ok(name_json) => encode_record(c, &name_json),
        Err(_) => Vec::new(),
    }
}

} // verus!

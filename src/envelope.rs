use vstd::prelude::*;

use crate::codec::{b64_decode, b64_encode, encode_payload};

verus! {

/// The JSON string literal that serde_json writes for a string: quoted, with
/// the characters that JSON requires escaped, as UTF-8 bytes.
pub uninterp spec fn json_quoted(s: Seq<char>) -> Seq<u8>;

/// The byte of each character; exact for ASCII text.
pub open spec fn ascii_bytes(s: Seq<char>) -> Seq<u8> {
    s.map_values(|c: char| c as u8)
}

/// The decimal digits of `n` in ASCII, most significant first, no leading zero.
pub open spec fn decimal_bytes(n: nat) -> Seq<u8>
    decreases n,
{
    if n < 10 {
        seq![(48 + n) as u8]
    } else {
        decimal_bytes(n / 10) + seq![(48 + n % 10) as u8]
    }
}

/// The datagram for an envelope: one compact JSON object whose keys come in
/// sorted order, `data` (the base64 payload), `duration_microseconds` and
/// `port` (the quoted port name).
pub open spec fn wire_text(quoted_port: Seq<u8>, payload: Seq<char>, micros: nat) -> Seq<u8> {
    ascii_bytes("{\"data\":\""@) + ascii_bytes(payload) + ascii_bytes(
        "\",\"duration_microseconds\":"@,
    ) + decimal_bytes(micros) + ascii_bytes(",\"port\":"@) + quoted_port + ascii_bytes("}"@)
}

/// Relies on serde_json::to_vec on a `str`: the JSON string literal for it.
/// Writing a string into a `Vec` has no error to report, so it always
/// succeeds.
#[verifier::external_body]
fn json_string_literal(s: &str) -> (r: Option<Vec<u8>>)
    ensures
        r.is_some(),
        r.is_some() ==> r.unwrap()@ == json_quoted(s@),
{
    serde_json::to_vec(s).ok()
}

fn push_ascii(out: &mut Vec<u8>, s: &str)
    ensures
        final(out)@ == old(out)@ + ascii_bytes(s@),
{
    let n: usize = s.unicode_len();
    let mut i: usize = 0;
    while i < n
        invariant
            n == s@.len(),
            i <= n,
            out@ == old(out)@ + ascii_bytes(s@.take(i as int)),
        decreases n - i,
    {
        let c = s.get_char(i);
        out.push(c as u8);
        i = i + 1;
        assert(ascii_bytes(s@.take(i as int)) =~= ascii_bytes(s@.take(i - 1)) + seq![c as u8]);
    }
    assert(s@.take(n as int) =~= s@);
}

fn push_decimal(out: &mut Vec<u8>, n: u64)
    ensures
        final(out)@ == old(out)@ + decimal_bytes(n as nat),
    decreases n,
{
    if n >= 10 {
        push_decimal(out, n / 10);
    }
    out.push((48 + n % 10) as u8);
    assert(final(out)@ =~= old(out)@ + decimal_bytes(n as nat));
}

fn push_bytes(out: &mut Vec<u8>, b: &[u8])
    ensures
        final(out)@ == old(out)@ + b@,
{
    let mut i: usize = 0;
    while i < b.len()
        invariant
            i <= b.len(),
            out@ == old(out)@ + b@.take(i as int),
        decreases b.len() - i,
    {
        out.push(b[i]);
        i = i + 1;
        assert(b@.take(i as int) =~= b@.take(i - 1) + seq![b@[i - 1]]);
    }
    assert(b@.take(b.len() as int) =~= b@);
}

/// Lays out the datagram from the port's JSON string literal, the base64
/// payload and the elapsed microseconds.
pub fn wire_from_parts(quoted_port: &[u8], payload: &str, micros: u64) -> (r: Vec<u8>)
    ensures
        r@ == wire_text(quoted_port@, payload@, micros as nat),
{
    let mut out: Vec<u8> = Vec::new();
    push_ascii(&mut out, "{\"data\":\"");
    push_ascii(&mut out, payload);
    push_ascii(&mut out, "\",\"duration_microseconds\":");
    push_decimal(&mut out, micros);
    push_ascii(&mut out, ",\"port\":");
    push_bytes(&mut out, quoted_port);
    push_ascii(&mut out, "}");
    assert(out@ =~= wire_text(quoted_port@, payload@, micros as nat));
    out
}

/// An immutable record of one captured response: the port it came from, the
/// response in base64, and the microseconds from the write to the end.
pub struct Envelope {
    port: String,
    payload: String,
    duration_micros: u64,
}

pub ghost struct EnvelopeView {
    pub port: Seq<char>,
    pub payload: Seq<char>,
    pub duration_micros: u64,
}

impl View for Envelope {
    type V = EnvelopeView;

    closed spec fn view(&self) -> EnvelopeView {
        EnvelopeView {
            port: self.port@,
            payload: self.payload@,
            duration_micros: self.duration_micros,
        }
    }
}

impl Envelope {
    /// Packages raw response bytes; the payload is their base64 text, which
    /// decodes to exactly those bytes.
    pub fn build(port: &str, bytes: &[u8], duration_micros: u64) -> (r: Envelope)
        ensures
            r@.port == port@,
            r@.payload == b64_encode(bytes@),
            b64_decode(r@.payload) == bytes@,
            r@.duration_micros == duration_micros,
    {
        let payload = encode_payload(bytes);
        Envelope { port: port.to_owned(), payload, duration_micros }
    }

    pub fn port(&self) -> (r: &str)
        ensures
            r@ == self@.port,
    {
        self.port.as_str()
    }

    pub fn payload(&self) -> (r: &str)
        ensures
            r@ == self@.payload,
    {
        self.payload.as_str()
    }

    pub fn duration_micros(&self) -> (r: u64)
        ensures
            r == self@.duration_micros,
    {
        self.duration_micros
    }

    /// The datagram text, for every envelope.
    pub fn to_wire(&self) -> (r: Vec<u8>)
        ensures
            r@ == wire_text(json_quoted(self@.port), self@.payload, self@.duration_micros as nat),
    {
        match json_string_literal(self.port.as_str()) {
            Some(quoted) => wire_from_parts(
                quoted.as_slice(),
                self.payload.as_str(),
                self.duration_micros,
            ),
            None => Vec::new(),
        }
    }
}

} // verus!

//! The payload codec: standard base64 text for an artifact's bytes, and the
//! decoder that the generated loader carries.
use vstd::prelude::*;

verus! {

/// The padding symbol `=`.
pub const PAD: u8 = 61;

/// The alphabet symbol (as an ASCII byte) that stands for a 6-bit value.
pub open spec fn symbol(v: u8) -> u8 {
    if v < 26 {
        (v + 65) as u8
    } else if v < 52 {
        (v - 26 + 97) as u8
    } else if v < 62 {
        (v - 52 + 48) as u8
    } else if v == 62 {
        43
    } else {
        47
    }
}

/// Whether a byte is one of the 64 alphabet symbols `A-Z a-z 0-9 + /`.
pub open spec fn is_symbol(c: u8) -> bool {
    (65 <= c <= 90) || (97 <= c <= 122) || (48 <= c <= 57) || c == 43 || c == 47
}

/// The lookup table of the decoder: the 6-bit value of an alphabet symbol,
/// and 0 for every other byte.
pub open spec fn value_of(c: u8) -> u8 {
    if 65 <= c <= 90 {
        (c - 65) as u8
    } else if 97 <= c <= 122 {
        (c - 97 + 26) as u8
    } else if 48 <= c <= 57 {
        (c - 48 + 52) as u8
    } else if c == 43 {
        62
    } else if c == 47 {
        63
    } else {
        0
    }
}

/// Length of the text that encodes `n` bytes: four symbols for every
/// started group of three bytes.
pub open spec fn encoded_len(n: nat) -> nat {
    4 * ((n + 2) / 3)
}

/// The byte at `i`, or 0 past the end (the bits that padding fills in).
pub open spec fn byte_or_zero(data: Seq<u8>, i: int) -> u8 {
    if 0 <= i < data.len() {
        data[i]
    } else {
        0
    }
}

/// The `j`-th symbol of the encoding of `data`.
pub open spec fn encoded_symbol(data: Seq<u8>, j: int) -> u8 {
    let g = j / 4;
    let d0 = byte_or_zero(data, 3 * g);
    let d1 = byte_or_zero(data, 3 * g + 1);
    let d2 = byte_or_zero(data, 3 * g + 2);
    if j % 4 == 0 {
        symbol(d0 >> 2)
    } else if j % 4 == 1 {
        symbol(((d0 & 3) << 4) | (d1 >> 4))
    } else if j % 4 == 2 {
        if 3 * g + 1 >= data.len() {
            PAD
        } else {
            symbol(((d1 & 15) << 2) | (d2 >> 6))
        }
    } else {
        if 3 * g + 2 >= data.len() {
            PAD
        } else {
            symbol(d2 & 63)
        }
    }
}

/// Standard base64 of `data`, as ASCII bytes: padded with `=`, unwrapped.
pub open spec fn encoded_bytes(data: Seq<u8>) -> Seq<u8> {
    Seq::new(encoded_len(data.len()), |j: int| encoded_symbol(data, j))
}

/// Standard base64 of `data`, as text.
pub open spec fn payload_text(data: Seq<u8>) -> Seq<char> {
    Seq::new(encoded_len(data.len()), |j: int| encoded_symbol(data, j) as char)
}

/// The `i`-th byte that the decoder produces before trimming: groups of four
/// symbols are looked up and packed into three bytes.
pub open spec fn unpacked_byte(text: Seq<u8>, i: int) -> u8 {
    let g = i / 3;
    let v0 = value_of(text[4 * g]);
    let v1 = value_of(text[4 * g + 1]);
    let v2 = value_of(text[4 * g + 2]);
    let v3 = value_of(text[4 * g + 3]);
    if i % 3 == 0 {
        (v0 << 2) | (v1 >> 4)
    } else if i % 3 == 1 {
        (v1 << 4) | (v2 >> 2)
    } else {
        (v2 << 6) | v3
    }
}

/// Everything the decoder produces before trimming.
pub open spec fn unpacked(text: Seq<u8>) -> Seq<u8> {
    Seq::new((text.len() / 4 * 3) as nat, |i: int| unpacked_byte(text, i))
}

/// How many bytes the trailing padding takes back: 2 after `==`, 1 after a
/// single `=`, else 0.
pub open spec fn trimmed(text: Seq<u8>) -> nat {
    let n = text.len() as int;
    if n >= 2 && text[n - 1] == PAD && text[n - 2] == PAD {
        2
    } else if n >= 1 && text[n - 1] == PAD {
        1
    } else {
        0
    }
}

/// What the decoder returns for `text`, a text whose length is a multiple
/// of four.
pub open spec fn decoded_bytes(text: Seq<u8>) -> Seq<u8> {
    let raw = unpacked(text);
    if raw.len() >= trimmed(text) {
        raw.take(raw.len() - trimmed(text))
    } else {
        raw
    }
}

/// An encoding's length is a multiple of four.
pub proof fn lemma_encoded_len_in_fours(n: nat)
    ensures
        encoded_len(n) % 4 == 0,
{
    let k = (n + 2) / 3;
    vstd::arithmetic::div_mod::lemma_mod_multiples_basic(k as int, 4);
    assert(k * 4 == 4 * k);
}

/// Looking a symbol up gives back the value it stands for.
pub proof fn lemma_value_of_symbol(v: u8)
    requires
        v < 64,
    ensures
        value_of(symbol(v)) == v,
        is_symbol(symbol(v)),
        symbol(v) != PAD,
        symbol(v) < 128,
{
}

proof fn lemma_sextets(d0: u8, d1: u8, d2: u8)
    ensures
        (d0 >> 2) < 64,
        (((d0 & 3) << 4) | (d1 >> 4)) < 64,
        (((d1 & 15) << 2) | (d2 >> 6)) < 64,
        (d2 & 63) < 64,
{
    assert((d0 >> 2) < 64) by (bit_vector);
    assert((((d0 & 3) << 4) | (d1 >> 4)) < 64) by (bit_vector);
    assert((((d1 & 15) << 2) | (d2 >> 6)) < 64) by (bit_vector);
    assert((d2 & 63) < 64) by (bit_vector);
}

proof fn lemma_repack(d0: u8, d1: u8, d2: u8)
    ensures
        (((d0 >> 2) << 2) | ((((d0 & 3) << 4) | (d1 >> 4)) >> 4)) == d0,
        (((((d0 & 3) << 4) | (d1 >> 4)) << 4) | ((((d1 & 15) << 2) | (d2 >> 6)) >> 2)) == d1,
        (((((d1 & 15) << 2) | (d2 >> 6)) << 6) | (d2 & 63)) == d2,
{
    assert((((d0 >> 2) << 2) | ((((d0 & 3) << 4) | (d1 >> 4)) >> 4)) == d0) by (bit_vector);
    assert((((((d0 & 3) << 4) | (d1 >> 4)) << 4) | ((((d1 & 15) << 2) | (d2 >> 6)) >> 2)) == d1)
        by (bit_vector);
    assert((((((d1 & 15) << 2) | (d2 >> 6)) << 6) | (d2 & 63)) == d2) by (bit_vector);
}

/// Every position of an encoding holds an alphabet symbol or the padding
/// symbol, and padding stands only where the data has run out.
pub proof fn lemma_encoded_symbol(data: Seq<u8>, j: int)
    requires
        0 <= j < encoded_len(data.len()),
    ensures
        encoded_symbol(data, j) < 128,
        encoded_symbol(data, j) == PAD <==> (j % 4 == 2 && 3 * (j / 4) + 1 >= data.len()) || (j % 4
            == 3 && 3 * (j / 4) + 2 >= data.len()),
        encoded_symbol(data, j) != PAD ==> is_symbol(encoded_symbol(data, j)),
{
    let g = j / 4;
    let d0 = byte_or_zero(data, 3 * g);
    let d1 = byte_or_zero(data, 3 * g + 1);
    let d2 = byte_or_zero(data, 3 * g + 2);
    lemma_sextets(d0, d1, d2);
    lemma_value_of_symbol(d0 >> 2);
    lemma_value_of_symbol(((d0 & 3) << 4) | (d1 >> 4));
    lemma_value_of_symbol(((d1 & 15) << 2) | (d2 >> 6));
    lemma_value_of_symbol(d2 & 63);
}

/// The text of an encoding is ASCII, and its UTF-8 bytes are the encoding's
/// bytes.
pub proof fn lemma_payload_text_bytes(data: Seq<u8>)
    ensures
        vstd::utf8::is_ascii_chars(payload_text(data)),
        vstd::utf8::encode_utf8(payload_text(data)) == encoded_bytes(data),
        payload_text(data).len() == encoded_len(data.len()),
{
    let text = payload_text(data);
    assert forall|j: int| 0 <= j < text.len() implies '\0' <= #[trigger] text[j] <= '\u{7f}' by {
        lemma_encoded_symbol(data, j);
    }
    vstd::utf8::is_ascii_chars_encode_utf8(text);
    let bytes = vstd::utf8::encode_utf8(text);
    assert forall|j: int| 0 <= j < bytes.len() implies bytes[j] == encoded_bytes(data)[j] by {
        lemma_encoded_symbol(data, j);
        assert(text[j] as u8 == bytes[j]);
    }
    assert(bytes =~= encoded_bytes(data));
}

/// Decoding an encoding gives the bytes back, whatever their number.
pub proof fn lemma_round_trip(data: Seq<u8>)
    ensures
        decoded_bytes(encoded_bytes(data)) == data,
{
    let text = encoded_bytes(data);
    let n = data.len() as int;
    let m = text.len() as int;
    let raw = unpacked(text);
    assert(m == 4 * ((n + 2) / 3));
    assert(raw.len() == 3 * ((n + 2) / 3));
    if n > 0 {
        lemma_encoded_symbol(data, m - 1);
        lemma_encoded_symbol(data, m - 2);
    }
    assert(trimmed(text) == raw.len() - n);
    let out = decoded_bytes(text);
    assert(out.len() == n);
    assert forall|i: int| 0 <= i < n implies out[i] == data[i] by {
        let g = i / 3;
        let d0 = byte_or_zero(data, 3 * g);
        let d1 = byte_or_zero(data, 3 * g + 1);
        let d2 = byte_or_zero(data, 3 * g + 2);
        lemma_sextets(d0, d1, d2);
        lemma_repack(d0, d1, d2);
        lemma_value_of_symbol(d0 >> 2);
        lemma_value_of_symbol(((d0 & 3) << 4) | (d1 >> 4));
        lemma_value_of_symbol(((d1 & 15) << 2) | (d2 >> 6));
        lemma_value_of_symbol(d2 & 63);
        assert(text[4 * g] == encoded_symbol(data, 4 * g));
        assert(text[4 * g + 1] == encoded_symbol(data, 4 * g + 1));
        assert(text[4 * g + 2] == encoded_symbol(data, 4 * g + 2));
        assert(text[4 * g + 3] == encoded_symbol(data, 4 * g + 3));
        assert(out[i] == unpacked_byte(text, i));
    }
    assert(out =~= data);
}

/// Decoding the payload of an artifact gives the artifact back: for the
/// empty artifact, for one, two or three bytes, and for every other length.
pub proof fn lemma_decode_encode(artifact: Seq<u8>)
    ensures
        decoded_bytes(vstd::utf8::encode_utf8(payload_text(artifact))) == artifact,
        payload_text(artifact).len() == 4 * ((artifact.len() + 2) / 3),
{
    lemma_payload_text_bytes(artifact);
    lemma_round_trip(artifact);
}

/// Different artifacts have different payloads.
pub proof fn lemma_payload_is_one_to_one(a: Seq<u8>, b: Seq<u8>)
    requires
        encoded_bytes(a) == encoded_bytes(b),
    ensures
        a == b,
{
    lemma_round_trip(a);
    lemma_round_trip(b);
}

/// The decoder's lookup table: 256 entries, the alphabet's 64 filled in.
pub fn decode_table() -> (table: Vec<u8>)
    ensures
        table@.len() == 256,
        forall|c: u8| value_of(c) == #[trigger] table@[c as int],
{
    let mut table: Vec<u8> = Vec::new();
    let mut c: usize = 0;
    while c < 256
        invariant
            c <= 256,
            table@.len() == c,
            forall|k: u8| (k as int) < c ==> value_of(k) == #[trigger] table@[k as int],
        decreases 256 - c,
    {
        let b: u8 = c as u8;
        let v: u8 = if 65 <= b && b <= 90 {
            b - 65
        } else if 97 <= b && b <= 122 {
            b - 97 + 26
        } else if 48 <= b && b <= 57 {
            b - 48 + 52
        } else if b == 43 {
            62
        } else if b == 47 {
            63
        } else {
            0
        };
        table.push(v);
        c += 1;
    }
    table
}

/// Decodes a payload as the generated loader does: four symbols at a time
/// through the lookup table, three bytes out, then the bytes that trailing
/// padding stands for are dropped.
pub fn decode(payload: &str) -> (bytes: Vec<u8>)
    requires
        vstd::utf8::encode_utf8(payload@).len() % 4 == 0,
    ensures
        bytes@ == decoded_bytes(vstd::utf8::encode_utf8(payload@)),
{
    let text = payload.as_bytes();
    let table = decode_table();
    let n: usize = text.len();
    let mut acc: Vec<u8> = Vec::new();
    let mut g: usize = 0;
    while g < n / 4
        invariant
            n == text@.len(),
            n % 4 == 0,
            g <= n / 4,
            table@.len() == 256,
            forall|c: u8| value_of(c) == #[trigger] table@[c as int],
            acc@.len() == 3 * g,
            forall|i: int| 0 <= i < acc@.len() ==> acc@[i] == unpacked_byte(text@, i),
        decreases n / 4 - g,
    {
        let v0: u8 = table[text[4 * g] as usize];
        let v1: u8 = table[text[4 * g + 1] as usize];
        let v2: u8 = table[text[4 * g + 2] as usize];
        let v3: u8 = table[text[4 * g + 3] as usize];
        acc.push((v0 << 2) | (v1 >> 4));
        acc.push((v1 << 4) | (v2 >> 2));
        acc.push((v2 << 6) | v3);
        g += 1;
    }
    assert(acc@ =~= unpacked(text@));
    if n >= 2 && text[n - 1] == PAD && text[n - 2] == PAD {
        acc.pop();
        acc.pop();
    } else if n >= 1 && text[n - 1] == PAD {
        acc.pop();
    }
    assert(acc@ =~= decoded_bytes(text@));
    acc
}

/// `base64::encode`: the standard alphabet with `=` padding and no line
/// breaks, which is what `payload_text` spells out symbol by symbol.
#[verifier::external_body]
fn base64_encode(bytes: &[u8]) -> (text: String)
    ensures
        text@ == payload_text(bytes@),
{
    base64::encode(bytes)
}

/// Encodes an artifact as its payload. Total: every byte sequence has a
/// payload, its length is four symbols per started group of three bytes,
/// and the decoder maps it back to the same bytes.
pub fn encode(artifact: &[u8]) -> (text: String)
    ensures
        text@ == payload_text(artifact@),
        text@.len() == 4 * ((artifact@.len() + 2) / 3),
        text.is_ascii(),
        vstd::utf8::encode_utf8(text@) == encoded_bytes(artifact@),
        vstd::utf8::encode_utf8(text@).len() % 4 == 0,
        decoded_bytes(vstd::utf8::encode_utf8(text@)) == artifact@,
{
    let text = base64_encode(artifact);
    proof {
        lemma_encoded_len_in_fours(artifact@.len());
        lemma_payload_text_bytes(artifact@);
        lemma_round_trip(artifact@);
    }
    text
}

} // verus!

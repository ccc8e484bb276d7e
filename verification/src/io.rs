//! The primitive fields of the wire format: the remaining-length integer of
//! the fixed header, length-prefixed strings and length-prefixed binary data.
//!
//! Each field has a spec function that says how it is written and one that
//! says how it is read; the executable functions are proved against them and
//! the laws at the end relate the two directions.
use crate::buffer::{
    bytes_advance, bytes_as_slice, bytes_clone, bytes_get_u16, bytes_len, bytes_mut_put_slice,
    bytes_mut_put_u16, bytes_mut_put_u8, bytes_mut_view, bytes_slice, bytes_view, string_from_utf8,
};
use crate::err::{DecodeError, DecodeErrorKind, EncodeError, EncodeErrorKind};
use bytes::{Bytes, BytesMut};
use vstd::prelude::*;
use vstd::slice::slice_to_vec;

verus! {

/// The largest body that a fixed header can announce: 128^4 - 1 bytes.
pub const MAX_ENCODED_PACKET_LEN: usize = 268_435_455;

/// The largest string or binary field: its length prefix has two bytes.
pub const MAX_FIELD_LEN: usize = 65_535;

/// The remaining-length field for `n`: seven bits per byte, low bits first,
/// the high bit of a byte set when another byte follows.
pub open spec fn spec_encode_length(n: nat) -> Seq<u8>
    decreases n,
{
    if n < 128 {
        seq![n as u8]
    } else {
        seq![(n % 128 + 128) as u8] + spec_encode_length(n / 128)
    }
}

/// The number of bytes that the remaining-length field takes for `n`.
pub open spec fn spec_length_size(n: nat) -> nat {
    if n < 128 {
        1
    } else if n < 16_384 {
        2
    } else if n < 2_097_152 {
        3
    } else {
        4
    }
}

/// Reads a remaining-length field that may use at most `budget` more bytes
/// of `b`: the number of bytes it takes and the value, or nothing when the
/// bytes end, or the budget is used up, before a byte without the high bit.
pub open spec fn spec_decode_length_within(b: Seq<u8>, budget: nat) -> Option<(nat, nat)>
    decreases budget,
{
    if budget == 0 || b.len() == 0 {
        None
    } else if b[0] < 128 {
        Some((1, b[0] as nat))
    } else {
        match spec_decode_length_within(b.skip(1), (budget - 1) as nat) {
            Some((used, value)) => Some((used + 1, (b[0] - 128) as nat + 128 * value)),
            None => None,
        }
    }
}

/// Reads the remaining-length field at the front of `b`: one to four bytes.
pub open spec fn spec_decode_length(b: Seq<u8>) -> Option<(nat, nat)> {
    spec_decode_length_within(b, 4)
}

/// A 16-bit number as two bytes, high byte first.
pub open spec fn spec_u16_be(v: u16) -> Seq<u8> {
    seq![(v / 256) as u8, (v % 256) as u8]
}

/// The number that the first two bytes of `b` give, high byte first.
pub open spec fn spec_u16_at_front(b: Seq<u8>) -> u16
    recommends
        b.len() >= 2,
{
    (b[0] as int * 256 + b[1] as int) as u16
}

/// Binary data on the wire: its length in two bytes, then the data.
pub open spec fn spec_encode_binary(data: Seq<u8>) -> Seq<u8>
    recommends
        data.len() <= MAX_FIELD_LEN,
{
    spec_u16_be(data.len() as u16) + data
}

/// Text on the wire: the length of its UTF-8 form in two bytes, then that
/// form.
pub open spec fn spec_encode_string(text: Seq<char>) -> Seq<u8>
    recommends
        vstd::utf8::encode_utf8(text).len() <= MAX_FIELD_LEN,
{
    spec_encode_binary(vstd::utf8::encode_utf8(text))
}

/// Reads a two-byte length prefix: the length and the bytes after the
/// prefix. It fails where two bytes are missing or the length exceeds what
/// follows.
pub open spec fn spec_decode_u16_len(b: Seq<u8>) -> Result<(u16, Seq<u8>), DecodeErrorKind> {
    if b.len() < 2 || b.len() - 2 < spec_u16_at_front(b) {
        Err(DecodeErrorKind::MalformedLength)
    } else {
        Ok((spec_u16_at_front(b), b.skip(2)))
    }
}

/// Reads a binary field: the data and the bytes after the field.
pub open spec fn spec_decode_binary(b: Seq<u8>) -> Result<(Seq<u8>, Seq<u8>), DecodeErrorKind> {
    match spec_decode_u16_len(b) {
        Err(k) => Err(k),
        Ok((len, rest)) => Ok((rest.take(len as int), rest.skip(len as int))),
    }
}

/// Reads a text field: the text and the bytes after the field. The data of
/// the field must be well-formed UTF-8.
pub open spec fn spec_decode_string(b: Seq<u8>) -> Result<(Seq<char>, Seq<u8>), DecodeErrorKind> {
    match spec_decode_binary(b) {
        Err(k) => Err(k),
        Ok((data, rest)) => if vstd::utf8::valid_utf8(data) {
            Ok((vstd::utf8::decode_utf8(data), rest))
        } else {
            Err(DecodeErrorKind::Utf8ParseError)
        },
    }
}

/// Appends the remaining-length field for `len` to `bytes` and returns the
/// number of bytes written. A length above `MAX_ENCODED_PACKET_LEN` is
/// refused with `OversizedPayload` and nothing is written.
pub fn encode_packet_length(bytes: &mut BytesMut, len: usize) -> (r: Result<usize, EncodeError>)
    requires
        bytes_mut_view(*old(bytes)).len() + 4 <= isize::MAX,
    ensures
        match r {
            Ok(n) => len <= MAX_ENCODED_PACKET_LEN && bytes_mut_view(*final(bytes))
                == bytes_mut_view(*old(bytes)) + spec_encode_length(len as nat) && n
                == spec_length_size(len as nat),
            Err(e) => len > MAX_ENCODED_PACKET_LEN && e.spec_kind()
                == EncodeErrorKind::OversizedPayload && *final(bytes) == *old(bytes),
        },
{
    if len > MAX_ENCODED_PACKET_LEN {
        return Err(
            EncodeError::new(
                EncodeErrorKind::OversizedPayload,
                "Packet payload exceeded max length of 128^4 - 1".to_owned(),
            ),
        );
    }
    proof {
        lemma_encode_length_len(len as nat);
    }
    let ghost start: Seq<u8> = bytes_mut_view(*bytes);
    let mut left: usize = len;
    let mut num_bytes: usize = 0;
    loop
        invariant_except_break
            num_bytes < 4,
            bytes_mut_view(*bytes).len() == start.len() + num_bytes,
            spec_encode_length(left as nat).len() + num_bytes == spec_length_size(len as nat),
            bytes_mut_view(*bytes) + spec_encode_length(left as nat) == start
                + spec_encode_length(len as nat),
        invariant
            start.len() + 4 <= isize::MAX,
            left <= MAX_ENCODED_PACKET_LEN,
        ensures
            bytes_mut_view(*bytes) == start + spec_encode_length(len as nat),
            num_bytes == spec_length_size(len as nat),
        decreases left,
    {
        let ghost before: Seq<u8> = bytes_mut_view(*bytes);
        let mut d: u8 = (left % 128) as u8;
        let ghost prev: nat = left as nat;
        left = left / 128;
        if left > 0 {
            d = d + 128;
        }
        bytes_mut_put_u8(bytes, d);
        num_bytes = num_bytes + 1;
        proof {
            lemma_encode_length_len(prev);
            lemma_encode_length_len(left as nat);
            if left > 0 {
                assert(spec_encode_length(prev) == seq![d] + spec_encode_length(left as nat));
                assert(before.push(d) + spec_encode_length(left as nat) =~= before
                    + spec_encode_length(prev));
            } else {
                assert(spec_encode_length(prev) == seq![d]);
                assert(before.push(d) =~= before + spec_encode_length(prev));
            }
        }
        if left == 0 {
            break ;
        }
    }
    Ok(num_bytes)
}

/// Appends `val` to `bytes` as a text field. Text whose UTF-8 form is longer
/// than `MAX_FIELD_LEN` cannot be announced by the length prefix: it is
/// refused with `OversizedPayload` and nothing is written.
pub fn encode_utf8(bytes: &mut BytesMut, val: &str) -> (r: Result<(), EncodeError>)
    requires
        bytes_mut_view(*old(bytes)).len() + 2 + MAX_FIELD_LEN <= isize::MAX,
    ensures
        match r {
            Ok(_) => vstd::utf8::encode_utf8(val@).len() <= MAX_FIELD_LEN && bytes_mut_view(
                *final(bytes),
            ) == bytes_mut_view(*old(bytes)) + spec_encode_string(val@),
            Err(e) => vstd::utf8::encode_utf8(val@).len() > MAX_FIELD_LEN && e.spec_kind()
                == EncodeErrorKind::OversizedPayload && *final(bytes) == *old(bytes),
        },
{
    encode_bytes(bytes, val.as_bytes())
}

/// Appends `val` to `bytes` as a binary field. Data longer than
/// `MAX_FIELD_LEN` is refused with `OversizedPayload` and nothing is written.
pub fn encode_bytes(bytes: &mut BytesMut, val: &[u8]) -> (r: Result<(), EncodeError>)
    requires
        bytes_mut_view(*old(bytes)).len() + 2 + MAX_FIELD_LEN <= isize::MAX,
    ensures
        match r {
            Ok(_) => val@.len() <= MAX_FIELD_LEN && bytes_mut_view(*final(bytes))
                == bytes_mut_view(*old(bytes)) + spec_encode_binary(val@),
            Err(e) => val@.len() > MAX_FIELD_LEN && e.spec_kind()
                == EncodeErrorKind::OversizedPayload && *final(bytes) == *old(bytes),
        },
{
    if val.len() > MAX_FIELD_LEN {
        return Err(
            EncodeError::new(
                EncodeErrorKind::OversizedPayload,
                "Field is longer than its two-byte length prefix can announce".to_owned(),
            ),
        );
    }
    let ghost start: Seq<u8> = bytes_mut_view(*bytes);
    let len: u16 = val.len() as u16;
    bytes_mut_put_u16(bytes, len);
    bytes_mut_put_slice(bytes, val);
    assert(start.push((len / 256) as u8).push((len % 256) as u8) + val@ =~= start
        + spec_encode_binary(val@));
    Ok(())
}

/// Reads the two-byte length prefix of a field and checks that the announced
/// bytes are there. On success the prefix is consumed; on failure the buffer
/// is left as it was.
pub fn decode_u16_len(bytes: &mut Bytes) -> (r: Result<u16, DecodeError>)
    ensures
        match r {
            Ok(len) => spec_decode_u16_len(bytes_view(*old(bytes))) == Ok::<
                (u16, Seq<u8>),
                DecodeErrorKind,
            >((len, bytes_view(*final(bytes)))),
            Err(e) => spec_decode_u16_len(bytes_view(*old(bytes))) == Err::<
                (u16, Seq<u8>),
                DecodeErrorKind,
            >(e.spec_kind()) && *final(bytes) == *old(bytes),
        },
{
    let available: usize = bytes_len(bytes);
    if available < 2 {
        return Err(
            DecodeError::of(
                DecodeErrorKind::MalformedLength,
                "Field is cut off inside its length prefix",
            ),
        );
    }
    let s = bytes_as_slice(bytes);
    let len: u16 = (s[0] as u16) * 256 + (s[1] as u16);
    if available - 2 < len as usize {
        return Err(
            DecodeError::of(
                DecodeErrorKind::MalformedLength,
                "Field announces more bytes than the packet holds",
            ),
        );
    }
    let got: u16 = bytes_get_u16(bytes);
    assert(got == len);
    Ok(len)
}

/// Reads a binary field and consumes it. On failure the buffer is left as it
/// was.
pub fn decode_bytes(bytes: &mut Bytes) -> (r: Result<Bytes, DecodeError>)
    ensures
        match r {
            Ok(data) => spec_decode_binary(bytes_view(*old(bytes))) == Ok::<
                (Seq<u8>, Seq<u8>),
                DecodeErrorKind,
            >((bytes_view(data), bytes_view(*final(bytes)))),
            Err(e) => spec_decode_binary(bytes_view(*old(bytes))) == Err::<
                (Seq<u8>, Seq<u8>),
                DecodeErrorKind,
            >(e.spec_kind()) && *final(bytes) == *old(bytes),
        },
{
    let len: u16 = match decode_u16_len(bytes) {
        Ok(len) => len,
        Err(e) => {
            return Err(e);
        },
    };
    let data = bytes_slice(bytes, 0, len as usize);
    bytes_advance(bytes, len as usize);
    Ok(data)
}

/// Reads a text field and consumes it. The field must hold well-formed
/// UTF-8, else the result is `Utf8ParseError`. On failure the buffer is left
/// as it was.
pub fn decode_utf8(bytes: &mut Bytes) -> (r: Result<String, DecodeError>)
    ensures
        match r {
            Ok(text) => spec_decode_string(bytes_view(*old(bytes))) == Ok::<
                (Seq<char>, Seq<u8>),
                DecodeErrorKind,
            >((text@, bytes_view(*final(bytes)))),
            Err(e) => spec_decode_string(bytes_view(*old(bytes))) == Err::<
                (Seq<char>, Seq<u8>),
                DecodeErrorKind,
            >(e.spec_kind()) && *final(bytes) == *old(bytes),
        },
{
    let mut cursor = bytes_clone(bytes);
    let data = match decode_bytes(&mut cursor) {
        Ok(data) => data,
        Err(e) => {
            return Err(e);
        },
    };
    let raw: Vec<u8> = slice_to_vec(bytes_as_slice(&data));
    match string_from_utf8(raw) {
        Some(text) => {
            *bytes = cursor;
            Ok(text)
        },
        None => Err(
            DecodeError::of(DecodeErrorKind::Utf8ParseError, "Field is not well-formed UTF-8"),
        ),
    }
}

/// The remaining-length field of `n` has as many bytes as `spec_length_size`
/// says, for every `n` that fits: one below 128, two below 128^2, three
/// below 128^3, four up to the maximum.
pub proof fn lemma_encode_length_len(n: nat)
    requires
        n <= MAX_ENCODED_PACKET_LEN,
    ensures
        spec_encode_length(n).len() == spec_length_size(n),
    decreases n,
{
    reveal_with_fuel(spec_encode_length, 5);
}

/// Reading back the remaining-length field of any `n` up to the maximum,
/// whatever follows it, gives `n` and the number of bytes the field took.
pub proof fn lemma_length_round_trip(n: nat, rest: Seq<u8>)
    requires
        n <= MAX_ENCODED_PACKET_LEN,
    ensures
        spec_decode_length(spec_encode_length(n) + rest) == Some((spec_length_size(n), n)),
{
    lemma_length_round_trip_within(n, rest, 4);
}

proof fn lemma_length_round_trip_within(n: nat, rest: Seq<u8>, budget: nat)
    requires
        1 <= budget <= 4,
        budget == 4 ==> n < 268_435_456,
        budget == 3 ==> n < 2_097_152,
        budget == 2 ==> n < 16_384,
        budget == 1 ==> n < 128,
    ensures
        spec_decode_length_within(spec_encode_length(n) + rest, budget) == Some(
            (spec_length_size(n), n),
        ),
    decreases budget,
{
    let field = spec_encode_length(n);
    if n < 128 {
        assert((field + rest)[0] == n as u8);
    } else {
        let tail = spec_encode_length(n / 128);
        assert((field + rest)[0] == (n % 128 + 128) as u8);
        assert((field + rest).skip(1) =~= tail + rest);
        lemma_length_round_trip_within(n / 128, rest, (budget - 1) as nat);
    }
}

/// A remaining-length field that can be read announces at most the maximum
/// and takes between one and four bytes, all of them present.
pub proof fn lemma_decode_length_bounds(b: Seq<u8>)
    ensures
        match spec_decode_length(b) {
            Some((used, value)) => 1 <= used <= 4 && used <= b.len() && value
                <= MAX_ENCODED_PACKET_LEN,
            None => true,
        },
{
    lemma_decode_length_bounds_within(b, 4);
}

/// A remaining-length field read within a budget of bytes takes no more
/// bytes than the budget and than there are, and announces less than 128 to
/// the power of the number of bytes it takes.
pub proof fn lemma_decode_length_bounds_within(b: Seq<u8>, budget: nat)
    requires
        budget <= 4,
    ensures
        match spec_decode_length_within(b, budget) {
            Some((used, value)) => 1 <= used <= budget && used <= b.len() && (used == 1 ==> value
                < 128) && (used == 2 ==> value < 16_384) && (used == 3 ==> value < 2_097_152)
                && (used == 4 ==> value < 268_435_456),
            None => true,
        },
    decreases budget,
{
    if budget == 0 || b.len() == 0 {
    } else if b[0] < 128 {
    } else {
        lemma_decode_length_bounds_within(b.skip(1), (budget - 1) as nat);
    }
}

/// Reading back a binary field of at most `MAX_FIELD_LEN` bytes, whatever
/// follows it, gives the data and what followed.
pub proof fn lemma_binary_round_trip(data: Seq<u8>, rest: Seq<u8>)
    requires
        data.len() <= MAX_FIELD_LEN,
    ensures
        spec_decode_binary(spec_encode_binary(data) + rest) == Ok::<
            (Seq<u8>, Seq<u8>),
            DecodeErrorKind,
        >((data, rest)),
{
    let wire = spec_encode_binary(data) + rest;
    let len = data.len() as u16;
    assert(wire[0] == (len / 256) as u8);
    assert(wire[1] == (len % 256) as u8);
    assert(spec_u16_at_front(wire) == len);
    assert(wire.skip(2) =~= data + rest);
    assert((data + rest).take(len as int) =~= data);
    assert((data + rest).skip(len as int) =~= rest);
}

/// Reading back a text field whose UTF-8 form has at most `MAX_FIELD_LEN`
/// bytes, whatever follows it, gives the text and what followed.
pub proof fn lemma_string_round_trip(text: Seq<char>, rest: Seq<u8>)
    requires
        vstd::utf8::encode_utf8(text).len() <= MAX_FIELD_LEN,
    ensures
        spec_decode_string(spec_encode_string(text) + rest) == Ok::<
            (Seq<char>, Seq<u8>),
            DecodeErrorKind,
        >((text, rest)),
{
    lemma_binary_round_trip(vstd::utf8::encode_utf8(text), rest);
    vstd::utf8::encode_utf8_valid_utf8(text);
    vstd::utf8::encode_utf8_decode_utf8(text);
}

} // verus!

use super::parser::{
    all_digits, decimal_value, decode, decode_items, decode_payload, decode_value,
    first_terminator, integer_token, is_digit, is_marker, length_token, Decoded,
};
use super::primitives::{
    has_terminator, lemma_lengths_fit, terminator_at, RESPv2Type, Value, CR, LF,
};
use super::serializer::{
    absent, decimal, line, wire, wire_all, ARRAY, BULK, ERROR, INTEGER, SIMPLE,
};
use vstd::prelude::*;

verus! {

/// The first terminator at `from` or later is at `end` where `end` holds one
/// and no index between the two does.
pub proof fn lemma_first_terminator(s: Seq<u8>, from: int, end: int)
    requires
        0 <= from <= end,
        terminator_at(s, end),
        forall|j: int| from <= j < end ==> !terminator_at(s, j),
    ensures
        first_terminator(s, from) == end,
    decreases end - from,
{
    if from < end {
        assert(!terminator_at(s, from));
        lemma_first_terminator(s, from + 1, end);
    }
}

/// What `first_terminator` finds is a terminator, and the first one; where it
/// finds none, there is none.
pub proof fn lemma_first_terminator_is_first(s: Seq<u8>, from: int)
    requires
        0 <= from,
    ensures
        first_terminator(s, from) >= 0 ==> from <= first_terminator(s, from) && terminator_at(
            s,
            first_terminator(s, from),
        ),
        first_terminator(s, from) < 0 ==> first_terminator(s, from) == -1,
        forall|j: int|
            from <= j && (j < first_terminator(s, from) || first_terminator(s, from) < 0)
                ==> !terminator_at(s, j),
    decreases s.len() - from,
{
    if from + 1 < s.len() && !(s[from] == CR && s[from + 1] == LF) {
        lemma_first_terminator_is_first(s, from + 1);
    }
}

/// The decimal digits of a number are digits, and write that number.
pub proof fn lemma_decimal_value_of_decimal(n: nat)
    ensures
        decimal(n).len() > 0,
        all_digits(decimal(n)),
        decimal_value(decimal(n)) == n,
    decreases n,
{
    if n < 10 {
        assert(decimal(n).drop_last() =~= Seq::<u8>::empty());
        assert(decimal_value(decimal(n).drop_last()) == 0);
    } else {
        lemma_decimal_value_of_decimal(n / 10);
        assert(decimal(n).drop_last() =~= decimal(n / 10));
    }
}

/// Digits hold no terminator.
pub proof fn lemma_digits_hold_no_terminator(t: Seq<u8>)
    requires
        all_digits(t),
    ensures
        !has_terminator(t),
{
    assert forall|i: int| !terminator_at(t, i) by {
        if 0 <= i && i + 1 < t.len() {
            assert(is_digit(t[i]));
        }
    }
}

/// A line in front of `rest` ends at its own terminator, where its token
/// holds none.
pub proof fn lemma_line_end(marker: u8, token: Seq<u8>, rest: Seq<u8>)
    requires
        !has_terminator(token),
    ensures
        first_terminator(line(marker, token) + rest, 1) == 1 + token.len(),
        (line(marker, token) + rest).subrange(1, 1 + token.len() as int) == token,
        (line(marker, token) + rest).skip(3 + token.len() as int) == rest,
        (line(marker, token) + rest)[0] == marker,
        line(marker, token).len() == 3 + token.len(),
{
    let s = line(marker, token) + rest;
    let end = 1 + token.len() as int;
    assert(s.subrange(1, end) =~= token);
    assert(s.skip(end + 2) =~= rest);
    assert(terminator_at(s, end));
    assert forall|j: int| 1 <= j < end implies !terminator_at(s, j) by {
        if terminator_at(s, j) {
            if j + 1 < end {
                assert(terminator_at(token, j - 1));
            } else {
                assert(s[j + 1] == CR);
            }
        }
    }
    lemma_first_terminator(s, 1, end);
}

/// The header of a value of `length` bytes or items declares that length.
pub proof fn lemma_header_length(length: nat)
    requires
        length <= u64::MAX,
    ensures
        length_token(decimal(length)) == Some(length as int),
        integer_token(decimal(length)) == Some(length as u64),
        !has_terminator(decimal(length)),
{
    lemma_decimal_value_of_decimal(length);
    lemma_digits_hold_no_terminator(decimal(length));
    let t = decimal(length);
    assert(is_digit(t[0]));
    assert(!(t =~= absent())) by {
        if t =~= absent() {
            assert(t[0] == absent()[0]);
        }
    }
}

/// The header of an absent value declares the length -1.
pub proof fn lemma_header_absent()
    ensures
        length_token(absent()) == Some(-1int),
        !has_terminator(absent()),
{
    assert forall|i: int| !terminator_at(absent(), i) by {}
}

/// Decoding takes a value that was encoded back from the front of a buffer,
/// whatever follows it, and takes exactly the bytes of its encoding.
pub proof fn lemma_decode_wire(value: Value, rest: Seq<u8>)
    requires
        value.well_formed(),
    ensures
        decode_value(wire(value) + rest) == Decoded::Parsed(value, wire(value).len()),
    decreases value,
{
    match value {
        Value::Simple(text) => {
            lemma_line_end(SIMPLE, text, rest);
        },
        Value::Error(text) => {
            lemma_line_end(ERROR, text, rest);
        },
        Value::Integer(n) => {
            lemma_header_length(n as nat);
            lemma_line_end(INTEGER, decimal(n as nat), rest);
        },
        Value::Null => {
            lemma_header_absent();
            lemma_line_end(BULK, absent(), rest);
        },
        Value::NullArray => {
            lemma_header_absent();
            lemma_line_end(ARRAY, absent(), rest);
        },
        Value::Bulk(bytes) => {
            let header = decimal(bytes.len());
            let body = bytes + seq![CR, LF] + rest;
            lemma_header_length(bytes.len());
            lemma_line_end(BULK, header, body);
            assert(wire(value) + rest =~= line(BULK, header) + body);
            assert(body.take(bytes.len() as int) =~= bytes);
            assert(body[bytes.len() as int] == CR);
            assert(body[bytes.len() as int + 1] == LF);
            assert(decode_payload(body, bytes.len()) == Decoded::Parsed(
                value,
                bytes.len() + 2,
            ));
        },
        Value::Array(items) => {
            let header = decimal(items.len());
            let body = wire_all(items) + rest;
            lemma_header_length(items.len());
            lemma_line_end(ARRAY, header, body);
            assert(wire(value) + rest =~= line(ARRAY, header) + body);
            lemma_decode_wire_all(items, rest);
        },
    }
}

/// Decoding takes a list of values that were encoded one after the other
/// back from the front of a buffer, whatever follows them.
pub proof fn lemma_decode_wire_all(items: Seq<Value>, rest: Seq<u8>)
    requires
        forall|i: int| 0 <= i < items.len() ==> (#[trigger] items[i]).well_formed(),
    ensures
        decode_items(wire_all(items) + rest, items.len()) == Decoded::Parsed(
            items,
            wire_all(items).len(),
        ),
    decreases items,
{
    if items.len() == 0 {
        assert(items =~= Seq::<Value>::empty());
    } else {
        let first = items[0];
        let others = items.skip(1);
        let s = wire_all(items) + rest;
        let tail = wire_all(others) + rest;
        assert(s =~= wire(first) + tail);
        lemma_decode_wire(first, tail);
        lemma_wire_is_not_empty(first);
        assert forall|i: int| 0 <= i < others.len() implies (
        #[trigger] others[i]).well_formed() by {
            assert(others[i] == items[i + 1]);
        }
        lemma_decode_wire_all(others, rest);
        assert(s.skip(wire(first).len() as int) =~= tail);
        assert(seq![first] + others =~= items);
    }
}

/// The encoding of a value has at least the three bytes of a marker and a
/// terminator.
pub proof fn lemma_wire_is_not_empty(value: Value)
    ensures
        wire(value).len() >= 3,
{
}

/// Round trip: decoding the encoding of a value gives the value back, and
/// takes every byte of the encoding. It holds of every value in memory whose
/// text fields hold no terminator.
pub proof fn round_trip(value: &RESPv2Type)
    requires
        value@.text_is_clean(),
    ensures
        decode(wire(value@)) == Decoded::Parsed(value@, wire(value@).len()),
{
    lemma_lengths_fit(value);
    lemma_decode_wire(value@, Seq::empty());
    lemma_wire_is_not_empty(value@);
    assert(wire(value@) + Seq::<u8>::empty() =~= wire(value@));
}

/// Binary safety: a bulk string comes back from its encoding byte for byte,
/// whatever its payload holds, a terminator or a zero byte too.
pub proof fn binary_safety(payload: &Vec<u8>)
    ensures
        decode(wire(Value::Bulk(payload@))) == Decoded::Parsed(
            Value::Bulk(payload@),
            wire(Value::Bulk(payload@)).len(),
        ),
{
    let value = Value::Bulk(payload@);
    assert(payload@.len() == payload.len());
    lemma_decode_wire(value, Seq::empty());
    lemma_wire_is_not_empty(value);
    assert(wire(value) + Seq::<u8>::empty() =~= wire(value));
}

/// Pipelining: a value that was encoded comes back from the front of a
/// buffer whatever follows it there.
pub proof fn round_trip_in_front(value: &RESPv2Type, rest: Seq<u8>)
    requires
        value@.text_is_clean(),
    ensures
        decode(wire(value@) + rest) == Decoded::Parsed(value@, wire(value@).len()),
{
    lemma_lengths_fit(value);
    lemma_decode_wire(value@, rest);
    lemma_wire_is_not_empty(value@);
}

/// What decoding gives is a value that the wire format can carry, taken
/// from no more than the bytes that are there, and from at least the three of
/// a marker and a terminator.
pub proof fn lemma_decoded_value(s: Seq<u8>)
    ensures
        decode_value(s) matches Decoded::Parsed(value, consumed) ==> 3 <= consumed <= s.len()
            && value.well_formed(),
    decreases s.len(), 0nat,
{
    if s.len() > 0 && is_marker(s[0]) {
        let end = first_terminator(s, 1);
        if 1 <= end && end + 2 <= s.len() {
            let token = s.subrange(1, end);
            let next = end + 2;
            lemma_first_terminator_is_first(s, 1);
            assert forall|j: int| !terminator_at(token, j) by {
                if terminator_at(token, j) {
                    assert(terminator_at(s, j + 1));
                }
            }
            if s[0] == BULK || s[0] == ARRAY {
                match length_token(token) {
                    Some(length) => {
                        if length >= 0 && s[0] == ARRAY {
                            lemma_decoded_items(s.skip(next), length as nat);
                        }
                    },
                    None => {},
                }
            }
        }
    }
}

/// What decoding a list gives is as many values as were asked for, each one
/// that the wire format can carry, taken from no more than the bytes that
/// are there.
pub proof fn lemma_decoded_items(s: Seq<u8>, count: nat)
    ensures
        decode_items(s, count) matches Decoded::Parsed(items, consumed) ==> consumed <= s.len()
            && items.len() == count && forall|i: int|
            0 <= i < items.len() ==> (#[trigger] items[i]).well_formed(),
    decreases s.len(), 1 + count,
{
    if count > 0 {
        lemma_decoded_value(s);
        match decode_value(s) {
            Decoded::Parsed(first, consumed) => {
                lemma_decoded_items(s.skip(consumed as int), (count - 1) as nat);
            },
            _ => {},
        }
    }
}

/// A terminator that was found stays the first one when bytes follow.
pub proof fn lemma_first_terminator_stands(s: Seq<u8>, more: Seq<u8>, from: int)
    requires
        0 <= from,
        first_terminator(s, from) >= 0,
    ensures
        first_terminator(s + more, from) == first_terminator(s, from),
    decreases s.len() - from,
{
    if from + 1 < s.len() {
        assert((s + more)[from] == s[from]);
        assert((s + more)[from + 1] == s[from + 1]);
        if !(s[from] == CR && s[from + 1] == LF) {
            lemma_first_terminator_stands(s, more, from + 1);
        }
    }
}

/// A verdict on the value at the front of a buffer, be it a value or an
/// error, stands when bytes follow: only an incomplete buffer can come to
/// another verdict by more bytes.
pub proof fn lemma_verdict_stands(s: Seq<u8>, more: Seq<u8>)
    ensures
        !(decode_value(s) is Incomplete) ==> decode_value(s + more) == decode_value(s),
    decreases s.len(), 0nat,
{
    let longer = s + more;
    if s.len() > 0 && !(decode_value(s) is Incomplete) {
        assert(longer[0] == s[0]);
        if is_marker(s[0]) {
            let end = first_terminator(s, 1);
            let next = end + 2;
            lemma_first_terminator_stands(s, more, 1);
            assert(longer.subrange(1, end) =~= s.subrange(1, end));
            assert(longer.skip(next) =~= s.skip(next) + more);
            if s[0] == BULK || s[0] == ARRAY {
                match length_token(s.subrange(1, end)) {
                    Some(length) => {
                        if length >= 0 && s[0] == BULK {
                            let payload = s.skip(next);
                            if payload.len() > length {
                                assert((payload + more)[length] == payload[length]);
                            }
                            if payload.len() > length + 1 {
                                assert((payload + more)[length + 1] == payload[length + 1]);
                                assert((payload + more).take(length) =~= payload.take(length));
                            }
                        } else if length >= 0 {
                            lemma_items_verdict_stands(s.skip(next), more, length as nat);
                        }
                    },
                    None => {},
                }
            }
        }
    }
}

/// A verdict on the items at the front of a buffer stands when bytes follow.
pub proof fn lemma_items_verdict_stands(s: Seq<u8>, more: Seq<u8>, count: nat)
    ensures
        !(decode_items(s, count) is Incomplete) ==> decode_items(s + more, count) == decode_items(
            s,
            count,
        ),
    decreases s.len(), 1 + count,
{
    if count > 0 && !(decode_items(s, count) is Incomplete) {
        lemma_verdict_stands(s, more);
        match decode_value(s) {
            Decoded::Parsed(first, consumed) => {
                lemma_items_verdict_stands(s.skip(consumed as int), more, (count - 1) as nat);
                assert((s + more).skip(consumed as int) =~= s.skip(consumed as int) + more);
            },
            _ => {},
        }
    }
}

/// More bytes leave an outcome as it is: where a buffer that holds bytes
/// decodes to a value or to an error, it decodes to the same with any bytes
/// behind it.
pub proof fn verdict_stands(buffer: Seq<u8>, more: Seq<u8>)
    requires
        buffer.len() > 0,
        !(decode(buffer) is Incomplete),
    ensures
        decode(buffer + more) == decode(buffer),
{
    lemma_verdict_stands(buffer, more);
}

} // verus!

use super::primitives::{models, RESPv2Type, Value, CR, LF};
use vstd::prelude::*;
use vstd::utf8::encode_utf8;

verus! {

/// Type marker of a simple string: `+`.
pub const SIMPLE: u8 = 43;

/// Type marker of an error: `-`.
pub const ERROR: u8 = 45;

/// Type marker of an integer: `:`.
pub const INTEGER: u8 = 58;

/// Type marker of a bulk string: `$`.
pub const BULK: u8 = 36;

/// Type marker of an array: `*`.
pub const ARRAY: u8 = 42;

/// The digit `0`.
pub const ZERO: u8 = 48;

/// The digit `1`.
pub const ONE: u8 = 49;

/// The sign `-`.
pub const MINUS: u8 = 45;

/// The sign `+`.
pub const PLUS: u8 = 43;

/// The decimal digits of `n`, most significant first, without leading zeros.
pub open spec fn decimal(n: nat) -> Seq<u8>
    decreases n,
{
    if n < 10 {
        seq![(ZERO + n) as u8]
    } else {
        decimal(n / 10).push((ZERO + n % 10) as u8)
    }
}

/// The length token of an absent bulk string or array: `-1`.
pub open spec fn absent() -> Seq<u8> {
    seq![MINUS, ONE]
}

/// A marker, a token and the terminator.
pub open spec fn line(marker: u8, token: Seq<u8>) -> Seq<u8> {
    seq![marker] + token + seq![CR, LF]
}

/// The bytes that carry `value` on the wire.
pub open spec fn wire(value: Value) -> Seq<u8>
    decreases value,
{
    match value {
        Value::Simple(text) => line(SIMPLE, text),
        Value::Error(text) => line(ERROR, text),
        Value::Integer(n) => line(INTEGER, decimal(n as nat)),
        Value::Bulk(bytes) => line(BULK, decimal(bytes.len())) + bytes + seq![CR, LF],
        Value::Null => line(BULK, absent()),
        Value::Array(items) => line(ARRAY, decimal(items.len())) + wire_all(items),
        Value::NullArray => line(ARRAY, absent()),
    }
}

/// The encodings of `items`, one after the other.
pub open spec fn wire_all(items: Seq<Value>) -> Seq<u8>
    decreases items,
{
    if items.len() == 0 {
        Seq::empty()
    } else {
        wire(items[0]) + wire_all(items.skip(1))
    }
}

/// Encoding a list with one more item at its end appends that item's
/// encoding.
pub proof fn lemma_wire_all_push(items: Seq<Value>, last: Value)
    ensures
        wire_all(items.push(last)) == wire_all(items) + wire(last),
    decreases items.len(),
{
    let longer = items.push(last);
    if items.len() == 0 {
        assert(longer.skip(1) =~= Seq::<Value>::empty());
        assert(wire_all(longer.skip(1)) =~= Seq::<u8>::empty());
        assert(wire_all(longer) =~= wire(last));
        assert(wire_all(items) + wire(last) =~= wire(last));
    } else {
        lemma_wire_all_push(items.skip(1), last);
        assert(longer.skip(1) =~= items.skip(1).push(last));
        assert(longer[0] == items[0]);
        assert(wire_all(longer) =~= wire_all(items) + wire(last));
    }
}

/// Appends the decimal digits of `n` to `out`.
pub fn write_decimal(n: u64, out: &mut Vec<u8>)
    ensures
        final(out)@ == old(out)@ + decimal(n as nat),
    decreases n,
{
    if n < 10 {
        out.push(ZERO + n as u8);
        assert(out@ =~= old(out)@ + decimal(n as nat));
    } else {
        write_decimal(n / 10, out);
        out.push(ZERO + (n % 10) as u8);
        assert(out@ =~= old(out)@ + decimal(n as nat));
    }
}

/// Appends `bytes` to `out`.
pub fn write_bytes(bytes: &[u8], out: &mut Vec<u8>)
    ensures
        final(out)@ == old(out)@ + bytes@,
{
    out.extend_from_slice(bytes);
    assert(out@ =~= old(out)@ + bytes@);
}

/// Appends the line made of `marker`, `token` and the terminator to `out`.
pub fn write_line(marker: u8, token: &[u8], out: &mut Vec<u8>)
    ensures
        final(out)@ == old(out)@ + line(marker, token@),
{
    out.push(marker);
    write_bytes(token, out);
    out.push(CR);
    out.push(LF);
    assert(out@ =~= old(out)@ + line(marker, token@));
}

/// Appends the header line made of `marker`, the decimal `count` and the
/// terminator to `out`.
pub fn write_header(marker: u8, count: usize, out: &mut Vec<u8>)
    ensures
        final(out)@ == old(out)@ + line(marker, decimal(count as nat)),
{
    out.push(marker);
    write_decimal(count as u64, out);
    out.push(CR);
    out.push(LF);
    assert(out@ =~= old(out)@ + line(marker, decimal(count as nat)));
}

/// Appends the encoding of the bulk string `bytes` to `out`.
pub fn write_bulk(bytes: &[u8], out: &mut Vec<u8>)
    ensures
        final(out)@ == old(out)@ + wire(Value::Bulk(bytes@)),
{
    write_header(BULK, bytes.len(), out);
    write_bytes(bytes, out);
    out.push(CR);
    out.push(LF);
    assert(out@ =~= old(out)@ + wire(Value::Bulk(bytes@)));
}

/// Appends the encoding of the array of `items` to `out`.
pub fn write_array(items: &Vec<Box<RESPv2Type>>, out: &mut Vec<u8>)
    ensures
        final(out)@ == old(out)@ + wire(Value::Array(models(items@))),
    decreases items,
{
    write_header(ARRAY, items.len(), out);
    let ghost header = out@;
    let mut i: usize = 0;
    while i < items.len()
        invariant
            i <= items.len(),
            out@ == header + wire_all(models(items@).take(i as int)),
        decreases items.len() - i,
    {
        write_value(&items[i], out);
        proof {
            let done = models(items@).take(i as int);
            lemma_wire_all_push(done, items[i as int]@);
            assert(models(items@).take(i + 1) =~= done.push(items[i as int]@));
            assert(out@ =~= header + wire_all(models(items@).take(i + 1)));
        }
        i += 1;
    }
    assert(models(items@).take(i as int) =~= models(items@));
    assert(out@ =~= old(out)@ + wire(Value::Array(models(items@))));
}

/// Appends the encoding of `value` to `out`.
pub fn write_value(value: &RESPv2Type, out: &mut Vec<u8>)
    ensures
        final(out)@ == old(out)@ + wire(value@),
    decreases value,
{
    match value {
        RESPv2Type::Number(n) => {
            out.push(INTEGER);
            write_decimal(*n, out);
            out.push(CR);
            out.push(LF);
            assert(out@ =~= old(out)@ + wire(value@));
        },
        RESPv2Type::String(text) => write_line(SIMPLE, text.as_slice(), out),
        RESPv2Type::Error(text) => write_line(ERROR, text.as_slice(), out),
        RESPv2Type::Null => {
            out.push(BULK);
            out.push(MINUS);
            out.push(ONE);
            out.push(CR);
            out.push(LF);
            assert(out@ =~= old(out)@ + wire(value@));
        },
        RESPv2Type::NullArray => {
            out.push(ARRAY);
            out.push(MINUS);
            out.push(ONE);
            out.push(CR);
            out.push(LF);
            assert(out@ =~= old(out)@ + wire(value@));
        },
        RESPv2Type::Bulk(bytes) => write_bulk(bytes.as_slice(), out),
        RESPv2Type::Array(items) => {
            write_array(items, out);
            assert(models(items@) =~= value@->Array_0);
        },
    }
}

/// Values that have an encoding of their own on the wire.
pub trait Serialize {
    /// The bytes that stand for `self`.
    spec fn serialized(&self) -> Seq<u8>;

    fn serialize_to_respv2(&self) -> (out: Vec<u8>)
        ensures
            out@ == self.serialized(),
    ;
}

/// An integer is written as the integer kind.
impl Serialize for u64 {
    open spec fn serialized(&self) -> Seq<u8> {
        wire(Value::Integer(*self))
    }

    fn serialize_to_respv2(&self) -> (out: Vec<u8>) {
        let mut out = Vec::new();
        write_value(&RESPv2Type::Number(*self), &mut out);
        assert(out@ =~= self.serialized());
        out
    }
}

/// Text is written as a simple string over its UTF-8 bytes.
impl Serialize for &str {
    open spec fn serialized(&self) -> Seq<u8> {
        wire(Value::Simple(encode_utf8(self@)))
    }

    fn serialize_to_respv2(&self) -> (out: Vec<u8>) {
        let mut out = Vec::new();
        write_line(SIMPLE, self.as_bytes(), &mut out);
        assert(out@ =~= self.serialized());
        out
    }
}

/// Text is written as a simple string over its UTF-8 bytes.
impl Serialize for String {
    open spec fn serialized(&self) -> Seq<u8> {
        wire(Value::Simple(encode_utf8(self@)))
    }

    fn serialize_to_respv2(&self) -> (out: Vec<u8>) {
        let mut out = Vec::new();
        write_line(SIMPLE, self.as_str().as_bytes(), &mut out);
        assert(out@ =~= self.serialized());
        out
    }
}

/// A list of values is written as an array.
impl Serialize for Vec<Box<RESPv2Type>> {
    open spec fn serialized(&self) -> Seq<u8> {
        wire(Value::Array(models(self@)))
    }

    fn serialize_to_respv2(&self) -> (out: Vec<u8>) {
        let mut out = Vec::new();
        write_array(self, &mut out);
        assert(out@ =~= self.serialized());
        out
    }
}

impl Serialize for RESPv2Type {
    open spec fn serialized(&self) -> Seq<u8> {
        wire(self@)
    }

    fn serialize_to_respv2(&self) -> (out: Vec<u8>) {
        let mut out = Vec::new();
        write_value(self, &mut out);
        assert(out@ =~= self.serialized());
        out
    }
}

/// Text that can be sent as an error.
pub trait SerializeError {
    /// The bytes of the error that carries `self`.
    spec fn serialized_error(&self) -> Seq<u8>;

    fn serialize_error_to_respv2(&self) -> (out: Vec<u8>)
        ensures
            out@ == self.serialized_error(),
    ;
}

impl SerializeError for &str {
    open spec fn serialized_error(&self) -> Seq<u8> {
        wire(Value::Error(encode_utf8(self@)))
    }

    fn serialize_error_to_respv2(&self) -> (out: Vec<u8>) {
        let mut out = Vec::new();
        write_line(ERROR, self.as_bytes(), &mut out);
        assert(out@ =~= self.serialized_error());
        out
    }
}

impl SerializeError for String {
    open spec fn serialized_error(&self) -> Seq<u8> {
        wire(Value::Error(encode_utf8(self@)))
    }

    fn serialize_error_to_respv2(&self) -> (out: Vec<u8>) {
        let mut out = Vec::new();
        write_line(ERROR, self.as_str().as_bytes(), &mut out);
        assert(out@ =~= self.serialized_error());
        out
    }
}

/// Data that can be sent as a bulk string.
pub trait SerializeBulk {
    /// The bytes of the bulk string that carries `self`.
    spec fn serialized_bulk(&self) -> Seq<u8>;

    fn serialize_bulk_to_respv2(&self) -> (out: Vec<u8>)
        ensures
            out@ == self.serialized_bulk(),
    ;
}

impl SerializeBulk for &str {
    open spec fn serialized_bulk(&self) -> Seq<u8> {
        wire(Value::Bulk(encode_utf8(self@)))
    }

    fn serialize_bulk_to_respv2(&self) -> (out: Vec<u8>) {
        let mut out = Vec::new();
        write_bulk(self.as_bytes(), &mut out);
        out
    }
}

impl SerializeBulk for String {
    open spec fn serialized_bulk(&self) -> Seq<u8> {
        wire(Value::Bulk(encode_utf8(self@)))
    }

    fn serialize_bulk_to_respv2(&self) -> (out: Vec<u8>) {
        let mut out = Vec::new();
        write_bulk(self.as_str().as_bytes(), &mut out);
        out
    }
}

/// Raw bytes are sent as they are, whatever they hold.
impl SerializeBulk for Vec<u8> {
    open spec fn serialized_bulk(&self) -> Seq<u8> {
        wire(Value::Bulk(self@))
    }

    fn serialize_bulk_to_respv2(&self) -> (out: Vec<u8>) {
        let mut out = Vec::new();
        write_bulk(self.as_slice(), &mut out);
        out
    }
}

/// An integer is sent as the bulk string of its decimal digits.
impl SerializeBulk for u64 {
    open spec fn serialized_bulk(&self) -> Seq<u8> {
        wire(Value::Bulk(decimal(*self as nat)))
    }

    fn serialize_bulk_to_respv2(&self) -> (out: Vec<u8>) {
        let mut digits = Vec::new();
        write_decimal(*self, &mut digits);
        let mut out = Vec::new();
        write_bulk(digits.as_slice(), &mut out);
        assert(digits@ =~= decimal(*self as nat));
        out
    }
}

} // verus!

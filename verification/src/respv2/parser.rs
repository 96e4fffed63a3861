use super::primitives::{models, Fault, RESPv2Error, RESPv2Type, Value, CR, LF};
use super::serializer::{absent, ARRAY, BULK, ERROR, INTEGER, MINUS, ONE, PLUS, SIMPLE, ZERO};
use vstd::prelude::*;
use vstd::slice::slice_to_vec;
use vstd::utf8::encode_utf8;

verus! {

/// The digit `9`.
pub const NINE: u8 = 57;

/// Mathematical model of what decoding a buffer gives: a result and the
/// number of bytes it took, the verdict that more bytes are needed before
/// anything can be said, or the reason why the bytes are wrong.
pub enum Decoded<T> {
    Parsed(T, nat),
    Incomplete,
    Error(Fault),
}

/// What [`RESPv2Parser::parse`] returns.
#[derive(Debug, PartialEq, Eq)]
pub enum ParseOutcome {
    /// A value, and the number of bytes at the front of the buffer that
    /// carried it.
    Parsed(RESPv2Type, usize),
    /// The buffer ends before the value does: read more and try again.
    Incomplete,
    /// The bytes at the front of the buffer are wrong.
    Error(RESPv2Error),
}

impl View for ParseOutcome {
    type V = Decoded<Value>;

    open spec fn view(&self) -> Decoded<Value> {
        match self {
            ParseOutcome::Parsed(value, consumed) => Decoded::Parsed(value@, *consumed as nat),
            ParseOutcome::Incomplete => Decoded::Incomplete,
            ParseOutcome::Error(error) => Decoded::Error(error@),
        }
    }
}

/// The index of the first terminator of `s` that starts at `from` or later,
/// or -1 where there is none.
pub open spec fn first_terminator(s: Seq<u8>, from: int) -> int
    decreases s.len() - from,
{
    if from < 0 || from + 1 >= s.len() {
        -1
    } else if s[from] == CR && s[from + 1] == LF {
        from
    } else {
        first_terminator(s, from + 1)
    }
}

/// `b` is one of the five type markers.
pub open spec fn is_marker(b: u8) -> bool {
    b == SIMPLE || b == ERROR || b == INTEGER || b == BULK || b == ARRAY
}

/// `b` is a decimal digit.
pub open spec fn is_digit(b: u8) -> bool {
    ZERO <= b <= NINE
}

/// Every byte of `t` is a decimal digit.
pub open spec fn all_digits(t: Seq<u8>) -> bool {
    forall|i: int| 0 <= i < t.len() ==> is_digit(#[trigger] t[i])
}

/// The number that the digits `t` write in base ten.
pub open spec fn decimal_value(t: Seq<u8>) -> nat
    decreases t.len(),
{
    if t.len() == 0 {
        0
    } else {
        decimal_value(t.drop_last()) * 10 + (t.last() - ZERO) as nat
    }
}

/// The count that `t` writes: at least one digit, nothing but digits, and a
/// value that fits 64 bits.
pub open spec fn count_token(t: Seq<u8>) -> Option<u64> {
    if t.len() > 0 && all_digits(t) && decimal_value(t) <= u64::MAX {
        Some(decimal_value(t) as u64)
    } else {
        None
    }
}

/// The integer that `t` writes: a count, which a `+` may precede.
pub open spec fn integer_token(t: Seq<u8>) -> Option<u64> {
    if t.len() > 0 && t[0] == PLUS {
        count_token(t.skip(1))
    } else {
        count_token(t)
    }
}

/// The declared length that `t` writes: -1 for an absent value, or a count.
pub open spec fn length_token(t: Seq<u8>) -> Option<int> {
    if t =~= absent() {
        Some(-1)
    } else {
        match count_token(t) {
            Some(n) => Some(n as int),
            None => None,
        }
    }
}

/// The payload of a bulk string of declared length `length`, at the front of
/// `s`, and the terminator behind it. The verdict falls as early as the bytes
/// allow: a wrong byte in the terminator's place is an error even where the
/// buffer ends right behind it.
pub open spec fn decode_payload(s: Seq<u8>, length: nat) -> Decoded<Value> {
    let end = length as int;
    if s.len() <= end {
        Decoded::Incomplete
    } else if s[end] != CR {
        Decoded::Error(Fault::InvalidData(seq![s[end]]))
    } else if s.len() <= end + 1 {
        Decoded::Incomplete
    } else if s[end + 1] != LF {
        Decoded::Error(Fault::InvalidData(seq![CR, s[end + 1]]))
    } else {
        Decoded::Parsed(Value::Bulk(s.take(end)), length + 2)
    }
}

/// `d`, behind `used` bytes that gave the values `done`.
pub open spec fn behind(done: Seq<Value>, used: nat, d: Decoded<Seq<Value>>) -> Decoded<
    Seq<Value>,
> {
    match d {
        Decoded::Parsed(items, consumed) => Decoded::Parsed(done + items, used + consumed),
        Decoded::Incomplete => Decoded::Incomplete,
        Decoded::Error(fault) => Decoded::Error(fault),
    }
}

/// `d` as the items of an array whose header took `used` bytes.
pub open spec fn as_array(used: nat, d: Decoded<Seq<Value>>) -> Decoded<Value> {
    match d {
        Decoded::Parsed(items, consumed) => Decoded::Parsed(Value::Array(items), used + consumed),
        Decoded::Incomplete => Decoded::Incomplete,
        Decoded::Error(fault) => Decoded::Error(fault),
    }
}

/// The value at the front of `s`, where `s` is the rest of a buffer: a buffer
/// that ends before the value does, even at once, is incomplete.
pub open spec fn decode_value(s: Seq<u8>) -> Decoded<Value>
    decreases s.len(), 0nat,
{
    if s.len() == 0 {
        Decoded::Incomplete
    } else if !is_marker(s[0]) {
        Decoded::Error(Fault::InvalidCommand(seq![s[0]]))
    } else {
        let end = first_terminator(s, 1);
        if end < 1 || s.len() < end + 2 {
            Decoded::Incomplete
        } else {
            let token = s.subrange(1, end);
            let next = (end + 2) as nat;
            if s[0] == SIMPLE {
                Decoded::Parsed(Value::Simple(token), next)
            } else if s[0] == ERROR {
                Decoded::Parsed(Value::Error(token), next)
            } else if s[0] == INTEGER {
                match integer_token(token) {
                    Some(n) => Decoded::Parsed(Value::Integer(n), next),
                    None => Decoded::Error(Fault::InvalidType(token)),
                }
            } else {
                match length_token(token) {
                    None => Decoded::Error(Fault::InvalidLength(token)),
                    Some(length) => if length < 0 {
                        if s[0] == BULK {
                            Decoded::Parsed(Value::Null, next)
                        } else {
                            Decoded::Parsed(Value::NullArray, next)
                        }
                    } else if s[0] == BULK {
                        match decode_payload(s.skip(next as int), length as nat) {
                            Decoded::Parsed(value, consumed) => Decoded::Parsed(
                                value,
                                next + consumed,
                            ),
                            Decoded::Incomplete => Decoded::Incomplete,
                            Decoded::Error(fault) => Decoded::Error(fault),
                        }
                    } else {
                        as_array(next, decode_items(s.skip(next as int), length as nat))
                    },
                }
            }
        }
    }
}

/// The `count` values at the front of `s`, in order. The first child that is
/// incomplete or wrong decides for all of them.
///
/// A child takes at least one byte and no more than there are, which
/// `lemma_decoded_value` shows: the branch for another count of bytes is there
/// for the definition to end, and is never taken.
pub open spec fn decode_items(s: Seq<u8>, count: nat) -> Decoded<Seq<Value>>
    decreases s.len(), 1 + count,
{
    if count == 0 {
        Decoded::Parsed(Seq::empty(), 0)
    } else {
        match decode_value(s) {
            Decoded::Parsed(first, consumed) => if 0 < consumed <= s.len() {
                behind(
                    seq![first],
                    consumed,
                    decode_items(s.skip(consumed as int), (count - 1) as nat),
                )
            } else {
                Decoded::Incomplete
            },
            Decoded::Incomplete => Decoded::Incomplete,
            Decoded::Error(fault) => Decoded::Error(fault),
        }
    }
}

/// What a whole buffer decodes to: the value at its front, or for an empty
/// buffer the error of a missing length.
pub open spec fn decode(s: Seq<u8>) -> Decoded<Value> {
    if s.len() == 0 {
        Decoded::Error(Fault::InvalidLength(Seq::empty()))
    } else {
        decode_value(s)
    }
}

/// The digits of a prefix write no more than the digits of the whole.
pub proof fn lemma_decimal_value_grows(t: Seq<u8>, k: int)
    requires
        0 <= k <= t.len(),
    ensures
        decimal_value(t.take(k)) <= decimal_value(t),
    decreases t.len(),
{
    if k == t.len() {
        assert(t.take(k) =~= t);
    } else {
        lemma_decimal_value_grows(t.drop_last(), k);
        assert(t.drop_last().take(k) =~= t.take(k));
    }
}

/// Looks for the first terminator of `buffer` that starts at `from` or later.
pub fn find_terminator(buffer: &[u8], from: usize) -> (end: Option<usize>)
    ensures
        match end {
            Some(e) => first_terminator(buffer@, from as int) == e && from <= e && e + 2
                <= buffer.len(),
            None => first_terminator(buffer@, from as int) == -1,
        },
{
    let mut i: usize = from;
    while i < buffer.len() && i + 1 < buffer.len()
        invariant
            from <= i,
            first_terminator(buffer@, from as int) == first_terminator(buffer@, i as int),
        decreases buffer.len() - i,
    {
        if buffer[i] == CR && buffer[i + 1] == LF {
            return Some(i);
        }
        i += 1;
    }
    None
}

/// The decoder of the wire format.
pub struct RESPv2Parser;

impl RESPv2Parser {
    /// Decodes the value at the front of `buffer`.
    ///
    /// Lengths drive the reading of bulk strings and arrays, so a payload may
    /// hold any byte, the terminator's too. An empty buffer is an error here;
    /// a caller that waits for more bytes asks only once it holds some.
    pub fn parse(buffer: &[u8]) -> (out: ParseOutcome)
        ensures
            out@ == decode(buffer@),
            out matches ParseOutcome::Parsed(_, consumed) ==> 0 < consumed <= buffer.len(),
    {
        if buffer.len() == 0 {
            let error = RESPv2Error::InvalidLength(Vec::new());
            assert(error@.token() =~= Seq::<u8>::empty());
            return ParseOutcome::Error(error);
        }
        Self::parse_value(buffer)
    }

    /// Decodes the value at the front of `buffer`, the rest of a larger
    /// buffer: where it is empty, the value is yet to come.
    pub fn parse_value(buffer: &[u8]) -> (out: ParseOutcome)
        ensures
            out@ == decode_value(buffer@),
            out matches ParseOutcome::Parsed(_, consumed) ==> 0 < consumed <= buffer.len(),
        decreases buffer@.len(), 0nat,
    {
        let len = buffer.len();
        if len == 0 {
            return ParseOutcome::Incomplete;
        }
        let marker = buffer[0];
        if marker != SIMPLE && marker != ERROR && marker != INTEGER && marker != BULK && marker
            != ARRAY {
            let error = RESPv2Error::InvalidCommand(vec![marker]);
            assert(error@.token() =~= seq![marker]);
            return ParseOutcome::Error(error);
        }
        let end = match find_terminator(buffer, 1) {
            Some(end) => end,
            None => {
                return ParseOutcome::Incomplete;
            },
        };
        let token = &buffer[1..end];
        let next = end + 2;
        if marker == SIMPLE {
            ParseOutcome::Parsed(Self::parse_string(token), next)
        } else if marker == ERROR {
            ParseOutcome::Parsed(RESPv2Type::Error(slice_to_vec(token)), next)
        } else if marker == INTEGER {
            match Self::parse_integer(token) {
                Ok(value) => ParseOutcome::Parsed(value, next),
                Err(error) => ParseOutcome::Error(error),
            }
        } else {
            match Self::parse_length(token) {
                Err(error) => ParseOutcome::Error(error),
                Ok(None) => if marker == BULK {
                    ParseOutcome::Parsed(RESPv2Type::Null, next)
                } else {
                    ParseOutcome::Parsed(RESPv2Type::NullArray, next)
                },
                Ok(Some(length)) => {
                    let rest = &buffer[next..len];
                    assert(rest@ =~= buffer@.skip(next as int));
                    let inner = if marker == BULK {
                        Self::parse_bulk(rest, length)
                    } else {
                        Self::parse_array(rest, length)
                    };
                    match inner {
                        ParseOutcome::Parsed(value, consumed) => ParseOutcome::Parsed(
                            value,
                            next + consumed,
                        ),
                        ParseOutcome::Incomplete => ParseOutcome::Incomplete,
                        ParseOutcome::Error(error) => ParseOutcome::Error(error),
                    }
                },
            }
        }
    }

    /// The simple string whose text is `token`.
    pub fn parse_string(token: &[u8]) -> (out: RESPv2Type)
        ensures
            out@ == Value::Simple(token@),
    {
        RESPv2Type::String(slice_to_vec(token))
    }

    /// Reads `token` as a count: digits alone, with a value that fits 64
    /// bits.
    pub fn parse_count(token: &[u8]) -> (out: Option<u64>)
        ensures
            out == count_token(token@),
    {
        if token.len() == 0 {
            return None;
        }
        let mut value: u64 = 0;
        let mut i: usize = 0;
        while i < token.len()
            invariant
                i <= token.len(),
                all_digits(token@.take(i as int)),
                decimal_value(token@.take(i as int)) == value,
            decreases token.len() - i,
        {
            let b = token[i];
            if b < ZERO || b > NINE {
                assert(!is_digit(token@[i as int]));
                return None;
            }
            let d = (b - ZERO) as u64;
            proof {
                assert(token@.take(i + 1).drop_last() =~= token@.take(i as int));
                assert(token@.take(i + 1).last() == b);
                assert(decimal_value(token@.take(i + 1)) == value * 10 + d);
            }
            if value > (u64::MAX - d) / 10 {
                proof {
                    lemma_decimal_value_grows(token@, i + 1);
                }
                return None;
            }
            value = value * 10 + d;
            i += 1;
        }
        assert(token@.take(i as int) =~= token@);
        Some(value)
    }

    /// Reads `token` as an integer: a count, which a `+` may precede.
    /// Anything else is an error of kind `InvalidType` that carries the token.
    pub fn parse_integer(token: &[u8]) -> (out: Result<RESPv2Type, RESPv2Error>)
        ensures
            match integer_token(token@) {
                Some(n) => out matches Ok(value) && value@ == Value::Integer(n),
                None => out matches Err(error) && error@ == Fault::InvalidType(token@),
            },
    {
        let count = if token.len() > 0 && token[0] == PLUS {
            let digits = &token[1..token.len()];
            assert(digits@ =~= token@.skip(1));
            Self::parse_count(digits)
        } else {
            Self::parse_count(token)
        };
        match count {
            Some(n) => Ok(RESPv2Type::Number(n)),
            None => Err(RESPv2Error::InvalidType(slice_to_vec(token))),
        }
    }

    /// Reads `token` as a declared length: `-1` for an absent value, which
    /// gives `None`, or a count. Anything else is an error of kind
    /// `InvalidLength` that carries the token.
    pub fn parse_length(token: &[u8]) -> (out: Result<Option<u64>, RESPv2Error>)
        ensures
            match length_token(token@) {
                Some(length) => out matches Ok(declared) && match declared {
                    Some(n) => length == n,
                    None => length == -1,
                },
                None => out matches Err(error) && error@ == Fault::InvalidLength(token@),
            },
    {
        if token.len() == 2 && token[0] == MINUS && token[1] == ONE {
            assert(token@ =~= absent());
            return Ok(None);
        }
        assert(!(token@ =~= absent()));
        match Self::parse_count(token) {
            Some(n) => Ok(Some(n)),
            None => Err(RESPv2Error::InvalidLength(slice_to_vec(token))),
        }
    }

    /// Decodes the payload of a bulk string of declared length `length` at
    /// the front of `rest`, and the terminator behind it.
    pub fn parse_bulk(rest: &[u8], length: u64) -> (out: ParseOutcome)
        ensures
            out@ == decode_payload(rest@, length as nat),
            out matches ParseOutcome::Parsed(_, consumed) ==> 0 < consumed <= rest.len(),
    {
        let available = rest.len();
        if available as u64 <= length {
            return ParseOutcome::Incomplete;
        }
        let end = length as usize;
        if rest[end] != CR {
            let error = RESPv2Error::InvalidData(vec![rest[end]]);
            assert(error@.token() =~= seq![rest@[end as int]]);
            return ParseOutcome::Error(error);
        }
        if available <= end + 1 {
            return ParseOutcome::Incomplete;
        }
        if rest[end + 1] != LF {
            let error = RESPv2Error::InvalidData(vec![CR, rest[end + 1]]);
            assert(error@.token() =~= seq![CR, rest@[end + 1]]);
            return ParseOutcome::Error(error);
        }
        let payload = &rest[0..end];
        assert(payload@ =~= rest@.take(end as int));
        ParseOutcome::Parsed(RESPv2Type::Bulk(slice_to_vec(payload)), end + 2)
    }

    /// Decodes the `count` items of an array at the front of `rest`, one
    /// after the other, and stops at the first that is incomplete or wrong.
    pub fn parse_array(rest: &[u8], count: u64) -> (out: ParseOutcome)
        ensures
            out@ == as_array(0, decode_items(rest@, count as nat)),
            out matches ParseOutcome::Parsed(_, consumed) ==> consumed <= rest.len(),
        decreases rest@.len(), 1nat,
    {
        let mut items: Vec<Box<RESPv2Type>> = Vec::new();
        let mut used: usize = 0;
        let mut i: u64 = 0;
        assert(models(items@) + decode_items(rest@, count as nat)->Parsed_0 =~= decode_items(
            rest@,
            count as nat,
        )->Parsed_0);
        assert(rest@.skip(0) =~= rest@);
        while i < count
            invariant
                i <= count,
                used <= rest.len(),
                decode_items(rest@, count as nat) == behind(
                    models(items@),
                    used as nat,
                    decode_items(rest@.skip(used as int), (count - i) as nat),
                ),
            decreases count - i,
        {
            let current = &rest[used..rest.len()];
            assert(current@ =~= rest@.skip(used as int));
            match Self::parse_value(current) {
                ParseOutcome::Parsed(value, consumed) => {
                    let ghost before = models(items@);
                    let ghost tail = decode_items(
                        current@.skip(consumed as int),
                        (count - i - 1) as nat,
                    );
                    proof {
                        assert(decode_items(current@, (count - i) as nat) == behind(
                            seq![value@],
                            consumed as nat,
                            tail,
                        ));
                        assert(current@.skip(consumed as int) =~= rest@.skip(used + consumed));
                    }
                    items.push(Box::new(value));
                    used += consumed;
                    i += 1;
                    proof {
                        assert(models(items@) =~= before + seq![value@]);
                        match tail {
                            Decoded::Parsed(more, taken) => {
                                assert(before + (seq![value@] + more) =~= models(items@) + more);
                            },
                            _ => {},
                        }
                    }
                },
                ParseOutcome::Incomplete => {
                    return ParseOutcome::Incomplete;
                },
                ParseOutcome::Error(error) => {
                    return ParseOutcome::Error(error);
                },
            }
        }
        let out = RESPv2Type::Array(items);
        proof {
            assert(models(items@) + Seq::<Value>::empty() =~= models(items@));
            assert(out@->Array_0 =~= models(items@));
        }
        ParseOutcome::Parsed(out, used)
    }
}

/// Buffers that can be decoded.
pub trait Parser {
    /// The bytes that `try_parse_to_respv2` decodes.
    spec fn buffer(&self) -> Seq<u8>;

    fn try_parse_to_respv2(&self) -> (out: ParseOutcome)
        ensures
            out@ == decode(self.buffer()),
    ;
}

/// Text is decoded from its UTF-8 bytes.
impl Parser for &str {
    open spec fn buffer(&self) -> Seq<u8> {
        encode_utf8(self@)
    }

    fn try_parse_to_respv2(&self) -> (out: ParseOutcome) {
        RESPv2Parser::parse(self.as_bytes())
    }
}

/// Text is decoded from its UTF-8 bytes.
impl Parser for String {
    open spec fn buffer(&self) -> Seq<u8> {
        encode_utf8(self@)
    }

    fn try_parse_to_respv2(&self) -> (out: ParseOutcome) {
        RESPv2Parser::parse(self.as_str().as_bytes())
    }
}

impl Parser for Vec<u8> {
    open spec fn buffer(&self) -> Seq<u8> {
        self@
    }

    fn try_parse_to_respv2(&self) -> (out: ParseOutcome) {
        RESPv2Parser::parse(self.as_slice())
    }
}

} // verus!

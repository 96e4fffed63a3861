use vstd::prelude::*;

verus! {

/// Carriage return, the first byte of the terminator.
pub const CR: u8 = 13;

/// Line feed, the second byte of the terminator.
pub const LF: u8 = 10;

/// `s` holds the two-byte terminator at index `i`.
pub open spec fn terminator_at(s: Seq<u8>, i: int) -> bool {
    0 <= i && i + 1 < s.len() && s[i] == CR && s[i + 1] == LF
}

/// `s` holds the terminator somewhere.
pub open spec fn has_terminator(s: Seq<u8>) -> bool {
    exists|i: int| terminator_at(s, i)
}

/// Mathematical model of a protocol value: what a [`RESPv2Type`] stands for
/// once its buffers are read as sequences of bytes.
pub enum Value {
    Simple(Seq<u8>),
    Error(Seq<u8>),
    Integer(u64),
    Bulk(Seq<u8>),
    Null,
    Array(Seq<Value>),
    NullArray,
}

impl Value {
    /// No text field of the value, or of a value inside it, holds the
    /// terminator: such text would end early on the wire.
    pub open spec fn text_is_clean(self) -> bool
        decreases self,
    {
        match self {
            Value::Simple(text) => !has_terminator(text),
            Value::Error(text) => !has_terminator(text),
            Value::Array(items) => forall|i: int|
                0 <= i < items.len() ==> (#[trigger] items[i]).text_is_clean(),
            Value::Integer(_) => true,
            Value::Bulk(_) => true,
            Value::Null => true,
            Value::NullArray => true,
        }
    }

    /// Every length in the value fits the 64-bit count of its header. This
    /// holds of every value in memory.
    pub open spec fn lengths_fit(self) -> bool
        decreases self,
    {
        match self {
            Value::Bulk(bytes) => bytes.len() <= u64::MAX,
            Value::Array(items) => items.len() <= u64::MAX && forall|i: int|
                0 <= i < items.len() ==> (#[trigger] items[i]).lengths_fit(),
            Value::Simple(_) => true,
            Value::Error(_) => true,
            Value::Integer(_) => true,
            Value::Null => true,
            Value::NullArray => true,
        }
    }

    /// A value that the wire format can carry.
    pub open spec fn well_formed(self) -> bool {
        self.text_is_clean() && self.lengths_fit()
    }
}

/// A protocol value as held in memory.
///
/// `String` and `Error` are the two text kinds, `Bulk` is the binary-safe
/// string, `Null` the absent bulk string and `NullArray` the absent array.
#[derive(Debug, PartialEq, Eq)]
pub enum RESPv2Type {
    Array(Vec<Box<RESPv2Type>>),
    Number(u64),
    String(Vec<u8>),
    Bulk(Vec<u8>),
    Error(Vec<u8>),
    Null,
    NullArray,
}

impl RESPv2Type {
    /// The value this tree stands for.
    pub open spec fn model(&self) -> Value
        decreases self,
    {
        match self {
            RESPv2Type::Array(items) => Value::Array(
                Seq::new(
                    items.len() as nat,
                    |i: int|
                        if 0 <= i < items.len() {
                            items[i].model()
                        } else {
                            Value::Null
                        },
                ),
            ),
            RESPv2Type::Number(n) => Value::Integer(*n),
            RESPv2Type::String(text) => Value::Simple(text@),
            RESPv2Type::Bulk(bytes) => Value::Bulk(bytes@),
            RESPv2Type::Error(text) => Value::Error(text@),
            RESPv2Type::Null => Value::Null,
            RESPv2Type::NullArray => Value::NullArray,
        }
    }
}

/// The lengths of a value in memory fit their headers.
pub proof fn lemma_lengths_fit(value: &RESPv2Type)
    ensures
        value@.lengths_fit(),
    decreases value,
{
    match value {
        RESPv2Type::Array(items) => {
            let inner = value@->Array_0;
            assert(inner.len() == items.len());
            assert(inner.len() <= usize::MAX);
            assert forall|i: int| 0 <= i < inner.len() implies (
            #[trigger] inner[i]).lengths_fit() by {
                lemma_lengths_fit(&*items[i]);
                assert(inner[i] == items[i]@);
            }
        },
        RESPv2Type::Bulk(bytes) => {
            assert(bytes@.len() == bytes.len());
        },
        _ => {},
    }
}

impl View for RESPv2Type {
    type V = Value;

    open spec fn view(&self) -> Value {
        self.model()
    }
}

/// The models of a list of values, in order.
pub open spec fn models(items: Seq<Box<RESPv2Type>>) -> Seq<Value> {
    Seq::new(items.len(), |i: int| items[i]@)
}

/// Mathematical model of a decoding error: its kind and the offending token.
pub enum Fault {
    InvalidCommand(Seq<u8>),
    InvalidData(Seq<u8>),
    InvalidLength(Seq<u8>),
    InvalidType(Seq<u8>),
}

impl Fault {
    /// The offending bytes.
    pub open spec fn token(self) -> Seq<u8> {
        match self {
            Fault::InvalidCommand(token) => token,
            Fault::InvalidData(token) => token,
            Fault::InvalidLength(token) => token,
            Fault::InvalidType(token) => token,
        }
    }

    /// The name of the kind, as shown to clients.
    pub open spec fn name(self) -> Seq<char> {
        match self {
            Fault::InvalidCommand(_) => "InvalidCommand"@,
            Fault::InvalidData(_) => "InvalidData"@,
            Fault::InvalidLength(_) => "InvalidLength"@,
            Fault::InvalidType(_) => "InvalidType"@,
        }
    }
}

/// Why a buffer could not be decoded. Each kind carries the offending token:
/// the unknown type marker, the bytes found in place of a terminator, the
/// length token, or the integer token.
#[derive(Debug, PartialEq, Eq)]
pub enum RESPv2Error {
    InvalidCommand(Vec<u8>),
    InvalidData(Vec<u8>),
    InvalidLength(Vec<u8>),
    InvalidType(Vec<u8>),
}

impl View for RESPv2Error {
    type V = Fault;

    open spec fn view(&self) -> Fault {
        match self {
            RESPv2Error::InvalidCommand(token) => Fault::InvalidCommand(token@),
            RESPv2Error::InvalidData(token) => Fault::InvalidData(token@),
            RESPv2Error::InvalidLength(token) => Fault::InvalidLength(token@),
            RESPv2Error::InvalidType(token) => Fault::InvalidType(token@),
        }
    }
}

/// Another name for [`RESPv2Type`].
pub type RESPv2Types = RESPv2Type;

/// Another name for [`RESPv2Error`].
pub type RESPv2Errors = RESPv2Error;

impl RESPv2Error {
    /// The name of the error's kind.
    pub fn to_string(&self) -> (name: String)
        ensures
            name@ == self@.name(),
    {
        match self {
            RESPv2Error::InvalidCommand(_) => "InvalidCommand".to_owned(),
            RESPv2Error::InvalidData(_) => "InvalidData".to_owned(),
            RESPv2Error::InvalidLength(_) => "InvalidLength".to_owned(),
            RESPv2Error::InvalidType(_) => "InvalidType".to_owned(),
        }
    }

    /// The offending token.
    pub fn token(&self) -> (token: &Vec<u8>)
        ensures
            token@ == self@.token(),
    {
        match self {
            RESPv2Error::InvalidCommand(token) => token,
            RESPv2Error::InvalidData(token) => token,
            RESPv2Error::InvalidLength(token) => token,
            RESPv2Error::InvalidType(token) => token,
        }
    }
}

} // verus!

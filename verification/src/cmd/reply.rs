use crate::respv2::primitives::{
    has_terminator, terminator_at, Fault, RESPv2Error, RESPv2Type, Value, CR, LF,
};
use crate::respv2::serializer::write_bytes;
use vstd::prelude::*;
use vstd::utf8::{encode_utf8, is_ascii_chars, is_ascii_chars_encode_utf8};

verus! {

/// The space that stands for a byte of the terminator in a message.
pub const SPACE: u8 = 32;

/// The bytes of a piece of text.
pub open spec fn text(s: &str) -> Seq<u8> {
    encode_utf8(s@)
}

/// The bytes that a string element of a request carries: the text of a simple
/// string or the payload of a bulk string. No other value is a string.
pub open spec fn string_bytes(value: Value) -> Option<Seq<u8>> {
    match value {
        Value::Simple(bytes) => Some(bytes),
        Value::Bulk(bytes) => Some(bytes),
        _ => None,
    }
}

/// `b`, or a space where `b` is a byte of the terminator.
pub open spec fn on_one_line_byte(b: u8) -> u8 {
    if b == CR || b == LF {
        SPACE
    } else {
        b
    }
}

/// `bytes` with a space for each byte of the terminator, so that text made
/// of them stays on its line.
pub open spec fn on_one_line(bytes: Seq<u8>) -> Seq<u8> {
    Seq::new(bytes.len(), |i: int| on_one_line_byte(bytes[i]))
}

/// The error sent for a command with the wrong number of arguments.
pub open spec fn wrong_arity(command: &str) -> Value {
    Value::Error(text("wrong number of arguments for '") + text(command) + text("'"))
}

/// The error sent for a command with an argument that is no string.
pub open spec fn wrong_use(command: &str) -> Value {
    Value::Error(text("Wrong use of ") + text(command) + text(" command."))
}

/// The error sent for a command that the server does not know. The name is
/// shown as it was sent, but for the bytes of the terminator.
pub open spec fn unknown_command(name: Seq<u8>) -> Value {
    Value::Error(text("unknown command '") + on_one_line(name) + text("'"))
}

/// The error sent for a request that is no list of strings with a command's
/// name at its front.
pub open spec fn invalid_request() -> Value {
    Value::Error(text("Invalid RESPv2 data received."))
}

/// The error sent for bytes that could not be decoded: the kind's name and
/// the offending token, the latter without the bytes of the terminator.
pub open spec fn fault_reply(fault: Fault) -> Value {
    Value::Error(
        text("ERR ") + encode_utf8(fault.name()) + text(" '") + on_one_line(fault.token()) + text(
            "'",
        ),
    )
}

/// The bytes of a string element, where `value` is one.
pub fn as_string(value: &RESPv2Type) -> (bytes: Option<&Vec<u8>>)
    ensures
        match bytes {
            Some(found) => string_bytes(value@) == Some(found@),
            None => string_bytes(value@) is None,
        },
{
    match value {
        RESPv2Type::String(bytes) => Some(bytes),
        RESPv2Type::Bulk(bytes) => Some(bytes),
        _ => None,
    }
}

/// Appends `bytes` to `out`, with a space for each byte of the terminator.
pub fn write_on_one_line(bytes: &[u8], out: &mut Vec<u8>)
    ensures
        final(out)@ == old(out)@ + on_one_line(bytes@),
{
    let mut i: usize = 0;
    while i < bytes.len()
        invariant
            i <= bytes.len(),
            out@ == old(out)@ + on_one_line(bytes@.take(i as int)),
        decreases bytes.len() - i,
    {
        let b = bytes[i];
        if b == CR || b == LF {
            out.push(SPACE);
        } else {
            out.push(b);
        }
        i += 1;
        assert(out@ =~= old(out)@ + on_one_line(bytes@.take(i as int)));
    }
    assert(bytes@.take(i as int) =~= bytes@);
}

/// The error whose text is `before`, `middle` and `after`, in this order.
pub fn error_around(before: &str, middle: &[u8], after: &str) -> (reply: RESPv2Type)
    ensures
        reply@ == Value::Error(text(before) + middle@ + text(after)),
{
    let mut message = Vec::new();
    write_bytes(before.as_bytes(), &mut message);
    write_bytes(middle, &mut message);
    write_bytes(after.as_bytes(), &mut message);
    assert(message@ =~= text(before) + middle@ + text(after));
    RESPv2Type::Error(message)
}

/// The error for `command` with the wrong number of arguments.
pub fn wrong_arity_reply(command: &str) -> (reply: RESPv2Type)
    ensures
        reply@ == wrong_arity(command),
{
    error_around("wrong number of arguments for '", command.as_bytes(), "'")
}

/// The error for `command` with an argument that is no string.
pub fn wrong_use_reply(command: &str) -> (reply: RESPv2Type)
    ensures
        reply@ == wrong_use(command),
{
    error_around("Wrong use of ", command.as_bytes(), " command.")
}

/// The error for the unknown command `name`.
pub fn unknown_command_reply(name: &[u8]) -> (reply: RESPv2Type)
    ensures
        reply@ == unknown_command(name@),
{
    let mut shown = Vec::new();
    write_on_one_line(name, &mut shown);
    assert(shown@ =~= on_one_line(name@));
    error_around("unknown command '", shown.as_slice(), "'")
}

/// The error for a request of the wrong shape.
pub fn invalid_request_reply() -> (reply: RESPv2Type)
    ensures
        reply@ == invalid_request(),
{
    let mut message = Vec::new();
    write_bytes("Invalid RESPv2 data received.".as_bytes(), &mut message);
    assert(message@ =~= text("Invalid RESPv2 data received."));
    RESPv2Type::Error(message)
}

/// The error that tells a client why its bytes could not be decoded.
pub fn fault_reply_of(error: &RESPv2Error) -> (reply: RESPv2Type)
    ensures
        reply@ == fault_reply(error@),
        reply@.text_is_clean(),
{
    proof {
        lemma_fault_reply_is_clean(error@);
    }
    let name = error.to_string();
    let mut message = Vec::new();
    write_bytes("ERR ".as_bytes(), &mut message);
    write_bytes(name.as_str().as_bytes(), &mut message);
    write_bytes(" '".as_bytes(), &mut message);
    write_on_one_line(error.token().as_slice(), &mut message);
    write_bytes("'".as_bytes(), &mut message);
    assert(message@ =~= fault_reply(error@)->Error_0);
    RESPv2Type::Error(message)
}

/// No byte of `bytes` is a byte of the terminator.
pub open spec fn plain(bytes: Seq<u8>) -> bool {
    forall|i: int| 0 <= i < bytes.len() ==> bytes[i] != CR && bytes[i] != LF
}

/// Text without a byte of the terminator holds no terminator.
pub proof fn lemma_plain_holds_no_terminator(bytes: Seq<u8>)
    requires
        plain(bytes),
    ensures
        !has_terminator(bytes),
{
    assert forall|i: int| !terminator_at(bytes, i) by {}
}

/// Three plain pieces make plain text.
pub proof fn lemma_plain_pieces(before: Seq<u8>, middle: Seq<u8>, after: Seq<u8>)
    requires
        plain(before),
        plain(middle),
        plain(after),
    ensures
        plain(before + middle + after),
        !has_terminator(before + middle + after),
{
    lemma_plain_holds_no_terminator(before + middle + after);
}

/// What `on_one_line` gives is plain.
pub proof fn lemma_on_one_line_is_plain(bytes: Seq<u8>)
    ensures
        plain(on_one_line(bytes)),
{
}

/// The names of the four kinds of error are plain.
pub proof fn lemma_kind_names_are_plain(fault: Fault)
    ensures
        plain(encode_utf8(fault.name())),
{
    reveal_strlit("InvalidCommand");
    reveal_strlit("InvalidData");
    reveal_strlit("InvalidLength");
    reveal_strlit("InvalidType");
    assert(is_ascii_chars(fault.name()));
    is_ascii_chars_encode_utf8(fault.name());
}

/// The fixed words of the replies are plain.
pub proof fn lemma_words_are_plain()
    ensures
        plain(text("wrong number of arguments for '")),
        plain(text("'")),
        plain(text("Wrong use of ")),
        plain(text(" command.")),
        plain(text("unknown command '")),
        plain(text("Invalid RESPv2 data received.")),
        plain(text("ERR ")),
        plain(text(" '")),
        plain(text("PONG")),
        plain(text("OK")),
        plain(text("ping")),
        plain(text("echo")),
        plain(text("get")),
        plain(text("set")),
        plain(text("del")),
        plain(text("PING")),
        plain(text("ECHO")),
        plain(text("GET")),
        plain(text("SET")),
        plain(text("DEL")),
{
    lemma_message_words_are_plain();
    lemma_command_words_are_plain();
}

/// The fixed words of the error messages are plain.
proof fn lemma_message_words_are_plain()
    ensures
        plain(text("wrong number of arguments for '")),
        plain(text("'")),
        plain(text("Wrong use of ")),
        plain(text(" command.")),
        plain(text("unknown command '")),
        plain(text("Invalid RESPv2 data received.")),
        plain(text("ERR ")),
        plain(text(" '")),
{
    reveal_strlit("wrong number of arguments for '");
    reveal_strlit("'");
    reveal_strlit("Wrong use of ");
    reveal_strlit(" command.");
    reveal_strlit("unknown command '");
    reveal_strlit("Invalid RESPv2 data received.");
    reveal_strlit("ERR ");
    reveal_strlit(" '");
    assert(is_ascii_chars("wrong number of arguments for '"@));
    assert(is_ascii_chars("'"@));
    assert(is_ascii_chars("Wrong use of "@));
    assert(is_ascii_chars(" command."@));
    assert(is_ascii_chars("unknown command '"@));
    assert(is_ascii_chars("Invalid RESPv2 data received."@));
    assert(is_ascii_chars("ERR "@));
    assert(is_ascii_chars(" '"@));
    is_ascii_chars_encode_utf8("wrong number of arguments for '"@);
    is_ascii_chars_encode_utf8("'"@);
    is_ascii_chars_encode_utf8("Wrong use of "@);
    is_ascii_chars_encode_utf8(" command."@);
    is_ascii_chars_encode_utf8("unknown command '"@);
    is_ascii_chars_encode_utf8("Invalid RESPv2 data received."@);
    is_ascii_chars_encode_utf8("ERR "@);
    is_ascii_chars_encode_utf8(" '"@);
}

/// The commands' names and the two fixed answers are plain.
proof fn lemma_command_words_are_plain()
    ensures
        plain(text("PONG")),
        plain(text("OK")),
        plain(text("ping")),
        plain(text("echo")),
        plain(text("get")),
        plain(text("set")),
        plain(text("del")),
        plain(text("PING")),
        plain(text("ECHO")),
        plain(text("GET")),
        plain(text("SET")),
        plain(text("DEL")),
{
    reveal_strlit("PONG");
    reveal_strlit("OK");
    reveal_strlit("ping");
    reveal_strlit("echo");
    reveal_strlit("get");
    reveal_strlit("set");
    reveal_strlit("del");
    reveal_strlit("PING");
    reveal_strlit("ECHO");
    reveal_strlit("GET");
    reveal_strlit("SET");
    reveal_strlit("DEL");
    assert(is_ascii_chars("PONG"@));
    assert(is_ascii_chars("OK"@));
    assert(is_ascii_chars("ping"@));
    assert(is_ascii_chars("echo"@));
    assert(is_ascii_chars("get"@));
    assert(is_ascii_chars("set"@));
    assert(is_ascii_chars("del"@));
    assert(is_ascii_chars("PING"@));
    assert(is_ascii_chars("ECHO"@));
    assert(is_ascii_chars("GET"@));
    assert(is_ascii_chars("SET"@));
    assert(is_ascii_chars("DEL"@));
    is_ascii_chars_encode_utf8("PONG"@);
    is_ascii_chars_encode_utf8("OK"@);
    is_ascii_chars_encode_utf8("ping"@);
    is_ascii_chars_encode_utf8("echo"@);
    is_ascii_chars_encode_utf8("get"@);
    is_ascii_chars_encode_utf8("set"@);
    is_ascii_chars_encode_utf8("del"@);
    is_ascii_chars_encode_utf8("PING"@);
    is_ascii_chars_encode_utf8("ECHO"@);
    is_ascii_chars_encode_utf8("GET"@);
    is_ascii_chars_encode_utf8("SET"@);
    is_ascii_chars_encode_utf8("DEL"@);
}

/// The error sent for bytes that could not be decoded holds no terminator
/// in its text.
pub proof fn lemma_fault_reply_is_clean(fault: Fault)
    ensures
        fault_reply(fault).text_is_clean(),
{
    lemma_words_are_plain();
    lemma_kind_names_are_plain(fault);
    lemma_on_one_line_is_plain(fault.token());
    let message = fault_reply(fault)->Error_0;
    assert(plain(message));
    lemma_plain_holds_no_terminator(message);
}

} // verus!

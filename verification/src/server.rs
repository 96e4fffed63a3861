use crate::cmd::del::{cmd_del, del_entries, del_reply};
use crate::cmd::echo::{cmd_echo, echo_reply};
use crate::cmd::get::{cmd_get, get_reply};
use crate::cmd::name::{is_command, names};
use crate::cmd::ping::{cmd_ping, ping_reply};
use crate::cmd::reply::{
    as_string, fault_reply, fault_reply_of, invalid_request, invalid_request_reply,
    string_bytes, unknown_command, unknown_command_reply,
};
use crate::cmd::set::{cmd_set, set_entries, set_reply};
use crate::db::MemoryDatabase;
use crate::laws::reply_is_clean;
use crate::respv2::parser::{decode, Decoded, ParseOutcome, RESPv2Parser};
use crate::respv2::primitives::{models, Fault, RESPv2Error, RESPv2Type, Value};
use crate::respv2::serializer::{wire, write_value};
use vstd::prelude::*;

verus! {

/// Mathematical model of what a request does: the reply, and what the store
/// holds afterwards.
pub struct Outcome {
    pub reply: Value,
    pub entries: Map<Seq<u8>, Seq<u8>>,
}

/// What the command `name` does with `args` on a store that holds `entries`.
/// The name is matched whatever the case of its letters.
pub open spec fn command_outcome(
    name: Seq<u8>,
    args: Seq<Value>,
    entries: Map<Seq<u8>, Seq<u8>>,
) -> Outcome {
    if is_command(name, "ping") {
        Outcome { reply: ping_reply(args), entries }
    } else if is_command(name, "echo") {
        Outcome { reply: echo_reply(args), entries }
    } else if is_command(name, "get") {
        Outcome { reply: get_reply(args, entries), entries }
    } else if is_command(name, "set") {
        Outcome { reply: set_reply(args), entries: set_entries(args, entries) }
    } else if is_command(name, "del") {
        Outcome { reply: del_reply(args, entries), entries: del_entries(args, entries) }
    } else {
        Outcome { reply: unknown_command(name), entries }
    }
}

/// `request` is a list with a string at its front: the name of a command,
/// and its arguments behind it.
pub open spec fn is_request(request: Value) -> bool {
    request matches Value::Array(items) && items.len() > 0 && string_bytes(items[0]) is Some
}

/// What `request` does on a store that holds `entries`. A request of another
/// shape than a list that begins with a command's name, an empty list too, is
/// answered by an error and changes nothing.
pub open spec fn dispatch_outcome(request: Value, entries: Map<Seq<u8>, Seq<u8>>) -> Outcome {
    if is_request(request) {
        let items = request->Array_0;
        command_outcome(string_bytes(items[0]).unwrap(), items.skip(1), entries)
    } else {
        Outcome { reply: invalid_request(), entries }
    }
}

/// What stands at the front of a receive buffer.
#[derive(Debug, PartialEq, Eq)]
pub enum Step {
    /// Nothing, or the beginning of a request: read more bytes.
    NeedMore,
    /// A request, which has left the buffer.
    Request(RESPv2Type),
    /// Bytes that are no request. The buffer has been emptied.
    Malformed(RESPv2Error),
}

/// Mathematical model of a [`Step`].
pub enum StepModel {
    NeedMore,
    Request(Value),
    Malformed(Fault),
}

impl View for Step {
    type V = StepModel;

    open spec fn view(&self) -> StepModel {
        match self {
            Step::NeedMore => StepModel::NeedMore,
            Step::Request(request) => StepModel::Request(request@),
            Step::Malformed(error) => StepModel::Malformed(error@),
        }
    }
}

/// The step that a receive buffer which holds `buffer` gives.
pub open spec fn next_step(buffer: Seq<u8>) -> StepModel {
    if buffer.len() == 0 {
        StepModel::NeedMore
    } else {
        match decode(buffer) {
            Decoded::Incomplete => StepModel::NeedMore,
            Decoded::Error(fault) => StepModel::Malformed(fault),
            Decoded::Parsed(request, _) => StepModel::Request(request),
        }
    }
}

/// What a receive buffer which held `buffer` holds after its step: the bytes
/// behind the request that left it, nothing after bytes that are no request,
/// and all of them where more are needed.
pub open spec fn after_step(buffer: Seq<u8>) -> Seq<u8> {
    if buffer.len() == 0 {
        buffer
    } else {
        match decode(buffer) {
            Decoded::Incomplete => buffer,
            Decoded::Error(_) => Seq::empty(),
            Decoded::Parsed(_, consumed) => buffer.skip(consumed as int),
        }
    }
}

/// Mathematical model of what serving a receive buffer gives: the bytes to
/// send, the bytes that stay in the buffer, and what the store holds
/// afterwards.
pub struct Served {
    pub output: Seq<u8>,
    pub rest: Seq<u8>,
    pub entries: Map<Seq<u8>, Seq<u8>>,
}

/// What serving `buffer` gives on a store that holds `entries`: each request
/// at the front of the buffer is taken from it, performed and answered, in
/// order, until the buffer is empty or ends inside a request. Bytes that
/// cannot be decoded are answered by an error, and the buffer is emptied:
/// nothing in it can be trusted to begin a request.
///
/// A request that leaves the buffer leaves it shorter, which
/// `request_leaves_buffer` shows: the branch for a buffer that stays as long
/// is there for the definition to end, and is never taken.
pub open spec fn serve(buffer: Seq<u8>, entries: Map<Seq<u8>, Seq<u8>>) -> Served
    decreases buffer.len(),
{
    match next_step(buffer) {
        StepModel::NeedMore => Served { output: Seq::empty(), rest: buffer, entries },
        StepModel::Malformed(fault) => Served {
            output: wire(fault_reply(fault)),
            rest: Seq::empty(),
            entries,
        },
        StepModel::Request(request) => if after_step(buffer).len() < buffer.len() {
            let done = dispatch_outcome(request, entries);
            let later = serve(after_step(buffer), done.entries);
            Served {
                output: wire(done.reply) + later.output,
                rest: later.rest,
                entries: later.entries,
            }
        } else {
            Served { output: Seq::empty(), rest: buffer, entries }
        },
    }
}

/// How a read or a write on a connection failed, or that a read met the end
/// of the stream.
#[derive(Debug, Clone, Copy, PartialEq, Eq)]
pub enum Transport {
    EndOfStream,
    ConnectionReset,
    ConnectionAborted,
    BrokenPipe,
    UnexpectedEof,
    Other,
}

/// `event` says that the peer has closed the connection or is gone. Any
/// other failure is one of the transport itself.
pub open spec fn is_peer_gone(event: Transport) -> bool {
    !(event is Other)
}

/// The server: what a connection does with the bytes it receives.
pub struct Redis;

impl Redis {
    /// Whether a connection that met `event` ends in silence, because the
    /// peer has closed it or is gone. If not, the failure is to be reported.
    /// Either way the connection ends, and no other one with it.
    pub fn peer_is_gone(event: Transport) -> (gone: bool)
        ensures
            gone == is_peer_gone(event),
    {
        match event {
            Transport::Other => false,
            _ => true,
        }
    }

    /// Takes the request at the front of `buffer`, where a whole one is
    /// there.
    pub fn next_request(buffer: &mut Vec<u8>) -> (step: Step)
        ensures
            step@ == next_step(old(buffer)@),
            final(buffer)@ == after_step(old(buffer)@),
            step is Request ==> final(buffer)@.len() < old(buffer)@.len(),
    {
        if buffer.len() == 0 {
            return Step::NeedMore;
        }
        match RESPv2Parser::parse(buffer.as_slice()) {
            ParseOutcome::Incomplete => Step::NeedMore,
            ParseOutcome::Error(error) => {
                buffer.clear();
                Step::Malformed(error)
            },
            ParseOutcome::Parsed(request, consumed) => {
                let mut rest = buffer.split_off(consumed);
                core::mem::swap(buffer, &mut rest);
                assert(buffer@ =~= old(buffer)@.skip(consumed as int));
                Step::Request(request)
            },
        }
    }

    /// Performs the command `name` with `args` on `db` and answers it.
    pub fn command_handler<D: MemoryDatabase>(
        name: &[u8],
        args: &[Box<RESPv2Type>],
        db: &mut D,
    ) -> (reply: RESPv2Type)
        ensures
            reply@ == command_outcome(name@, models(args@), old(db).entries()).reply,
            final(db).entries() == command_outcome(
                name@,
                models(args@),
                old(db).entries(),
            ).entries,
    {
        if names(name, "ping") {
            cmd_ping(args)
        } else if names(name, "echo") {
            cmd_echo(args)
        } else if names(name, "get") {
            cmd_get(args, db)
        } else if names(name, "set") {
            cmd_set(args, db)
        } else if names(name, "del") {
            cmd_del(args, db)
        } else {
            unknown_command_reply(name)
        }
    }

    /// Performs `request` on `db` and answers it.
    pub fn dispatch<D: MemoryDatabase>(request: &RESPv2Type, db: &mut D) -> (reply: RESPv2Type)
        ensures
            reply@ == dispatch_outcome(request@, old(db).entries()).reply,
            final(db).entries() == dispatch_outcome(request@, old(db).entries()).entries,
            reply@.text_is_clean(),
    {
        proof {
            reply_is_clean(request@, db.entries());
        }
        match request {
            RESPv2Type::Array(items) => {
                if items.len() == 0 {
                    return invalid_request_reply();
                }
                match as_string(&items[0]) {
                    Some(name) => {
                        let args = &items.as_slice()[1..items.len()];
                        assert(models(args@) =~= request@->Array_0.skip(1));
                        Self::command_handler(name.as_slice(), args, db)
                    },
                    None => invalid_request_reply(),
                }
            },
            _ => invalid_request_reply(),
        }
    }

    /// Serves `buffer`, the bytes received on a connection and not yet
    /// answered: performs on `db` each request that is wholly there, and
    /// returns the replies to send, in order. What is left in `buffer` is the
    /// beginning of a request whose end is yet to come.
    pub fn handle<D: MemoryDatabase>(buffer: &mut Vec<u8>, db: &mut D) -> (output: Vec<u8>)
        ensures
            output@ == serve(old(buffer)@, old(db).entries()).output,
            final(buffer)@ == serve(old(buffer)@, old(db).entries()).rest,
            final(db).entries() == serve(old(buffer)@, old(db).entries()).entries,
    {
        let mut output: Vec<u8> = Vec::new();
        loop
            invariant
                serve(old(buffer)@, old(db).entries()).output == output@ + serve(
                    buffer@,
                    db.entries(),
                ).output,
                serve(old(buffer)@, old(db).entries()).rest == serve(buffer@, db.entries()).rest,
                serve(old(buffer)@, old(db).entries()).entries == serve(
                    buffer@,
                    db.entries(),
                ).entries,
            decreases buffer@.len(),
        {
            let ghost sent = output@;
            match Self::next_request(buffer) {
                Step::NeedMore => {
                    assert(output@ + Seq::<u8>::empty() =~= output@);
                    return output;
                },
                Step::Malformed(error) => {
                    let reply = fault_reply_of(&error);
                    write_value(&reply, &mut output);
                    return output;
                },
                Step::Request(request) => {
                    let reply = Self::dispatch(&request, db);
                    write_value(&reply, &mut output);
                    proof {
                        let later = serve(buffer@, db.entries());
                        assert(sent + (wire(reply@) + later.output) =~= output@ + later.output);
                    }
                },
            }
        }
    }
}

} // verus!

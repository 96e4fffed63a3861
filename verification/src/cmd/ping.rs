use crate::cmd::reply::{
    as_string, string_bytes, text, wrong_arity, wrong_arity_reply, wrong_use, wrong_use_reply,
};
use crate::respv2::primitives::{models, RESPv2Type, Value};
use crate::respv2::serializer::write_bytes;
use vstd::prelude::*;
use vstd::slice::slice_to_vec;

verus! {

/// What PING answers: `PONG` as a simple string without an argument, the
/// argument as a bulk string with one, an error with more or with an
/// argument that is no string.
pub open spec fn ping_reply(args: Seq<Value>) -> Value {
    if args.len() == 0 {
        Value::Simple(text("PONG"))
    } else if args.len() == 1 {
        match string_bytes(args[0]) {
            Some(message) => Value::Bulk(message),
            None => wrong_use("PING"),
        }
    } else {
        wrong_arity("ping")
    }
}

/// Answers PING.
pub fn cmd_ping(args: &[Box<RESPv2Type>]) -> (reply: RESPv2Type)
    ensures
        reply@ == ping_reply(models(args@)),
{
    if args.len() == 0 {
        let mut pong = Vec::new();
        write_bytes("PONG".as_bytes(), &mut pong);
        assert(pong@ =~= text("PONG"));
        RESPv2Type::String(pong)
    } else if args.len() == 1 {
        match as_string(&args[0]) {
            Some(message) => RESPv2Type::Bulk(slice_to_vec(message.as_slice())),
            None => wrong_use_reply("PING"),
        }
    } else {
        wrong_arity_reply("ping")
    }
}

} // verus!

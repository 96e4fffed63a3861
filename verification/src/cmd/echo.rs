use crate::cmd::reply::{
    as_string, string_bytes, wrong_arity, wrong_arity_reply, wrong_use, wrong_use_reply,
};
use crate::respv2::primitives::{models, RESPv2Type, Value};
use vstd::prelude::*;
use vstd::slice::slice_to_vec;

verus! {

/// What ECHO answers: its one argument as a bulk string, or an error for
/// another number of arguments or an argument that is no string.
pub open spec fn echo_reply(args: Seq<Value>) -> Value {
    if args.len() != 1 {
        wrong_arity("echo")
    } else {
        match string_bytes(args[0]) {
            Some(message) => Value::Bulk(message),
            None => wrong_use("ECHO"),
        }
    }
}

/// Answers ECHO.
pub fn cmd_echo(args: &[Box<RESPv2Type>]) -> (reply: RESPv2Type)
    ensures
        reply@ == echo_reply(models(args@)),
{
    if args.len() != 1 {
        return wrong_arity_reply("echo");
    }
    match as_string(&args[0]) {
        Some(message) => RESPv2Type::Bulk(slice_to_vec(message.as_slice())),
        None => wrong_use_reply("ECHO"),
    }
}

} // verus!

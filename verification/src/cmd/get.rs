use crate::cmd::reply::{
    as_string, string_bytes, wrong_arity, wrong_arity_reply, wrong_use, wrong_use_reply,
};
use crate::db::MemoryDatabase;
use crate::respv2::primitives::{models, RESPv2Type, Value};
use vstd::prelude::*;

verus! {

/// What GET answers from a store that holds `entries`: the value under its
/// one argument as a bulk string, the absent bulk string where the key holds
/// nothing, or an error for another number of arguments or a key that is no
/// string.
pub open spec fn get_reply(args: Seq<Value>, entries: Map<Seq<u8>, Seq<u8>>) -> Value {
    if args.len() != 1 {
        wrong_arity("get")
    } else {
        match string_bytes(args[0]) {
            Some(key) => if entries.contains_key(key) {
                Value::Bulk(entries[key])
            } else {
                Value::Null
            },
            None => wrong_use("GET"),
        }
    }
}

/// Answers GET from `db`.
pub fn cmd_get<D: MemoryDatabase>(args: &[Box<RESPv2Type>], db: &D) -> (reply: RESPv2Type)
    ensures
        reply@ == get_reply(models(args@), db.entries()),
{
    if args.len() != 1 {
        return wrong_arity_reply("get");
    }
    match as_string(&args[0]) {
        Some(key) => match db.get(key.as_slice()) {
            Some(value) => RESPv2Type::Bulk(value),
            None => RESPv2Type::Null,
        },
        None => wrong_use_reply("GET"),
    }
}

} // verus!

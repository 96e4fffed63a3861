use crate::cmd::reply::{
    as_string, string_bytes, wrong_arity, wrong_arity_reply, wrong_use, wrong_use_reply,
};
use crate::db::MemoryDatabase;
use crate::respv2::primitives::{models, RESPv2Type, Value};
use vstd::prelude::*;

verus! {

/// What DEL answers from a store that holds `entries`: the integer 1 where
/// its one argument is a key that holds a value, the integer 0 where it holds
/// none, or an error for another number of arguments or a key that is no
/// string.
pub open spec fn del_reply(args: Seq<Value>, entries: Map<Seq<u8>, Seq<u8>>) -> Value {
    if args.len() != 1 {
        wrong_arity("del")
    } else {
        match string_bytes(args[0]) {
            Some(key) => if entries.contains_key(key) {
                Value::Integer(1)
            } else {
                Value::Integer(0)
            },
            None => wrong_use("DEL"),
        }
    }
}

/// What a store that held `entries` holds after DEL: nothing under the key,
/// and the rest as before. A DEL that is answered by an error changes
/// nothing.
pub open spec fn del_entries(args: Seq<Value>, entries: Map<Seq<u8>, Seq<u8>>) -> Map<
    Seq<u8>,
    Seq<u8>,
> {
    if args.len() == 1 && string_bytes(args[0]) is Some {
        entries.remove(string_bytes(args[0]).unwrap())
    } else {
        entries
    }
}

/// Performs DEL on `db` and answers it.
pub fn cmd_del<D: MemoryDatabase>(args: &[Box<RESPv2Type>], db: &mut D) -> (reply: RESPv2Type)
    ensures
        reply@ == del_reply(models(args@), old(db).entries()),
        final(db).entries() == del_entries(models(args@), old(db).entries()),
{
    if args.len() != 1 {
        return wrong_arity_reply("del");
    }
    match as_string(&args[0]) {
        Some(key) => match db.del(key.as_slice()) {
            Some(_) => RESPv2Type::Number(1),
            None => RESPv2Type::Number(0),
        },
        None => wrong_use_reply("DEL"),
    }
}

} // verus!

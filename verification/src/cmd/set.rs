use crate::cmd::reply::{
    as_string, string_bytes, text, wrong_arity, wrong_arity_reply, wrong_use, wrong_use_reply,
};
use crate::db::MemoryDatabase;
use crate::respv2::primitives::{models, RESPv2Type, Value};
use crate::respv2::serializer::write_bytes;
use vstd::prelude::*;

verus! {

/// SET has a key and a value, both strings.
pub open spec fn set_is_valid(args: Seq<Value>) -> bool {
    args.len() == 2 && string_bytes(args[0]) is Some && string_bytes(args[1]) is Some
}

/// What SET answers: `OK` as a simple string, or an error for another number
/// of arguments than two or an argument that is no string.
pub open spec fn set_reply(args: Seq<Value>) -> Value {
    if args.len() != 2 {
        wrong_arity("set")
    } else if set_is_valid(args) {
        Value::Simple(text("OK"))
    } else {
        wrong_use("SET")
    }
}

/// What a store that held `entries` holds after SET: the value under the
/// key, and the rest as before. A SET that is answered by an error changes
/// nothing.
pub open spec fn set_entries(args: Seq<Value>, entries: Map<Seq<u8>, Seq<u8>>) -> Map<
    Seq<u8>,
    Seq<u8>,
> {
    if set_is_valid(args) {
        entries.insert(string_bytes(args[0]).unwrap(), string_bytes(args[1]).unwrap())
    } else {
        entries
    }
}

/// Performs SET on `db` and answers it.
pub fn cmd_set<D: MemoryDatabase>(args: &[Box<RESPv2Type>], db: &mut D) -> (reply: RESPv2Type)
    ensures
        reply@ == set_reply(models(args@)),
        final(db).entries() == set_entries(models(args@), old(db).entries()),
{
    if args.len() != 2 {
        return wrong_arity_reply("set");
    }
    match (as_string(&args[0]), as_string(&args[1])) {
        (Some(key), Some(value)) => {
            db.set(key.as_slice(), value.as_slice());
            let mut ok = Vec::new();
            write_bytes("OK".as_bytes(), &mut ok);
            assert(ok@ =~= text("OK"));
            RESPv2Type::String(ok)
        },
        _ => wrong_use_reply("SET"),
    }
}

} // verus!

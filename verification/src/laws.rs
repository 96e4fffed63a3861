use crate::cmd::name::{is_command, lemma_names_differ};
use crate::cmd::reply::{
    lemma_on_one_line_is_plain, lemma_plain_holds_no_terminator, lemma_plain_pieces,
    lemma_words_are_plain, on_one_line, string_bytes, text, wrong_arity,
};
use crate::respv2::primitives::Value;
use crate::respv2::roundtrip::{lemma_decode_wire, lemma_decoded_value, lemma_wire_is_not_empty};
use crate::respv2::serializer::wire;
use crate::server::{
    after_step, command_outcome, dispatch_outcome, is_request, next_step, serve, Served,
};
use vstd::prelude::*;

verus! {

/// The request that a client sends for `words`: a list of bulk strings, the
/// command's name at its front.
pub open spec fn request_of(words: Seq<Seq<u8>>) -> Value {
    Value::Array(Seq::new(words.len(), |i: int| Value::Bulk(words[i])))
}

/// Whatever the request and the store, the text of the reply holds no
/// terminator: every reply can be sent, and comes back from its encoding.
pub proof fn reply_is_clean(request: Value, entries: Map<Seq<u8>, Seq<u8>>)
    ensures
        dispatch_outcome(request, entries).reply.text_is_clean(),
{
    lemma_words_are_plain();
    let reply = dispatch_outcome(request, entries).reply;
    if is_request(request) {
        let items = request->Array_0;
        let name = string_bytes(items[0]).unwrap();
        lemma_on_one_line_is_plain(name);
        lemma_plain_pieces(text("unknown command '"), on_one_line(name), text("'"));
        lemma_plain_pieces(text("wrong number of arguments for '"), text("ping"), text("'"));
        lemma_plain_pieces(text("wrong number of arguments for '"), text("echo"), text("'"));
        lemma_plain_pieces(text("wrong number of arguments for '"), text("get"), text("'"));
        lemma_plain_pieces(text("wrong number of arguments for '"), text("set"), text("'"));
        lemma_plain_pieces(text("wrong number of arguments for '"), text("del"), text("'"));
        lemma_plain_pieces(text("Wrong use of "), text("PING"), text(" command."));
        lemma_plain_pieces(text("Wrong use of "), text("ECHO"), text(" command."));
        lemma_plain_pieces(text("Wrong use of "), text("GET"), text(" command."));
        lemma_plain_pieces(text("Wrong use of "), text("SET"), text(" command."));
        lemma_plain_pieces(text("Wrong use of "), text("DEL"), text(" command."));
        lemma_plain_holds_no_terminator(text("PONG"));
        lemma_plain_holds_no_terminator(text("OK"));
    } else {
        lemma_plain_holds_no_terminator(text("Invalid RESPv2 data received."));
    }
}

/// SET then GET: after a value was set under a key, GET of that key answers
/// the value, whatever bytes the key and the value hold, none at all too.
pub proof fn set_then_get(
    entries: Map<Seq<u8>, Seq<u8>>,
    set: Seq<u8>,
    get: Seq<u8>,
    key: Seq<u8>,
    value: Seq<u8>,
)
    requires
        is_command(set, "set"),
        is_command(get, "get"),
    ensures
        dispatch_outcome(request_of(seq![set, key, value]), entries).reply == Value::Simple(
            text("OK"),
        ),
        dispatch_outcome(
            request_of(seq![get, key]),
            dispatch_outcome(request_of(seq![set, key, value]), entries).entries,
        ).reply == Value::Bulk(value),
{
    lemma_names_differ();
    let stored = dispatch_outcome(request_of(seq![set, key, value]), entries);
    assert(stored.entries == entries.insert(key, value));
}

/// GET of a key that holds nothing answers the absent bulk string, and
/// changes nothing.
pub proof fn get_of_absent_key(entries: Map<Seq<u8>, Seq<u8>>, get: Seq<u8>, key: Seq<u8>)
    requires
        is_command(get, "get"),
        !entries.contains_key(key),
    ensures
        dispatch_outcome(request_of(seq![get, key]), entries).reply == Value::Null,
        dispatch_outcome(request_of(seq![get, key]), entries).entries == entries,
{
    lemma_names_differ();
}

/// DEL of a key answers 1 where the key held a value and 0 where it held
/// none; either way GET of that key then answers the absent bulk string.
pub proof fn del_then_get(
    entries: Map<Seq<u8>, Seq<u8>>,
    del: Seq<u8>,
    get: Seq<u8>,
    key: Seq<u8>,
)
    requires
        is_command(del, "del"),
        is_command(get, "get"),
    ensures
        entries.contains_key(key) ==> dispatch_outcome(
            request_of(seq![del, key]),
            entries,
        ).reply == Value::Integer(1),
        !entries.contains_key(key) ==> dispatch_outcome(
            request_of(seq![del, key]),
            entries,
        ).reply == Value::Integer(0),
        dispatch_outcome(
            request_of(seq![get, key]),
            dispatch_outcome(request_of(seq![del, key]), entries).entries,
        ).reply == Value::Null,
{
    lemma_names_differ();
    let deleted = dispatch_outcome(request_of(seq![del, key]), entries);
    assert(deleted.entries == entries.remove(key));
}

/// PING without an argument answers `PONG`; with one, it answers that
/// argument as a bulk string.
pub proof fn ping_answers(entries: Map<Seq<u8>, Seq<u8>>, ping: Seq<u8>, message: Seq<u8>)
    requires
        is_command(ping, "ping"),
    ensures
        dispatch_outcome(request_of(seq![ping]), entries).reply == Value::Simple(text("PONG")),
        dispatch_outcome(request_of(seq![ping, message]), entries).reply == Value::Bulk(message),
{
}

/// ECHO with one argument answers that argument as a bulk string; with none,
/// or with two or more, it answers an error.
pub proof fn echo_answers(entries: Map<Seq<u8>, Seq<u8>>, echo: Seq<u8>, words: Seq<Seq<u8>>)
    requires
        is_command(echo, "echo"),
    ensures
        words.len() == 1 ==> dispatch_outcome(request_of(seq![echo] + words), entries).reply
            == Value::Bulk(words[0]),
        words.len() != 1 ==> dispatch_outcome(request_of(seq![echo] + words), entries).reply
            == wrong_arity("echo"),
        dispatch_outcome(request_of(seq![echo] + words), entries).entries == entries,
{
    lemma_names_differ();
    let request = request_of(seq![echo] + words);
    let args = request->Array_0.skip(1);
    assert(args.len() == words.len());
    if words.len() == 1 {
        assert(args[0] == Value::Bulk(words[0]));
    }
}

/// Only SET and DEL change the store: a request under any other name, a
/// request of the wrong shape too, leaves the store as it was.
pub proof fn only_set_and_del_change_the_store(
    name: Seq<u8>,
    args: Seq<Value>,
    request: Value,
    entries: Map<Seq<u8>, Seq<u8>>,
)
    ensures
        !is_command(name, "set") && !is_command(name, "del") ==> command_outcome(
            name,
            args,
            entries,
        ).entries == entries,
        !is_request(request) ==> dispatch_outcome(request, entries).entries == entries,
{
}

/// What a store that held `entries` holds after a SET for each of `writes`,
/// a list of keys with their values, in the order of the list.
pub open spec fn after_sets(
    entries: Map<Seq<u8>, Seq<u8>>,
    set: Seq<u8>,
    writes: Seq<(Seq<u8>, Seq<u8>)>,
) -> Map<Seq<u8>, Seq<u8>>
    decreases writes.len(),
{
    if writes.len() == 0 {
        entries
    } else {
        dispatch_outcome(
            request_of(seq![set, writes.last().0, writes.last().1]),
            after_sets(entries, set, writes.drop_last()),
        ).entries
    }
}

/// No update is lost among keys that differ: after a SET for each of a list
/// of writes on distinct keys, GET of each key answers the value written
/// under it. The store performs one SET at a time, so SETs that connections
/// send at the same time are performed in some order; the list stands for
/// that order, whichever it is.
pub proof fn sets_of_distinct_keys(
    entries: Map<Seq<u8>, Seq<u8>>,
    set: Seq<u8>,
    get: Seq<u8>,
    writes: Seq<(Seq<u8>, Seq<u8>)>,
    i: int,
)
    requires
        is_command(set, "set"),
        is_command(get, "get"),
        forall|a: int, b: int|
            0 <= a < b < writes.len() ==> (#[trigger] writes[a]).0 != (#[trigger] writes[b]).0,
        0 <= i < writes.len(),
    ensures
        dispatch_outcome(request_of(seq![get, writes[i].0]), after_sets(entries, set, writes)).reply
            == Value::Bulk(writes[i].1),
    decreases writes.len(),
{
    lemma_names_differ();
    let last = writes.last();
    let earlier = writes.drop_last();
    let before = after_sets(entries, set, earlier);
    assert(after_sets(entries, set, writes) == before.insert(last.0, last.1));
    if i < writes.len() - 1 {
        assert(earlier[i] == writes[i]);
        assert forall|a: int, b: int| 0 <= a < b < earlier.len() implies (#[trigger] earlier[a]).0
            != (#[trigger] earlier[b]).0 by {
            assert(earlier[a] == writes[a]);
            assert(earlier[b] == writes[b]);
        }
        sets_of_distinct_keys(entries, set, get, earlier, i);
        assert(writes[i].0 != last.0);
    }
}

/// A request leaves the receive buffer with at least the three bytes of a
/// marker and a terminator, so serving a buffer comes to an end.
pub proof fn request_leaves_buffer(buffer: Seq<u8>)
    ensures
        next_step(buffer) is Request ==> after_step(buffer).len() + 3 <= buffer.len(),
{
    lemma_decoded_value(buffer);
}

/// End to end: serving a buffer that begins with the encoding of a request
/// sends the encoding of its reply, then what serving the bytes behind it
/// sends, on the store as the request left it.
pub proof fn serve_request_in_front(
    request: Value,
    more: Seq<u8>,
    entries: Map<Seq<u8>, Seq<u8>>,
)
    requires
        request.well_formed(),
    ensures
        serve(wire(request) + more, entries).output == wire(
            dispatch_outcome(request, entries).reply,
        ) + serve(more, dispatch_outcome(request, entries).entries).output,
        serve(wire(request) + more, entries).rest == serve(
            more,
            dispatch_outcome(request, entries).entries,
        ).rest,
        serve(wire(request) + more, entries).entries == serve(
            more,
            dispatch_outcome(request, entries).entries,
        ).entries,
{
    let buffer = wire(request) + more;
    lemma_decode_wire(request, more);
    lemma_wire_is_not_empty(request);
    assert(buffer.skip(wire(request).len() as int) =~= more);
}

/// Serving the encoding of one request sends the encoding of its reply, and
/// leaves nothing in the buffer.
pub proof fn serve_one_request(request: Value, entries: Map<Seq<u8>, Seq<u8>>)
    requires
        request.well_formed(),
    ensures
        serve(wire(request), entries) == (Served {
            output: wire(dispatch_outcome(request, entries).reply),
            rest: Seq::empty(),
            entries: dispatch_outcome(request, entries).entries,
        }),
{
    serve_request_in_front(request, Seq::empty(), entries);
    assert(wire(request) + Seq::<u8>::empty() =~= wire(request));
    let reply = wire(dispatch_outcome(request, entries).reply);
    assert(reply + Seq::<u8>::empty() =~= reply);
}

/// Serving leaves nothing to serve: what stays in the buffer is empty or the
/// beginning of a request, and serving it again sends nothing and changes
/// nothing.
pub proof fn serve_leaves_nothing_to_serve(buffer: Seq<u8>, entries: Map<Seq<u8>, Seq<u8>>)
    ensures
        next_step(serve(buffer, entries).rest) is NeedMore,
        serve(serve(buffer, entries).rest, serve(buffer, entries).entries) == (Served {
            output: Seq::empty(),
            rest: serve(buffer, entries).rest,
            entries: serve(buffer, entries).entries,
        }),
    decreases buffer.len(),
{
    request_leaves_buffer(buffer);
    if next_step(buffer) is Request {
        let request = next_step(buffer)->Request_0;
        serve_leaves_nothing_to_serve(
            after_step(buffer),
            dispatch_outcome(request, entries).entries,
        );
    }
}

} // verus!

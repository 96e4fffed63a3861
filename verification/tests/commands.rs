use redis_starter_rust::cmd::name::{names, to_lowercase_byte};
use redis_starter_rust::cmd::reply::{
    as_string, error_around, fault_reply_of, invalid_request_reply, unknown_command_reply,
    wrong_arity_reply, wrong_use_reply, write_on_one_line,
};
use redis_starter_rust::cmd::{cmd_del, cmd_echo, cmd_get, cmd_ping, cmd_set};
use redis_starter_rust::db::MemoryDatabase;
use redis_starter_rust::mem_db::MemDB;
use redis_starter_rust::respv2::{RESPv2Error, RESPv2Type};
use redis_starter_rust::server::Redis;

fn bulk(text: &str) -> RESPv2Type {
    RESPv2Type::Bulk(text.as_bytes().to_vec())
}

fn simple(text: &str) -> RESPv2Type {
    RESPv2Type::String(text.as_bytes().to_vec())
}

fn error(text: &str) -> RESPv2Type {
    RESPv2Type::Error(text.as_bytes().to_vec())
}

fn list(items: Vec<RESPv2Type>) -> Vec<Box<RESPv2Type>> {
    items.into_iter().map(Box::new).collect()
}

fn request(words: &[&str]) -> RESPv2Type {
    RESPv2Type::Array(list(words.iter().map(|word| bulk(word)).collect()))
}

#[test]
fn ping_without_argument_answers_pong() {
    let mut db = MemDB::new();

    assert_eq!(Redis::dispatch(&request(&["PING"]), &mut db), simple("PONG"));
    assert_eq!(cmd_ping(&[]), simple("PONG"));
}

#[test]
fn ping_with_argument_answers_the_argument() {
    let mut db = MemDB::new();

    assert_eq!(Redis::dispatch(&request(&["PING", "hi"]), &mut db), bulk("hi"));
    assert_eq!(cmd_ping(&list(vec![simple("hi")])), bulk("hi"));
    assert_eq!(cmd_ping(&list(vec![bulk("")])), bulk(""));
}

#[test]
fn ping_with_two_arguments_is_an_error() {
    let mut db = MemDB::new();

    assert_eq!(
        Redis::dispatch(&request(&["PING", "a", "b"]), &mut db),
        error("wrong number of arguments for 'ping'")
    );
}

#[test]
fn ping_with_an_argument_that_is_no_string_is_an_error() {
    assert_eq!(
        cmd_ping(&list(vec![RESPv2Type::Number(5)])),
        error("Wrong use of PING command.")
    );
}

#[test]
fn echo_answers_its_argument() {
    let mut db = MemDB::new();

    assert_eq!(Redis::dispatch(&request(&["ECHO", "x"]), &mut db), bulk("x"));
    assert_eq!(cmd_echo(&list(vec![simple("x")])), bulk("x"));
    assert_eq!(
        cmd_echo(&list(vec![RESPv2Type::Bulk(vec![13, 10, 0])])),
        RESPv2Type::Bulk(vec![13, 10, 0])
    );
}

#[test]
fn echo_without_argument_or_with_several_is_an_error() {
    let mut db = MemDB::new();
    let expected = error("wrong number of arguments for 'echo'");

    assert_eq!(Redis::dispatch(&request(&["ECHO"]), &mut db), expected);
    assert_eq!(Redis::dispatch(&request(&["ECHO", "a", "b"]), &mut db), expected);
    assert_eq!(
        Redis::dispatch(&request(&["echo", "a", "b", "c"]), &mut db),
        expected
    );
    assert_eq!(cmd_echo(&[]), expected);
}

#[test]
fn echo_of_what_is_no_string_is_an_error() {
    let expected = error("Wrong use of ECHO command.");

    assert_eq!(cmd_echo(&list(vec![RESPv2Type::Number(5)])), expected);
    assert_eq!(cmd_echo(&list(vec![RESPv2Type::Null])), expected);
    assert_eq!(cmd_echo(&list(vec![RESPv2Type::Array(vec![])])), expected);
    assert_eq!(cmd_echo(&list(vec![error("x")])), expected);
}

#[test]
fn get_of_absent_key_answers_null() {
    let mut db = MemDB::new();

    assert_eq!(
        Redis::dispatch(&request(&["GET", "foo"]), &mut db),
        RESPv2Type::Null
    );
    assert_eq!(cmd_get(&list(vec![bulk("foo")]), &db), RESPv2Type::Null);
}

#[test]
fn set_then_get_answers_the_value() {
    let mut db = MemDB::new();

    assert_eq!(
        Redis::dispatch(&request(&["SET", "foo", "bar"]), &mut db),
        simple("OK")
    );
    assert_eq!(Redis::dispatch(&request(&["GET", "foo"]), &mut db), bulk("bar"));
    assert_eq!(db.get(b"foo"), Some(b"bar".to_vec()));
}

#[test]
fn set_then_get_with_empty_key_and_value() {
    let mut db = MemDB::new();

    assert_eq!(
        Redis::dispatch(&request(&["SET", "", ""]), &mut db),
        simple("OK")
    );
    assert_eq!(Redis::dispatch(&request(&["GET", ""]), &mut db), bulk(""));
}

#[test]
fn set_then_get_with_binary_key_and_value() {
    let mut db = MemDB::new();
    let key = RESPv2Type::Bulk(vec![0, 13, 10, 200]);
    let value = RESPv2Type::Bulk(vec![13, 10, 13, 10, 0]);
    let set = RESPv2Type::Array(list(vec![
        bulk("SET"),
        RESPv2Type::Bulk(vec![0, 13, 10, 200]),
        RESPv2Type::Bulk(vec![13, 10, 13, 10, 0]),
    ]));
    let get = RESPv2Type::Array(list(vec![bulk("GET"), key]));

    assert_eq!(Redis::dispatch(&set, &mut db), simple("OK"));
    assert_eq!(Redis::dispatch(&get, &mut db), value);
}

#[test]
fn set_overwrites() {
    let mut db = MemDB::new();
    Redis::dispatch(&request(&["SET", "foo", "one"]), &mut db);
    Redis::dispatch(&request(&["SET", "foo", "two"]), &mut db);

    assert_eq!(Redis::dispatch(&request(&["GET", "foo"]), &mut db), bulk("two"));
}

#[test]
fn del_answers_whether_the_key_held_a_value() {
    let mut db = MemDB::new();
    Redis::dispatch(&request(&["SET", "foo", "bar"]), &mut db);

    assert_eq!(
        Redis::dispatch(&request(&["DEL", "foo"]), &mut db),
        RESPv2Type::Number(1)
    );
    assert_eq!(
        Redis::dispatch(&request(&["GET", "foo"]), &mut db),
        RESPv2Type::Null
    );
    assert_eq!(
        Redis::dispatch(&request(&["DEL", "foo"]), &mut db),
        RESPv2Type::Number(0)
    );
    assert_eq!(
        cmd_del(&list(vec![bulk("never")]), &mut db),
        RESPv2Type::Number(0)
    );
}

#[test]
fn wrong_arity_is_an_error_and_changes_nothing() {
    let mut db = MemDB::new();
    db.set(b"foo", b"bar");

    assert_eq!(
        Redis::dispatch(&request(&["GET"]), &mut db),
        error("wrong number of arguments for 'get'")
    );
    assert_eq!(
        Redis::dispatch(&request(&["GET", "a", "b"]), &mut db),
        error("wrong number of arguments for 'get'")
    );
    assert_eq!(
        Redis::dispatch(&request(&["SET", "foo"]), &mut db),
        error("wrong number of arguments for 'set'")
    );
    assert_eq!(
        Redis::dispatch(&request(&["SET", "foo", "x", "y"]), &mut db),
        error("wrong number of arguments for 'set'")
    );
    assert_eq!(
        Redis::dispatch(&request(&["DEL"]), &mut db),
        error("wrong number of arguments for 'del'")
    );
    assert_eq!(
        Redis::dispatch(&request(&["DEL", "foo", "x"]), &mut db),
        error("wrong number of arguments for 'del'")
    );
    assert_eq!(db.get(b"foo"), Some(b"bar".to_vec()));
}

#[test]
fn argument_that_is_no_string_is_an_error_and_changes_nothing() {
    let mut db = MemDB::new();
    db.set(b"foo", b"bar");

    assert_eq!(
        cmd_get(&list(vec![RESPv2Type::Number(1)]), &db),
        error("Wrong use of GET command.")
    );
    assert_eq!(
        cmd_set(&list(vec![bulk("foo"), RESPv2Type::Number(1)]), &mut db),
        error("Wrong use of SET command.")
    );
    assert_eq!(
        cmd_set(&list(vec![RESPv2Type::Null, bulk("x")]), &mut db),
        error("Wrong use of SET command.")
    );
    assert_eq!(
        cmd_del(&list(vec![RESPv2Type::NullArray]), &mut db),
        error("Wrong use of DEL command.")
    );
    assert_eq!(db.get(b"foo"), Some(b"bar".to_vec()));
}

#[test]
fn command_name_is_matched_in_any_case() {
    let mut db = MemDB::new();

    assert_eq!(Redis::dispatch(&request(&["ping"]), &mut db), simple("PONG"));
    assert_eq!(Redis::dispatch(&request(&["PiNg"]), &mut db), simple("PONG"));
    assert_eq!(Redis::dispatch(&request(&["eChO", "x"]), &mut db), bulk("x"));
    assert_eq!(
        Redis::dispatch(&request(&["sEt", "k", "v"]), &mut db),
        simple("OK")
    );
    assert_eq!(Redis::dispatch(&request(&["Get", "k"]), &mut db), bulk("v"));
    assert_eq!(
        Redis::dispatch(&request(&["dEL", "k"]), &mut db),
        RESPv2Type::Number(1)
    );
}

#[test]
fn command_name_may_be_a_simple_string() {
    let mut db = MemDB::new();
    let ping = RESPv2Type::Array(list(vec![simple("PING")]));
    let set = RESPv2Type::Array(list(vec![simple("SET"), simple("k"), bulk("v")]));
    let get = RESPv2Type::Array(list(vec![bulk("GET"), simple("k")]));

    assert_eq!(Redis::dispatch(&ping, &mut db), simple("PONG"));
    assert_eq!(Redis::dispatch(&set, &mut db), simple("OK"));
    assert_eq!(Redis::dispatch(&get, &mut db), bulk("v"));
}

#[test]
fn unknown_command_is_an_error_that_names_it() {
    let mut db = MemDB::new();

    assert_eq!(
        Redis::dispatch(&request(&["FOO", "a"]), &mut db),
        error("unknown command 'FOO'")
    );
    assert_eq!(
        Redis::dispatch(&request(&[""]), &mut db),
        error("unknown command ''")
    );
    assert_eq!(
        Redis::dispatch(&request(&["pin"]), &mut db),
        error("unknown command 'pin'")
    );
    assert_eq!(
        Redis::dispatch(&request(&["pingg"]), &mut db),
        error("unknown command 'pingg'")
    );
    assert_eq!(
        Redis::dispatch(&request(&["p\u{131}ng"]), &mut db),
        error("unknown command 'p\u{131}ng'")
    );
}

#[test]
fn unknown_command_with_a_terminator_in_its_name_stays_on_one_line() {
    let mut db = MemDB::new();

    assert_eq!(
        Redis::dispatch(&request(&["a\r\nb\rc\nd"]), &mut db),
        error("unknown command 'a  b c d'")
    );
}

#[test]
fn empty_list_is_an_error() {
    let mut db = MemDB::new();

    assert_eq!(
        Redis::dispatch(&RESPv2Type::Array(vec![]), &mut db),
        error("Invalid RESPv2 data received.")
    );
}

#[test]
fn request_of_another_shape_is_an_error() {
    let mut db = MemDB::new();
    let expected = error("Invalid RESPv2 data received.");

    assert_eq!(Redis::dispatch(&simple("PING"), &mut db), expected);
    assert_eq!(Redis::dispatch(&bulk("PING"), &mut db), expected);
    assert_eq!(Redis::dispatch(&RESPv2Type::Number(1), &mut db), expected);
    assert_eq!(Redis::dispatch(&RESPv2Type::Null, &mut db), expected);
    assert_eq!(Redis::dispatch(&RESPv2Type::NullArray, &mut db), expected);
    assert_eq!(Redis::dispatch(&error("x"), &mut db), expected);
    assert_eq!(
        Redis::dispatch(
            &RESPv2Type::Array(list(vec![RESPv2Type::Number(1), bulk("PING")])),
            &mut db
        ),
        expected
    );
    assert_eq!(
        Redis::dispatch(
            &RESPv2Type::Array(list(vec![RESPv2Type::Array(list(vec![bulk("PING")]))])),
            &mut db
        ),
        expected
    );
}

#[test]
fn command_handler_takes_name_and_arguments() {
    let mut db = MemDB::new();

    assert_eq!(
        Redis::command_handler(b"SET", &list(vec![bulk("k"), bulk("v")]), &mut db),
        simple("OK")
    );
    assert_eq!(
        Redis::command_handler(b"get", &list(vec![bulk("k")]), &mut db),
        bulk("v")
    );
    assert_eq!(
        Redis::command_handler(b"nope", &[], &mut db),
        error("unknown command 'nope'")
    );
}

#[test]
fn names_are_compared_without_case() {
    assert!(names(b"PING", "ping"));
    assert!(names(b"ping", "ping"));
    assert!(names(b"pInG", "ping"));
    assert!(!names(b"pin", "ping"));
    assert!(!names(b"pingg", "ping"));
    assert!(!names(b"pong", "ping"));
    assert!(!names(b"", "ping"));
    assert!(names(b"", ""));
    assert!(!names(b"PING", "PING"));
    assert_eq!(to_lowercase_byte(b'A'), b'a');
    assert_eq!(to_lowercase_byte(b'Z'), b'z');
    assert_eq!(to_lowercase_byte(b'a'), b'a');
    assert_eq!(to_lowercase_byte(b'@'), b'@');
    assert_eq!(to_lowercase_byte(b'['), b'[');
    assert_eq!(to_lowercase_byte(0), 0);
    assert_eq!(to_lowercase_byte(255), 255);
}

#[test]
fn replies_for_errors() {
    assert_eq!(
        wrong_arity_reply("echo"),
        error("wrong number of arguments for 'echo'")
    );
    assert_eq!(wrong_use_reply("ECHO"), error("Wrong use of ECHO command."));
    assert_eq!(unknown_command_reply(b"x\ny"), error("unknown command 'x y'"));
    assert_eq!(invalid_request_reply(), error("Invalid RESPv2 data received."));
    assert_eq!(error_around("<", b"mid", ">"), error("<mid>"));
}

#[test]
fn replies_for_bytes_that_could_not_be_decoded() {
    assert_eq!(
        fault_reply_of(&RESPv2Error::InvalidCommand(vec![b'!'])),
        error("ERR InvalidCommand '!'")
    );
    assert_eq!(
        fault_reply_of(&RESPv2Error::InvalidData(vec![b'\r', b'X'])),
        error("ERR InvalidData ' X'")
    );
    assert_eq!(
        fault_reply_of(&RESPv2Error::InvalidLength(vec![])),
        error("ERR InvalidLength ''")
    );
    assert_eq!(
        fault_reply_of(&RESPv2Error::InvalidType(b"12a".to_vec())),
        error("ERR InvalidType '12a'")
    );
}

#[test]
fn strings_of_a_request() {
    assert_eq!(as_string(&simple("a")), Some(&b"a".to_vec()));
    assert_eq!(as_string(&bulk("b")), Some(&b"b".to_vec()));
    assert_eq!(as_string(&error("c")), None);
    assert_eq!(as_string(&RESPv2Type::Number(1)), None);
    assert_eq!(as_string(&RESPv2Type::Null), None);
    assert_eq!(as_string(&RESPv2Type::NullArray), None);
    assert_eq!(as_string(&RESPv2Type::Array(vec![])), None);
}

#[test]
fn bytes_of_the_terminator_become_spaces() {
    let mut out = b">".to_vec();
    write_on_one_line(b"a\r\nb\n\rc", &mut out);

    assert_eq!(out, b">a  b  c");
}

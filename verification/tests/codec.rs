use redis_starter_rust::respv2::{
    ParseOutcome, Parser, RESPv2Parser, RESPv2Type, Serialize, SerializeBulk, SerializeError,
};

#[test]
fn respv2_parser_string() {
    let data = String::from("+OK\r\n");
    let result = data.try_parse_to_respv2();

    assert_eq!(
        result,
        ParseOutcome::Parsed(RESPv2Type::String(String::from("OK").into_bytes()), 5)
    );
}

#[test]
fn respv2_parser_integer() {
    let data = String::from(":1000\r\n");
    let result = RESPv2Parser::parse(data.as_bytes());

    assert_eq!(result, ParseOutcome::Parsed(RESPv2Type::Number(1000), 7));
}

#[test]
fn respv2_parser_error() {
    let data = String::from("-ERR unknown command\r\n");
    let result = RESPv2Parser::parse(data.as_bytes());

    assert_eq!(
        result,
        ParseOutcome::Parsed(
            RESPv2Type::Error(String::from("ERR unknown command").into_bytes()),
            22
        )
    );
}

#[test]
fn respv2_parser_bulk_string() {
    let data = String::from("$6\r\nfoobar\r\n");
    let result = RESPv2Parser::parse(data.as_bytes());

    assert_eq!(
        result,
        ParseOutcome::Parsed(RESPv2Type::Bulk(String::from("foobar").into_bytes()), 12)
    );
}

#[test]
fn respv2_parser_null_bulk_string() {
    let data = String::from("$-1\r\n");
    let result = RESPv2Parser::parse(data.as_bytes());

    assert_eq!(result, ParseOutcome::Parsed(RESPv2Type::Null, 5));
}

#[test]
fn respv2_parser_empty_bulk_string() {
    let data = String::from("$0\r\n\r\n");
    let result = RESPv2Parser::parse(data.as_bytes());

    assert_eq!(
        result,
        ParseOutcome::Parsed(RESPv2Type::Bulk(String::from("").into_bytes()), 6)
    );
}

#[test]
fn respv2_parser_array() {
    let data = String::from("*2\r\n$3\r\nfoo\r\n$3\r\nbar\r\n");
    let result = RESPv2Parser::parse(data.as_bytes());

    assert_eq!(
        result,
        ParseOutcome::Parsed(
            RESPv2Type::Array(vec![
                Box::new(RESPv2Type::Bulk(String::from("foo").into_bytes())),
                Box::new(RESPv2Type::Bulk(String::from("bar").into_bytes())),
            ]),
            22
        )
    );
}

#[test]
fn respv2_parser_null_array() {
    let data = String::from("*-1\r\n");
    let result = RESPv2Parser::parse(data.as_bytes());

    assert_eq!(result, ParseOutcome::Parsed(RESPv2Type::NullArray, 5));
}

#[test]
fn respv2_parser_empty_array() {
    let data = String::from("*0\r\n");
    let result = RESPv2Parser::parse(data.as_bytes());

    assert_eq!(result, ParseOutcome::Parsed(RESPv2Type::Array(vec![]), 4));
}

#[test]
fn respv2_parser_invalid_data() {
    let data = String::from("$\r\n");
    let result = RESPv2Parser::parse(data.as_bytes());

    match result {
        ParseOutcome::Error(error) => assert!(error.to_string() == "InvalidLength"),
        other => panic!("not an error: {:?}", other),
    }
}

#[test]
fn respv2_parser_invalid_command() {
    let data = String::from("!\r\n");
    let result = RESPv2Parser::parse(data.as_bytes());

    match result {
        ParseOutcome::Error(error) => assert!(error.to_string() == "InvalidCommand"),
        other => panic!("not an error: {:?}", other),
    }
}

#[test]
fn respv2_serializer_string() {
    let data = String::from("OK");
    let result = data.serialize_to_respv2();

    assert_eq!(result, "+OK\r\n".as_bytes());
}

#[test]
fn respv2_serializer_integer() {
    let data = 1000;
    let result = data.serialize_to_respv2();

    assert_eq!(result, ":1000\r\n".as_bytes());
}

#[test]
fn respv2_serializer_error() {
    let data = String::from("ERR unknown command");
    let result = data.serialize_error_to_respv2();

    assert_eq!(result, "-ERR unknown command\r\n".as_bytes());
}

#[test]
fn respv2_serializer_bulk_string() {
    let data = String::from("foobar");
    let result = data.serialize_bulk_to_respv2();

    assert_eq!(result, "$6\r\nfoobar\r\n".as_bytes());
}

#[test]
fn respv2_serializer_null_bulk_string() {
    let data = String::from("");
    let result = data.serialize_bulk_to_respv2();

    assert_eq!(result, "$0\r\n\r\n".as_bytes());
}

#[test]
fn respv2_serializer_array() {
    let data = vec![
        Box::new(RESPv2Type::Bulk(String::from("foo").into_bytes())),
        Box::new(RESPv2Type::Bulk(String::from("bar").into_bytes())),
    ];
    let result = data.serialize_to_respv2();

    assert_eq!(result, "*2\r\n$3\r\nfoo\r\n$3\r\nbar\r\n".as_bytes());
}

#[test]
fn respv2_serializer_null_array() {
    let data: Vec<Box<RESPv2Type>> = vec![];
    let result = data.serialize_to_respv2();

    assert_eq!(result, "*0\r\n".as_bytes());
}

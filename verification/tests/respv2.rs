use redis_starter_rust::respv2::{ParseOutcome, RESPv2Parser, RESPv2Types};

#[test]
fn test_respv2_parser_string() {
    let data = String::from("+OK\r\n");
    let result = RESPv2Parser::parse(data.as_bytes());

    assert_eq!(
        result,
        ParseOutcome::Parsed(RESPv2Types::String(String::from("OK").into_bytes()), 5)
    );
}

#[test]
fn test_respv2_parser_integer() {
    let data = String::from(":1000\r\n");
    let result = RESPv2Parser::parse(data.as_bytes());

    assert_eq!(result, ParseOutcome::Parsed(RESPv2Types::Number(1000), 7));
}

#[test]
fn test_respv2_parser_error() {
    let data = String::from("-ERR unknown command\r\n");
    let result = RESPv2Parser::parse(data.as_bytes());

    assert_eq!(
        result,
        ParseOutcome::Parsed(
            RESPv2Types::Error(String::from("ERR unknown command").into_bytes()),
            22
        )
    );
}

#[test]
fn test_respv2_parser_bulk_string() {
    let data = String::from("$6\r\nfoobar\r\n");
    let result = RESPv2Parser::parse(data.as_bytes());

    assert_eq!(
        result,
        ParseOutcome::Parsed(RESPv2Types::Bulk(String::from("foobar").into_bytes()), 12)
    );
}

#[test]
fn test_respv2_parser_null_bulk_string() {
    let data = String::from("$-1\r\n");
    let result = RESPv2Parser::parse(data.as_bytes());

    assert_eq!(result, ParseOutcome::Parsed(RESPv2Types::Null, 5));
}

#[test]
fn test_respv2_parser_empty_bulk_string() {
    let data = String::from("$0\r\n\r\n");
    let result = RESPv2Parser::parse(data.as_bytes());

    assert_eq!(
        result,
        ParseOutcome::Parsed(RESPv2Types::Bulk(String::from("").into_bytes()), 6)
    );
}

#[test]
fn test_respv2_parser_array() {
    let data = String::from("*2\r\n$3\r\nfoo\r\n$3\r\nbar\r\n");
    let result = RESPv2Parser::parse(data.as_bytes());

    assert_eq!(
        result,
        ParseOutcome::Parsed(
            RESPv2Types::Array(vec![
                Box::new(RESPv2Types::Bulk(String::from("foo").into_bytes())),
                Box::new(RESPv2Types::Bulk(String::from("bar").into_bytes())),
            ]),
            22
        )
    );
}

#[test]
fn test_respv2_parser_null_array() {
    let data = String::from("*-1\r\n");
    let result = RESPv2Parser::parse(data.as_bytes());

    assert_eq!(result, ParseOutcome::Parsed(RESPv2Types::NullArray, 5));
}

#[test]
fn test_respv2_parser_empty_array() {
    let data = String::from("*0\r\n");
    let result = RESPv2Parser::parse(data.as_bytes());

    assert_eq!(result, ParseOutcome::Parsed(RESPv2Types::Array(vec![]), 4));
}

#[test]
fn test_respv2_parser_invalid_data() {
    let data = String::from("$\r\n");
    let result = RESPv2Parser::parse(data.as_bytes());

    match result {
        ParseOutcome::Error(error) => assert!(error.to_string() == "InvalidLength"),
        other => panic!("not an error: {:?}", other),
    }
}

#[test]
fn test_respv2_parser_invalid_command() {
    let data = String::from("!\r\n");
    let result = RESPv2Parser::parse(data.as_bytes());

    match result {
        ParseOutcome::Error(error) => assert!(error.to_string() == "InvalidCommand"),
        other => panic!("not an error: {:?}", other),
    }
}

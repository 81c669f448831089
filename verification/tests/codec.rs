use kvline::codec::{decode, encode, encode_error, Command, Outcome, ProtocolError};
use kvline::usize_to_string;

#[test]
fn decode_set_three_tokens() {
    match decode("set color blue") {
        Ok(Command::Put(k, v)) => {
            assert_eq!(k, "color");
            assert_eq!(v, "blue");
        }
        _ => panic!("expected a put"),
    }
}

#[test]
fn decode_set_rejoins_value_with_single_spaces() {
    match decode("set motto    to  the   point") {
        Ok(Command::Put(k, v)) => {
            assert_eq!(k, "motto");
            assert_eq!(v, "to the point");
        }
        _ => panic!("expected a put"),
    }
}

#[test]
fn decode_accepts_upper_case_verbs() {
    match decode("SET k v") {
        Ok(Command::Put(k, v)) => {
            assert_eq!(k, "k");
            assert_eq!(v, "v");
        }
        _ => panic!("expected a put"),
    }
    match decode("GET k") {
        Ok(Command::Get(k)) => assert_eq!(k, "k"),
        _ => panic!("expected a get"),
    }
}

#[test]
fn decode_get_two_tokens() {
    match decode("get color\r\n") {
        Ok(Command::Get(k)) => assert_eq!(k, "color"),
        _ => panic!("expected a get"),
    }
}

#[test]
fn decode_ignores_surrounding_whitespace() {
    match decode("   get \t color  \r\n") {
        Ok(Command::Get(k)) => assert_eq!(k, "color"),
        _ => panic!("expected a get"),
    }
}

#[test]
fn decode_set_with_two_tokens_is_malformed() {
    match decode("SET onlykey") {
        Err(ProtocolError::Malformed(m)) => {
            assert_eq!(m, "set: expected min 3 parts but received 2");
        }
        _ => panic!("expected a malformed-request error"),
    }
}

#[test]
fn decode_get_with_three_tokens_is_malformed() {
    match decode("GET a b") {
        Err(ProtocolError::Malformed(m)) => {
            assert_eq!(m, "get: expected 2 parts but received 3");
        }
        _ => panic!("expected a malformed-request error"),
    }
}

#[test]
fn decode_reports_a_two_digit_token_count() {
    match decode("get a b c d e f g h i j k") {
        Err(ProtocolError::Malformed(m)) => {
            assert_eq!(m, "get: expected 2 parts but received 12");
        }
        _ => panic!("expected a malformed-request error"),
    }
}

#[test]
fn decode_set_with_trailing_space_only_is_still_two_tokens() {
    match decode("set onlykey \r\n") {
        Err(ProtocolError::Malformed(m)) => {
            assert_eq!(m, "set: expected min 3 parts but received 2");
        }
        _ => panic!("expected a malformed-request error"),
    }
}

#[test]
fn decode_unknown_verb() {
    match decode("del color") {
        Err(ProtocolError::UnknownVerb(v)) => assert_eq!(v, "del"),
        _ => panic!("expected an unknown-verb error"),
    }
}

#[test]
fn decode_empty_line_is_malformed() {
    match decode("") {
        Err(ProtocolError::Malformed(m)) => assert_eq!(m, "empty request"),
        _ => panic!("expected a malformed-request error"),
    }
}

#[test]
fn decode_whitespace_only_line_is_malformed() {
    match decode(" \t \r\n") {
        Err(ProtocolError::Malformed(m)) => assert_eq!(m, "empty request"),
        _ => panic!("expected a malformed-request error"),
    }
}

#[test]
fn encode_done() {
    assert_eq!(encode(&Outcome::Done), "response: ok\r\n");
}

#[test]
fn encode_value() {
    assert_eq!(
        encode(&Outcome::Value(String::from("blue"))),
        "response: value blue\r\n"
    );
}

#[test]
fn encode_not_found() {
    assert_eq!(
        encode(&Outcome::NotFound(String::from("color"))),
        "response: not-found color\r\n"
    );
}

#[test]
fn encode_error_lines() {
    assert_eq!(
        encode_error(&ProtocolError::Malformed(String::from("empty request"))),
        "bad request - empty request\r\n"
    );
    assert_eq!(
        encode_error(&ProtocolError::UnknownVerb(String::from("del"))),
        "bad request - unknown verb: del\r\n"
    );
}

#[test]
fn renders_decimal_numbers() {
    assert_eq!(usize_to_string(0), "0");
    assert_eq!(usize_to_string(7), "7");
    assert_eq!(usize_to_string(10), "10");
    assert_eq!(usize_to_string(907), "907");
    assert_eq!(usize_to_string(120034), "120034");
}

use minicache::parse::{parse_request, parse_request_bytes, str_eq, tokenize, Action, ParseFail, Request};
use minicache::response::{dec_string, failure_response, miss_response, write_response};

#[test]
fn tokenize_splits_on_whitespace() {
    let toks = tokenize("  set  key\t1 0\r\n");
    assert_eq!(
        toks,
        vec![
            String::from("set"),
            String::from("key"),
            String::from("1"),
            String::from("0")
        ]
    );
    assert!(tokenize("   \r\n").is_empty());
}

#[test]
fn tokenize_splits_on_unicode_whitespace() {
    let toks = tokenize("get\u{A0}foo\u{2003}bar");
    assert_eq!(
        toks,
        vec![String::from("get"), String::from("foo"), String::from("bar")]
    );
}

#[test]
fn str_eq_compares_characters() {
    assert!(str_eq("noreply", "noreply"));
    assert!(!str_eq("noreply", "norePly"));
    assert!(!str_eq("no", "noreply"));
}

#[test]
fn parse_get_request() {
    match parse_request("get foo\r\n") {
        Ok(Request::Get { key }) => assert_eq!(key, "foo"),
        _ => panic!("expected a get request"),
    }
}

#[test]
fn parse_set_request() {
    match parse_request("set foo 123 -1 5\r\n") {
        Ok(Request::Write { action, key, flags, exptime, byte_count, noreply }) => {
            assert_eq!(action, Action::SetCmd);
            assert_eq!(key, "foo");
            assert_eq!(flags, 123);
            assert_eq!(exptime, -1);
            assert_eq!(byte_count, 5);
            assert!(!noreply);
        }
        _ => panic!("expected a write request"),
    }
}

#[test]
fn parse_noreply_flag() {
    match parse_request("add k 0 0 2 noreply") {
        Ok(Request::Write { action, noreply, .. }) => {
            assert_eq!(action, Action::AddCmd);
            assert!(noreply);
        }
        _ => panic!("expected a write request"),
    }
    match parse_request("add k 0 0 2 nope") {
        Ok(Request::Write { noreply, .. }) => assert!(!noreply),
        _ => panic!("expected a write request"),
    }
}

#[test]
fn parse_all_write_actions() {
    let lines = [
        ("set k 0 0 1", Action::SetCmd),
        ("add k 0 0 1", Action::AddCmd),
        ("replace k 0 0 1", Action::ReplaceCmd),
        ("append k 0 0 1", Action::AppendCmd),
        ("prepend k 0 0 1", Action::PrependCmd),
    ];
    for (line, expected) in lines {
        match parse_request(line) {
            Ok(Request::Write { action, .. }) => assert_eq!(action, expected),
            _ => panic!("expected a write request for {line}"),
        }
    }
}

#[test]
fn parse_signed_and_plus_tokens() {
    match parse_request("set k +12 +30 7") {
        Ok(Request::Write { flags, exptime, byte_count, .. }) => {
            assert_eq!(flags, 12);
            assert_eq!(exptime, 30);
            assert_eq!(byte_count, 7);
        }
        _ => panic!("expected a write request"),
    }
}

#[test]
fn parse_empty_line() {
    match parse_request("   ") {
        Err(ParseFail::Empty) => {}
        _ => panic!("expected an empty-line failure"),
    }
    assert_eq!(failure_response(&ParseFail::Empty), "ERROR empty command\r\n");
}

#[test]
fn parse_unknown_action() {
    match parse_request("delete foo") {
        Err(ParseFail::Unknown { action }) => {
            assert_eq!(action, "delete");
            let line = failure_response(&ParseFail::Unknown { action });
            assert_eq!(line, "HTTP/1.1 500 ERR\r\nNot a valid command: delete\r\n");
        }
        _ => panic!("expected an unknown-action failure"),
    }
}

#[test]
fn parse_missing_arguments() {
    match parse_request("get") {
        Err(ParseFail::MissingArgument { action }) => assert_eq!(action, "get"),
        _ => panic!("expected a missing-argument failure"),
    }
    match parse_request("set k 1 0") {
        Err(ParseFail::MissingArgument { action }) => {
            assert_eq!(action, "set");
            let line = failure_response(&ParseFail::MissingArgument { action });
            assert_eq!(line, "ERROR set is missing arguments\r\n");
        }
        _ => panic!("expected a missing-argument failure"),
    }
}

#[test]
fn parse_bad_numbers() {
    match parse_request("set k abc 0 5") {
        Err(ParseFail::BadNumber { token }) => {
            assert_eq!(token, "abc");
            let line = failure_response(&ParseFail::BadNumber { token });
            assert_eq!(line, "ERROR not a number: abc\r\n");
        }
        _ => panic!("expected a bad-number failure"),
    }
    // flags above the 16-bit range
    match parse_request("set k 70000 0 5") {
        Err(ParseFail::BadNumber { token }) => assert_eq!(token, "70000"),
        _ => panic!("expected a bad-number failure"),
    }
    // exptime must be a number
    match parse_request("set k 1 -- 5") {
        Err(ParseFail::BadNumber { token }) => assert_eq!(token, "--"),
        _ => panic!("expected a bad-number failure"),
    }
    // byte count must not be negative
    match parse_request("set k 1 0 -5") {
        Err(ParseFail::BadNumber { token }) => assert_eq!(token, "-5"),
        _ => panic!("expected a bad-number failure"),
    }
}

#[test]
fn parse_from_raw_bytes() {
    match parse_request_bytes(b"get foo\r\n") {
        Ok(Request::Get { key }) => assert_eq!(key, "foo"),
        _ => panic!("expected a get request"),
    }
}

#[test]
fn response_lines() {
    assert_eq!(write_response(true), "STORED\r\n");
    assert_eq!(write_response(false), "NOT_STORED\r\n");
    assert_eq!(miss_response(), "END\r\n");
}

#[test]
fn decimal_text() {
    assert_eq!(dec_string(0), "0");
    assert_eq!(dec_string(7), "7");
    assert_eq!(dec_string(327), "327");
    assert_eq!(dec_string(65535), "65535");
}

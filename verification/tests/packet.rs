use wc_gen::packet::{decimal_text, is_whitespace, read_packet, serialize_packet, Packet};

#[test]
fn serialize_packet_returns_value() {
    let string = r#"Hello World!"#;
    let result = serialize_packet(string);
    assert_eq!(result, "Content-Length: 12\r\n\r\nHello World!".to_string());
}

#[test]
fn read_packet_returns_err_if_no_content_length() {
    let string = r#"
        {
            "jsonrpc": "2.0",
            "id": 1,
            "method": "textDocument/completion",
            "params": {
                ...
            }
        }
        "#;
    let result = read_packet(string);
    assert_eq!(result, Err("'Content-Length' not found".to_string()));
}

#[test]
fn read_packet_returns_err_if_rnrn() {
    let string = r#"
Content-Length: 123 {
    "jsonrpc": "2.0",
    "id": 1,
    "method": "textDocument/completion",
    "params": {
        ...
    }
}
        
        "#;
    let result = read_packet(string);
    assert_eq!(result, Err("'\\r\\n\\r\\n' not found".to_string()));
}

#[test]
fn read_packet_returns_err_content_length_wrong_type() {
    let string = "
Content-Length: ABC\r\n\r\n
        {
        blahblah}
        ";
    let result = read_packet(string);
    assert_eq!(
        result,
        Err("Expected usize for content length, got 'ABC'".to_string())
    );
}

#[test]
fn read_packet_returns_err_content_length_too_short() {
    let string = "
Content-Length: 123\r\n\r\n
";
    let result = read_packet(string);
    assert_eq!(
        result,
        Err("Message too short, expected 123 characters".to_string())
    );
}

#[test]
fn read_packet_returns_value() {
    let string = "
Content-Length: 17\r\n\r\n
{
    blahblah
}The Rest of the Message";
    let result = read_packet(string);
    let expected = Packet {
        decoded: "{\n    blahblah\n}".to_string(),
        remaining: "The Rest of the Message".to_string(),
    };
    assert_eq!(result, Ok(expected));
}

#[test]
fn serialize_counts_bytes() {
    assert_eq!(serialize_packet(""), "Content-Length: 0\r\n\r\n");
    assert_eq!(serialize_packet("é"), "Content-Length: 2\r\n\r\né");
    assert_eq!(serialize_packet("a€😀"), "Content-Length: 8\r\n\r\na€😀");
}

#[test]
fn read_packet_reads_what_serialize_writes() {
    let packet = serialize_packet("grüße, 世界");
    let mut stream = packet.clone();
    stream.push_str("Content-Length: 1\r\n\r\nx");
    let first = read_packet(&stream).unwrap();
    assert_eq!(first.decoded, "grüße, 世界");
    assert_eq!(first.remaining, "Content-Length: 1\r\n\r\nx");
}

#[test]
fn read_packet_length_forms() {
    assert_eq!(
        read_packet("Content-Length:   +3 \r\n\r\nabcd"),
        Ok(Packet {
            decoded: "abc".to_string(),
            remaining: "d".to_string(),
        })
    );
    assert_eq!(
        read_packet("Content-Length: 007\r\n\r\n abcde \n.."),
        Ok(Packet {
            decoded: "abcde".to_string(),
            remaining: "\n..".to_string(),
        })
    );
    assert_eq!(
        read_packet("Content-Length:\r\n\r\nabc"),
        Err("Expected usize for content length, got ''".to_string())
    );
    assert_eq!(
        read_packet("Content-Length: -1\r\n\r\nabc"),
        Err("Expected usize for content length, got '-1'".to_string())
    );
    assert_eq!(
        read_packet("Content-Length: +\r\n\r\nabc"),
        Err("Expected usize for content length, got '+'".to_string())
    );
    assert_eq!(
        read_packet("Content-Length: 1 2\r\n\r\nabc"),
        Err("Expected usize for content length, got '1 2'".to_string())
    );
    assert_eq!(
        read_packet("Content-Length: 99999999999999999999999\r\n\r\nabc"),
        Err("Expected usize for content length, got '99999999999999999999999'".to_string())
    );
}

#[test]
fn read_packet_empty_content() {
    assert_eq!(
        read_packet("Content-Length: 0\r\n\r\n"),
        Ok(Packet {
            decoded: String::new(),
            remaining: String::new(),
        })
    );
    assert_eq!(
        read_packet("Content-Length: 1\r\n\r\n"),
        Err("Message too short, expected 1 characters".to_string())
    );
}

#[test]
fn decimal_text_writes_numbers() {
    assert_eq!(decimal_text(0), "0");
    assert_eq!(decimal_text(9), "9");
    assert_eq!(decimal_text(10), "10");
    assert_eq!(decimal_text(1234567890), "1234567890");
    assert_eq!(decimal_text(usize::MAX), usize::MAX.to_string());
}

#[test]
fn white_space_is_what_trimming_removes() {
    for code in 0..=0x10FFFFu32 {
        if let Some(c) = char::from_u32(code) {
            assert_eq!(is_whitespace(c), c.is_whitespace(), "U+{:04X}", code);
        }
    }
    let packet = read_packet("Content-Length:\u{3000}6\u{a0}\r\n\r\n\u{2003}a\u{85}").unwrap();
    assert_eq!(packet.decoded, "a");
    assert_eq!(packet.remaining, "");
}

#[test]
fn lengths_are_read_as_unsigned_numbers_are() {
    let content = "x".repeat(30);
    for text in [
        "0", "7", "12", "+12", "012", "0012", "+0", "-0", "-1", "+", "", "1 2", "1_2", "0x10",
        "12a", "a12", "１２", "٣", "1.0", "+-1", "++1", "30",
    ] {
        let stream = format!("Content-Length: {}\r\n\r\n{}", text, content);
        match text.parse::<usize>() {
            Ok(length) => {
                let packet = read_packet(&stream).unwrap();
                assert_eq!(packet.decoded.len(), length, "{:?}", text);
                assert_eq!(packet.remaining.len(), 30 - length, "{:?}", text);
            }
            Err(_) => {
                assert_eq!(
                    read_packet(&stream),
                    Err(format!("Expected usize for content length, got '{}'", text)),
                    "{:?}",
                    text
                );
            }
        }
    }
}

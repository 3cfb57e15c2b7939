use gen_callgraph::codec::{decode_frame, encode_frame, text_of_bytes, HeaderScanner};
use gen_callgraph::framing::{get_content_length_from, parse_usize, TransportError};
use gen_callgraph::text::{chars_of, string_of};

#[test]
fn encode_frame_writes_header_then_body() {
    let frame = encode_frame(b"{\"a\":1}");
    assert_eq!(frame, b"Content-Length: 7\r\n\r\n{\"a\":1}".to_vec());
}

#[test]
fn encode_frame_of_empty_body() {
    assert_eq!(encode_frame(b""), b"Content-Length: 0\r\n\r\n".to_vec());
}

#[test]
fn encode_frame_counts_bytes_not_characters() {
    let body = "{\"name\":\"日本語\"}";
    assert_eq!(body.len(), 20);
    let frame = encode_frame(body.as_bytes());
    assert!(frame.starts_with(b"Content-Length: 20\r\n\r\n"));
}

#[test]
fn decode_undoes_encode_for_multibyte_and_special_characters() {
    let bodies: Vec<Vec<u8>> = vec![
        b"".to_vec(),
        b"{}".to_vec(),
        "{\"text\":\"héllo wörld — 日本語 \\\" \\\\ \\n\"}".as_bytes().to_vec(),
        b"\r\n\r\nContent-Length: 3\r\n\r\nabc".to_vec(),
        vec![0u8, 255u8, 13u8, 10u8, 13u8, 10u8],
    ];
    for body in bodies {
        let frame = encode_frame(&body);
        let (decoded, used) = decode_frame(&frame).unwrap();
        assert_eq!(decoded, body);
        assert_eq!(used, frame.len());
    }
}

#[test]
fn decode_takes_exactly_one_frame() {
    let mut stream = encode_frame(b"first");
    let first_len = stream.len();
    stream.extend_from_slice(&encode_frame(b"second one"));
    let (body, used) = decode_frame(&stream).unwrap();
    assert_eq!(body, b"first".to_vec());
    assert_eq!(used, first_len);
    let (body2, used2) = decode_frame(&stream[used..]).unwrap();
    assert_eq!(body2, b"second one".to_vec());
    assert_eq!(used + used2, stream.len());
}

#[test]
fn decode_reports_io_on_a_stream_that_ends_early() {
    assert_eq!(decode_frame(b""), Err(TransportError::Io));
    assert_eq!(decode_frame(b"Content-Length: 5\r\n"), Err(TransportError::Io));
    assert_eq!(decode_frame(b"Content-Length: 5\r\n\r\nabc"), Err(TransportError::Io));
}

#[test]
fn decode_reports_malformed_headers() {
    assert_eq!(decode_frame(b"Content-Type: x\r\n\r\nabc"), Err(TransportError::Malformed));
    assert_eq!(decode_frame(b"Content-Length: abc\r\n\r\nabc"), Err(TransportError::Malformed));
    assert_eq!(decode_frame(b"\r\n\r\n"), Err(TransportError::Malformed));
    assert_eq!(
        decode_frame(b"Content-Length: 1\r\nX: \xff\r\n\r\na"),
        Err(TransportError::Malformed)
    );
}

#[test]
fn content_length_is_found_without_regard_to_case() {
    assert_eq!(get_content_length_from("Content-Length: 42\r\n\r\n"), Ok(42));
    assert_eq!(get_content_length_from("content-length: 42\r\n\r\n"), Ok(42));
    assert_eq!(get_content_length_from("CONTENT-LENGTH:42\r\n\r\n"), Ok(42));
    assert_eq!(get_content_length_from("CoNtEnT-lEnGtH:   7  \r\n\r\n"), Ok(7));
}

#[test]
fn content_length_is_found_among_other_fields() {
    let header = "Content-Type: application/json\r\nContent-Length: 12\r\n\r\n";
    assert_eq!(get_content_length_from(header), Ok(12));
    assert_eq!(get_content_length_from("X: 1\nContent-Length: 3"), Ok(3));
}

#[test]
fn content_length_takes_the_first_length_line() {
    assert_eq!(
        get_content_length_from("Content-Length: 1\r\nContent-Length: 2\r\n\r\n"),
        Ok(1)
    );
    assert_eq!(
        get_content_length_from("Content-Length: x\r\nContent-Length: 2\r\n\r\n"),
        Err(TransportError::Malformed)
    );
}

#[test]
fn content_length_value_stops_at_a_second_colon() {
    assert_eq!(get_content_length_from("Content-Length: 12:34\r\n\r\n"), Ok(12));
}

#[test]
fn content_length_accepts_plus_and_leading_zeros() {
    assert_eq!(get_content_length_from("Content-Length: +5\r\n\r\n"), Ok(5));
    assert_eq!(get_content_length_from("Content-Length: 007\r\n\r\n"), Ok(7));
}

#[test]
fn content_length_rejects_what_is_no_number() {
    for header in [
        "",
        "\r\n\r\n",
        "Content-Length\r\n\r\n",
        "Content-Length:\r\n\r\n",
        "Content-Length: \r\n\r\n",
        "Content-Length: -1\r\n\r\n",
        "Content-Length: +\r\n\r\n",
        "Content-Length: 1 2\r\n\r\n",
        "Content-Length: 1.5\r\n\r\n",
        "Content-Length: 99999999999999999999999999\r\n\r\n",
        " Content-Length: 5\r\n\r\n",
    ] {
        assert_eq!(get_content_length_from(header), Err(TransportError::Malformed), "{:?}", header);
    }
}

#[test]
fn parse_usize_agrees_with_the_standard_library() {
    for text in ["0", "1", "+1", "-1", "", "+", "18446744073709551615", "18446744073709551616", "12a", " 1", "0009"] {
        let chars = chars_of(text);
        assert_eq!(parse_usize(&chars), text.parse::<usize>().ok(), "{:?}", text);
    }
}

#[test]
fn scanner_is_done_at_the_blank_line() {
    let mut scanner = HeaderScanner::new();
    let header = b"Content-Length: 11\r\n\r\n";
    for (i, byte) in header.iter().enumerate() {
        let done = scanner.push(*byte);
        assert_eq!(done, i + 1 == header.len());
    }
    assert_eq!(scanner.finish(), Ok(11));
}

#[test]
fn scanner_reports_a_header_without_length() {
    let mut scanner = HeaderScanner::new();
    let mut done = false;
    for byte in b"Foo: bar\r\n\r\n" {
        done = scanner.push(*byte);
    }
    assert!(done);
    assert_eq!(scanner.finish(), Err(TransportError::Malformed));
}

#[test]
fn text_of_bytes_reads_utf8_only() {
    assert_eq!(text_of_bytes("héllo".as_bytes()), Some(String::from("héllo")));
    assert_eq!(text_of_bytes(&[0xff, 0xfe]), None);
}

#[test]
fn chars_and_strings_convert_both_ways() {
    let chars = chars_of("a→b");
    assert_eq!(chars, vec!['a', '→', 'b']);
    assert_eq!(string_of(&chars, 1, 3), "→b");
    assert_eq!(string_of(&chars, 2, 2), "");
}

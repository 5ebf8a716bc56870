use snss::commands::{Command, ParseError};
use snss::parse::parse;

fn header() -> Vec<u8> {
    vec![0x53, 0x4E, 0x53, 0x53, 0x00, 0x00, 0x00, 0x00]
}

fn push_u16(v: &mut Vec<u8>, x: u16) {
    v.push((x & 0xFF) as u8);
    v.push((x >> 8) as u8);
}

fn push_i32(v: &mut Vec<u8>, x: i32) {
    v.extend_from_slice(&x.to_le_bytes());
}

fn push_i64(v: &mut Vec<u8>, x: i64) {
    v.extend_from_slice(&x.to_le_bytes());
}

fn push_record(v: &mut Vec<u8>, body: &[u8]) {
    push_u16(v, body.len() as u16);
    v.extend_from_slice(body);
}

fn push_string(v: &mut Vec<u8>, s: &str) {
    push_i32(v, s.len() as i32);
    v.extend_from_slice(s.as_bytes());
}

fn update_tab_navigation_body(window_id: i32, tab_id: i32, index: i32, url: &str) -> Vec<u8> {
    let mut b = vec![1u8];
    push_i32(&mut b, window_id);
    push_i32(&mut b, tab_id);
    push_i32(&mut b, index);
    push_string(&mut b, url);
    b
}

fn selected_navigation_body(tab_id: i32, index: i32, timestamp: i64) -> Vec<u8> {
    let mut b = vec![4u8];
    push_i32(&mut b, tab_id);
    push_i32(&mut b, index);
    push_i64(&mut b, timestamp);
    b
}

fn window_body(workspace: &str) -> Vec<u8> {
    let mut b = vec![9u8];
    push_i64(&mut b, 11); // window_id
    push_i32(&mut b, 0); // selected_tab_index
    push_i32(&mut b, 3); // num_tabs
    push_i64(&mut b, 1_600_000_000); // timestamp
    push_i32(&mut b, 10); // bounds_x
    push_i32(&mut b, 20); // bounds_y
    push_i32(&mut b, 800); // bounds_width
    push_i32(&mut b, 600); // bounds_height
    push_i32(&mut b, 1); // show_state
    push_string(&mut b, workspace);
    push_i32(&mut b, 0); // type
    b
}

#[test]
fn header_only_returns_empty_sequence() {
    let buf = header();
    assert_eq!(parse(&buf), Ok(vec![]));
}

#[test]
fn marker_then_update_tab_navigation() {
    let mut buf = header();
    push_record(&mut buf, &[255]);
    push_record(&mut buf, &update_tab_navigation_body(1, 2, 3, "http://x"));
    let cmds = parse(&buf).unwrap();
    assert_eq!(
        cmds,
        vec![
            Command::Marker,
            Command::UpdateTabNavigation { tab_id: 2, index: 3, url: "http://x".to_string() },
        ]
    );
}

#[test]
fn selected_navigation_drops_tab_id_and_timestamp() {
    let mut buf = header();
    push_record(&mut buf, &selected_navigation_body(7, 5, 123));
    assert_eq!(parse(&buf), Ok(vec![Command::SelectedNavigationInTab { index: 5 }]));
}

#[test]
fn wrong_magic_yields_format_error() {
    let buf = vec![0x53, 0x4E, 0x53, 0x54, 0x00, 0x00, 0x00, 0x00];
    assert_eq!(parse(&buf), Err(ParseError::FormatError));
}

#[test]
fn wrong_magic_beats_any_remaining_content() {
    // Even with a well-formed record stream (and too short a header tail),
    // the signature decides first.
    let mut buf = vec![0x00, 0x00, 0x00, 0x00];
    buf.extend_from_slice(&[0x00]);
    assert_eq!(parse(&buf), Err(ParseError::FormatError));
}

#[test]
fn buffer_shorter_than_signature_yields_io_error() {
    let buf = vec![0x53, 0x4E, 0x53];
    assert_eq!(parse(&buf), Err(ParseError::IoError));
}

#[test]
fn missing_version_yields_io_error() {
    let buf = vec![0x53, 0x4E, 0x53, 0x53, 0x00, 0x00];
    assert_eq!(parse(&buf), Err(ParseError::IoError));
}

#[test]
fn partial_length_prefix_yields_io_error() {
    let mut buf = header();
    push_record(&mut buf, &[255]);
    buf.push(0x01); // one lone byte where the next length prefix begins
    assert_eq!(parse(&buf), Err(ParseError::IoError));
}

#[test]
fn truncated_record_body_yields_io_error() {
    let mut buf = header();
    push_u16(&mut buf, 5); // declares 5 body bytes...
    buf.extend_from_slice(&[255, 0]); // ...but only 2 follow
    assert_eq!(parse(&buf), Err(ParseError::IoError));
}

#[test]
fn ends_exactly_at_record_boundary_is_success() {
    let mut buf = header();
    push_record(&mut buf, &[255]);
    push_record(&mut buf, &[14]);
    assert_eq!(parse(&buf), Ok(vec![Command::Marker, Command::AddTabExtraData]));
}

#[test]
fn unsupported_opcode_aborts_whole_parse() {
    let mut buf = header();
    push_record(&mut buf, &[255]); // a good record first
    push_record(&mut buf, &[7, 1, 2, 3]);
    // No partial sequence: the Marker decoded before the bad record is gone too.
    assert_eq!(parse(&buf), Err(ParseError::UnsupportedOpcode(7)));
}

#[test]
fn unsupported_opcode_zero() {
    let mut buf = header();
    push_record(&mut buf, &[0]);
    assert_eq!(parse(&buf), Err(ParseError::UnsupportedOpcode(0)));
}

#[test]
fn invalid_utf8_url_yields_encoding_error() {
    let mut buf = header();
    let mut body = vec![1u8];
    push_i32(&mut body, 1);
    push_i32(&mut body, 2);
    push_i32(&mut body, 3);
    push_i32(&mut body, 2); // string length 2
    body.extend_from_slice(&[0xFF, 0xFE]); // not valid UTF-8
    push_record(&mut buf, &body);
    assert_eq!(parse(&buf), Err(ParseError::EncodingError));
}

#[test]
fn negative_string_length_yields_io_error() {
    let mut buf = header();
    let mut body = vec![1u8];
    push_i32(&mut body, 1);
    push_i32(&mut body, 2);
    push_i32(&mut body, 3);
    push_i32(&mut body, -1); // a negative length can never be satisfied
    push_record(&mut buf, &body);
    assert_eq!(parse(&buf), Err(ParseError::IoError));
}

#[test]
fn string_truncated_inside_body_yields_io_error() {
    let mut buf = header();
    let mut body = vec![1u8];
    push_i32(&mut body, 1);
    push_i32(&mut body, 2);
    push_i32(&mut body, 3);
    push_i32(&mut body, 10); // declares 10 text bytes, none follow
    push_record(&mut buf, &body);
    assert_eq!(parse(&buf), Err(ParseError::IoError));
}

#[test]
fn empty_url_is_accepted() {
    let mut buf = header();
    push_record(&mut buf, &update_tab_navigation_body(9, 8, 7, ""));
    assert_eq!(
        parse(&buf),
        Ok(vec![Command::UpdateTabNavigation { tab_id: 8, index: 7, url: String::new() }])
    );
}

#[test]
fn window_record_is_fully_consumed_and_discarded() {
    let mut buf = header();
    push_record(&mut buf, &window_body("main"));
    push_record(&mut buf, &[14]);
    assert_eq!(parse(&buf), Ok(vec![Command::Window, Command::AddTabExtraData]));
}

#[test]
fn window_record_missing_trailing_type_yields_io_error() {
    let mut buf = header();
    let body = window_body("main");
    push_record(&mut buf, &body[..body.len() - 4]); // drop the type field
    assert_eq!(parse(&buf), Err(ParseError::IoError));
}

#[test]
fn empty_record_body_yields_io_error() {
    let mut buf = header();
    push_record(&mut buf, &[]); // length 0: no opcode to read
    assert_eq!(parse(&buf), Err(ParseError::IoError));
}

#[test]
fn extra_body_bytes_are_ignored() {
    let mut buf = header();
    let mut body = selected_navigation_body(1, 4, 9);
    body.extend_from_slice(&[0xAA, 0xBB]); // bytes past the layout's last field
    push_record(&mut buf, &body);
    assert_eq!(parse(&buf), Ok(vec![Command::SelectedNavigationInTab { index: 4 }]));
}

#[test]
fn negative_integers_decode_two_s_complement() {
    let mut buf = header();
    push_record(&mut buf, &selected_navigation_body(-7, -5, -123));
    push_record(&mut buf, &update_tab_navigation_body(-1, -2, -3, "a"));
    assert_eq!(
        parse(&buf),
        Ok(vec![
            Command::SelectedNavigationInTab { index: -5 },
            Command::UpdateTabNavigation { tab_id: -2, index: -3, url: "a".to_string() },
        ])
    );
}

#[test]
fn record_length_above_one_byte_decodes() {
    let mut buf = header();
    let mut body = vec![255u8];
    body.extend_from_slice(&[0u8; 299]); // ignored padding after the opcode
    push_record(&mut buf, &body); // length 300 exercises the high length byte
    push_record(&mut buf, &[14]);
    assert_eq!(parse(&buf), Ok(vec![Command::Marker, Command::AddTabExtraData]));
}

#[test]
fn commands_come_back_in_file_order() {
    let mut buf = header();
    push_record(&mut buf, &[14]);
    push_record(&mut buf, &selected_navigation_body(1, 10, 0));
    push_record(&mut buf, &[255]);
    push_record(&mut buf, &update_tab_navigation_body(0, 5, 6, "http://y"));
    push_record(&mut buf, &selected_navigation_body(2, 20, 0));
    let cmds = parse(&buf).unwrap();
    assert_eq!(cmds.len(), 5);
    assert_eq!(
        cmds,
        vec![
            Command::AddTabExtraData,
            Command::SelectedNavigationInTab { index: 10 },
            Command::Marker,
            Command::UpdateTabNavigation { tab_id: 5, index: 6, url: "http://y".to_string() },
            Command::SelectedNavigationInTab { index: 20 },
        ]
    );
}

#[test]
fn version_value_is_not_constrained() {
    let mut buf = vec![0x53, 0x4E, 0x53, 0x53];
    push_i32(&mut buf, -42);
    push_record(&mut buf, &[255]);
    assert_eq!(parse(&buf), Ok(vec![Command::Marker]));
}

#[test]
fn multibyte_utf8_url_survives_decoding() {
    let mut buf = header();
    push_record(&mut buf, &update_tab_navigation_body(0, 1, 2, "http://例/ü"));
    assert_eq!(
        parse(&buf),
        Ok(vec![Command::UpdateTabNavigation {
            tab_id: 1,
            index: 2,
            url: "http://例/ü".to_string(),
        }])
    );
}

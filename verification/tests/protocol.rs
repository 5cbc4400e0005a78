use singleton_core::percent::{percent_decode, percent_encode};
use singleton_core::protocol::{
    command_url, forward_request_target, is_ok_body, ok_body_bytes, parse_request_target,
    ping_path_bytes, ping_url, request_line_target, scheme_prefix_bytes, scheme_request_target,
    visible_path_bytes, ControlCommand,
};

#[test]
fn path_constants_match_the_wire_protocol() {
    assert_eq!(ping_path_bytes(), b"/commands/ping".to_vec());
    assert_eq!(visible_path_bytes(), b"/commands/visible".to_vec());
    assert_eq!(scheme_prefix_bytes(), b"/commands/scheme?param=".to_vec());
    assert_eq!(ok_body_bytes(), b"ok".to_vec());
}

#[test]
fn only_the_exact_ok_body_confirms_a_primary() {
    assert!(is_ok_body(&b"ok".to_vec()));
    assert!(!is_ok_body(&b"no".to_vec()));
    assert!(!is_ok_body(&b"okay".to_vec()));
    assert!(!is_ok_body(&b"OK".to_vec()));
    assert!(!is_ok_body(&b"".to_vec()));
    assert!(!is_ok_body(&b"ok\n".to_vec()));
}

#[test]
fn encode_escapes_reserved_bytes() {
    let enc = percent_encode(&b"myscheme://open?x=1".to_vec());
    assert_eq!(enc, b"myscheme%3A%2F%2Fopen%3Fx%3D1".to_vec());
}

#[test]
fn encode_keeps_unreserved_bytes() {
    let enc = percent_encode(&b"Az09-._~".to_vec());
    assert_eq!(enc, b"Az09-._~".to_vec());
}

#[test]
fn encode_of_empty_is_empty() {
    assert_eq!(percent_encode(&Vec::new()), Vec::<u8>::new());
}

#[test]
fn decode_inverts_encode_on_every_byte() {
    let mut all: Vec<u8> = Vec::new();
    for b in 0..=255u8 {
        all.push(b);
    }
    let enc = percent_encode(&all);
    assert_eq!(percent_decode(&enc), Some(all));
}

#[test]
fn decode_accepts_plus_and_lower_case_escapes() {
    assert_eq!(percent_decode(&b"a+b".to_vec()), Some(b"a b".to_vec()));
    assert_eq!(percent_decode(&b"%2fx%2F".to_vec()), Some(b"/x/".to_vec()));
}

#[test]
fn decode_rejects_malformed_escapes() {
    assert_eq!(percent_decode(&b"%".to_vec()), None);
    assert_eq!(percent_decode(&b"abc%2".to_vec()), None);
    assert_eq!(percent_decode(&b"%zz".to_vec()), None);
    assert_eq!(percent_decode(&b"%2g".to_vec()), None);
}

#[test]
fn scheme_target_carries_the_encoded_payload() {
    let target = scheme_request_target(&b"myscheme://open?x=1".to_vec());
    assert_eq!(
        target,
        b"/commands/scheme?param=myscheme%3A%2F%2Fopen%3Fx%3D1".to_vec()
    );
}

#[test]
fn scheme_target_parses_back_to_its_payload() {
    let payload = b"myscheme://open?x=1".to_vec();
    let target = scheme_request_target(&payload);
    match parse_request_target(&target) {
        Some(ControlCommand::HandleScheme { payload: got }) => assert_eq!(got, payload),
        _ => panic!("scheme target did not parse back to a scheme command"),
    }
}

#[test]
fn known_paths_parse_to_their_commands() {
    assert!(matches!(
        parse_request_target(&b"/commands/ping".to_vec()),
        Some(ControlCommand::Ping)
    ));
    assert!(matches!(
        parse_request_target(&b"/commands/visible".to_vec()),
        Some(ControlCommand::ShowVisible)
    ));
}

#[test]
fn foreign_or_malformed_targets_parse_to_nothing() {
    assert!(parse_request_target(&b"/other".to_vec()).is_none());
    assert!(parse_request_target(&b"".to_vec()).is_none());
    assert!(parse_request_target(&b"/commands/pin".to_vec()).is_none());
    assert!(parse_request_target(&b"/commands/scheme?param=%zz".to_vec()).is_none());
}

#[test]
fn empty_scheme_query_parses_to_an_empty_payload() {
    match parse_request_target(&b"/commands/scheme?param=".to_vec()) {
        Some(ControlCommand::HandleScheme { payload }) => assert!(payload.is_empty()),
        _ => panic!("empty query did not parse to an empty payload"),
    }
}

#[test]
fn urls_name_the_loopback_host_and_port() {
    assert_eq!(ping_url(33331), b"http://127.0.0.1:33331/commands/ping".to_vec());
    assert_eq!(ping_url(0), b"http://127.0.0.1:0/commands/ping".to_vec());
    assert_eq!(ping_url(65535), b"http://127.0.0.1:65535/commands/ping".to_vec());
    let target = visible_path_bytes();
    assert_eq!(
        command_url(9090, &target),
        b"http://127.0.0.1:9090/commands/visible".to_vec()
    );
}

#[test]
fn get_request_lines_yield_their_target() {
    let req = b"GET /commands/ping HTTP/1.1\r\nHost: 127.0.0.1\r\n\r\n".to_vec();
    assert_eq!(request_line_target(&req), Some(b"/commands/ping".to_vec()));
    let bare = b"GET /x\r\n".to_vec();
    assert_eq!(request_line_target(&bare), Some(b"/x".to_vec()));
}

#[test]
fn non_get_or_unterminated_requests_yield_no_target() {
    assert_eq!(request_line_target(&b"POST /commands/ping HTTP/1.1\r\n\r\n".to_vec()), None);
    assert_eq!(request_line_target(&b"GET /never-ends".to_vec()), None);
    assert_eq!(request_line_target(&b"GE".to_vec()), None);
    assert_eq!(request_line_target(&b"".to_vec()), None);
}

#[test]
fn forward_target_depends_on_the_second_argument() {
    let with_payload = vec![b"app".to_vec(), b"myscheme://open?x=1".to_vec()];
    assert_eq!(
        forward_request_target(&with_payload),
        b"/commands/scheme?param=myscheme%3A%2F%2Fopen%3Fx%3D1".to_vec()
    );
    let bare = vec![b"app".to_vec()];
    assert_eq!(forward_request_target(&bare), b"/commands/visible".to_vec());
    assert_eq!(forward_request_target(&Vec::new()), b"/commands/visible".to_vec());
}

use portctl::client::{api_url_exec, client_settings, endpoint_path, stack_path, ClientError};
use portctl::config::Config;
use portctl::actions::volume::volume_path_exec;
use portctl::prompt::confirms_exec;
use portctl::stream::{demux, frame_output, parse_header, payload_too_large, stream_texts, to_stderr, FrameOutput};

#[test]
fn stream_header_length_is_big_endian() {
    let h = [1u8, 0, 0, 0, 0x01, 0x02, 0x03, 0x04];
    let f = parse_header(&h);
    assert_eq!(f.stream, 1);
    assert_eq!(f.len, 0x01020304);
}

#[test]
fn stream_limit_is_one_hundred_mebibytes() {
    assert!(!payload_too_large(100 * 1024 * 1024));
    assert!(payload_too_large(100 * 1024 * 1024 + 1));
    assert!(!payload_too_large(0));
}

#[test]
fn stream_only_type_two_goes_to_stderr() {
    assert!(to_stderr(2));
    assert!(!to_stderr(1));
    assert!(!to_stderr(0));
}

#[test]
fn stream_demux_splits_frames() {
    let mut bytes = vec![1u8, 0, 0, 0, 0, 0, 0, 3];
    bytes.extend_from_slice(b"abc");
    bytes.extend_from_slice(&[2u8, 0, 0, 0, 0, 0, 0, 2]);
    bytes.extend_from_slice(b"de");
    let frames = demux(&bytes);
    assert_eq!(frames.len(), 2);
    assert_eq!(frames[0].stream, 1);
    assert_eq!(frames[0].payload, b"abc".to_vec());
    assert_eq!(frames[1].stream, 2);
    assert_eq!(frames[1].payload, b"de".to_vec());
}

#[test]
fn stream_demux_stops_at_short_payload() {
    let mut bytes = vec![1u8, 0, 0, 0, 0, 0, 0, 1];
    bytes.extend_from_slice(b"x");
    bytes.extend_from_slice(&[1u8, 0, 0, 0, 0, 0, 0, 9]);
    bytes.extend_from_slice(b"short");
    let frames = demux(&bytes);
    assert_eq!(frames.len(), 1);
    assert_eq!(frames[0].payload, b"x".to_vec());
    assert_eq!(demux(&[1u8, 0, 0]).len(), 0);
}

#[test]
fn prompt_accepts_y_and_yes_in_any_case() {
    assert!(confirms_exec("y"));
    assert!(confirms_exec("Y\n"));
    assert!(confirms_exec("  yes  "));
    assert!(confirms_exec("YeS\r\n"));
    assert!(!confirms_exec("ye"));
    assert!(!confirms_exec("no"));
    assert!(!confirms_exec(""));
    assert!(!confirms_exec("yess"));
    assert!(!confirms_exec("y e s"));
}

#[test]
fn client_url_joins_base_and_path() {
    assert_eq!(api_url_exec("https://p.example/", "/endpoints"), "https://p.example/api/endpoints");
    assert_eq!(api_url_exec("https://p.example", "stacks/3"), "https://p.example/api/stacks/3");
    assert_eq!(api_url_exec("https://p.example//", "//x"), "https://p.example/api/x");
}

#[test]
fn client_needs_url_then_token() {
    let cfg = Config::default();
    assert_eq!(client_settings(&cfg).err(), Some(ClientError::MissingUrl));
    let cfg = Config { portainer_url: Some("https://p".to_string()), api_token: None };
    assert_eq!(client_settings(&cfg).err(), Some(ClientError::MissingToken));
    let cfg = Config { portainer_url: Some("https://p".to_string()), api_token: Some("t".to_string()) };
    assert_eq!(client_settings(&cfg).unwrap(), ("https://p".to_string(), "t".to_string()));
}

#[test]
fn client_paths() {
    assert_eq!(endpoint_path(7), "endpoints/7");
    assert_eq!(stack_path(12, "/file"), "stacks/12/file");
}

#[test]
fn encoding_percent_encodes_unsafe_bytes() {
    assert_eq!(volume_path_exec(1, "my vol"), "endpoints/1/docker/volumes/my%20vol");
    assert_eq!(volume_path_exec(1, "a-b_c.d~e"), "endpoints/1/docker/volumes/a-b_c.d~e");
    assert_eq!(volume_path_exec(1, "x/y:z"), "endpoints/1/docker/volumes/x%2Fy%3Az");
    assert_eq!(volume_path_exec(1, "é"), "endpoints/1/docker/volumes/%C3%A9");
}

fn frame(stream: u8, payload: &[u8]) -> Vec<u8> {
    let n = payload.len() as u32;
    let mut v = vec![stream, 0, 0, 0];
    v.extend_from_slice(&n.to_be_bytes());
    v.extend_from_slice(payload);
    v
}

#[test]
fn stream_output_routes_text_frames_in_order() {
    let mut bytes = frame(1, b"ab");
    bytes.extend(frame(2, b"cd"));
    bytes.extend(frame(1, &[0xff, 0xfe]));
    bytes.extend(frame(1, b"e"));
    bytes.extend_from_slice(&[1, 0, 0, 0, 0, 0, 0, 5, b'x']);
    let (out, err) = stream_texts(&bytes, true);
    assert_eq!(out, "abe");
    assert_eq!(err, "cd");
    let (out, err) = stream_texts(&bytes, false);
    assert_eq!(out, "abcde");
    assert_eq!(err, "");
}

#[test]
fn stream_frame_output_decides_per_frame() {
    assert!(matches!(frame_output(2, b"x", true), FrameOutput::Stderr(t) if t == "x"));
    assert!(matches!(frame_output(2, b"x", false), FrameOutput::Stdout(t) if t == "x"));
    assert!(matches!(frame_output(1, "é".as_bytes(), true), FrameOutput::Stdout(t) if t == "é"));
    assert!(matches!(frame_output(1, &[0xc3], true), FrameOutput::Skip));
}

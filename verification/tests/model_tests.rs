use viewd::codec::DecodeError;
use viewd::model::{Key, Request, Response, ServerCommand};

fn bytes_of(s: &str) -> Vec<u8> {
    s.as_bytes().to_vec()
}

#[test]
fn test_serialize_response() {
    let path = bytes_of("/foo/bar.jpg");
    let resp = Response::new(Some(path.clone()), None, bytes_of("Success"));
    let bytes = resp.to_bytes();
    let decoded = Response::from_bytes(&bytes).expect("decode");
    assert_eq!(resp.path(), decoded.path());
}

#[test]
fn request_round_trip_all_commands() {
    let commands = vec![
        ServerCommand::Prev,
        ServerCommand::Next,
        ServerCommand::Fullscreen,
        ServerCommand::Rotate,
        ServerCommand::Pageant,
        ServerCommand::Fetch,
    ];
    for c in commands {
        let req = Request::from_command(c);
        let bytes = req.to_bytes();
        assert_eq!(bytes.len(), 1);
        let back = Request::from_bytes(&bytes).expect("decode");
        assert_eq!(back.command(), c);
    }
}

#[test]
fn response_round_trip_all_fields() {
    let resp = Response::new(
        Some(bytes_of("/pics/cat.png")),
        Some(vec![1, 2, 3, 255, 0]),
        bytes_of("Success"),
    );
    let back = Response::from_bytes(&resp.to_bytes()).expect("decode");
    assert_eq!(back.path().map(|p| p.clone()), Some(bytes_of("/pics/cat.png")));
    assert_eq!(back.message().clone(), bytes_of("Success"));
    assert_eq!(back.bytes().map(|b| b.clone()), Some(vec![1, 2, 3, 255, 0]));
}

#[test]
fn response_round_trip_empty_fields() {
    let resp = Response::new(None, None, Vec::new());
    let back = Response::from_bytes(&resp.to_bytes()).expect("decode");
    assert!(back.path().is_none());
    assert!(back.bytes().is_none());
    assert!(back.message().is_empty());
}

#[test]
fn request_decode_rejects_bad_input() {
    // Empty: truncated.
    assert_eq!(Request::from_bytes(&Vec::new()).err(), Some(DecodeError::Malformed));
    // Unknown discriminant.
    assert_eq!(Request::from_bytes(&vec![6]).err(), Some(DecodeError::Malformed));
    assert_eq!(Request::from_bytes(&vec![255]).err(), Some(DecodeError::Malformed));
    // Trailing bytes.
    assert_eq!(Request::from_bytes(&vec![1, 0]).err(), Some(DecodeError::Malformed));
}

#[test]
fn response_decode_rejects_bad_input() {
    // Empty: truncated.
    assert!(Response::from_bytes(&Vec::new()).is_err());
    // Bad presence byte.
    assert!(Response::from_bytes(&vec![7]).is_err());
    // Present path but truncated length field.
    assert!(Response::from_bytes(&vec![1, 3, 0]).is_err());
    // Length field promising more bytes than there are.
    let mut b = vec![0u8]; // no path
    b.extend_from_slice(&[200, 0, 0, 0, 0, 0, 0, 0]); // message length 200
    b.push(65);
    assert!(Response::from_bytes(&b).is_err());
    // Trailing garbage after a valid encoding.
    let mut ok = Response::new(None, None, Vec::new()).to_bytes();
    ok.push(0);
    assert!(Response::from_bytes(&ok).is_err());
}

#[test]
fn encoding_is_deterministic() {
    let a = Response::new(Some(bytes_of("/x/y.png")), None, bytes_of("Success"));
    let b = Response::new(Some(bytes_of("/x/y.png")), None, bytes_of("Success"));
    assert_eq!(a.to_bytes(), b.to_bytes());
}

#[test]
fn from_keycode_table() {
    assert_eq!(ServerCommand::from_keycode(Key::Char('f')), Some(ServerCommand::Fullscreen));
    assert_eq!(ServerCommand::from_keycode(Key::Char('r')), Some(ServerCommand::Rotate));
    assert_eq!(ServerCommand::from_keycode(Key::Char('s')), Some(ServerCommand::Fetch));
    assert_eq!(ServerCommand::from_keycode(Key::Char('p')), Some(ServerCommand::Pageant));
    assert_eq!(ServerCommand::from_keycode(Key::Space), Some(ServerCommand::Pageant));
    assert_eq!(ServerCommand::from_keycode(Key::ArrowRight), Some(ServerCommand::Next));
    assert_eq!(ServerCommand::from_keycode(Key::ArrowLeft), Some(ServerCommand::Prev));
    assert_eq!(ServerCommand::from_keycode(Key::Char('x')), None);
    assert_eq!(ServerCommand::from_keycode(Key::Other), None);
}

#[test]
fn command_labels() {
    assert_eq!(ServerCommand::Fullscreen.label(), "Fullscreen");
    assert_eq!(ServerCommand::Rotate.label(), "Rotate");
    assert_eq!(ServerCommand::Fetch.label(), "Fetch");
    assert_eq!(ServerCommand::Pageant.label(), "Pageant");
    assert_eq!(ServerCommand::Next.label(), "Next");
    assert_eq!(ServerCommand::Prev.label(), "Previous");
}

use viewd::client::{client_step, display_line, ClientAction};
use viewd::image::Image;
use viewd::model::{Key, Response, ServerCommand};

fn bytes_of(s: &str) -> Vec<u8> {
    s.as_bytes().to_vec()
}

#[test]
fn client_step_exit_keys() {
    assert!(matches!(client_step(Key::Char('q')), ClientAction::Exit));
    assert!(matches!(client_step(Key::Escape), ClientAction::Exit));
    assert!(matches!(client_step(Key::CtrlC), ClientAction::Exit));
}

#[test]
fn client_step_commands_and_ignores() {
    match client_step(Key::ArrowRight) {
        ClientAction::Send(req) => assert_eq!(req.command(), ServerCommand::Next),
        _ => panic!("expected a request"),
    }
    match client_step(Key::Char('f')) {
        ClientAction::Send(req) => assert_eq!(req.command(), ServerCommand::Fullscreen),
        _ => panic!("expected a request"),
    }
    assert!(matches!(client_step(Key::Char('z')), ClientAction::Ignore));
    assert!(matches!(client_step(Key::Other), ClientAction::Ignore));
}

#[test]
fn image_names() {
    let img = Image::new(&bytes_of("/a/b.txt")).expect("image");
    assert_eq!(img.path(), bytes_of("/a/b.txt"));
    assert_eq!(img.file_name(), bytes_of("b.txt"));
    assert_eq!(img.name(), bytes_of("b"));

    // A leading dot does not start an extension.
    let hidden = Image::new(&bytes_of(".bashrc")).expect("image");
    assert_eq!(hidden.name(), bytes_of(".bashrc"));

    // Only the last extension is stripped.
    let tar = Image::new(&bytes_of("foo.tar.gz")).expect("image");
    assert_eq!(tar.name(), bytes_of("foo.tar"));

    // No resolvable name.
    assert!(Image::new(&bytes_of("dir/")).is_none());
    assert!(Image::new(&bytes_of("..")).is_none());
    assert!(Image::new(&bytes_of("")).is_none());
}

#[test]
fn display_line_shows_stem() {
    let resp = Response::new(Some(bytes_of("/pics/cat.png")), None, bytes_of("Success"));
    assert_eq!(display_line(&resp), Some(bytes_of("cat")));
    let no_path = Response::new(None, None, bytes_of("Success"));
    assert_eq!(display_line(&no_path), None);
}

use viewd::controller::{Action, Controller, Step, UiEvent};
use viewd::cursor::PathCursor;
use viewd::model::{Key, Request, ServerCommand};

fn bytes_of(s: &str) -> Vec<u8> {
    s.as_bytes().to_vec()
}

fn controller_over(names: &[&str]) -> Controller {
    let entries: Vec<Vec<u8>> = names.iter().map(|n| bytes_of(n)).collect();
    let cursor = PathCursor::import_files(entries).expect("import");
    Controller::new(cursor)
}

fn request_bytes(c: ServerCommand) -> Vec<u8> {
    Request::from_command(c).to_bytes()
}

/// Drive one command to its reply, with `bad` the set of unloadable items;
/// returns the reply and every path that was rendered on the way.
fn drive(
    ctrl: &mut Controller,
    conn: u64,
    cmd: ServerCommand,
    bad: &[Vec<u8>],
) -> (Option<u64>, Vec<u8>, Vec<Vec<u8>>) {
    let mut rendered = Vec::new();
    let mut step = ctrl
        .handle_request(conn, &request_bytes(cmd), 0)
        .expect("decode");
    loop {
        step = match step {
            Step::Reply(t) => {
                return (t.conn, t.response.message().clone(), rendered);
            }
            Step::Act(Action::Probe(p)) => ctrl.on_probe(!bad.contains(&p)),
            Step::Act(Action::Render(p)) => {
                rendered.push(p);
                ctrl.on_display_done(Ok(()))
            }
            Step::Act(Action::ToggleFullscreen(_)) => ctrl.on_display_done(Ok(())),
            Step::Act(Action::Rotate(_)) => ctrl.on_display_done(Ok(())),
            Step::Act(Action::ReadFile(p)) => ctrl.on_read_done(Ok(p)),
        };
    }
}

#[test]
fn advance_renders_next_item() {
    let mut ctrl = controller_over(&["a.png", "b.png", "c.png"]);
    // The controller starts on the first item; advancing shows the second.
    let (conn, msg, rendered) = drive(&mut ctrl, 7, ServerCommand::Next, &[]);
    assert_eq!(conn, Some(7));
    assert_eq!(msg, bytes_of("Success"));
    assert_eq!(rendered, vec![bytes_of("b.png")]);
}

#[test]
fn skip_and_delete_dispatch() {
    // One unloadable item between two loadable ones: it is never rendered,
    // and is gone from the set afterwards.
    let mut ctrl = controller_over(&["a.png", "b.png", "c.png"]);
    let bad = vec![bytes_of("b.png")];
    let (_, msg, rendered) = drive(&mut ctrl, 1, ServerCommand::Next, &bad);
    assert_eq!(msg, bytes_of("Success"));
    // The rejected item is deleted and the cursor, which does not re-point,
    // wraps to the first remaining item.
    assert_eq!(rendered, vec![bytes_of("a.png")]);
    assert!(!rendered.contains(&bytes_of("b.png")));
    assert!(!ctrl.nav.cursor.paths.contains(&bytes_of("b.png")));
    assert_eq!(ctrl.nav.cursor.len, 2);
    // Repeated advances now cycle over the two loadable items only.
    for _ in 0..4 {
        let (_, msg, rendered) = drive(&mut ctrl, 1, ServerCommand::Next, &bad);
        assert_eq!(msg, bytes_of("Success"));
        assert_eq!(rendered.len(), 1);
        assert_ne!(rendered[0], bytes_of("b.png"));
    }
}

#[test]
fn exhaustion_yields_error_response() {
    // A single unloadable item: the advance deletes it and reports an error.
    let mut ctrl = controller_over(&["a.png"]);
    let bad = vec![bytes_of("a.png")];
    let (conn, msg, rendered) = drive(&mut ctrl, 3, ServerCommand::Next, &bad);
    assert_eq!(conn, Some(3));
    assert_eq!(msg, bytes_of("Error: image get error"));
    assert!(rendered.is_empty());
    assert_eq!(ctrl.nav.cursor.len, 0);
    // Dispatching an advance against the now-empty set again yields an error
    // response, never a panic.
    let (conn, msg, rendered) = drive(&mut ctrl, 4, ServerCommand::Next, &bad);
    assert_eq!(conn, Some(4));
    assert_eq!(msg, bytes_of("Error: image get error"));
    assert!(rendered.is_empty());
}

#[test]
fn response_pairing_two_connections() {
    // Requests from two connections, handled in turn by the single control
    // loop: each reply carries the tag of the connection that asked, and its
    // content matches that connection's request.
    let mut ctrl = controller_over(&["a.png", "b.png"]);
    let (conn1, msg1, _) = drive(&mut ctrl, 1, ServerCommand::Fetch, &[]);
    let (conn2, msg2, rendered2) = drive(&mut ctrl, 2, ServerCommand::Next, &[]);
    let (conn3, _, _) = drive(&mut ctrl, 1, ServerCommand::Pageant, &[]);
    assert_eq!(conn1, Some(1));
    assert_eq!(conn2, Some(2));
    assert_eq!(conn3, Some(1));
    assert_eq!(msg1, bytes_of("Success"));
    assert_eq!(msg2, bytes_of("Success"));
    assert_eq!(rendered2, vec![bytes_of("b.png")]);
}

#[test]
fn fetch_carries_bytes_and_keeps_position() {
    let mut ctrl = controller_over(&["a.png", "b.png"]);
    let step = ctrl
        .handle_request(9, &request_bytes(ServerCommand::Fetch), 0)
        .expect("decode");
    let path = match step {
        Step::Act(Action::ReadFile(p)) => p,
        _ => panic!("expected a read"),
    };
    assert_eq!(path, bytes_of("a.png"));
    let reply = match ctrl.on_read_done(Ok(vec![9, 8, 7])) {
        Step::Reply(t) => t,
        _ => panic!("expected the reply"),
    };
    assert_eq!(reply.conn, Some(9));
    assert_eq!(reply.response.bytes().map(|b| b.clone()), Some(vec![9, 8, 7]));
    assert_eq!(
        reply.response.path().map(|p| p.clone()),
        Some(bytes_of("a.png"))
    );
    // Fetch never moves the cursor.
    assert_eq!(ctrl.nav.cursor.index, Some(0));
}

#[test]
fn display_error_becomes_error_response() {
    let mut ctrl = controller_over(&["a.png"]);
    let step = ctrl
        .handle_request(5, &request_bytes(ServerCommand::Rotate), 0)
        .expect("decode");
    match step {
        Step::Act(Action::Rotate(p)) => assert_eq!(p, bytes_of("a.png")),
        _ => panic!("expected a rotate"),
    }
    let reply = match ctrl.on_display_done(Err(bytes_of("Error: rotate failed"))) {
        Step::Reply(t) => t,
        _ => panic!("expected the reply"),
    };
    assert_eq!(reply.conn, Some(5));
    assert_eq!(reply.response.message().clone(), bytes_of("Error: rotate failed"));
    assert!(reply.response.bytes().is_none());
}

#[test]
fn pageant_toggle_and_fire() {
    let mut ctrl = controller_over(&["a.png", "b.png"]);
    // Not armed: polling does nothing.
    assert!(ctrl.pageant(10).is_none());
    // Arm it through the dispatch path.
    let (conn, msg, _) = drive(&mut ctrl, 2, ServerCommand::Pageant, &[]);
    assert_eq!(conn, Some(2));
    assert_eq!(msg, bytes_of("Success"));
    // Not due yet.
    assert!(ctrl.pageant(10).is_none());
    // Due: the poll issues an advance through the same dispatch path.
    let step = ctrl.pageant(2000).expect("fires");
    let p = match step {
        Step::Act(Action::Probe(p)) => p,
        _ => panic!("expected a probe"),
    };
    assert_eq!(p, bytes_of("b.png"));
    match ctrl.on_probe(true) {
        Step::Act(Action::Render(p)) => assert_eq!(p, bytes_of("b.png")),
        _ => panic!("expected a render"),
    }
    // The internally issued advance has no connection to answer.
    match ctrl.on_display_done(Ok(())) {
        Step::Reply(t) => assert_eq!(t.conn, None),
        _ => panic!("expected the reply"),
    }
}

#[test]
fn undecodable_request_is_rejected() {
    let mut ctrl = controller_over(&["a.png"]);
    assert!(ctrl.handle_request(1, &vec![99], 0).is_err());
    // The controller is untouched and keeps serving.
    let (conn, msg, _) = drive(&mut ctrl, 1, ServerCommand::Pageant, &[]);
    assert_eq!(conn, Some(1));
    assert_eq!(msg, bytes_of("Success"));
}

#[test]
fn handle_events_exit_keys() {
    assert!(Controller::handle_events(&vec![UiEvent::Quit]));
    assert!(Controller::handle_events(&vec![
        UiEvent::Other,
        UiEvent::KeyDown(Key::Escape)
    ]));
    assert!(Controller::handle_events(&vec![UiEvent::KeyDown(Key::Char('q'))]));
    assert!(!Controller::handle_events(&vec![
        UiEvent::Other,
        UiEvent::KeyDown(Key::Char('f'))
    ]));
    assert!(!Controller::handle_events(&Vec::new()));
}

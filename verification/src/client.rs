//! Client-side decisions: what one key press means, and what line a
//! response is shown as.
//!
//! The terminal reads keys and the network carries bytes at the process
//! edge; the decisions in between are here.

use vstd::prelude::*;

use crate::image::Image;
use crate::model::{spec_command_of_key, Key, Request, Response};
use crate::paths::spec_file_stem;

verus! {

/// What the client loop does with one key press.
pub enum ClientAction {
    /// Leave the loop and shut down.
    Exit,
    /// Send this request to the server.
    Send(Request),
    /// Nothing: the key stands for no command.
    Ignore,
}

/// Whether a key asks the client to exit: `q`, escape, or control-C.
pub open spec fn spec_exit_key(key: Key) -> bool {
    key == Key::Char('q') || key == Key::Escape || key == Key::CtrlC
}

/// Decide what one key press means: exit keys end the loop, keys that stand
/// for a command become a request, everything else is ignored.
pub fn client_step(key: Key) -> (r: ClientAction)
    ensures
        spec_exit_key(key) ==> r is Exit,
        !spec_exit_key(key) ==> match spec_command_of_key(key) {
            Some(c) => r matches ClientAction::Send(req) && req.command == c,
            None => r is Ignore,
        },
{
    let exit = match key {
        Key::Escape => true,
        Key::CtrlC => true,
        Key::Char(c) => c == 'q',
        _ => false,
    };
    if exit {
        return ClientAction::Exit;
    }
    match Request::new(key) {
        Some(req) => ClientAction::Send(req),
        None => ClientAction::Ignore,
    }
}

/// The line the client prints for a response: the display name of the item
/// the response names; nothing when it names none, or one without a
/// resolvable file name.
pub fn display_line(resp: &Response) -> (r: Option<Vec<u8>>)
    ensures
        match resp@.path {
            Some(p) => match spec_file_stem(p) {
                Some(s) => r matches Some(l) && l@ == s,
                None => r is None,
            },
            None => r is None,
        },
{
    let path = match resp.path() {
        Some(p) => p,
        None => {
            return None;
        },
    };
    match Image::new(path) {
        Some(img) => Some(img.name()),
        None => None,
    }
}

} // verus!

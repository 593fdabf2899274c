//! Messages exchanged between client and display process: the command set,
//! the request and response records, and the mapping from terminal keys to
//! commands.
//!
//! Paths and status messages are carried as byte vectors: the wire format and
//! the item set are defined over plain bytes, and the process edges turn them
//! into platform path and string types.

use vstd::prelude::*;

verus! {

/// Possible commands to execute on the server.
#[derive(Debug, Clone, Copy, PartialEq, Eq, Structural)]
pub enum ServerCommand {
    /// Go back to the previous image.
    Prev,
    /// Advance by one image.
    Next,
    /// Toggle fullscreen.
    Fullscreen,
    /// Rotate clockwise by one step.
    Rotate,
    /// Toggle the auto-advance timer.
    Pageant,
    /// Download the current image to the client.
    Fetch,
}

/// A terminal key, as the client's input decoding reports it.  Only the keys
/// the client reacts to are distinguished; everything else is `Other`.
#[derive(Debug, Clone, Copy, PartialEq, Eq, Structural)]
pub enum Key {
    Char(char),
    Space,
    ArrowRight,
    ArrowLeft,
    Escape,
    CtrlC,
    Other,
}

impl ServerCommand {
    /// The command a key stands for, if any: `f` fullscreen, `r` rotate,
    /// `s` fetch, `p` or space pageant, arrow right next, arrow left previous.
    pub fn from_keycode(code: Key) -> (r: Option<ServerCommand>)
        ensures
            r == spec_command_of_key(code),
    {
        match code {
            Key::Char('f') => Some(Self::Fullscreen),
            Key::Char('r') => Some(Self::Rotate),
            Key::Char('s') => Some(Self::Fetch),
            Key::Char('p') | Key::Space => Some(Self::Pageant),
            Key::ArrowRight => Some(Self::Next),
            Key::ArrowLeft => Some(Self::Prev),
            _ => None,
        }
    }

    /// A short human-readable name for the command.
    pub fn label(&self) -> (r: &'static str)
        ensures
            r@ == spec_label(*self),
    {
        match self {
            Self::Fullscreen => "Fullscreen",
            Self::Rotate => "Rotate",
            Self::Fetch => "Fetch",
            Self::Pageant => "Pageant",
            Self::Next => "Next",
            Self::Prev => "Previous",
        }
    }
}

/// The key-to-command table.
pub open spec fn spec_command_of_key(code: Key) -> Option<ServerCommand> {
    match code {
        Key::Char(c) => if c == 'f' {
            Some(ServerCommand::Fullscreen)
        } else if c == 'r' {
            Some(ServerCommand::Rotate)
        } else if c == 's' {
            Some(ServerCommand::Fetch)
        } else if c == 'p' {
            Some(ServerCommand::Pageant)
        } else {
            None
        },
        Key::Space => Some(ServerCommand::Pageant),
        Key::ArrowRight => Some(ServerCommand::Next),
        Key::ArrowLeft => Some(ServerCommand::Prev),
        _ => None,
    }
}

/// The name `label` returns for each command.
pub open spec fn spec_label(c: ServerCommand) -> Seq<char> {
    match c {
        ServerCommand::Fullscreen => "Fullscreen"@,
        ServerCommand::Rotate => "Rotate"@,
        ServerCommand::Fetch => "Fetch"@,
        ServerCommand::Pageant => "Pageant"@,
        ServerCommand::Next => "Next"@,
        ServerCommand::Prev => "Previous"@,
    }
}

/// A command sent to the server.
#[derive(Debug, Clone)]
pub struct Request {
    /// Command to execute on the server.
    pub command: ServerCommand,
}

impl Request {
    /// The request a key gives rise to, if the key stands for a command.
    pub fn new(code: Key) -> (r: Option<Request>)
        ensures
            match spec_command_of_key(code) {
                Some(c) => r matches Some(req) && req.command == c,
                None => r is None,
            },
    {
        match ServerCommand::from_keycode(code) {
            Some(command) => Some(Request { command }),
            None => None,
        }
    }

    /// Build a request directly from a command.
    pub fn from_command(command: ServerCommand) -> (r: Request)
        ensures
            r.command == command,
    {
        Request { command }
    }

    /// The wrapped command.
    pub fn command(&self) -> (r: ServerCommand)
        ensures
            r == self.command,
    {
        self.command
    }

    /// The wrapped command, for contracts.
    pub open spec fn spec_command(self) -> ServerCommand {
        self.command
    }
}

/// The result of handling one request.
#[derive(Debug, Clone)]
pub struct Response {
    /// Path of the image currently on display, as bytes.
    pub path: Option<Vec<u8>>,
    /// Human-readable status: success or an error description, as UTF-8 bytes.
    pub message: Vec<u8>,
    /// Image data, present only when the request was a fetch.
    pub bytes: Option<Vec<u8>>,
}

/// The byte sequence an optional byte vector holds.
pub open spec fn opt_view(o: Option<Vec<u8>>) -> Option<Seq<u8>> {
    match o {
        Some(v) => Some(v@),
        None => None,
    }
}

/// The mathematical value of a response.
pub struct ResponseModel {
    pub path: Option<Seq<u8>>,
    pub message: Seq<u8>,
    pub bytes: Option<Seq<u8>>,
}

impl Response {
    /// Assemble a response from its parts.
    pub fn new(path: Option<Vec<u8>>, bytes: Option<Vec<u8>>, message: Vec<u8>) -> (r: Response)
        ensures
            r@ == (ResponseModel { path: opt_view(path), message: message@, bytes: opt_view(bytes) }),
    {
        Response { path, message, bytes }
    }

    /// Path of the image currently on display, if the response names one.
    pub fn path(&self) -> (r: Option<&Vec<u8>>)
        ensures
            match r {
                Some(p) => self@.path == Some(p@),
                None => self@.path is None,
            },
    {
        self.path.as_ref()
    }

    /// The status message.
    pub fn message(&self) -> (r: &Vec<u8>)
        ensures
            r@ == self@.message,
    {
        &self.message
    }

    /// The fetched image data, if any.
    pub fn bytes(&self) -> (r: Option<&Vec<u8>>)
        ensures
            match r {
                Some(b) => self@.bytes == Some(b@),
                None => self@.bytes is None,
            },
    {
        self.bytes.as_ref()
    }
}

impl View for Response {
    type V = ResponseModel;

    open spec fn view(&self) -> ResponseModel {
        ResponseModel {
            path: opt_view(self.path),
            message: self.message@,
            bytes: opt_view(self.bytes),
        }
    }
}

} // verus!

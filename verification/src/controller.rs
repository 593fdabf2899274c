//! Command dispatch: the state machine that turns each incoming command into
//! exactly one response.
//!
//! The controller owns the navigator and the auto-advance timer, but not the
//! display or the files: work for those comes back from `handle_command` as
//! an [`Action`], and the control loop reports the outcome through the
//! matching `on_*` event method.  Every request ends in exactly one
//! [`Step::Reply`], tagged with the connection that sent it, so responses can
//! never be delivered to another connection's request.
//!
//! Advance and retreat follow the skip-and-delete policy: a candidate item is
//! probed first, and a candidate the display rejects is removed from the set
//! before the next one is tried, until the set runs empty.

use vstd::prelude::*;

use crate::codec::{spec_decode_request, DecodeError};
use crate::cursor::{advance_from, retreat_from, PathCursor};
use crate::model::{Key, Request, Response, ServerCommand};
use crate::navigator::Navigator;
use crate::pageant::{PageantMode, PAGEANT_INTERVAL_MS};

verus! {

/// Work the control loop must hand to an outside collaborator: the display
/// or the file loader.
pub enum Action {
    /// Ask the display whether it can load the item (no side effect).
    Probe(Vec<u8>),
    /// Show the item.
    Render(Vec<u8>),
    /// Toggle fullscreen, re-rendering the item.
    ToggleFullscreen(Vec<u8>),
    /// Rotate one step, re-rendering the item.
    Rotate(Vec<u8>),
    /// Read the item's bytes from storage.
    ReadFile(Vec<u8>),
}

/// A response together with the connection tag of the request it answers;
/// untagged (`None`) for commands the process issued itself, whose responses
/// are not delivered anywhere.
pub struct TaggedResponse {
    pub conn: Option<u64>,
    pub response: Response,
}

/// What one dispatch step yields: outside work to perform, or the finished
/// response.
pub enum Step {
    Act(Action),
    Reply(TaggedResponse),
}

/// What the controller is waiting for.
#[derive(Clone, Copy)]
pub enum Pending {
    /// No request in flight.
    Idle,
    /// A probe of the item at the cursor is out; `forward` is the travel
    /// direction of the request being served.
    Probing { forward: bool, conn: Option<u64> },
    /// A render, fullscreen or rotate outcome is awaited.
    AwaitDisplay { conn: Option<u64> },
    /// A file read for a fetch is awaited.
    AwaitRead { conn: Option<u64> },
}

/// The status message of a successful response.
pub open spec fn msg_success() -> Seq<u8> {
    seq![83u8, 117u8, 99u8, 99u8, 101u8, 115u8, 115u8]
}

/// The status message when no loadable item remains.
pub open spec fn msg_exhausted() -> Seq<u8> {
    seq![
        69u8, 114u8, 114u8, 111u8, 114u8, 58u8, 32u8, 105u8, 109u8, 97u8, 103u8, 101u8, 32u8,
        103u8, 101u8, 116u8, 32u8, 101u8, 114u8, 114u8, 111u8, 114u8,
    ]
}

/// The bytes of `"Success"`.
fn make_msg_success() -> (r: Vec<u8>)
    ensures
        r@ == msg_success(),
{
    let mut v: Vec<u8> = Vec::new();
    v.push(83u8);
    v.push(117u8);
    v.push(99u8);
    v.push(99u8);
    v.push(101u8);
    v.push(115u8);
    v.push(115u8);
    proof {
        assert(v@ =~= msg_success());
    }
    v
}

/// The bytes of `"Error: image get error"`.
fn make_msg_exhausted() -> (r: Vec<u8>)
    ensures
        r@ == msg_exhausted(),
{
    let mut v: Vec<u8> = Vec::new();
    v.push(69u8);
    v.push(114u8);
    v.push(114u8);
    v.push(111u8);
    v.push(114u8);
    v.push(58u8);
    v.push(32u8);
    v.push(105u8);
    v.push(109u8);
    v.push(97u8);
    v.push(103u8);
    v.push(101u8);
    v.push(32u8);
    v.push(103u8);
    v.push(101u8);
    v.push(116u8);
    v.push(32u8);
    v.push(101u8);
    v.push(114u8);
    v.push(114u8);
    v.push(111u8);
    v.push(114u8);
    proof {
        assert(v@ =~= msg_exhausted());
    }
    v
}

/// A window or input event, as the process edge reports it.
pub enum UiEvent {
    /// The window was asked to close.
    Quit,
    /// A key was pressed.
    KeyDown(Key),
    /// Anything else.
    Other,
}

/// Whether one event asks the process to exit: a quit event, or the escape
/// or `q` key.
pub open spec fn spec_exit_requested(event: UiEvent) -> bool {
    match event {
        UiEvent::Quit => true,
        UiEvent::KeyDown(k) => k == Key::Escape || k == Key::Char('q'),
        UiEvent::Other => false,
    }
}

/// Issues commands from the network to the navigator, the timer, and -- as
/// actions handed back to the control loop -- the display.
pub struct Controller {
    /// Holds the cursor for moving through the item set.
    pub nav: Navigator,
    /// If armed, the display advances automatically at a fixed interval.
    pub pageant: PageantMode,
    /// What the controller is waiting for.
    pub pending: Pending,
}

impl Controller {
    /// The navigator is well formed, and while a probe is out the cursor
    /// points at the probed item, which is the remembered image.
    pub open spec fn wf(self) -> bool {
        &&& self.nav.wf()
        &&& (self.pending matches Pending::Probing { .. } ==> self.nav.cursor.selected()
            && self.nav.image@ == self.nav.cursor.items()[self.nav.cursor.sel()])
    }

    /// No request is in flight.
    pub open spec fn is_idle(self) -> bool {
        self.pending is Idle
    }

    /// The connection tag of the request in flight.
    pub open spec fn pending_conn(self) -> Option<u64> {
        match self.pending {
            Pending::Idle => None,
            Pending::Probing { conn, .. } => conn,
            Pending::AwaitDisplay { conn } => conn,
            Pending::AwaitRead { conn } => conn,
        }
    }

    /// The travel direction of the navigation request in flight.
    pub open spec fn pending_forward(self) -> bool {
        match self.pending {
            Pending::Probing { forward, .. } => forward,
            _ => true,
        }
    }

    /// Whether no request is in flight, so a command may be dispatched.
    pub fn idle(&self) -> (r: bool)
        ensures
            r == self.is_idle(),
    {
        matches!(self.pending, Pending::Idle)
    }

    /// A controller over a freshly imported item set: first item selected,
    /// timer disarmed, nothing in flight.
    pub fn new(cursor: PathCursor) -> (r: Self)
        requires
            cursor.wf(),
            cursor.len > 0,
            cursor.index is None,
        ensures
            r.wf(),
            r.is_idle(),
            r.pageant.instant is None,
            r.pageant.timeout == PAGEANT_INTERVAL_MS,
            r.nav.cursor.items() == cursor.items(),
            r.nav.cursor.len == cursor.len,
            r.nav.cursor.pos() == Some(0int),
            r.nav.image@ == cursor.items()[0],
    {
        Controller { nav: Navigator::new(cursor), pageant: PageantMode::new(), pending: Pending::Idle }
    }

    /// Dispatch one command.  Requires nothing in flight; yields either the
    /// finished reply or the first piece of outside work.
    pub fn handle_command(&mut self, command: ServerCommand, conn: Option<u64>, now: u64) -> (step:
        Step)
        requires
            old(self).wf(),
            old(self).is_idle(),
        ensures
            submit_post(*old(self), *final(self), command, conn, now, step),
    {
        match command {
            ServerCommand::Fetch => {
                let p = self.nav.image_path();
                self.pending = Pending::AwaitRead { conn };
                Step::Act(Action::ReadFile(p))
            },
            ServerCommand::Fullscreen => {
                let p = self.nav.image_path();
                self.pending = Pending::AwaitDisplay { conn };
                Step::Act(Action::ToggleFullscreen(p))
            },
            ServerCommand::Rotate => {
                let p = self.nav.image_path();
                self.pending = Pending::AwaitDisplay { conn };
                Step::Act(Action::Rotate(p))
            },
            ServerCommand::Pageant => {
                self.pageant.toggle(now);
                let path = self.nav.image_path();
                let msg = make_msg_success();
                Step::Reply(TaggedResponse { conn, response: Response::new(Some(path), None, msg) })
            },
            ServerCommand::Next => self.begin_nav(true, conn),
            ServerCommand::Prev => self.begin_nav(false, conn),
        }
    }

    /// Start serving an advance or retreat: move the cursor and send the new
    /// candidate out for probing, or reply at once that the set is empty.
    fn begin_nav(&mut self, forward: bool, conn: Option<u64>) -> (step: Step)
        requires
            old(self).wf(),
            old(self).is_idle(),
        ensures
            final(self).wf(),
            final(self).pageant == old(self).pageant,
            nav_submit_post(*old(self), *final(self), forward, conn, step),
    {
        let candidate = if forward {
            self.nav.next()
        } else {
            self.nav.prev()
        };
        match candidate {
            Some(p) => {
                self.pending = Pending::Probing { forward, conn };
                Step::Act(Action::Probe(p))
            },
            None => {
                let path = self.nav.image_path();
                let msg = make_msg_exhausted();
                Step::Reply(TaggedResponse { conn, response: Response::new(Some(path), None, msg) })
            },
        }
    }

    /// Report a probe outcome.  A loadable candidate goes on to be rendered;
    /// an unloadable one is removed from the set and the next candidate goes
    /// out for probing, until the set runs empty.
    pub fn on_probe(&mut self, loaded: bool) -> (step: Step)
        requires
            old(self).wf(),
            old(self).pending matches Pending::Probing { .. },
        ensures
            probe_post(*old(self), *final(self), loaded, step),
    {
        let (forward, conn) = match self.pending {
            Pending::Probing { forward, conn } => (forward, conn),
            _ => vstd::pervasive::unreached(),
        };
        if loaded {
            let p = self.nav.image_path();
            self.pending = Pending::AwaitDisplay { conn };
            Step::Act(Action::Render(p))
        } else {
            self.nav.delete();
            let candidate = if forward {
                self.nav.next()
            } else {
                self.nav.prev()
            };
            match candidate {
                Some(p) => {
                    self.pending = Pending::Probing { forward, conn };
                    Step::Act(Action::Probe(p))
                },
                None => {
                    self.pending = Pending::Idle;
                    let path = self.nav.image_path();
                    let msg = make_msg_exhausted();
                    Step::Reply(
                        TaggedResponse { conn, response: Response::new(Some(path), None, msg) },
                    )
                },
            }
        }
    }

    /// Report the outcome of a render, fullscreen or rotate: the reply for
    /// the request in flight, successful or carrying the display's error
    /// text.
    pub fn on_display_done(&mut self, result: Result<(), Vec<u8>>) -> (step: Step)
        requires
            old(self).wf(),
            old(self).pending matches Pending::AwaitDisplay { .. },
        ensures
            display_post(*old(self), *final(self), result, step),
    {
        let conn = match self.pending {
            Pending::AwaitDisplay { conn } => conn,
            _ => vstd::pervasive::unreached(),
        };
        self.pending = Pending::Idle;
        let path = self.nav.image_path();
        let msg = match result {
            Ok(_) => make_msg_success(),
            Err(m) => m,
        };
        Step::Reply(TaggedResponse { conn, response: Response::new(Some(path), None, msg) })
    }

    /// Report the outcome of a file read for a fetch: the reply carries the
    /// bytes, or the reader's error text and no payload.
    pub fn on_read_done(&mut self, result: Result<Vec<u8>, Vec<u8>>) -> (step: Step)
        requires
            old(self).wf(),
            old(self).pending matches Pending::AwaitRead { .. },
        ensures
            read_post(*old(self), *final(self), result, step),
    {
        let conn = match self.pending {
            Pending::AwaitRead { conn } => conn,
            _ => vstd::pervasive::unreached(),
        };
        self.pending = Pending::Idle;
        let path = self.nav.image_path();
        match result {
            Ok(data) => {
                let msg = make_msg_success();
                Step::Reply(
                    TaggedResponse { conn, response: Response::new(Some(path), Some(data), msg) },
                )
            },
            Err(m) => {
                Step::Reply(TaggedResponse { conn, response: Response::new(Some(path), None, m) })
            },
        }
    }

    /// Decode one wire request from a connection and dispatch it.  A request
    /// that does not decode is rejected without touching any state.
    pub fn handle_request(&mut self, conn: u64, bytes: &Vec<u8>, now: u64) -> (r: Result<
        Step,
        DecodeError,
    >)
        requires
            old(self).wf(),
            old(self).is_idle(),
        ensures
            match r {
                Ok(step) => spec_decode_request(bytes@) matches Some(c) && submit_post(
                    *old(self),
                    *final(self),
                    c,
                    Some(conn),
                    now,
                    step,
                ),
                Err(_) => spec_decode_request(bytes@) is None && *final(self) == *old(self),
            },
    {
        let req = match Request::from_bytes(bytes) {
            Ok(rq) => rq,
            Err(e) => {
                return Err(e);
            },
        };
        Ok(self.handle_command(req.command(), Some(conn), now))
    }

    /// Advance by one item, as the process itself requests it (startup and
    /// auto-advance).
    pub fn next(&mut self) -> (step: Step)
        requires
            old(self).wf(),
            old(self).is_idle(),
        ensures
            submit_post(*old(self), *final(self), ServerCommand::Next, None, 0, step),
    {
        self.handle_command(ServerCommand::Next, None, 0)
    }

    /// Retreat by one item, as the process itself requests it.
    pub fn prev(&mut self) -> (step: Step)
        requires
            old(self).wf(),
            old(self).is_idle(),
        ensures
            submit_post(*old(self), *final(self), ServerCommand::Prev, None, 0, step),
    {
        self.handle_command(ServerCommand::Prev, None, 0)
    }

    /// Poll the auto-advance timer: when armed and due, reset it and issue
    /// an advance through the same dispatch path as a remote command.
    pub fn pageant(&mut self, now: u64) -> (step: Option<Step>)
        requires
            old(self).wf(),
            old(self).is_idle(),
        ensures
            !old(self).pageant.fires_at(now) ==> step is None && *final(self) == *old(self),
            old(self).pageant.fires_at(now) ==> (step matches Some(s) && submit_post(
                (Controller {
                    nav: old(self).nav,
                    pageant: (PageantMode {
                        timeout: old(self).pageant.timeout,
                        instant: Some(now),
                    }),
                    pending: old(self).pending,
                }),
                *final(self),
                ServerCommand::Next,
                None,
                now,
                s,
            )),
    {
        if self.pageant.should_update(now) {
            self.pageant.set_instant(now);
            let s = self.handle_command(ServerCommand::Next, None, now);
            Some(s)
        } else {
            None
        }
    }

    /// Whether any polled event asks the process to exit: a quit event, or
    /// the escape or `q` key.
    pub fn handle_events(events: &Vec<UiEvent>) -> (exit: bool)
        ensures
            exit == exists|i: int|
                0 <= i < events@.len() && spec_exit_requested(#[trigger] events@[i]),
    {
        let mut t: usize = 0;
        while t < events.len()
            invariant
                t <= events@.len(),
                forall|i: int| 0 <= i < t ==> !spec_exit_requested(#[trigger] events@[i]),
            decreases events@.len() - t,
        {
            let hit = match events[t] {
                UiEvent::Quit => true,
                UiEvent::KeyDown(Key::Escape) => true,
                UiEvent::KeyDown(Key::Char(c)) => c == 'q',
                _ => false,
            };
            if hit {
                return true;
            }
            t = t + 1;
        }
        false
    }
}

/// What dispatching `command` establishes: the step produced, the new
/// pending state, and how the navigator and timer moved.
pub open spec fn submit_post(
    pre: Controller,
    post: Controller,
    command: ServerCommand,
    conn: Option<u64>,
    now: u64,
    step: Step,
) -> bool {
    &&& post.wf()
    &&& match command {
        ServerCommand::Pageant => {
            &&& step matches Step::Reply(t) && t.conn == conn && t.response@.path == Some(
                pre.nav.image@,
            ) && t.response@.message == msg_success() && t.response@.bytes is None
            &&& post.pending is Idle
            &&& post.nav == pre.nav
            &&& (pre.pageant.instant is Some ==> post.pageant.instant is None)
            &&& (pre.pageant.instant is None ==> post.pageant.instant == Some(now))
            &&& post.pageant.timeout == pre.pageant.timeout
        },
        ServerCommand::Fetch => {
            &&& step matches Step::Act(Action::ReadFile(p)) && p@ == pre.nav.image@
            &&& post.pending == (Pending::AwaitRead { conn })
            &&& post.nav == pre.nav
            &&& post.pageant == pre.pageant
        },
        ServerCommand::Fullscreen => {
            &&& step matches Step::Act(Action::ToggleFullscreen(p)) && p@ == pre.nav.image@
            &&& post.pending == (Pending::AwaitDisplay { conn })
            &&& post.nav == pre.nav
            &&& post.pageant == pre.pageant
        },
        ServerCommand::Rotate => {
            &&& step matches Step::Act(Action::Rotate(p)) && p@ == pre.nav.image@
            &&& post.pending == (Pending::AwaitDisplay { conn })
            &&& post.nav == pre.nav
            &&& post.pageant == pre.pageant
        },
        ServerCommand::Next => post.pageant == pre.pageant && nav_submit_post(
            pre,
            post,
            true,
            conn,
            step,
        ),
        ServerCommand::Prev => post.pageant == pre.pageant && nav_submit_post(
            pre,
            post,
            false,
            conn,
            step,
        ),
    }
}

/// What starting an advance (`forward`) or retreat establishes: on an empty
/// set, an immediate error reply and no change; otherwise the cursor moves
/// one step with wrap-around and the candidate item goes out for probing.
pub open spec fn nav_submit_post(
    pre: Controller,
    post: Controller,
    forward: bool,
    conn: Option<u64>,
    step: Step,
) -> bool {
    if pre.nav.cursor.len == 0 {
        &&& step matches Step::Reply(t) && t.conn == conn && t.response@.path == Some(
            pre.nav.image@,
        ) && t.response@.message == msg_exhausted() && t.response@.bytes is None
        &&& post == pre
    } else {
        let len = pre.nav.cursor.len as int;
        let k = if forward {
            advance_from(pre.nav.cursor.pos(), len)
        } else {
            retreat_from(pre.nav.cursor.pos(), len)
        };
        &&& step matches Step::Act(Action::Probe(p)) && p@ == pre.nav.cursor.items()[k]
        &&& post.nav.cursor.items() == pre.nav.cursor.items()
        &&& post.nav.cursor.len == pre.nav.cursor.len
        &&& post.nav.cursor.pos() == Some(k)
        &&& post.nav.image@ == pre.nav.cursor.items()[k]
        &&& post.pending == (Pending::Probing { forward, conn })
    }
}

/// What reporting a probe outcome establishes.  A loadable candidate is sent
/// to be rendered.  An unloadable candidate is removed from the set -- it is
/// never rendered and never comes back -- and either the next candidate goes
/// out for probing or, when nothing remains, the request ends in an error
/// reply.
pub open spec fn probe_post(pre: Controller, post: Controller, loaded: bool, step: Step) -> bool {
    &&& post.wf()
    &&& post.pageant == pre.pageant
    &&& if loaded {
        &&& step matches Step::Act(Action::Render(p)) && p@ == pre.nav.image@
        &&& post.nav == pre.nav
        &&& post.pending == (Pending::AwaitDisplay { conn: pre.pending_conn() })
    } else {
        let remaining = pre.nav.cursor.items().remove(pre.nav.cursor.sel());
        &&& post.nav.cursor.items() == remaining
        &&& post.nav.cursor.len == pre.nav.cursor.len - 1
        &&& if remaining.len() == 0 {
            &&& step matches Step::Reply(t) && t.conn == pre.pending_conn() && t.response@.message
                == msg_exhausted() && t.response@.bytes is None
            &&& post.pending is Idle
        } else {
            let k = if pre.pending_forward() {
                advance_from(Some(pre.nav.cursor.sel()), remaining.len() as int)
            } else {
                retreat_from(Some(pre.nav.cursor.sel()), remaining.len() as int)
            };
            &&& step matches Step::Act(Action::Probe(p)) && p@ == remaining[k]
            &&& post.nav.cursor.pos() == Some(k)
            &&& post.nav.image@ == remaining[k]
            &&& post.pending == (Pending::Probing {
                forward: pre.pending_forward(),
                conn: pre.pending_conn(),
            })
        }
    }
}

/// What reporting a display outcome establishes: the request in flight ends
/// in exactly one reply, tagged with its connection, successful or carrying
/// the display's error text; navigation state is untouched.
pub open spec fn display_post(
    pre: Controller,
    post: Controller,
    result: Result<(), Vec<u8>>,
    step: Step,
) -> bool {
    &&& post.wf()
    &&& post.nav == pre.nav
    &&& post.pageant == pre.pageant
    &&& post.pending is Idle
    &&& step matches Step::Reply(t) && t.conn == pre.pending_conn() && t.response@.path == Some(
        pre.nav.image@,
    ) && t.response@.bytes is None && (match result {
        Ok(_) => t.response@.message == msg_success(),
        Err(m) => t.response@.message == m@,
    })
}

/// What reporting a file read outcome establishes: the fetch in flight ends
/// in exactly one reply, carrying the bytes on success and no payload
/// otherwise; navigation state is untouched.
pub open spec fn read_post(
    pre: Controller,
    post: Controller,
    result: Result<Vec<u8>, Vec<u8>>,
    step: Step,
) -> bool {
    &&& post.wf()
    &&& post.nav == pre.nav
    &&& post.pageant == pre.pageant
    &&& post.pending is Idle
    &&& step matches Step::Reply(t) && t.conn == pre.pending_conn() && t.response@.path == Some(
        pre.nav.image@,
    ) && (match result {
        Ok(data) => t.response@.message == msg_success() && t.response@.bytes == Some(data@),
        Err(m) => t.response@.message == m@ && t.response@.bytes is None,
    })
}

/// Response pairing: while a request is in flight its connection tag never
/// changes, and the reply that ends it carries exactly that tag, so a
/// response is never delivered to a connection other than the one whose
/// request produced it.
pub proof fn lemma_response_pairing(
    pre: Controller,
    post: Controller,
    step: Step,
    loaded: bool,
    dresult: Result<(), Vec<u8>>,
    rresult: Result<Vec<u8>, Vec<u8>>,
)
    requires
        probe_post(pre, post, loaded, step) || display_post(pre, post, dresult, step) || read_post(
            pre,
            post,
            rresult,
            step,
        ),
    ensures
        match step {
            Step::Reply(t) => t.conn == pre.pending_conn() && post.pending is Idle,
            Step::Act(_) => post.pending_conn() == pre.pending_conn() && !(post.pending is Idle),
        },
{
}

/// Exhaustion: dispatching an advance against an empty set always ends in an
/// error reply, with the exhaustion message and no payload.
pub proof fn lemma_exhausted_reply(
    pre: Controller,
    post: Controller,
    conn: Option<u64>,
    now: u64,
    step: Step,
)
    requires
        submit_post(pre, post, ServerCommand::Next, conn, now, step),
        pre.nav.cursor.len == 0,
    ensures
        step matches Step::Reply(t) && t.conn == conn && t.response@.message == msg_exhausted()
            && t.response@.bytes is None,
{
}

} // verus!

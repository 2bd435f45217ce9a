//! Attaching to a server, and leaving without taking it down: what is asked,
//! what every reply means, and what a user is told when it did not work.

use vstd::prelude::*;

use crate::capabilities::CapsError;
use crate::proto::{
    ClientMessage, ClientMessageView, ServerMessage, SessionId, SessionSummary, Size, TabSummary,
    TermCaps, WorkspaceStatus,
};
use crate::text::{chars_of, decimal, decimal_chars, push_all, string_of};

pub use crate::live::{session_size, FIXED_CHROME_ROWS};

verus! {

/// Everything attaching can refuse to do. What went wrong outside is carried as
/// the text a user can read.
#[derive(Debug, PartialEq, Eq)]
pub enum AttachError {
    /// The outer terminal's capabilities could not be negotiated.
    Capabilities(CapsError),
    /// Nothing is listening on the socket.
    NoDaemon(String),
    /// The socket could not be connected to.
    Connect { path: String, reason: String },
    /// The server turned the attach away, and said why.
    Refused(String),
    /// The server speaks a different protocol version.
    Version { theirs: u16, ours: u16 },
    /// The server replied with something other than a hello or a refusal.
    UnexpectedReply,
    /// The server closed before replying.
    Closed,
    /// The connection failed.
    Stream(String),
}

/// What a terminal that cannot be negotiated with is told.
pub open spec fn caps_text(error: CapsError) -> Seq<char> {
    error.cause()
        + ", so cloo cannot negotiate terminal capabilities for an attach; set TERM (for example TERM=xterm-256color) and attach again. Running cloo without attaching still gives you a local pane."@
}

/// `a`, `b` and `c` in one line.
fn line_of(a: &str, b: &str, c: &str) -> (line: String)
    ensures
        line@ == a@ + b@ + c@,
{
    let mut chars = chars_of(a);
    push_all(&mut chars, chars_of(b).as_slice());
    push_all(&mut chars, chars_of(c).as_slice());
    string_of(chars.as_slice())
}

impl AttachError {
    /// What the user is told.
    pub open spec fn text(self) -> Seq<char> {
        match self {
            AttachError::Capabilities(error) => caps_text(error),
            AttachError::NoDaemon(path) => "no cloo daemon is listening on "@ + path@
                + "; start one first"@,
            AttachError::Connect { path, reason } => "could not connect to "@ + path@ + (": "@
                + reason@),
            AttachError::Refused(reason) => "the cloo server refused the attach: "@ + reason@,
            AttachError::Version { theirs, ours } => "cloo protocol version mismatch: the server speaks "@
                + decimal(theirs as nat) + ", this client "@ + decimal(ours as nat)
                + "; reattach with a matching build"@,
            AttachError::UnexpectedReply => "the cloo server replied to an attach with something else"@,
            AttachError::Closed => "the cloo server closed the connection during the attach"@,
            AttachError::Stream(reason) => reason@,
        }
    }

    /// What the user is told.
    pub fn message(&self) -> (line: String)
        ensures
            line@ == self.text(),
    {
        match self {
            AttachError::Capabilities(error) => error.message(),
            AttachError::NoDaemon(path) => line_of(
                "no cloo daemon is listening on ",
                path.as_str(),
                "; start one first",
            ),
            AttachError::Connect { path, reason } => {
                let tail = line_of(": ", reason.as_str(), "");
                assert(tail@ =~= ": "@ + reason@) by {
                    reveal_strlit("");
                }
                line_of("could not connect to ", path.as_str(), tail.as_str())
            },
            AttachError::Refused(reason) => {
                let line = line_of("the cloo server refused the attach: ", reason.as_str(), "");
                assert(line@ =~= self.text()) by {
                    reveal_strlit("");
                }
                line
            },
            AttachError::Version { theirs, ours } => {
                let mut chars = chars_of("cloo protocol version mismatch: the server speaks ");
                push_all(&mut chars, decimal_chars(*theirs as u64).as_slice());
                push_all(&mut chars, chars_of(", this client ").as_slice());
                push_all(&mut chars, decimal_chars(*ours as u64).as_slice());
                push_all(&mut chars, chars_of("; reattach with a matching build").as_slice());
                string_of(chars.as_slice())
            },
            AttachError::UnexpectedReply => {
                "the cloo server replied to an attach with something else".to_owned()
            },
            AttachError::Closed => {
                "the cloo server closed the connection during the attach".to_owned()
            },
            AttachError::Stream(reason) => reason.clone(),
        }
    }

    /// What failing to connect means: nothing listening and a socket left
    /// behind say the same thing to a user.
    pub fn connecting(path: &str, nobody_listens: bool, reason: &str) -> (error: AttachError)
        ensures
            match error {
                AttachError::NoDaemon(said) => nobody_listens && said@ == path@,
                AttachError::Connect { path: said, reason: why } => !nobody_listens && said@ == path@
                    && why@ == reason@,
                _ => false,
            },
    {
        if nobody_listens {
            AttachError::NoDaemon(path.to_owned())
        } else {
            AttachError::Connect { path: path.to_owned(), reason: reason.to_owned() }
        }
    }
}

impl From<CapsError> for AttachError {
    fn from(value: CapsError) -> (error: AttachError) {
        AttachError::Capabilities(value)
    }
}

impl vstd::std_specs::convert::FromSpecImpl<CapsError> for AttachError {
    open spec fn obeys_from_spec() -> bool {
        true
    }

    open spec fn from_spec(value: CapsError) -> AttachError {
        AttachError::Capabilities(value)
    }
}

/// Everything a read-only session inspection can refuse to do.
#[derive(Debug, PartialEq, Eq)]
pub enum InspectError {
    /// Nothing is listening on the candidate socket.
    NoDaemon(String),
    /// The candidate socket could not be connected to.
    Connect { path: String, reason: String },
    /// The peer rejected the versioned inspection.
    Refused(String),
    /// The peer answered with something other than a session summary.
    UnexpectedReply,
    /// The peer closed before answering.
    Closed,
    /// The framed connection failed.
    Stream(String),
}

impl InspectError {
    /// What the user is told.
    pub open spec fn text(self) -> Seq<char> {
        match self {
            InspectError::NoDaemon(path) => "no cloo daemon is listening on "@ + path@,
            InspectError::Connect { path, reason } => "could not inspect "@ + path@ + (": "@
                + reason@),
            InspectError::Refused(reason) => "the cloo server refused inspection: "@ + reason@,
            InspectError::UnexpectedReply => "the candidate replied to inspection with something else"@,
            InspectError::Closed => "the candidate closed during inspection"@,
            InspectError::Stream(reason) => reason@,
        }
    }

    /// What the user is told.
    pub fn message(&self) -> (line: String)
        ensures
            line@ == self.text(),
    {
        proof {
            reveal_strlit("");
        }
        let line = match self {
            InspectError::NoDaemon(path) => line_of(
                "no cloo daemon is listening on ",
                path.as_str(),
                "",
            ),
            InspectError::Connect { path, reason } => {
                let tail = line_of(": ", reason.as_str(), "");
                assert(tail@ =~= ": "@ + reason@);
                line_of("could not inspect ", path.as_str(), tail.as_str())
            },
            InspectError::Refused(reason) => line_of(
                "the cloo server refused inspection: ",
                reason.as_str(),
                "",
            ),
            InspectError::UnexpectedReply => {
                "the candidate replied to inspection with something else".to_owned()
            },
            InspectError::Closed => "the candidate closed during inspection".to_owned(),
            InspectError::Stream(reason) => reason.clone(),
        };
        assert(line@ =~= self.text());
        line
    }

    /// What failing to connect means.
    pub fn connecting(path: &str, nobody_listens: bool, reason: &str) -> (error: InspectError)
        ensures
            match error {
                InspectError::NoDaemon(said) => nobody_listens && said@ == path@,
                InspectError::Connect { path: said, reason: why } => !nobody_listens && said@ == path@
                    && why@ == reason@,
                _ => false,
            },
    {
        if nobody_listens {
            InspectError::NoDaemon(path.to_owned())
        } else {
            InspectError::Connect { path: path.to_owned(), reason: reason.to_owned() }
        }
    }
}

/// Why the outer terminal could not enter or leave raw mode.
#[derive(Debug, PartialEq, Eq)]
pub enum RawModeFailure {
    /// Standard input is no terminal.
    NotATerminal,
    /// The terminal refused.
    Failed(String),
}

/// Everything the live attached-client loop can refuse to do.
#[derive(Debug, PartialEq, Eq)]
pub enum AttachRunError {
    /// The outer terminal could not enter or leave raw mode.
    RawMode(RawModeFailure),
    /// Capabilities could not be negotiated before attaching.
    Capabilities(CapsError),
    /// The server refused or lost the attachment.
    Attach(AttachError),
    /// A server row disagreed with the client cache.
    Render(String),
    /// The client's terminal could not be written.
    Output(String),
    /// The runtime could not be built.
    Runtime(String),
    /// A watcher for terminal resizes could not be installed.
    Signal(String),
}

impl AttachRunError {
    /// What the user is told.
    pub open spec fn text(self) -> Seq<char> {
        match self {
            AttachRunError::RawMode(RawModeFailure::NotATerminal) => "cloo attach must be run from a terminal"@,
            AttachRunError::RawMode(RawModeFailure::Failed(reason)) => reason@,
            AttachRunError::Capabilities(error) => caps_text(error),
            AttachRunError::Attach(error) => error.text(),
            AttachRunError::Render(reason) => "render failed: "@ + reason@,
            AttachRunError::Output(reason) => "could not write to the terminal: "@ + reason@,
            AttachRunError::Runtime(reason) => "could not start the runtime: "@ + reason@,
            AttachRunError::Signal(reason) => "could not watch for terminal resizes: "@ + reason@,
        }
    }

    /// What the user is told.
    pub fn message(&self) -> (line: String)
        ensures
            line@ == self.text(),
    {
        proof {
            reveal_strlit("");
        }
        let line = match self {
            AttachRunError::RawMode(failure) => match failure {
                RawModeFailure::NotATerminal => {
                    "cloo attach must be run from a terminal".to_owned()
                },
                RawModeFailure::Failed(reason) => reason.clone(),
            },
            AttachRunError::Capabilities(error) => error.message(),
            AttachRunError::Attach(error) => error.message(),
            AttachRunError::Render(reason) => line_of("render failed: ", reason.as_str(), ""),
            AttachRunError::Output(reason) => line_of(
                "could not write to the terminal: ",
                reason.as_str(),
                "",
            ),
            AttachRunError::Runtime(reason) => line_of(
                "could not start the runtime: ",
                reason.as_str(),
                "",
            ),
            AttachRunError::Signal(reason) => line_of(
                "could not watch for terminal resizes: ",
                reason.as_str(),
                "",
            ),
        };
        assert(line@ =~= self.text());
        line
    }
}

impl From<AttachError> for AttachRunError {
    fn from(value: AttachError) -> (error: AttachRunError) {
        AttachRunError::Attach(value)
    }
}

impl vstd::std_specs::convert::FromSpecImpl<AttachError> for AttachRunError {
    open spec fn obeys_from_spec() -> bool {
        true
    }

    open spec fn from_spec(value: AttachError) -> AttachRunError {
        AttachRunError::Attach(value)
    }
}

/// What the server said about the session at attach time and since. The answers
/// are cached only so the client can draw chrome without asking again.
#[derive(Debug, PartialEq, Eq)]
pub struct Attached {
    session: SessionId,
    tabs: Vec<TabSummary>,
    size: Size,
    status: Option<WorkspaceStatus>,
}

/// An attachment by its contents.
#[verifier::ext_equal]
pub struct AttachedView {
    pub session: SessionId,
    pub tabs: Seq<TabSummary>,
    pub size: Size,
    pub status: Option<WorkspaceStatus>,
}

impl View for Attached {
    type V = AttachedView;

    closed spec fn view(&self) -> AttachedView {
        AttachedView {
            session: self.session,
            tabs: self.tabs@,
            size: self.size,
            status: self.status,
        }
    }
}

impl AttachedView {
    /// This attachment once `message` was received.
    pub open spec fn told(self, message: ServerMessage) -> AttachedView {
        match message {
            ServerMessage::Tabs(tabs) => AttachedView { tabs: tabs@, ..self },
            ServerMessage::WorkspaceStatus(status) => AttachedView {
                size: status.effective_size,
                status: Some(status),
                ..self
            },
            _ => self,
        }
    }
}

/// Copies of tab summaries.
pub(crate) fn copy_tabs(tabs: &[TabSummary]) -> (copy: Vec<TabSummary>)
    ensures
        copy@ == tabs@,
{
    let mut copy: Vec<TabSummary> = Vec::new();
    for i in 0..tabs.len()
        invariant
            copy@ == tabs@.take(i as int),
    {
        copy.push(tabs[i].clone());
        assert(tabs@.take(i + 1) =~= tabs@.take(i as int).push(tabs@[i as int]));
    }
    assert(tabs@.take(tabs@.len() as int) =~= tabs@);
    copy
}

impl Attached {
    /// The session this client is attached to.
    pub fn session(&self) -> (session: SessionId)
        ensures
            session == self@.session,
    {
        self.session
    }

    /// The session's tabs, as last told.
    pub fn tabs(&self) -> (tabs: &[TabSummary])
        ensures
            tabs@ == self@.tabs,
    {
        self.tabs.as_slice()
    }

    /// The effective session size, reduced to the minimum across every attached
    /// client.
    pub fn size(&self) -> (size: Size)
        ensures
            size == self@.size,
    {
        self.size
    }

    /// The newest workspace projection.
    pub fn status(&self) -> (status: Option<&WorkspaceStatus>)
        ensures
            match status {
                Some(known) => self@.status == Some(*known),
                None => self@.status is None,
            },
    {
        match &self.status {
            Some(known) => Some(known),
            None => None,
        }
    }

    /// Keeps what a received message says about the whole session.
    pub fn recv(&mut self, message: &ServerMessage)
        ensures
            final(self)@ == old(self)@.told(*message),
    {
        match message {
            ServerMessage::Tabs(tabs) => {
                self.tabs = copy_tabs(tabs.as_slice());
            },
            ServerMessage::WorkspaceStatus(status) => {
                self.size = status.effective_size;
                self.status = Some(status.clone());
            },
            _ => {},
        }
    }
}

/// The request an attach opens with.
pub fn attach_request(protocol_version: u16, size: Size, term_caps: TermCaps, session: Option<SessionId>) -> (request:
    ClientMessage)
    ensures
        request@ == (ClientMessageView::Attach { protocol_version, size, term_caps, session }),
{
    ClientMessage::Attach { protocol_version, size, term_caps, session }
}

/// The request an inspection opens with: a version, and nothing about this
/// client's terminal.
pub fn inspect_request(protocol_version: u16) -> (request: ClientMessage)
    ensures
        request@ == (ClientMessageView::InspectSession { protocol_version }),
{
    ClientMessage::InspectSession { protocol_version }
}

/// What the reply to an attach means, for a client that speaks
/// `protocol_version`. `None` is a server that closed without replying.
pub fn handshake(reply: Option<ServerMessage>, protocol_version: u16) -> (outcome: Result<
    Attached,
    AttachError,
>)
    ensures
        match reply {
            Some(ServerMessage::Hello { protocol_version: theirs, session, tabs, size }) => {
                if theirs == protocol_version {
                    outcome matches Ok(attached) && attached@ == (AttachedView {
                        session,
                        tabs: tabs@,
                        size,
                        status: None,
                    })
                } else {
                    outcome == Err::<Attached, AttachError>(
                        AttachError::Version { theirs, ours: protocol_version },
                    )
                }
            },
            Some(ServerMessage::Refused { reason }) => outcome == Err::<Attached, AttachError>(
                AttachError::Refused(reason),
            ),
            Some(_) => outcome == Err::<Attached, AttachError>(AttachError::UnexpectedReply),
            None => outcome == Err::<Attached, AttachError>(AttachError::Closed),
        },
{
    match reply {
        Some(ServerMessage::Hello { protocol_version: theirs, session, tabs, size }) => {
            if theirs != protocol_version {
                return Err(AttachError::Version { theirs, ours: protocol_version });
            }
            Ok(Attached { session, tabs, size, status: None })
        },
        Some(ServerMessage::Refused { reason }) => Err(AttachError::Refused(reason)),
        Some(_) => Err(AttachError::UnexpectedReply),
        None => Err(AttachError::Closed),
    }
}

/// What the reply to an inspection means: only a summary is accepted, and an
/// attach or grid reply is never interpreted.
pub fn inspect_handshake(reply: Option<ServerMessage>) -> (outcome: Result<
    SessionSummary,
    InspectError,
>)
    ensures
        outcome == match reply {
            Some(ServerMessage::SessionSummary(summary)) => Ok::<SessionSummary, InspectError>(
                summary,
            ),
            Some(ServerMessage::Refused { reason }) => Err::<SessionSummary, InspectError>(
                InspectError::Refused(reason),
            ),
            Some(_) => Err::<SessionSummary, InspectError>(InspectError::UnexpectedReply),
            None => Err::<SessionSummary, InspectError>(InspectError::Closed),
        },
{
    match reply {
        Some(ServerMessage::SessionSummary(summary)) => Ok(summary),
        Some(ServerMessage::Refused { reason }) => Err(InspectError::Refused(reason)),
        Some(_) => Err(InspectError::UnexpectedReply),
        None => Err(InspectError::Closed),
    }
}

/// Whether a detach is over: the server acknowledged it, or there is no server
/// left to. Frames it had already queued describe a session this client is done
/// with.
pub fn detach_settled(reply: Option<&ServerMessage>) -> (settled: bool)
    ensures
        settled == match reply {
            Some(message) => *message is Detached,
            None => true,
        },
{
    match reply {
        Some(ServerMessage::Detached) => true,
        Some(_) => false,
        None => true,
    }
}

} // verus!

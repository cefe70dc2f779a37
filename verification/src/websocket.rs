//! The websocket server that events are broadcast on.

use vstd::prelude::*;
use vstd::string::StringExecFns;

use crate::text::{decimal, to_decimal};

verus! {

/// A handle on the connections of a websocket server.
#[verifier::external_type_specification]
#[verifier::external_body]
pub struct ExWsSender(ws::Sender);

/// What goes wrong in the `ws` crate.
#[verifier::external_type_specification]
#[verifier::external_body]
pub struct ExWsError(ws::Error);

/// Whether a handle that is told once to send `text` can answer with `reply`.
pub uninterp spec fn replied(
    sender: ws::Sender,
    text: Seq<char>,
    reply: Result<(), ws::Error>,
) -> bool;

/// Whether `text` can be the `Debug` text of an error.
pub uninterp spec fn described(error: ws::Error, text: Seq<char>) -> bool;

/// `ws::Sender::send`: hands the text to the server's event loop, and waits while the queue of that
/// loop is full. Whether the text is taken depends on the state of the loop, so no more is said
/// than what was handed over and what was answered.
#[verifier::external_body]
fn send(sender: &ws::Sender, string: String) -> (reply: Result<(), ws::Error>)
    ensures
        replied(*sender, string@, reply),
{
    sender.send(string)
}

/// The `Debug` text of a `ws::Error`. What it reads is not said: it may hold a message of the
/// operating system.
#[verifier::external_body]
fn debug_text(error: &ws::Error) -> (text: String)
    ensures
        described(*error, text@),
{
    format!("{:?}", error)
}

/// The message that says that a text could not be sent, and why.
pub open spec fn broadcast_failure(reason: Seq<char>) -> Seq<char> {
    "Unable to broadcast to websocket clients: "@ + reason
}

/// What is returned for an attempt to send a text, of which `reply` holds the reason of a failure.
pub fn broadcast_result(reply: Result<(), String>) -> (result: Result<(), String>)
    ensures
        match reply {
            Ok(_) => result is Ok,
            Err(reason) => result is Err && result->Err_0@ == broadcast_failure(reason@),
        },
{
    match reply {
        Ok(_) => Ok(()),
        Err(reason) => {
            let mut message = "Unable to broadcast to websocket clients: ".to_owned();
            message.append(reason.as_str());
            Err(message)
        },
    }
}

/// Sends texts to all clients of a websocket server.
pub struct WebSocketSender {
    sender: Option<ws::Sender>,
}

impl WebSocketSender {
    /// The handle on the server, if there is a server.
    pub closed spec fn server(self) -> Option<ws::Sender> {
        self.sender
    }

    /// Creates a dummy websocket server that never starts and where all future calls are no-ops.
    pub fn dummy() -> (sender: Self)
        ensures
            sender.server() is None,
    {
        WebSocketSender { sender: None }
    }

    /// Sends to the clients of the server that `broadcaster` belongs to.
    pub fn to_server(broadcaster: ws::Sender) -> (sender: Self)
        ensures
            sender.server() == Some(broadcaster),
    {
        WebSocketSender { sender: Some(broadcaster) }
    }

    /// Sends a text to all clients, if there is a server.
    pub fn send_string(&self, string: String) -> (result: Result<(), String>)
        ensures
            match self.server() {
                Some(sender) => sent(sender, string@, result),
                None => result is Ok,
            },
    {
        if let Some(sender) = &self.sender {
            match send(sender, string) {
                Ok(done) => {
                    assert(done == ());
                    broadcast_result(Ok(()))
                },
                Err(error) => {
                    let reason = debug_text(&error);
                    assert(replied(*sender, string@, Err(error)) && described(error, reason@));
                    broadcast_result(Err(reason))
                },
            }
        } else {
            Ok(())
        }
    }
}

/// Whether `result` is what comes of sending a text once: success if the handle took it, and
/// otherwise the message with the reason that it gave.
pub open spec fn sent(sender: ws::Sender, text: Seq<char>, result: Result<(), String>) -> bool {
    match result {
        Ok(_) => replied(sender, text, Ok(())),
        Err(message) => exists|error: ws::Error, reason: Seq<char>| #[trigger]
            replied(sender, text, Err(error)) && #[trigger] described(error, reason) && message@
                == broadcast_failure(reason),
    }
}

/// Where the websocket server listens.
#[derive(Debug, PartialEq, Eq)]
pub struct Config {
    /// The address, in textual form.
    pub listen_address: String,
    pub port: u16,
}

/// The address that a server with this configuration binds to.
pub open spec fn server_address(config: Config) -> Seq<char> {
    config.listen_address@ + ":"@ + decimal(config.port as nat)
}

/// What is to be done next to start a server.
#[derive(Debug, PartialEq, Eq)]
pub enum StartRequest {
    /// Create a server that ignores any incoming messages.
    Initialize,
    /// Bind the server to this address.
    Bind(String),
    /// Read the address that the server came to listen on.
    ReadLocalAddr,
    /// Everything is in place: run the server.
    Run,
}

/// How far the start of a server has come.
#[derive(Clone, Copy, Debug, PartialEq, Eq, Structural)]
pub enum StartStage {
    Initializing,
    Binding,
    ReadingLocalAddr,
    Running,
}

/// The start of a server.
pub struct ServerStart {
    address: String,
    stage: StartStage,
}

/// The message that says that the start failed at a stage, and why.
pub open spec fn start_failure(
    stage: StartStage,
    address: Seq<char>,
    reason: Seq<char>,
) -> Seq<char> {
    match stage {
        StartStage::Initializing => "Failed to initialize websocket server: "@ + reason,
        StartStage::Binding => "Failed to bind websocket server to "@ + address + ": "@ + reason,
        _ => "Failed to read listening addr from websocket server: "@ + reason,
    }
}

/// The stage that follows on the success of another.
pub open spec fn next_stage(stage: StartStage) -> StartStage {
    match stage {
        StartStage::Initializing => StartStage::Binding,
        StartStage::Binding => StartStage::ReadingLocalAddr,
        _ => StartStage::Running,
    }
}

/// Begins to start a server.
pub fn start_server(config: &Config) -> (start: ServerStart)
    ensures
        start.address() == server_address(*config),
        start.stage() == StartStage::Initializing,
{
    let mut address = config.listen_address.clone();
    address.append(":");
    let port = to_decimal(config.port);
    address.append(port.as_str());
    ServerStart { address, stage: StartStage::Initializing }
}

impl ServerStart {
    /// The address that the server is to bind to.
    pub closed spec fn address(self) -> Seq<char> {
        self.address@
    }

    /// How far the start has come.
    pub closed spec fn stage(self) -> StartStage {
        self.stage
    }

    /// What is to be done next.
    pub fn request(&self) -> (request: StartRequest)
        ensures
            match self.stage() {
                StartStage::Initializing => request == StartRequest::Initialize,
                StartStage::Binding => request matches StartRequest::Bind(address) && address@
                    == self.address(),
                StartStage::ReadingLocalAddr => request == StartRequest::ReadLocalAddr,
                StartStage::Running => request == StartRequest::Run,
            },
    {
        match self.stage {
            StartStage::Initializing => StartRequest::Initialize,
            StartStage::Binding => StartRequest::Bind(self.address.clone()),
            StartStage::ReadingLocalAddr => StartRequest::ReadLocalAddr,
            StartStage::Running => StartRequest::Run,
        }
    }

    /// The sender for the clients of a server that is running, which `broadcaster` belongs to.
    pub fn finish(self, broadcaster: ws::Sender) -> (sender: WebSocketSender)
        requires
            self.stage() == StartStage::Running,
        ensures
            sender.server() == Some(broadcaster),
    {
        WebSocketSender::to_server(broadcaster)
    }

    /// Goes on after what was requested has been tried. `outcome` holds the reason of a failure,
    /// which ends the start.
    pub fn reply(self, outcome: Result<(), String>) -> (start: Result<ServerStart, String>)
        requires
            self.stage() != StartStage::Running,
        ensures
            match outcome {
                Ok(_) => start matches Ok(next) && next.stage() == next_stage(self.stage())
                    && next.address() == self.address(),
                Err(reason) => start matches Err(message) && message@ == start_failure(
                    self.stage(),
                    self.address(),
                    reason@,
                ),
            },
    {
        match outcome {
            Ok(_) => {
                let stage = match self.stage {
                    StartStage::Initializing => StartStage::Binding,
                    StartStage::Binding => StartStage::ReadingLocalAddr,
                    _ => StartStage::Running,
                };
                Ok(ServerStart { address: self.address, stage })
            },
            Err(reason) => {
                let mut message = match self.stage {
                    StartStage::Initializing => "Failed to initialize websocket server: ".to_owned(),
                    StartStage::Binding => {
                        let mut message = "Failed to bind websocket server to ".to_owned();
                        message.append(self.address.as_str());
                        message.append(": ");
                        message
                    },
                    _ => "Failed to read listening addr from websocket server: ".to_owned(),
                };
                message.append(reason.as_str());
                Err(message)
            },
        }
    }
}

} // verus!

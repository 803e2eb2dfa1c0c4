//! What a client connection does with each incoming message: the checks
//! before any work (version, connection), the replies they give, and where
//! the message goes next. The transport runs the chosen route.

use vstd::prelude::*;
use vstd::string::StringExecFns;

verus! {

/// Whether a connection stays open after a message.
#[derive(Debug, Clone, Copy, PartialEq, Eq, Structural)]
pub enum HandleResult {
    Continue,
    Disconnect,
}

/// The kinds of message a client sends.
#[derive(Debug, Clone, Copy, PartialEq, Eq, Structural)]
pub enum MessageKind {
    Connect,
    Disconnect,
    Ping,
    ListLobbies,
    CreateLobby,
    JoinLobby,
    LeaveLobby,
    MarkReady,
    StartGame,
    PlayAgain,
    InGame,
    Turn,
    AddBot,
    KickFromLobby,
    LobbyListChat,
    InLobbyChat,
    BecomeObserver,
    BecomePlayer,
    MakeObserver,
    InReplay,
    CreateReplayLobby,
    WatchReplayTogether,
}

/// The messages that need an established connection and go to a handler.
pub open spec fn is_command(k: MessageKind) -> bool {
    k != MessageKind::Connect && k != MessageKind::Disconnect && k != MessageKind::Ping
}

/// What a command asks for, as the not-connected error names it.
pub open spec fn action_text(k: MessageKind) -> Seq<char> {
    match k {
        MessageKind::ListLobbies => "list lobbies"@,
        MessageKind::CreateLobby => "create lobby"@,
        MessageKind::JoinLobby => "join lobby"@,
        MessageKind::LeaveLobby => "leave lobby"@,
        MessageKind::MarkReady => "mark ready"@,
        MessageKind::StartGame => "start game"@,
        MessageKind::PlayAgain => "play again"@,
        MessageKind::InGame => "send in-game command"@,
        MessageKind::Turn => "send turn"@,
        MessageKind::AddBot => "add bot"@,
        MessageKind::KickFromLobby => "kick from lobby"@,
        MessageKind::LobbyListChat => "send lobby list chat message"@,
        MessageKind::InLobbyChat => "send in-lobby chat message"@,
        MessageKind::BecomeObserver => "become observer"@,
        MessageKind::BecomePlayer => "become player"@,
        MessageKind::MakeObserver => "make player observer"@,
        MessageKind::InReplay => "send replay command"@,
        MessageKind::CreateReplayLobby => "create replay lobby"@,
        MessageKind::WatchReplayTogether => "watch replay together"@,
        _ => ""@,
    }
}

fn action_name(k: MessageKind) -> (r: &'static str)
    ensures
        r@ == action_text(k),
{
    match k {
        MessageKind::ListLobbies => "list lobbies",
        MessageKind::CreateLobby => "create lobby",
        MessageKind::JoinLobby => "join lobby",
        MessageKind::LeaveLobby => "leave lobby",
        MessageKind::MarkReady => "mark ready",
        MessageKind::StartGame => "start game",
        MessageKind::PlayAgain => "play again",
        MessageKind::InGame => "send in-game command",
        MessageKind::Turn => "send turn",
        MessageKind::AddBot => "add bot",
        MessageKind::KickFromLobby => "kick from lobby",
        MessageKind::LobbyListChat => "send lobby list chat message",
        MessageKind::InLobbyChat => "send in-lobby chat message",
        MessageKind::BecomeObserver => "become observer",
        MessageKind::BecomePlayer => "become player",
        MessageKind::MakeObserver => "make player observer",
        MessageKind::InReplay => "send replay command",
        MessageKind::CreateReplayLobby => "create replay lobby",
        MessageKind::WatchReplayTogether => "watch replay together",
        _ => "",
    }
}

/// The error a command sent before connecting gets.
pub open spec fn not_connected_text(k: MessageKind) -> Seq<char> {
    "Not connected: cannot "@ + action_text(k)
}

/// The error a command sent before connecting gets.
pub fn not_connected_message(k: MessageKind) -> (r: String)
    ensures
        r@ == not_connected_text(k),
{
    let mut text = String::from_str("Not connected: cannot ");
    text.append(action_name(k));
    text
}

/// The error a client of another version gets.
pub open spec fn version_mismatch_text(client: Seq<char>, server: Seq<char>) -> Seq<char> {
    "Version mismatch: client version '"@ + client + "', server version '"@ + server + "'"@
}

/// Where a message goes.
#[derive(Debug, Clone, PartialEq, Eq)]
pub enum Route {
    /// Send this error and close the connection.
    Refuse(String),
    /// Do nothing and keep the connection.
    Ignore,
    /// Send this error and keep the connection.
    Error(String),
    /// Try to register the client; `connect_reply` says what follows.
    Connect,
    /// Answer the ping.
    Pong,
    /// Hand the command to its handler, then note the client's activity.
    Dispatch,
    /// Close the connection, first cleaning up after the client when it
    /// had connected.
    Close { was_connected: bool },
}

/// `r` is the route of a message: a client of another version is refused
/// and disconnected; an empty message is ignored; a second connect is an
/// error; a ping is answered only once connected; a disconnect closes; a
/// command is handled once connected and is an error before.
pub open spec fn routed(
    r: Route,
    client_version: Seq<char>,
    server_version: Seq<char>,
    connected: bool,
    kind: Option<MessageKind>,
) -> bool {
    if client_version != server_version {
        r matches Route::Refuse(e) && e@ == version_mismatch_text(client_version, server_version)
    } else {
        match kind {
            None => r == Route::Ignore,
            Some(MessageKind::Connect) => if connected {
                r matches Route::Error(e) && e@ == "Already connected"@
            } else {
                r == Route::Connect
            },
            Some(MessageKind::Disconnect) => r == (Route::Close { was_connected: connected }),
            Some(MessageKind::Ping) => if connected {
                r == Route::Pong
            } else {
                r == Route::Ignore
            },
            Some(k) => if connected {
                r == Route::Dispatch
            } else {
                r matches Route::Error(e) && e@ == not_connected_text(k)
            },
        }
    }
}

/// Routes one message of a client whose connection state is `connected`.
pub fn route_message(
    client_version: &str,
    server_version: &str,
    connected: bool,
    kind: Option<MessageKind>,
) -> (r: Route)
    ensures
        routed(r, client_version@, server_version@, connected, kind),
{
    let client = String::from_str(client_version);
    let server = String::from_str(server_version);
    if client != server {
        let mut text = String::from_str("Version mismatch: client version '");
        text.append(client_version);
        text.append("', server version '");
        text.append(server_version);
        text.append("'");
        return Route::Refuse(text);
    }
    match kind {
        None => Route::Ignore,
        Some(MessageKind::Connect) => {
            if connected {
                Route::Error(String::from_str("Already connected"))
            } else {
                Route::Connect
            }
        },
        Some(MessageKind::Disconnect) => Route::Close { was_connected: connected },
        Some(MessageKind::Ping) => {
            if connected {
                Route::Pong
            } else {
                Route::Ignore
            }
        },
        Some(k) => {
            if connected {
                Route::Dispatch
            } else {
                Route::Error(not_connected_message(k))
            }
        },
    }
}

/// The answer to a connect request.
#[derive(Debug, Clone, PartialEq, Eq)]
pub struct ConnectResponse {
    pub success: bool,
    pub error_message: String,
}

/// The answer to a connect request once the registry said whether the
/// client id was free (`added`): success and an open connection, or a
/// refusal naming the duplicate id and a closed connection.
pub fn connect_reply(added: bool) -> (r: (ConnectResponse, HandleResult))
    ensures
        r.0.success == added,
        added ==> r.0.error_message@ == ""@ && r.1 == HandleResult::Continue,
        !added ==> r.0.error_message@ == "Client ID already connected. Only one connection per client ID is allowed."@
            && r.1 == HandleResult::Disconnect,
{
    if added {
        (ConnectResponse { success: true, error_message: String::from_str("") }, HandleResult::Continue)
    } else {
        (
            ConnectResponse {
                success: false,
                error_message: String::from_str(
                    "Client ID already connected. Only one connection per client ID is allowed.",
                ),
            },
            HandleResult::Disconnect,
        )
    }
}

/// What a stream step sends back.
#[derive(Debug, Clone, PartialEq, Eq)]
pub enum StreamReply {
    /// Nothing.
    Nothing,
    /// An answer to a ping.
    Pong,
    /// The command goes to its handler.
    Handle,
    /// This error.
    Error(String),
}

/// `r` is one step of a game or menu stream: whether the client is
/// connected afterwards, the reply, and whether the stream stops. A second
/// connect is an error; a connect is accepted when the registry added the
/// client (`add_ok`) and otherwise stops the stream with an error; a
/// disconnect stops it; a ping is answered; a command is handled once
/// connected and is an error before.
pub open spec fn stream_stepped(r: (bool, StreamReply, bool), connected: bool, kind: MessageKind, add_ok: Option<bool>) -> bool {
    match kind {
        MessageKind::Connect => if connected {
            r.0 && (r.1 matches StreamReply::Error(e) && e@ == "Already connected"@) && !r.2
        } else if add_ok == Some(true) {
            r.0 && r.1 == StreamReply::Nothing && !r.2
        } else {
            !r.0 && (r.1 matches StreamReply::Error(e) && e@ == "Client ID already connected"@) && r.2
        },
        MessageKind::Disconnect => r.0 == connected && r.1 == StreamReply::Nothing && r.2,
        MessageKind::Ping => r.0 == connected && r.1 == StreamReply::Pong && !r.2,
        k => r.0 == connected && !r.2 && if connected {
            r.1 == StreamReply::Handle
        } else {
            r.1 matches StreamReply::Error(e) && e@ == not_connected_text(k)
        },
    }
}

/// One step of a game or menu stream. `add_ok` is the registry's answer
/// when a client that is not yet connected asks to connect.
pub fn stream_step(connected: bool, kind: MessageKind, add_ok: Option<bool>) -> (r: (bool, StreamReply, bool))
    requires
        kind == MessageKind::Connect && !connected ==> add_ok is Some,
    ensures
        stream_stepped(r, connected, kind, add_ok),
{
    match kind {
        MessageKind::Connect => {
            if connected {
                (true, StreamReply::Error(String::from_str("Already connected")), false)
            } else if add_ok == Some(true) {
                (true, StreamReply::Nothing, false)
            } else {
                (false, StreamReply::Error(String::from_str("Client ID already connected")), true)
            }
        },
        MessageKind::Disconnect => (connected, StreamReply::Nothing, true),
        MessageKind::Ping => (connected, StreamReply::Pong, false),
        k => {
            if connected {
                (true, StreamReply::Handle, false)
            } else {
                (false, StreamReply::Error(not_connected_message(k)), false)
            }
        },
    }
}

} // verus!

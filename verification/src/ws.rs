//! The decisions of a Hrana connection over a WebSocket.
//!
//! The caller owns the socket and the session: it hands each event to the
//! connection and carries out what the connection answers.

use vstd::prelude::*;
use vstd::string::*;
use crate::error::{ProtocolError, StmtError};
use crate::stmt::ProtoError;
use crate::text::{append_decimal, append_decimal_nat, decimal, decimal_nat};
use crate::version::Version;

verus! {

/// A message as the WebSocket delivers it.
#[derive(Debug, PartialEq, Eq)]
pub enum WsMessage {
    Text(String),
    Binary(Vec<u8>),
    Ping(Vec<u8>),
    Pong(Vec<u8>),
    Close,
    /// A raw frame, which a reading socket never delivers.
    Frame,
}

/// Why a WebSocket is closed.
#[derive(Clone, Copy, Debug, PartialEq, Eq, Structural)]
pub enum CloseCode {
    Normal,
    Invalid,
    Unsupported,
    Policy,
    Error,
}

/// The last frame that a side sends.
#[derive(Debug, PartialEq, Eq)]
pub struct CloseFrame {
    pub code: CloseCode,
    pub reason: String,
}

/// A message of the client, as far as the connection looks into it.
#[derive(Debug, PartialEq, Eq)]
pub enum ClientMsg {
    Hello { jwt: Option<String> },
    Request { request_id: i32 },
}

/// A message of the server. `R` is the payload of an answer.
#[derive(Debug, PartialEq, Eq)]
pub enum ServerMsg<R> {
    HelloOk,
    HelloError { error: ProtoError },
    ResponseOk { request_id: i32, response: R },
    ResponseError { request_id: i32, error: ProtoError },
}

/// A failure that the client is told of.
#[derive(Debug, PartialEq, Eq)]
pub enum ResponseError {
    /// The credentials were refused, for this reason and under this code.
    Auth { reason: String, code: String },
    StreamNotOpen { stream_id: i32 },
    SqlTooMany { count: u64 },
    Stmt(StmtError),
}

impl ResponseError {
    /// The code under which clients see this error.
    pub open spec fn code_name(&self) -> Seq<char> {
        match self {
            ResponseError::Auth { code, .. } => code@,
            ResponseError::StreamNotOpen { .. } => "STREAM_NOT_OPEN"@,
            ResponseError::SqlTooMany { .. } => "SQL_STORE_TOO_MANY"@,
            ResponseError::Stmt(e) => e.code_name(),
        }
    }

    /// The text that describes this error to a client.
    pub open spec fn message_text(&self) -> Seq<char> {
        match self {
            ResponseError::Auth { reason, .. } => "Authentication failed: "@ + reason@,
            ResponseError::StreamNotOpen { stream_id } => "Stream "@ + decimal(*stream_id as int)
                + " has failed to open"@,
            ResponseError::SqlTooMany { count } => "The server already stores "@ + decimal_nat(
                *count as nat,
            ) + " SQL texts, it cannot store more"@,
            ResponseError::Stmt(e) => e.message_text(),
        }
    }

    /// The code under which clients see this error.
    pub fn code(&self) -> (code: String)
        ensures
            code@ == self.code_name(),
    {
        match self {
            ResponseError::Auth { code, .. } => code.clone(),
            ResponseError::StreamNotOpen { .. } => String::from_str("STREAM_NOT_OPEN"),
            ResponseError::SqlTooMany { .. } => String::from_str("SQL_STORE_TOO_MANY"),
            ResponseError::Stmt(e) => String::from_str(e.code()),
        }
    }

    /// The text that describes this error to a client.
    pub fn message(&self) -> (text: String)
        ensures
            text@ == self.message_text(),
    {
        match self {
            ResponseError::Auth { reason, .. } => String::from_str(
                "Authentication failed: ",
            ).concat(reason.as_str()),
            ResponseError::StreamNotOpen { stream_id } => {
                let mut text = String::from_str("Stream ");
                append_decimal(&mut text, *stream_id as i64);
                text.append(" has failed to open");
                text
            },
            ResponseError::SqlTooMany { count } => {
                let mut text = String::from_str("The server already stores ");
                append_decimal_nat(&mut text, *count);
                text.append(" SQL texts, it cannot store more");
                text
            },
            ResponseError::Stmt(e) => e.message(),
        }
    }
}

/// A failure while the session worked on a message: one that the client is
/// told of, or one of the server itself.
#[derive(Debug, PartialEq, Eq)]
pub enum SessionError {
    Response(ResponseError),
    Internal(String),
}

/// The protocol's form of a failure, where the client is to be told of it;
/// a failure of the server itself is handed back.
pub fn downcast_error(err: SessionError) -> (r: Result<ProtoError, SessionError>)
    ensures
        match err {
            SessionError::Response(e) => r matches Ok(p) && p.message@ == e.message_text()
                && p.code@ == e.code_name(),
            SessionError::Internal(_) => r == Err::<ProtoError, SessionError>(err),
        },
{
    match err {
        SessionError::Response(error) => Ok(
            ProtoError { message: error.message(), code: error.code() },
        ),
        SessionError::Internal(reason) => Err(SessionError::Internal(reason)),
    }
}

/// The code with which a connection is closed after a breach of the
/// protocol: a message that cannot be read is invalid data, a binary message
/// is unsupported data, and every other breach is one of policy.
pub open spec fn close_code_of(err: &ProtocolError) -> CloseCode {
    match err {
        ProtocolError::Deserialize { .. } => CloseCode::Invalid,
        ProtocolError::BinaryWebSocketMessage => CloseCode::Unsupported,
        _ => CloseCode::Policy,
    }
}

/// The code with which a connection is closed after a breach of the
/// protocol.
pub fn protocol_error_to_close_code(err: &ProtocolError) -> (code: CloseCode)
    ensures
        code == close_code_of(err),
{
    match err {
        ProtocolError::Deserialize { .. } => CloseCode::Invalid,
        ProtocolError::BinaryWebSocketMessage => CloseCode::Unsupported,
        _ => CloseCode::Policy,
    }
}

/// What a message of the socket asks for.
#[derive(Debug, PartialEq, Eq)]
pub enum MsgAction {
    /// Read the text as a client message and hand over what came of it.
    Decode(String),
    /// Answer the ping with a pong of the same data.
    Pong(Vec<u8>),
    /// Nothing to do; go on.
    Continue,
    /// The client closed; stop.
    Stop,
}

/// What a message of the client asks for.
#[derive(Debug, PartialEq, Eq)]
pub enum ClientAction {
    /// Check the credentials. `repeated` says that the session exists
    /// already.
    Authenticate { jwt: Option<String>, repeated: bool },
    /// Hand the request to the session and keep its answer for this id.
    Dispatch { request_id: i32 },
}

/// What became of an answer that the session owed.
#[derive(Debug, PartialEq, Eq)]
pub enum PollOutcome<R> {
    /// Send this message.
    Ready(ServerMsg<R>),
    /// The server itself failed.
    Failed(SessionError),
    /// The answer will never come, and the cause is reported elsewhere.
    Pending,
}

/// The message for an answer that the session owed to request `request_id`.
/// `outcome` is `None` where the one who was to answer is gone.
pub fn response_msg<R>(request_id: i32, outcome: Option<Result<R, SessionError>>) -> (r:
    PollOutcome<R>)
    ensures
        match outcome {
            Some(Ok(response)) => r == PollOutcome::Ready(
                ServerMsg::ResponseOk { request_id, response },
            ),
            Some(Err(SessionError::Response(e))) => r matches PollOutcome::Ready(
                ServerMsg::ResponseError { request_id: id, error },
            ) && id == request_id && error.message@ == e.message_text() && error.code@
                == e.code_name(),
            Some(Err(SessionError::Internal(reason))) => r == PollOutcome::<R>::Failed(
                SessionError::Internal(reason),
            ),
            None => r == PollOutcome::<R>::Pending,
        },
{
    match outcome {
        Some(Ok(response)) => PollOutcome::Ready(ServerMsg::ResponseOk { request_id, response }),
        Some(Err(err)) => match downcast_error(err) {
            Ok(error) => PollOutcome::Ready(ServerMsg::ResponseError { request_id, error }),
            Err(err) => PollOutcome::Failed(err),
        },
        None => PollOutcome::Pending,
    }
}

/// What ends the handling of a connection.
#[derive(Debug, PartialEq, Eq)]
pub enum ConnError {
    /// The client broke the protocol.
    Protocol(ProtocolError),
    /// The server failed.
    Internal(String),
}

/// The state of a Hrana connection.
#[derive(Debug)]
pub struct Conn {
    conn_id: u64,
    version: Version,
    ws_closed: bool,
    has_session: bool,
}

impl Conn {
    /// The number of the connection.
    pub closed spec fn conn_id(&self) -> u64 {
        self.conn_id
    }

    /// The version negotiated in the handshake.
    pub closed spec fn version(&self) -> Version {
        self.version
    }

    /// Whether the close frame was sent.
    pub closed spec fn ws_closed(&self) -> bool {
        self.ws_closed
    }

    /// Whether a hello has succeeded, so that there is a session.
    pub closed spec fn has_session(&self) -> bool {
        self.has_session
    }

    /// A connection on which nothing has happened yet.
    pub fn new(conn_id: u64, version: Version) -> (conn: Conn)
        ensures
            conn.conn_id() == conn_id,
            conn.version() == version,
            !conn.ws_closed(),
            !conn.has_session(),
    {
        Conn { conn_id, version, ws_closed: false, has_session: false }
    }

    /// The version negotiated in the handshake.
    pub fn negotiated_version(&self) -> (v: Version)
        ensures
            v == self.version(),
    {
        self.version
    }

    /// Whether a hello has succeeded.
    pub fn is_authenticated(&self) -> (b: bool)
        ensures
            b == self.has_session(),
    {
        self.has_session
    }

    /// What a message of the socket asks for. A binary message breaks the
    /// protocol. A raw frame is never delivered by a socket that is read.
    pub fn handle_msg(&self, client_msg: WsMessage) -> (r: Result<MsgAction, ProtocolError>)
        requires
            !(client_msg is Frame),
        ensures
            r == match client_msg {
                WsMessage::Text(text) => Ok::<MsgAction, ProtocolError>(MsgAction::Decode(text)),
                WsMessage::Binary(_) => Err(ProtocolError::BinaryWebSocketMessage),
                WsMessage::Ping(data) => Ok(MsgAction::Pong(data)),
                WsMessage::Pong(_) => Ok(MsgAction::Continue),
                _ => Ok(MsgAction::Stop),
            },
    {
        match client_msg {
            WsMessage::Text(text) => Ok(MsgAction::Decode(text)),
            WsMessage::Binary(_) => Err(ProtocolError::BinaryWebSocketMessage),
            WsMessage::Ping(data) => Ok(MsgAction::Pong(data)),
            WsMessage::Pong(_) => Ok(MsgAction::Continue),
            WsMessage::Close => Ok(MsgAction::Stop),
            WsMessage::Frame => Ok(MsgAction::Stop),
        }
    }

    /// What a message of the client asks for. `decoded` is what reading the
    /// text gave. A text that is no client message breaks the protocol, and
    /// so does a request before the first hello that succeeded.
    pub fn handle_client_msg(&self, decoded: Result<ClientMsg, String>) -> (r: Result<
        ClientAction,
        ProtocolError,
    >)
        ensures
            r == match decoded {
                Err(source) => Err::<ClientAction, ProtocolError>(
                    ProtocolError::Deserialize { source },
                ),
                Ok(ClientMsg::Hello { jwt }) => Ok(
                    ClientAction::Authenticate { jwt, repeated: self.has_session() },
                ),
                Ok(ClientMsg::Request { request_id }) => if self.has_session() {
                    Ok(ClientAction::Dispatch { request_id })
                } else {
                    Err(ProtocolError::RequestBeforeHello)
                },
            },
    {
        match decoded {
            Err(source) => Err(ProtocolError::Deserialize { source }),
            Ok(ClientMsg::Hello { jwt }) => Ok(
                ClientAction::Authenticate { jwt, repeated: self.has_session },
            ),
            Ok(ClientMsg::Request { request_id }) => self.handle_request_msg(request_id),
        }
    }

    /// What a request asks for: it goes to the session, and there is none
    /// before the first hello that succeeded.
    pub fn handle_request_msg(&self, request_id: i32) -> (r: Result<ClientAction, ProtocolError>)
        ensures
            r == if self.has_session() {
                Ok::<ClientAction, ProtocolError>(ClientAction::Dispatch { request_id })
            } else {
                Err(ProtocolError::RequestBeforeHello)
            },
    {
        if !self.has_session {
            return Err(ProtocolError::RequestBeforeHello);
        }
        Ok(ClientAction::Dispatch { request_id })
    }

    /// Takes the outcome of a hello. Success opens the session, if there is
    /// none, and is answered; the flag says whether to go on. A refusal is
    /// answered and ends the connection. A failure of the server is handed
    /// back.
    pub fn handle_hello_msg<R>(&mut self, outcome: Result<(), SessionError>) -> (r: Result<
        (ServerMsg<R>, bool),
        SessionError,
    >)
        ensures
            final(self).conn_id() == old(self).conn_id(),
            final(self).version() == old(self).version(),
            final(self).ws_closed() == old(self).ws_closed(),
            final(self).has_session() == (old(self).has_session() || outcome is Ok),
            match outcome {
                Ok(_) => r == Ok::<(ServerMsg<R>, bool), SessionError>((ServerMsg::HelloOk, true)),
                Err(SessionError::Response(e)) => r matches Ok((ServerMsg::HelloError { error }, go_on))
                    && !go_on && error.message@ == e.message_text() && error.code@
                    == e.code_name(),
                Err(SessionError::Internal(reason)) => r == Err::<
                    (ServerMsg<R>, bool),
                    SessionError,
                >(SessionError::Internal(reason)),
            },
    {
        match outcome {
            Ok(_) => {
                self.has_session = true;
                Ok((ServerMsg::HelloOk, true))
            },
            Err(err) => match downcast_error(err) {
                Ok(error) => Ok((ServerMsg::HelloError { error }, false)),
                Err(err) => Err(err),
            },
        }
    }

    /// The close frame to send, if none was sent yet. Afterwards the
    /// connection counts as closed, whether or not the frame could be sent.
    pub fn close(&mut self, code: CloseCode, reason: String) -> (frame: Option<CloseFrame>)
        ensures
            final(self).ws_closed(),
            final(self).conn_id() == old(self).conn_id(),
            final(self).version() == old(self).version(),
            final(self).has_session() == old(self).has_session(),
            frame == if old(self).ws_closed() {
                None::<CloseFrame>
            } else {
                Some(CloseFrame { code, reason })
            },
    {
        if self.ws_closed {
            return None;
        }
        self.ws_closed = true;
        Some(CloseFrame { code, reason })
    }

    /// Ends the connection after an error. A breach of the protocol closes
    /// with the code for it and its message, and the handling ends well; a
    /// failure of the server closes with an error code, and the handling
    /// fails with it.
    pub fn fail(&mut self, err: ConnError) -> (r: (Option<CloseFrame>, Result<(), String>))
        ensures
            final(self).ws_closed(),
            final(self).conn_id() == old(self).conn_id(),
            final(self).version() == old(self).version(),
            final(self).has_session() == old(self).has_session(),
            old(self).ws_closed() ==> r.0 is None,
            !old(self).ws_closed() ==> r.0 is Some,
            match err {
                ConnError::Protocol(e) => r.1 == Ok::<(), String>(()) && (r.0 matches Some(frame)
                    ==> frame.code == close_code_of(&e) && frame.reason@
                    == e.message_text()),
                ConnError::Internal(reason) => r.1 == Err::<(), String>(reason) && (
                r.0 matches Some(frame) ==> frame.code == CloseCode::Error && frame.reason@
                    == "Internal server error"@),
            },
    {
        match err {
            ConnError::Protocol(proto_err) => {
                let close_code = protocol_error_to_close_code(&proto_err);
                let frame = self.close(close_code, proto_err.message());
                (frame, Ok(()))
            },
            ConnError::Internal(reason) => {
                let frame = self.close(CloseCode::Error, String::from_str("Internal server error"));
                (frame, Err(reason))
            },
        }
    }

    /// Ends the connection in good order.
    pub fn finish(&mut self) -> (frame: Option<CloseFrame>)
        ensures
            final(self).ws_closed(),
            final(self).conn_id() == old(self).conn_id(),
            final(self).version() == old(self).version(),
            final(self).has_session() == old(self).has_session(),
            old(self).ws_closed() ==> frame is None,
            !old(self).ws_closed() ==> (frame matches Some(f) && f.code == CloseCode::Normal
                && f.reason@ == "Thank you for using sqld"@),
    {
        self.close(CloseCode::Normal, String::from_str("Thank you for using sqld"))
    }
}

} // verus!

use sqld_core::error::{ProtocolError, StmtError};
use sqld_core::stmt::ProtoError;
use sqld_core::version::Version;
use sqld_core::ws::{
    downcast_error, protocol_error_to_close_code, response_msg, ClientAction, ClientMsg, CloseCode,
    CloseFrame, Conn, ConnError, MsgAction, PollOutcome, ResponseError, ServerMsg, SessionError,
    WsMessage,
};

fn refused() -> SessionError {
    SessionError::Response(ResponseError::Auth { reason: "bad token".to_string(), code: "AUTH_JWT_INVALID".to_string() })
}

#[test]
fn text_messages_are_decoded() {
    let conn = Conn::new(1, Version::Hrana2);
    assert_eq!(
        conn.handle_msg(WsMessage::Text("{}".to_string())),
        Ok(MsgAction::Decode("{}".to_string()))
    );
}

#[test]
fn binary_messages_break_the_protocol() {
    let conn = Conn::new(1, Version::Hrana2);
    assert_eq!(conn.handle_msg(WsMessage::Binary(vec![1, 2])), Err(ProtocolError::BinaryWebSocketMessage));
    assert_eq!(conn.handle_msg(WsMessage::Binary(Vec::new())), Err(ProtocolError::BinaryWebSocketMessage));
}

#[test]
fn ping_is_answered_with_pong() {
    let conn = Conn::new(1, Version::Hrana2);
    assert_eq!(conn.handle_msg(WsMessage::Ping(vec![9, 8, 0xFF])), Ok(MsgAction::Pong(vec![9, 8, 0xFF])));
    assert_eq!(conn.handle_msg(WsMessage::Pong(vec![9])), Ok(MsgAction::Continue));
}

#[test]
fn close_message_stops_the_connection() {
    let conn = Conn::new(1, Version::Hrana2);
    assert_eq!(conn.handle_msg(WsMessage::Close), Ok(MsgAction::Stop));
}

#[test]
fn text_that_is_no_message_breaks_the_protocol() {
    let conn = Conn::new(1, Version::Hrana2);
    assert_eq!(
        conn.handle_client_msg(Err("expected value at line 1".to_string())),
        Err(ProtocolError::Deserialize { source: "expected value at line 1".to_string() })
    );
}

#[test]
fn request_before_hello_breaks_the_protocol() {
    let conn = Conn::new(1, Version::Hrana2);
    assert!(!conn.is_authenticated());
    assert_eq!(
        conn.handle_client_msg(Ok(ClientMsg::Request { request_id: 5 })),
        Err(ProtocolError::RequestBeforeHello)
    );
    assert_eq!(conn.handle_request_msg(5), Err(ProtocolError::RequestBeforeHello));
}

#[test]
fn hello_opens_the_session() {
    let mut conn = Conn::new(1, Version::Hrana3);
    assert_eq!(conn.negotiated_version(), Version::Hrana3);
    assert_eq!(
        conn.handle_client_msg(Ok(ClientMsg::Hello { jwt: Some("t".to_string()) })),
        Ok(ClientAction::Authenticate { jwt: Some("t".to_string()), repeated: false })
    );
    assert_eq!(conn.handle_hello_msg::<u8>(Ok(())), Ok((ServerMsg::HelloOk, true)));
    assert!(conn.is_authenticated());
    assert_eq!(
        conn.handle_client_msg(Ok(ClientMsg::Request { request_id: 5 })),
        Ok(ClientAction::Dispatch { request_id: 5 })
    );
    assert_eq!(
        conn.handle_client_msg(Ok(ClientMsg::Hello { jwt: None })),
        Ok(ClientAction::Authenticate { jwt: None, repeated: true })
    );
}

#[test]
fn refused_hello_is_answered_and_ends_the_connection() {
    let mut conn = Conn::new(1, Version::Hrana1);
    let expected = ServerMsg::HelloError {
        error: ProtoError { message: "Authentication failed: bad token".to_string(), code: "AUTH_JWT_INVALID".to_string() },
    };
    assert_eq!(conn.handle_hello_msg::<u8>(Err(refused())), Ok((expected, false)));
    assert!(!conn.is_authenticated());
}

#[test]
fn refused_repeated_hello_keeps_the_session() {
    let mut conn = Conn::new(1, Version::Hrana1);
    conn.handle_hello_msg::<u8>(Ok(())).unwrap();
    let (_, go_on) = conn.handle_hello_msg::<u8>(Err(refused())).unwrap();
    assert!(!go_on);
    assert!(conn.is_authenticated());
}

#[test]
fn server_failure_in_hello_is_handed_back() {
    let mut conn = Conn::new(1, Version::Hrana1);
    assert_eq!(
        conn.handle_hello_msg::<u8>(Err(SessionError::Internal("db down".to_string()))),
        Err(SessionError::Internal("db down".to_string()))
    );
    assert!(!conn.is_authenticated());
}

#[test]
fn answers_carry_the_request_id() {
    assert_eq!(
        response_msg(7, Some(Ok("rows".to_string()))),
        PollOutcome::Ready(ServerMsg::ResponseOk { request_id: 7, response: "rows".to_string() })
    );
    assert_eq!(
        response_msg::<u8>(-3, Some(Err(SessionError::Response(ResponseError::Stmt(StmtError::SqlNoStmt))))),
        PollOutcome::Ready(ServerMsg::ResponseError {
            request_id: -3,
            error: ProtoError {
                message: "SQL string does not contain any statement".to_string(),
                code: "SQL_NO_STATEMENT".to_string()
            }
        })
    );
    assert_eq!(
        response_msg::<u8>(7, Some(Err(SessionError::Internal("x".to_string())))),
        PollOutcome::Failed(SessionError::Internal("x".to_string()))
    );
    assert_eq!(response_msg::<u8>(7, None), PollOutcome::Pending);
}

#[test]
fn response_errors_have_codes_and_messages() {
    let e = ResponseError::StreamNotOpen { stream_id: 4 };
    assert_eq!(e.code(), "STREAM_NOT_OPEN");
    assert_eq!(e.message(), "Stream 4 has failed to open");
    let e = ResponseError::SqlTooMany { count: 150 };
    assert_eq!(e.code(), "SQL_STORE_TOO_MANY");
    assert_eq!(e.message(), "The server already stores 150 SQL texts, it cannot store more");
    let e = ResponseError::Stmt(StmtError::TransactionBusy);
    assert_eq!(e.code(), "TRANSACTION_BUSY");
    assert_eq!(e.message(), "Server cannot handle additional transactions");
    let e = ResponseError::Auth { reason: "r".to_string(), code: "C".to_string() };
    assert_eq!(e.code(), "C");
    assert_eq!(e.message(), "Authentication failed: r");
}

#[test]
fn only_failures_for_the_client_are_put_in_protocol_form() {
    assert_eq!(
        downcast_error(refused()),
        Ok(ProtoError { message: "Authentication failed: bad token".to_string(), code: "AUTH_JWT_INVALID".to_string() })
    );
    assert_eq!(
        downcast_error(SessionError::Internal("x".to_string())),
        Err(SessionError::Internal("x".to_string()))
    );
}

#[test]
fn protocol_errors_have_close_codes() {
    assert_eq!(
        protocol_error_to_close_code(&ProtocolError::Deserialize { source: String::new() }),
        CloseCode::Invalid
    );
    assert_eq!(protocol_error_to_close_code(&ProtocolError::BinaryWebSocketMessage), CloseCode::Unsupported);
    assert_eq!(protocol_error_to_close_code(&ProtocolError::RequestBeforeHello), CloseCode::Policy);
    assert_eq!(protocol_error_to_close_code(&ProtocolError::SqlNotFound { sql_id: 1 }), CloseCode::Policy);
    assert_eq!(protocol_error_to_close_code(&ProtocolError::SqlIdAndSqlGiven), CloseCode::Policy);
}

#[test]
fn close_frame_is_sent_once() {
    let mut conn = Conn::new(1, Version::Hrana1);
    assert_eq!(
        conn.close(CloseCode::Policy, "why".to_string()),
        Some(CloseFrame { code: CloseCode::Policy, reason: "why".to_string() })
    );
    assert_eq!(conn.close(CloseCode::Normal, "again".to_string()), None);
    assert_eq!(conn.finish(), None);
}

#[test]
fn connection_ends_with_thanks() {
    let mut conn = Conn::new(1, Version::Hrana1);
    assert_eq!(
        conn.finish(),
        Some(CloseFrame { code: CloseCode::Normal, reason: "Thank you for using sqld".to_string() })
    );
    assert_eq!(conn.finish(), None);
}

#[test]
fn protocol_error_closes_with_its_code_and_ends_well() {
    let mut conn = Conn::new(1, Version::Hrana1);
    let (frame, result) = conn.fail(ConnError::Protocol(ProtocolError::BinaryWebSocketMessage));
    assert_eq!(
        frame,
        Some(CloseFrame {
            code: CloseCode::Unsupported,
            reason: "Received a binary WebSocket message, which is not supported".to_string()
        })
    );
    assert_eq!(result, Ok(()));
    let (frame, result) = conn.fail(ConnError::Protocol(ProtocolError::RequestBeforeHello));
    assert_eq!(frame, None);
    assert_eq!(result, Ok(()));
}

#[test]
fn server_failure_closes_with_an_error_and_fails() {
    let mut conn = Conn::new(1, Version::Hrana1);
    let (frame, result) = conn.fail(ConnError::Internal("disk".to_string()));
    assert_eq!(frame, Some(CloseFrame { code: CloseCode::Error, reason: "Internal server error".to_string() }));
    assert_eq!(result, Err("disk".to_string()));
}

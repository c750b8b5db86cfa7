//! The errors of the server's core, with the codes and messages that clients
//! see, and how an engine failure maps to a statement error.

use vstd::prelude::*;
use vstd::string::*;
use crate::text::{append_decimal, append_decimal_nat, decimal, decimal_nat};
use crate::version::Version;

verus! {

/// The primary result code of a failed SQLite call.
#[derive(Clone, Copy, Debug, PartialEq, Eq, Structural)]
pub enum ErrorCode {
    InternalMalfunction,
    PermissionDenied,
    OperationAborted,
    DatabaseBusy,
    DatabaseLocked,
    OutOfMemory,
    ReadOnly,
    OperationInterrupted,
    SystemIoFailure,
    DatabaseCorrupt,
    NotFound,
    DiskFull,
    CannotOpen,
    FileLockingProtocolFailed,
    SchemaChanged,
    TooBig,
    ConstraintViolation,
    TypeMismatch,
    ApiMisuse,
    NoLargeFileSupport,
    AuthorizationForStatementDenied,
    ParameterOutOfRange,
    NotADatabase,
    Unknown,
}

/// The name under which clients see a SQLite result code.
pub open spec fn sqlite_code_name(code: ErrorCode) -> Seq<char> {
    match code {
        ErrorCode::InternalMalfunction => "SQLITE_INTERNAL"@,
        ErrorCode::PermissionDenied => "SQLITE_PERM"@,
        ErrorCode::OperationAborted => "SQLITE_ABORT"@,
        ErrorCode::DatabaseBusy => "SQLITE_BUSY"@,
        ErrorCode::DatabaseLocked => "SQLITE_LOCKED"@,
        ErrorCode::OutOfMemory => "SQLITE_NOMEM"@,
        ErrorCode::ReadOnly => "SQLITE_READONLY"@,
        ErrorCode::OperationInterrupted => "SQLITE_INTERRUPT"@,
        ErrorCode::SystemIoFailure => "SQLITE_IOERR"@,
        ErrorCode::DatabaseCorrupt => "SQLITE_CORRUPT"@,
        ErrorCode::NotFound => "SQLITE_NOTFOUND"@,
        ErrorCode::DiskFull => "SQLITE_FULL"@,
        ErrorCode::CannotOpen => "SQLITE_CANTOPEN"@,
        ErrorCode::FileLockingProtocolFailed => "SQLITE_PROTOCOL"@,
        ErrorCode::SchemaChanged => "SQLITE_SCHEMA"@,
        ErrorCode::TooBig => "SQLITE_TOOBIG"@,
        ErrorCode::ConstraintViolation => "SQLITE_CONSTRAINT"@,
        ErrorCode::TypeMismatch => "SQLITE_MISMATCH"@,
        ErrorCode::ApiMisuse => "SQLITE_MISUSE"@,
        ErrorCode::NoLargeFileSupport => "SQLITE_NOLFS"@,
        ErrorCode::AuthorizationForStatementDenied => "SQLITE_AUTH"@,
        ErrorCode::ParameterOutOfRange => "SQLITE_RANGE"@,
        ErrorCode::NotADatabase => "SQLITE_NOTADB"@,
        ErrorCode::Unknown => "SQLITE_UNKNOWN"@,
    }
}

/// The name under which clients see a SQLite result code.
pub fn sqlite_error_code(code: ErrorCode) -> (name: &'static str)
    ensures
        name@ == sqlite_code_name(code),
{
    match code {
        ErrorCode::InternalMalfunction => "SQLITE_INTERNAL",
        ErrorCode::PermissionDenied => "SQLITE_PERM",
        ErrorCode::OperationAborted => "SQLITE_ABORT",
        ErrorCode::DatabaseBusy => "SQLITE_BUSY",
        ErrorCode::DatabaseLocked => "SQLITE_LOCKED",
        ErrorCode::OutOfMemory => "SQLITE_NOMEM",
        ErrorCode::ReadOnly => "SQLITE_READONLY",
        ErrorCode::OperationInterrupted => "SQLITE_INTERRUPT",
        ErrorCode::SystemIoFailure => "SQLITE_IOERR",
        ErrorCode::DatabaseCorrupt => "SQLITE_CORRUPT",
        ErrorCode::NotFound => "SQLITE_NOTFOUND",
        ErrorCode::DiskFull => "SQLITE_FULL",
        ErrorCode::CannotOpen => "SQLITE_CANTOPEN",
        ErrorCode::FileLockingProtocolFailed => "SQLITE_PROTOCOL",
        ErrorCode::SchemaChanged => "SQLITE_SCHEMA",
        ErrorCode::TooBig => "SQLITE_TOOBIG",
        ErrorCode::ConstraintViolation => "SQLITE_CONSTRAINT",
        ErrorCode::TypeMismatch => "SQLITE_MISMATCH",
        ErrorCode::ApiMisuse => "SQLITE_MISUSE",
        ErrorCode::NoLargeFileSupport => "SQLITE_NOLFS",
        ErrorCode::AuthorizationForStatementDenied => "SQLITE_AUTH",
        ErrorCode::ParameterOutOfRange => "SQLITE_RANGE",
        ErrorCode::NotADatabase => "SQLITE_NOTADB",
        ErrorCode::Unknown => "SQLITE_UNKNOWN",
    }
}

/// A failed SQLite call: its primary and its extended result code.
#[derive(Clone, Copy, Debug, PartialEq, Eq, Structural)]
pub struct SqliteFailure {
    pub code: ErrorCode,
    pub extended_code: i32,
}

/// An error during execution of an SQL statement.
#[derive(Debug, PartialEq, Eq)]
#[allow(inconsistent_fields)]
pub enum StmtError {
    SqlParse { source: String },
    SqlNoStmt,
    SqlManyStmts,
    ArgsInvalid { source: String },
    ArgsBothPositionalAndNamed,
    TransactionTimeout,
    TransactionBusy,
    SqliteError { source: SqliteFailure, message: String },
    SqlInputError { source: SqliteFailure, message: String, offset: i32 },
    Blocked { reason: Option<String> },
}

impl StmtError {
    /// The code under which clients see this error.
    pub open spec fn code_name(&self) -> Seq<char> {
        match self {
            StmtError::SqlParse { .. } => "SQL_PARSE_ERROR"@,
            StmtError::SqlNoStmt => "SQL_NO_STATEMENT"@,
            StmtError::SqlManyStmts => "SQL_MANY_STATEMENTS"@,
            StmtError::ArgsInvalid { .. } => "ARGS_INVALID"@,
            StmtError::ArgsBothPositionalAndNamed => "ARGS_BOTH_POSITIONAL_AND_NAMED"@,
            StmtError::TransactionTimeout => "TRANSACTION_TIMEOUT"@,
            StmtError::TransactionBusy => "TRANSACTION_BUSY"@,
            StmtError::SqliteError { source, .. } => sqlite_code_name(source.code),
            StmtError::SqlInputError { .. } => "SQL_INPUT_ERROR"@,
            StmtError::Blocked { .. } => "BLOCKED"@,
        }
    }

    /// The code under which clients see this error.
    pub fn code(&self) -> (code: &'static str)
        ensures
            code@ == self.code_name(),
    {
        match self {
            StmtError::SqlParse { .. } => "SQL_PARSE_ERROR",
            StmtError::SqlNoStmt => "SQL_NO_STATEMENT",
            StmtError::SqlManyStmts => "SQL_MANY_STATEMENTS",
            StmtError::ArgsInvalid { .. } => "ARGS_INVALID",
            StmtError::ArgsBothPositionalAndNamed => "ARGS_BOTH_POSITIONAL_AND_NAMED",
            StmtError::TransactionTimeout => "TRANSACTION_TIMEOUT",
            StmtError::TransactionBusy => "TRANSACTION_BUSY",
            StmtError::SqliteError { source, .. } => sqlite_error_code(source.code),
            StmtError::SqlInputError { .. } => "SQL_INPUT_ERROR",
            StmtError::Blocked { .. } => "BLOCKED",
        }
    }

    /// The text that describes this error to a client.
    pub open spec fn message_text(&self) -> Seq<char> {
        match self {
            StmtError::SqlParse { source } => "SQL string could not be parsed: "@ + source@,
            StmtError::SqlNoStmt => "SQL string does not contain any statement"@,
            StmtError::SqlManyStmts => "SQL string contains more than one statement"@,
            StmtError::ArgsInvalid { source } => "Arguments do not match SQL parameters: "@
                + source@,
            StmtError::ArgsBothPositionalAndNamed => "Specifying both positional and named arguments is not supported"@,
            StmtError::TransactionTimeout => "Transaction timed out"@,
            StmtError::TransactionBusy => "Server cannot handle additional transactions"@,
            StmtError::SqliteError { message, .. } => "SQLite error: "@ + message@,
            StmtError::SqlInputError { message, offset, .. } => "SQL input error: "@ + message@
                + " (at offset "@ + decimal(*offset as int) + ")"@,
            StmtError::Blocked { reason } => match reason {
                Some(reason) => "Operation was blocked: "@ + reason@,
                None => "Operation was blocked"@,
            },
        }
    }

    /// The text that describes this error to a client.
    pub fn message(&self) -> (text: String)
        ensures
            text@ == self.message_text(),
    {
        match self {
            StmtError::SqlParse { source } => String::from_str(
                "SQL string could not be parsed: ",
            ).concat(source.as_str()),
            StmtError::SqlNoStmt => String::from_str("SQL string does not contain any statement"),
            StmtError::SqlManyStmts => String::from_str(
                "SQL string contains more than one statement",
            ),
            StmtError::ArgsInvalid { source } => String::from_str(
                "Arguments do not match SQL parameters: ",
            ).concat(source.as_str()),
            StmtError::ArgsBothPositionalAndNamed => String::from_str(
                "Specifying both positional and named arguments is not supported",
            ),
            StmtError::TransactionTimeout => String::from_str("Transaction timed out"),
            StmtError::TransactionBusy => String::from_str(
                "Server cannot handle additional transactions",
            ),
            StmtError::SqliteError { message, .. } => String::from_str("SQLite error: ").concat(
                message.as_str(),
            ),
            StmtError::SqlInputError { message, offset, .. } => {
                let mut text = String::from_str("SQL input error: ").concat(message.as_str());
                text.append(" (at offset ");
                append_decimal(&mut text, *offset as i64);
                text.append(")");
                text
            },
            StmtError::Blocked { reason } => match reason {
                Some(reason) => String::from_str("Operation was blocked: ").concat(
                    reason.as_str(),
                ),
                None => String::from_str("Operation was blocked"),
            },
        }
    }
}

/// A breach of the protocol by the client.
#[derive(Debug, PartialEq, Eq)]
pub enum ProtocolError {
    /// A message of the client could not be read.
    Deserialize { source: String },
    BinaryWebSocketMessage,
    RequestBeforeHello,
    SqlIdAndSqlGiven,
    SqlIdOrSqlNotGiven,
    SqlNotFound { sql_id: i32 },
    SqlExists { sql_id: i32 },
    /// The stream holds as many SQL texts as it may.
    SqlTooMany { count: usize },
    NotSupported { what: &'static str, min_version: Version },
}

impl ProtocolError {
    /// The code under which clients see this error.
    pub open spec fn code_name(&self) -> Seq<char> {
        match self {
            ProtocolError::Deserialize { .. } => "DESERIALIZE"@,
            ProtocolError::BinaryWebSocketMessage => "BINARY_WEBSOCKET_MESSAGE"@,
            ProtocolError::RequestBeforeHello => "REQUEST_BEFORE_HELLO"@,
            ProtocolError::SqlIdAndSqlGiven => "SQL_ID_AND_SQL_GIVEN"@,
            ProtocolError::SqlIdOrSqlNotGiven => "SQL_ID_OR_SQL_NOT_GIVEN"@,
            ProtocolError::SqlNotFound { .. } => "SQL_NOT_FOUND"@,
            ProtocolError::SqlExists { .. } => "SQL_EXISTS"@,
            ProtocolError::SqlTooMany { .. } => "SQL_STORE_TOO_MANY"@,
            ProtocolError::NotSupported { .. } => "NOT_SUPPORTED"@,
        }
    }

    /// The code under which clients see this error.
    pub fn code(&self) -> (code: &'static str)
        ensures
            code@ == self.code_name(),
    {
        match self {
            ProtocolError::Deserialize { .. } => "DESERIALIZE",
            ProtocolError::BinaryWebSocketMessage => "BINARY_WEBSOCKET_MESSAGE",
            ProtocolError::RequestBeforeHello => "REQUEST_BEFORE_HELLO",
            ProtocolError::SqlIdAndSqlGiven => "SQL_ID_AND_SQL_GIVEN",
            ProtocolError::SqlIdOrSqlNotGiven => "SQL_ID_OR_SQL_NOT_GIVEN",
            ProtocolError::SqlNotFound { .. } => "SQL_NOT_FOUND",
            ProtocolError::SqlExists { .. } => "SQL_EXISTS",
            ProtocolError::SqlTooMany { .. } => "SQL_STORE_TOO_MANY",
            ProtocolError::NotSupported { .. } => "NOT_SUPPORTED",
        }
    }

    /// The text that describes this error to a client.
    pub open spec fn message_text(&self) -> Seq<char> {
        match self {
            ProtocolError::Deserialize { source } => "Cannot deserialize client message: "@
                + source@,
            ProtocolError::BinaryWebSocketMessage => "Received a binary WebSocket message, which is not supported"@,
            ProtocolError::RequestBeforeHello => "Received a request before hello message"@,
            ProtocolError::SqlIdAndSqlGiven => "Either `sql` or `sql_id` are required, but not both"@,
            ProtocolError::SqlIdOrSqlNotGiven => "Either `sql` or `sql_id` are required"@,
            ProtocolError::SqlNotFound { sql_id } => "SQL text "@ + decimal(*sql_id as int)
                + " not found"@,
            ProtocolError::SqlExists { sql_id } => "SQL text "@ + decimal(*sql_id as int)
                + " already exists"@,
            ProtocolError::SqlTooMany { count } => "The server already stores "@ + decimal_nat(
                *count as nat,
            ) + " SQL texts, it cannot store more"@,
            ProtocolError::NotSupported { what, min_version } => what@
                + " is only supported in protocol version "@ + min_version.name()
                + " and higher"@,
        }
    }

    /// The text that describes this error to a client.
    pub fn message(&self) -> (text: String)
        ensures
            text@ == self.message_text(),
    {
        match self {
            ProtocolError::Deserialize { source } => String::from_str(
                "Cannot deserialize client message: ",
            ).concat(source.as_str()),
            ProtocolError::BinaryWebSocketMessage => String::from_str(
                "Received a binary WebSocket message, which is not supported",
            ),
            ProtocolError::RequestBeforeHello => String::from_str(
                "Received a request before hello message",
            ),
            ProtocolError::SqlIdAndSqlGiven => String::from_str(
                "Either `sql` or `sql_id` are required, but not both",
            ),
            ProtocolError::SqlIdOrSqlNotGiven => String::from_str(
                "Either `sql` or `sql_id` are required",
            ),
            ProtocolError::SqlNotFound { sql_id } => {
                let mut text = String::from_str("SQL text ");
                append_decimal(&mut text, *sql_id as i64);
                text.append(" not found");
                text
            },
            ProtocolError::SqlExists { sql_id } => {
                let mut text = String::from_str("SQL text ");
                append_decimal(&mut text, *sql_id as i64);
                text.append(" already exists");
                text
            },
            ProtocolError::SqlTooMany { count } => {
                let mut text = String::from_str("The server already stores ");
                append_decimal_nat(&mut text, *count as u64);
                text.append(" SQL texts, it cannot store more");
                text
            },
            ProtocolError::NotSupported { what, min_version } => {
                let mut text = String::from_str(what);
                text.append(" is only supported in protocol version ");
                text.append(min_version.as_str());
                text.append(" and higher");
                text
            },
        }
    }
}

/// Why a baton does not resume a stream.
#[derive(Clone, Copy, Debug, PartialEq, Eq, Structural)]
pub enum StreamError {
    /// The baton is no baton of this server: it cannot be read, or its MAC
    /// does not match.
    BatonInvalid,
    /// The stream that the baton names is gone.
    BatonExpired,
    /// The baton was used before: the stream has moved on, or is in use.
    BatonReused,
}

impl StreamError {
    /// The code under which clients see this error.
    pub open spec fn code_name(&self) -> Seq<char> {
        match self {
            StreamError::BatonInvalid => "BATON_INVALID"@,
            StreamError::BatonExpired => "BATON_EXPIRED"@,
            StreamError::BatonReused => "BATON_REUSED"@,
        }
    }

    /// The code under which clients see this error.
    pub fn code(&self) -> (code: &'static str)
        ensures
            code@ == self.code_name(),
    {
        match self {
            StreamError::BatonInvalid => "BATON_INVALID",
            StreamError::BatonExpired => "BATON_EXPIRED",
            StreamError::BatonReused => "BATON_REUSED",
        }
    }

    /// The text that describes this error to a client.
    pub open spec fn message_text(&self) -> Seq<char> {
        match self {
            StreamError::BatonInvalid => "The baton is invalid"@,
            StreamError::BatonExpired => "The stream has expired due to inactivity"@,
            StreamError::BatonReused => "The baton has already been used"@,
        }
    }

    /// The text that describes this error to a client.
    pub fn message(&self) -> (text: String)
        ensures
            text@ == self.message_text(),
    {
        match self {
            StreamError::BatonInvalid => String::from_str("The baton is invalid"),
            StreamError::BatonExpired => String::from_str(
                "The stream has expired due to inactivity",
            ),
            StreamError::BatonReused => String::from_str("The baton has already been used"),
        }
    }
}

/// A failure that SQLite reported to the engine.
#[derive(Debug, PartialEq, Eq)]
pub enum RusqliteError {
    /// A call failed. `message` is what SQLite said of it, if anything;
    /// `description` is the text of the result code.
    SqliteFailure { error: SqliteFailure, message: Option<String>, description: String },
    /// The SQL text was refused at `offset`.
    SqlInputError { error: SqliteFailure, msg: String, sql: String, offset: i32 },
    /// Any other failure, with its text.
    Other(String),
}

/// A failure of the SQL engine.
#[derive(Debug, PartialEq, Eq)]
pub enum EngineError {
    LibSqlInvalidQueryParams(String),
    LibSqlTxTimeout,
    LibSqlTxBusy,
    Blocked(Option<String>),
    RusqliteError(RusqliteError),
    /// Any other failure, with its text.
    Other(String),
}

/// A failure inside the server.
#[derive(Debug, PartialEq, Eq)]
pub enum Error {
    /// The SQL engine failed.
    Libsqlx(EngineError),
    /// The worker that owned the connection is gone.
    ConnectionClosed,
    /// The host of a request names no database.
    InvalidHost(String),
    /// The host of a request names a database that this server does not
    /// hold.
    NamespaceNotFound,
    /// The mailbox of the allocation is full.
    Busy,
}

impl EngineError {
    /// The text that describes this failure.
    pub open spec fn message_text(&self) -> Seq<char> {
        match self {
            EngineError::LibSqlInvalidQueryParams(reason) => "invalid query parameters: "@
                + reason@,
            EngineError::LibSqlTxTimeout => "transaction timed out"@,
            EngineError::LibSqlTxBusy => "server cannot handle additional transactions"@,
            EngineError::Blocked(Some(reason)) => "operation was blocked: "@ + reason@,
            EngineError::Blocked(None) => "operation was blocked"@,
            EngineError::RusqliteError(RusqliteError::SqliteFailure { message: Some(m), .. }) => m@,
            EngineError::RusqliteError(
                RusqliteError::SqliteFailure { message: None, description, .. },
            ) => description@,
            EngineError::RusqliteError(RusqliteError::SqlInputError { msg, .. }) => msg@,
            EngineError::RusqliteError(RusqliteError::Other(text)) => text@,
            EngineError::Other(text) => text@,
        }
    }

    /// The text that describes this failure.
    pub fn message(&self) -> (text: String)
        ensures
            text@ == self.message_text(),
    {
        match self {
            EngineError::LibSqlInvalidQueryParams(reason) => String::from_str(
                "invalid query parameters: ",
            ).concat(reason.as_str()),
            EngineError::LibSqlTxTimeout => String::from_str("transaction timed out"),
            EngineError::LibSqlTxBusy => String::from_str(
                "server cannot handle additional transactions",
            ),
            EngineError::Blocked(Some(reason)) => String::from_str(
                "operation was blocked: ",
            ).concat(reason.as_str()),
            EngineError::Blocked(None) => String::from_str("operation was blocked"),
            EngineError::RusqliteError(RusqliteError::SqliteFailure { message: Some(m), .. }) => {
                m.clone()
            },
            EngineError::RusqliteError(
                RusqliteError::SqliteFailure { message: None, description, .. },
            ) => description.clone(),
            EngineError::RusqliteError(RusqliteError::SqlInputError { msg, .. }) => msg.clone(),
            EngineError::RusqliteError(RusqliteError::Other(text)) => text.clone(),
            EngineError::Other(text) => text.clone(),
        }
    }
}

impl Error {
    /// The text that describes this failure.
    pub open spec fn message_text(&self) -> Seq<char> {
        match self {
            Error::Libsqlx(e) => e.message_text(),
            Error::ConnectionClosed => "connection closed"@,
            Error::InvalidHost(reason) => "Invalid host header: `"@ + reason@ + "`"@,
            Error::NamespaceNotFound => "namespace does not exist"@,
            Error::Busy => "allocation is busy"@,
        }
    }

    /// The text that describes this failure.
    pub fn message(&self) -> (text: String)
        ensures
            text@ == self.message_text(),
    {
        match self {
            Error::Libsqlx(e) => e.message(),
            Error::ConnectionClosed => String::from_str("connection closed"),
            Error::InvalidHost(reason) => {
                let mut text = String::from_str("Invalid host header: `");
                text.append(reason.as_str());
                text.append("`");
                text
            },
            Error::NamespaceNotFound => String::from_str("namespace does not exist"),
            Error::Busy => String::from_str("allocation is busy"),
        }
    }

    /// The HTTP status that tells a client of this failure: a bad request
    /// for a host that names no database, not found for a database that is
    /// not here, and a server error for everything else.
    pub fn http_status(&self) -> (status: u16)
        ensures
            status == match self {
                Error::InvalidHost(_) => 400u16,
                Error::NamespaceNotFound => 404u16,
                _ => 500u16,
            },
    {
        match self {
            Error::InvalidHost(_) => 400,
            Error::NamespaceNotFound => 404,
            _ => 500,
        }
    }
}

/// What can go wrong while a client's request is handled.
#[derive(Debug, PartialEq, Eq)]
pub enum HranaError {
    Stmt(StmtError),
    Proto(ProtocolError),
    Stream(StreamError),
    Libsqlx(Error),
}

/// The error that a client sees for a failure inside the server: a failure of
/// the engine that is the statement's fault becomes a statement error, and
/// every other failure is passed on as it is.
pub open spec fn hrana_error_of(error: Error) -> HranaError {
    match error {
        Error::Libsqlx(EngineError::LibSqlInvalidQueryParams(source)) => HranaError::Stmt(
            StmtError::ArgsInvalid { source },
        ),
        Error::Libsqlx(EngineError::LibSqlTxTimeout) => HranaError::Stmt(
            StmtError::TransactionTimeout,
        ),
        Error::Libsqlx(EngineError::LibSqlTxBusy) => HranaError::Stmt(StmtError::TransactionBusy),
        Error::Libsqlx(EngineError::Blocked(reason)) => HranaError::Stmt(
            StmtError::Blocked { reason },
        ),
        Error::Libsqlx(
            EngineError::RusqliteError(
                RusqliteError::SqliteFailure { error, message: Some(message), description },
            ),
        ) => HranaError::Stmt(StmtError::SqliteError { source: error, message }),
        Error::Libsqlx(
            EngineError::RusqliteError(
                RusqliteError::SqliteFailure { error, message: None, description },
            ),
        ) => HranaError::Stmt(StmtError::SqliteError { source: error, message: description }),
        Error::Libsqlx(
            EngineError::RusqliteError(RusqliteError::SqlInputError { error, msg, sql, offset }),
        ) => HranaError::Stmt(StmtError::SqlInputError { source: error, message: msg, offset }),
        other => HranaError::Libsqlx(other),
    }
}

impl HranaError {
    /// The error that a client sees for a failure inside the server.
    pub fn from_error(error: Error) -> (r: HranaError)
        ensures
            r == hrana_error_of(error),
    {
        match error {
            Error::Libsqlx(e) => match e {
                EngineError::LibSqlInvalidQueryParams(source) => HranaError::Stmt(
                    StmtError::ArgsInvalid { source },
                ),
                EngineError::LibSqlTxTimeout => HranaError::Stmt(StmtError::TransactionTimeout),
                EngineError::LibSqlTxBusy => HranaError::Stmt(StmtError::TransactionBusy),
                EngineError::Blocked(reason) => HranaError::Stmt(StmtError::Blocked { reason }),
                EngineError::RusqliteError(rusqlite_error) => match rusqlite_error {
                    RusqliteError::SqliteFailure {
                        error: sqlite_error,
                        message: Some(message),
                        description,
                    } => HranaError::Stmt(StmtError::SqliteError { source: sqlite_error, message }),
                    RusqliteError::SqliteFailure {
                        error: sqlite_error,
                        message: None,
                        description,
                    } => HranaError::Stmt(
                        StmtError::SqliteError { source: sqlite_error, message: description },
                    ),
                    RusqliteError::SqlInputError { error: sqlite_error, msg, sql, offset } => {
                        HranaError::Stmt(
                            StmtError::SqlInputError { source: sqlite_error, message: msg, offset },
                        )
                    },
                    rusqlite_error => HranaError::Libsqlx(
                        Error::Libsqlx(EngineError::RusqliteError(rusqlite_error)),
                    ),
                },
                sqld_error => HranaError::Libsqlx(Error::Libsqlx(sqld_error)),
            },
            other => HranaError::Libsqlx(other),
        }
    }
}

} // verus!

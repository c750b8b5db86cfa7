use sqld_core::allocation::{AllocError, Allocation, ConnectionId};
use sqld_core::baton::{same_bytes, BatonKey};
use sqld_core::config::{AllocConfig, DbConfig};
use sqld_core::error::{Error, HranaError, ProtocolError, StmtError, StreamError};
use sqld_core::pipeline::{
    describe_stmt, execute_stmt, finish, handle_pipeline, stmt_outcome, Begun, Job, Pipeline,
    PipelineEnd, PipelineRequestBody, Request, StreamResponse, StreamResult, MAX_SQL_COUNT,
};
use sqld_core::stmt::{
    Batch, DescribeResponse, NamedArg, Params, Query, Statement, Stmt, StmtKind,
};
use sqld_core::stream::{AcquireError, Server, IDLE_TIMEOUT_MS};
use sqld_core::value::{ProtoValue, Value};
use sqld_core::version::Version;

fn allocation(max: u32) -> Allocation {
    let config = AllocConfig {
        max_conccurent_connection: max,
        db_name: "db".to_string(),
        db_config: DbConfig::Primary { max_log_size: 100, replication_log_compact_interval: None },
    };
    Allocation::new(&config)
}

fn server() -> Server {
    Server::with_key(Some("http://db.example".to_string()), BatonKey::from_bytes([7u8; 32]))
}

fn statement(sql: &str) -> Statement {
    Statement { stmt: sql.to_string(), kind: StmtKind::Read, is_iud: false, is_insert: false }
}

fn stmt(sql: &str) -> Stmt {
    Stmt { sql: Some(sql.to_string()), sql_id: None, args: Vec::new(), named_args: Vec::new(), want_rows: None }
}

fn execute(sql: &str) -> Request {
    Request::Execute { stmt: stmt(sql) }
}

/// Runs a pipeline with an engine that answers every statement with its SQL
/// text in upper case.
fn run(
    server: &mut Server,
    alloc: &mut Allocation,
    baton: Option<String>,
    requests: Vec<Request>,
    version: Version,
    now: u64,
) -> Result<PipelineEnd<String>, AcquireError> {
    let mut pipeline: Pipeline<String> =
        handle_pipeline(server, PipelineRequestBody { baton, requests }, alloc, version)?;
    while let Some(request) = pipeline.next_request() {
        let result = match pipeline.stream().begin::<String>(request, version) {
            Begun::Done(result) => result,
            Begun::Analyze { sql, stmt } => {
                let parsed = vec![Ok(statement(&sql))];
                match pipeline.stream().analyzed::<String>(&stmt, version, &parsed).unwrap() {
                    Begun::Done(result) => result,
                    Begun::Run(Job::Execute(query)) => {
                        finish(Ok(query.stmt.stmt.to_uppercase())).unwrap()
                    }
                    other => panic!("unexpected {:?}", other),
                }
            }
            Begun::Run(Job::GetAutocommit) => finish(Ok("autocommit".to_string())).unwrap(),
            Begun::Run(Job::Sequence(sql)) => finish(Ok(format!("seq:{sql}"))).unwrap(),
            Begun::Run(Job::Describe(sql)) => finish(Ok(format!("desc:{sql}"))).unwrap(),
            Begun::AnalyzeBatch { batch } => {
                let mut parsed = Vec::new();
                for index in 0..batch.steps.len() {
                    parsed.push(match pipeline.stream().batch_sql(&batch, index, version) {
                        Ok(sql) => vec![Ok(statement(sql))],
                        Err(_) => Vec::new(),
                    });
                }
                match pipeline.stream().analyzed_batch::<String>(&batch, version, &parsed).unwrap() {
                    Begun::Done(result) => result,
                    Begun::Run(Job::Batch(program)) => {
                        let texts: Vec<String> =
                            program.steps.iter().map(|q| q.stmt.stmt.to_uppercase()).collect();
                        finish(Ok(texts.join("+"))).unwrap()
                    }
                    other => panic!("unexpected {:?}", other),
                }
            }
            Begun::Run(Job::Execute(_)) | Begun::Run(Job::Batch(_)) => unreachable!(),
        };
        assert!(pipeline.record(result));
    }
    Ok(pipeline.finish(server, now))
}

fn answer(end: PipelineEnd<String>) -> (Option<String>, Vec<StreamResult<String>>, Option<ConnectionId>) {
    match end {
        PipelineEnd::Answer { body, close_conn } => {
            assert_eq!(body.base_url, Some("http://db.example".to_string()));
            (body.baton, body.results, close_conn)
        }
        PipelineEnd::Cancelled { .. } => panic!("pipeline was cancelled"),
    }
}

fn engine(text: &str) -> StreamResult<String> {
    StreamResult::Response(StreamResponse::Engine(text.to_string()))
}

fn error_code(result: &StreamResult<String>) -> &str {
    match result {
        StreamResult::Error(e) => e.code.as_str(),
        other => panic!("no error in {:?}", other),
    }
}

#[test]
fn same_bytes_compares_content() {
    assert!(same_bytes(b"", b""));
    assert!(same_bytes(b"abc", b"abc"));
    assert!(!same_bytes(b"abc", b"abd"));
    assert!(!same_bytes(b"abc", b"ab"));
    assert!(!same_bytes(b"", b"a"));
    assert!(!same_bytes(&[0x80, 0x01], &[0x00, 0x01]));
}

#[test]
fn baton_reads_back_as_what_it_was_made_for() {
    let key = BatonKey::from_bytes([1u8; 32]);
    for (id, seq) in [(0u64, 0u64), (1, 2), (u64::MAX, u64::MAX), (0x0102030405060708, 9)] {
        let text = key.encode(id, seq);
        assert_eq!(key.decode(&text), Ok((id, seq)));
    }
}

#[test]
fn baton_is_url_safe_text_of_48_bytes() {
    let key = BatonKey::from_bytes([1u8; 32]);
    let text = key.encode(5, 6);
    assert_eq!(text.len(), 64);
    assert!(text.bytes().all(|b| b.is_ascii_alphanumeric() || b == b'-' || b == b'_'));
    assert_ne!(text, key.encode(5, 7));
    assert_ne!(text, key.encode(6, 6));
    assert_eq!(text, key.encode(5, 6));
}

#[test]
fn baton_of_another_key_is_invalid() {
    let key = BatonKey::from_bytes([1u8; 32]);
    let other = BatonKey::from_bytes([2u8; 32]);
    let text = key.encode(5, 6);
    assert_eq!(other.decode(&text), Err(StreamError::BatonInvalid));
    assert_ne!(text, other.encode(5, 6));
}

#[test]
fn tampered_baton_is_invalid() {
    let key = BatonKey::from_bytes([1u8; 32]);
    let text = key.encode(5, 6);
    let mut bytes = text.clone().into_bytes();
    bytes[0] = if bytes[0] == b'A' { b'B' } else { b'A' };
    assert_eq!(key.decode(std::str::from_utf8(&bytes).unwrap()), Err(StreamError::BatonInvalid));
    let mut bytes = text.clone().into_bytes();
    let last = bytes.len() - 4;
    bytes[last] = if bytes[last] == b'A' { b'B' } else { b'A' };
    assert_eq!(key.decode(std::str::from_utf8(&bytes).unwrap()), Err(StreamError::BatonInvalid));
    assert_eq!(key.decode(&text[..60]), Err(StreamError::BatonInvalid));
    assert_eq!(key.decode(""), Err(StreamError::BatonInvalid));
    assert_eq!(key.decode("not base64 !!"), Err(StreamError::BatonInvalid));
    assert_eq!(key.decode("AAAA"), Err(StreamError::BatonInvalid));
}

#[test]
fn generated_keys_differ() {
    let a = BatonKey::generate();
    let b = BatonKey::generate();
    let text = a.encode(1, 1);
    assert_eq!(a.decode(&text), Ok((1, 1)));
    assert_eq!(b.decode(&text), Err(StreamError::BatonInvalid));
}

#[test]
fn new_server_has_no_streams() {
    let server = Server::new(None);
    assert_eq!(server.stream_count(), 0);
    assert_eq!(server.base_url(), None);
    assert_eq!(self::server().base_url(), Some("http://db.example".to_string()));
}

#[test]
fn fresh_pipeline() {
    let mut server = server();
    let mut alloc = allocation(4);
    let end = run(&mut server, &mut alloc, None, vec![execute("select 1")], Version::Hrana1, 0).unwrap();
    let (baton, results, close_conn) = answer(end);
    assert_eq!(results, vec![engine("SELECT 1")]);
    assert!(baton.is_some());
    assert_eq!(close_conn, None);
    assert_eq!(server.stream_count(), 1);
    assert_eq!(alloc.connection_count(), 1);
}

#[test]
fn baton_resumption() {
    let mut server = server();
    let mut alloc = allocation(4);
    let (first, _, _) =
        answer(run(&mut server, &mut alloc, None, vec![execute("select 1")], Version::Hrana1, 0).unwrap());
    let first = first.unwrap();
    let (second, results, _) = answer(
        run(&mut server, &mut alloc, Some(first.clone()), vec![execute("select 2")], Version::Hrana1, 1)
            .unwrap(),
    );
    assert_eq!(results, vec![engine("SELECT 2")]);
    let second = second.unwrap();
    assert_ne!(second, first);
    let reused = run(&mut server, &mut alloc, Some(first), vec![execute("select 3")], Version::Hrana1, 2);
    match reused {
        Err(AcquireError::Stream(e)) => {
            assert_eq!(e, StreamError::BatonReused);
            assert_eq!(e.code(), "BATON_REUSED");
        }
        other => panic!("unexpected {:?}", other.map(|_| ())),
    }
    assert!(run(&mut server, &mut alloc, Some(second), Vec::new(), Version::Hrana1, 3).is_ok());
    assert_eq!(server.stream_count(), 1);
    assert_eq!(alloc.connection_count(), 1);
}

#[test]
fn baton_sequence_numbers_start_at_zero_and_go_up_by_one() {
    let key = BatonKey::from_bytes([7u8; 32]);
    let mut server = server();
    let mut alloc = allocation(4);
    let mut baton = None;
    for expected in 0..5u64 {
        let (next, _, _) = answer(run(&mut server, &mut alloc, baton, Vec::new(), Version::Hrana1, 0).unwrap());
        let text = next.unwrap();
        assert_eq!(key.decode(&text), Ok((0, expected)));
        baton = Some(text);
    }
    for old in 0..4u64 {
        let guard = server.acquire(Some(&key.encode(0, old)), &mut alloc);
        assert_eq!(guard.err(), Some(AcquireError::Stream(StreamError::BatonReused)));
    }
    let guard = server.acquire(Some(&key.encode(0, 5)), &mut alloc);
    assert_eq!(guard.err(), Some(AcquireError::Stream(StreamError::BatonReused)));
    assert!(server.acquire(Some(&key.encode(0, 4)), &mut alloc).is_ok());
}

#[test]
fn streams_get_numbers_and_connections_of_their_own() {
    let mut server = server();
    let mut alloc = allocation(4);
    let a = server.acquire(None, &mut alloc).unwrap();
    let b = server.acquire(None, &mut alloc).unwrap();
    assert!(a.is_fresh());
    assert_eq!(a.stream_id(), 0);
    assert_eq!(b.stream_id(), 1);
    assert_ne!(a.conn(), b.conn());
    assert!(a.sqls().is_empty());
    assert_eq!(server.stream_count(), 2);
    assert_eq!(alloc.connection_count(), 2);
}

#[test]
fn a_stream_is_with_one_request_at_a_time() {
    let key = BatonKey::from_bytes([7u8; 32]);
    let mut server = server();
    let mut alloc = allocation(4);
    let guard = server.acquire(None, &mut alloc).unwrap();
    let baton = server.release(guard, 0).baton.unwrap();
    let held = server.acquire(Some(&baton), &mut alloc).unwrap();
    assert!(!held.is_fresh());
    let second = server.acquire(Some(&baton), &mut alloc);
    assert_eq!(second.err(), Some(AcquireError::Stream(StreamError::BatonReused)));
    let forged = server.acquire(Some(&key.encode(0, 1)), &mut alloc);
    assert_eq!(forged.err(), Some(AcquireError::Stream(StreamError::BatonReused)));
    let next = server.release(held, 1).baton.unwrap();
    assert!(server.acquire(Some(&next), &mut alloc).is_ok());
}

#[test]
fn acquire_refuses_what_is_no_baton() {
    let mut server = server();
    let mut alloc = allocation(4);
    let refused = server.acquire(Some("garbage"), &mut alloc);
    assert_eq!(refused.err(), Some(AcquireError::Stream(StreamError::BatonInvalid)));
    let other = BatonKey::from_bytes([9u8; 32]);
    let refused = server.acquire(Some(&other.encode(0, 0)), &mut alloc);
    assert_eq!(refused.err(), Some(AcquireError::Stream(StreamError::BatonInvalid)));
    assert_eq!(server.stream_count(), 0);
    assert_eq!(alloc.connection_count(), 0);
}

#[test]
fn baton_of_an_unknown_stream_is_expired() {
    let key = BatonKey::from_bytes([7u8; 32]);
    let mut server = server();
    let mut alloc = allocation(4);
    let refused = server.acquire(Some(&key.encode(3, 0)), &mut alloc);
    assert_eq!(refused.err(), Some(AcquireError::Stream(StreamError::BatonExpired)));
}

#[test]
fn new_stream_needs_a_connection() {
    let mut server = server();
    let mut alloc = allocation(1);
    let held = server.acquire(None, &mut alloc).unwrap();
    let refused = server.acquire(None, &mut alloc);
    assert_eq!(refused.err(), Some(AcquireError::Alloc(AllocError::TooManyConnections { max: 1 })));
    assert_eq!(server.stream_count(), 1);
    let conn = held.conn();
    let mut closing = held;
    closing.close();
    let released = server.release(closing, 0);
    assert_eq!(released.baton, None);
    assert_eq!(released.close_conn, Some(conn));
    assert_eq!(server.stream_count(), 0);
    assert!(alloc.reap(conn.id));
    assert!(server.acquire(None, &mut alloc).is_ok());
}

#[test]
fn cancelled_request_keeps_the_last_baton_valid() {
    let mut server = server();
    let mut alloc = allocation(4);
    let guard = server.acquire(None, &mut alloc).unwrap();
    let baton = server.release(guard, 0).baton.unwrap();
    let guard = server.acquire(Some(&baton), &mut alloc).unwrap();
    assert_eq!(server.cancel(guard, 5), None);
    let guard = server.acquire(Some(&baton), &mut alloc).unwrap();
    let next = server.release(guard, 6).baton.unwrap();
    assert_ne!(next, baton);
}

#[test]
fn cancelled_new_stream_is_dropped() {
    let mut server = server();
    let mut alloc = allocation(4);
    let guard = server.acquire(None, &mut alloc).unwrap();
    let conn = guard.conn();
    assert_eq!(server.cancel(guard, 0), Some(conn));
    assert_eq!(server.stream_count(), 0);
}

#[test]
fn unfinished_pipeline_is_a_cancellation() {
    let mut server = server();
    let mut alloc = allocation(4);
    let (baton, _, _) = answer(run(&mut server, &mut alloc, None, Vec::new(), Version::Hrana1, 0).unwrap());
    let baton = baton.unwrap();
    let body = PipelineRequestBody { baton: Some(baton.clone()), requests: vec![execute("a"), execute("b")] };
    let mut pipeline: Pipeline<String> = handle_pipeline(&mut server, body, &mut alloc, Version::Hrana1).unwrap();
    assert!(!pipeline.is_complete());
    assert_eq!(pipeline.next_request(), Some(execute("a")));
    assert_eq!(pipeline.next_request(), None);
    assert!(!pipeline.is_complete());
    match pipeline.finish(&mut server, 1) {
        PipelineEnd::Cancelled { close_conn } => assert_eq!(close_conn, None),
        other => panic!("unexpected {:?}", other),
    }
    assert!(server.acquire(Some(&baton), &mut alloc).is_ok());
}

#[test]
fn results_come_in_the_order_of_the_requests() {
    let mut server = server();
    let mut alloc = allocation(4);
    let requests = vec![execute("a"), execute("b"), execute("c")];
    let (_, results, _) = answer(run(&mut server, &mut alloc, None, requests, Version::Hrana1, 0).unwrap());
    assert_eq!(results, vec![engine("A"), engine("B"), engine("C")]);
}

#[test]
fn results_without_a_request_are_dropped() {
    let mut server = server();
    let mut alloc = allocation(4);
    let body = PipelineRequestBody { baton: None, requests: vec![execute("a")] };
    let mut pipeline: Pipeline<String> = handle_pipeline(&mut server, body, &mut alloc, Version::Hrana1).unwrap();
    assert!(!pipeline.record(engine("x")));
    assert_eq!(pipeline.next_request(), Some(execute("a")));
    assert!(pipeline.record(engine("A")));
    assert!(!pipeline.record(engine("y")));
    assert!(pipeline.is_complete());
    let (_, results, _) = answer(pipeline.finish(&mut server, 0));
    assert_eq!(results, vec![engine("A")]);
}

#[test]
fn conflicting_args_do_not_stop_the_pipeline() {
    let mut server = server();
    let mut alloc = allocation(4);
    let mut both = stmt("select ?");
    both.args = vec![ProtoValue::Integer { value: 1 }];
    both.named_args = vec![NamedArg { name: "a".to_string(), value: ProtoValue::Null }];
    let requests = vec![execute("a"), Request::Execute { stmt: both }, execute("c")];
    let (baton, results, _) = answer(run(&mut server, &mut alloc, None, requests, Version::Hrana1, 0).unwrap());
    assert_eq!(results.len(), 3);
    assert_eq!(results[0], engine("A"));
    assert_eq!(error_code(&results[1]), "ARGS_BOTH_POSITIONAL_AND_NAMED");
    assert_eq!(results[2], engine("C"));
    assert!(baton.is_some());
}

#[test]
fn sql_cache() {
    let mut server = server();
    let mut alloc = allocation(4);
    let by_id = Stmt {
        sql: None,
        sql_id: Some(1),
        args: vec![ProtoValue::Integer { value: 7 }],
        named_args: Vec::new(),
        want_rows: None,
    };
    let requests = vec![
        Request::StoreSql { sql_id: 1, sql: "select ?".to_string() },
        Request::Execute { stmt: by_id },
    ];
    let (baton, results, _) = answer(run(&mut server, &mut alloc, None, requests, Version::Hrana2, 0).unwrap());
    assert_eq!(results, vec![StreamResult::Response(StreamResponse::StoreSql), engine("SELECT ?")]);
    let by_id = Stmt { sql: None, sql_id: Some(1), args: Vec::new(), named_args: Vec::new(), want_rows: None };
    let requests = vec![Request::CloseSql { sql_id: 1 }, Request::Execute { stmt: by_id }];
    let (_, results, _) = answer(run(&mut server, &mut alloc, baton, requests, Version::Hrana2, 1).unwrap());
    assert_eq!(results[0], StreamResult::Response(StreamResponse::CloseSql));
    assert_eq!(error_code(&results[1]), "SQL_NOT_FOUND");
}

#[test]
fn execute_by_sql_id_gets_the_stored_text_and_arguments() {
    let mut server = server();
    let mut alloc = allocation(4);
    let mut guard = server.acquire(None, &mut alloc).unwrap();
    let stored: Begun<String> =
        guard.begin(Request::StoreSql { sql_id: 1, sql: "SELECT ?".to_string() }, Version::Hrana2);
    assert_eq!(stored, Begun::Done(StreamResult::Response(StreamResponse::StoreSql)));
    assert_eq!(guard.sqls().get(&1), Some(&"SELECT ?".to_string()));
    let by_id = Stmt {
        sql: None,
        sql_id: Some(1),
        args: vec![ProtoValue::Integer { value: 7 }],
        named_args: Vec::new(),
        want_rows: None,
    };
    let begun: Begun<String> = guard.begin(Request::Execute { stmt: by_id }, Version::Hrana2);
    match begun {
        Begun::Analyze { sql, stmt } => {
            assert_eq!(sql, "SELECT ?");
            let job: Begun<String> =
                guard.analyzed(&stmt, Version::Hrana2, &vec![Ok(statement("SELECT ?"))]).unwrap();
            match job {
                Begun::Run(Job::Execute(query)) => {
                    assert_eq!(query.params, Params::Positional(vec![Value::Integer(7)]));
                    assert_eq!(query.stmt, statement("SELECT ?"));
                }
                other => panic!("unexpected {:?}", other),
            }
        }
        other => panic!("unexpected {:?}", other),
    }
}

#[test]
fn storing_sql_twice_under_one_number_is_refused() {
    let mut server = server();
    let mut alloc = allocation(4);
    let requests = vec![
        Request::StoreSql { sql_id: 1, sql: "a".to_string() },
        Request::StoreSql { sql_id: 1, sql: "b".to_string() },
        Request::Sequence { sql: None, sql_id: Some(1) },
    ];
    let (_, results, _) = answer(run(&mut server, &mut alloc, None, requests, Version::Hrana2, 0).unwrap());
    assert_eq!(results[0], StreamResult::Response(StreamResponse::StoreSql));
    assert_eq!(error_code(&results[1]), "SQL_EXISTS");
    assert_eq!(results[2], engine("seq:a"));
}

#[test]
fn a_stream_holds_a_limited_number_of_sql_texts() {
    let mut server = server();
    let mut alloc = allocation(4);
    let mut guard = server.acquire(None, &mut alloc).unwrap();
    for id in 0..MAX_SQL_COUNT as i32 {
        let r: Begun<String> = guard.begin(Request::StoreSql { sql_id: id, sql: "x".to_string() }, Version::Hrana2);
        assert_eq!(r, Begun::Done(StreamResult::Response(StreamResponse::StoreSql)));
    }
    let r: Begun<String> = guard.begin(Request::StoreSql { sql_id: 1000, sql: "x".to_string() }, Version::Hrana2);
    match r {
        Begun::Done(result) => assert_eq!(error_code(&result), "SQL_STORE_TOO_MANY"),
        other => panic!("unexpected {:?}", other),
    }
    assert_eq!(guard.sqls().len(), MAX_SQL_COUNT);
    let r: Begun<String> = guard.begin(Request::CloseSql { sql_id: 3 }, Version::Hrana2);
    assert_eq!(r, Begun::Done(StreamResult::Response(StreamResponse::CloseSql)));
    let r: Begun<String> = guard.begin(Request::StoreSql { sql_id: 1000, sql: "x".to_string() }, Version::Hrana2);
    assert_eq!(r, Begun::Done(StreamResult::Response(StreamResponse::StoreSql)));
}

#[test]
fn requests_need_their_version() {
    let mut server = server();
    let mut alloc = allocation(4);
    let requests = vec![
        Request::StoreSql { sql_id: 1, sql: "a".to_string() },
        Request::CloseSql { sql_id: 1 },
        Request::Sequence { sql: Some("a".to_string()), sql_id: None },
        Request::Describe { sql: Some("a".to_string()), sql_id: None },
        Request::GetAutocommit,
        execute("a"),
    ];
    let (_, results, _) = answer(run(&mut server, &mut alloc, None, requests, Version::Hrana1, 0).unwrap());
    for result in &results[..5] {
        assert_eq!(error_code(result), "NOT_SUPPORTED");
    }
    assert_eq!(results[5], engine("A"));
    match &results[4] {
        StreamResult::Error(e) => {
            assert_eq!(e.message, "`get_autocommit` is only supported in protocol version hrana3 and higher")
        }
        _ => unreachable!(),
    }
    let requests = vec![Request::GetAutocommit, Request::Describe { sql: Some("a".to_string()), sql_id: None }];
    let (_, results, _) = answer(run(&mut server, &mut alloc, None, requests, Version::Hrana2, 0).unwrap());
    assert_eq!(error_code(&results[0]), "NOT_SUPPORTED");
    assert_eq!(results[1], engine("desc:a"));
    let (_, results, _) =
        answer(run(&mut server, &mut alloc, None, vec![Request::GetAutocommit], Version::Hrana3, 0).unwrap());
    assert_eq!(results, vec![engine("autocommit")]);
}

#[test]
fn close_ends_the_stream() {
    let mut server = server();
    let mut alloc = allocation(4);
    let requests = vec![execute("a"), Request::Close];
    let (baton, results, close_conn) =
        answer(run(&mut server, &mut alloc, None, requests, Version::Hrana1, 0).unwrap());
    assert_eq!(results, vec![engine("A"), StreamResult::Response(StreamResponse::Close)]);
    assert_eq!(baton, None);
    assert!(close_conn.is_some());
    assert_eq!(server.stream_count(), 0);
}

#[test]
fn sequence_without_sql_is_a_fault_of_the_request() {
    let mut server = server();
    let mut alloc = allocation(4);
    let requests = vec![
        Request::Sequence { sql: None, sql_id: None },
        Request::Describe { sql: Some("a".to_string()), sql_id: Some(1) },
    ];
    let (_, results, _) = answer(run(&mut server, &mut alloc, None, requests, Version::Hrana2, 0).unwrap());
    assert_eq!(error_code(&results[0]), "SQL_ID_OR_SQL_NOT_GIVEN");
    assert_eq!(error_code(&results[1]), "SQL_ID_AND_SQL_GIVEN");
}

#[test]
fn idle_streams_expire() {
    let mut server = server();
    let mut alloc = allocation(4);
    let a = server.acquire(None, &mut alloc).unwrap();
    let b = server.acquire(None, &mut alloc).unwrap();
    let c = server.acquire(None, &mut alloc).unwrap();
    let conn_a = a.conn();
    let baton_a = server.release(a, 100).baton.unwrap();
    let baton_b = server.release(b, 5_000).baton.unwrap();
    assert_eq!(IDLE_TIMEOUT_MS, 10_000);
    assert_eq!(server.run_expire(10_100, IDLE_TIMEOUT_MS), Vec::new());
    assert_eq!(server.run_expire(10_101, IDLE_TIMEOUT_MS), vec![conn_a]);
    assert_eq!(server.stream_count(), 2);
    let expired = server.acquire(Some(&baton_a), &mut alloc);
    assert_eq!(expired.err(), Some(AcquireError::Stream(StreamError::BatonExpired)));
    assert_eq!(server.run_expire(1_000_000, 10_000).len(), 1);
    assert_eq!(server.stream_count(), 1);
    let expired = server.acquire(Some(&baton_b), &mut alloc);
    assert_eq!(expired.err(), Some(AcquireError::Stream(StreamError::BatonExpired)));
    assert!(server.release(c, 1_000_000).baton.is_some());
    assert_eq!(server.expire(2, 1_000_000, 10_000), None);
    assert_eq!(server.run_expire(0, 10_000), Vec::new());
}

#[test]
fn a_stream_that_is_checked_out_never_expires() {
    let mut server = server();
    let mut alloc = allocation(4);
    let guard = server.acquire(None, &mut alloc).unwrap();
    let baton = server.release(guard, 0).baton.unwrap();
    let held = server.acquire(Some(&baton), &mut alloc).unwrap();
    assert_eq!(server.run_expire(u64::MAX, 0), Vec::new());
    assert_eq!(server.stream_count(), 1);
    assert!(server.release(held, u64::MAX).baton.is_some());
    assert_eq!(server.run_expire(u64::MAX, 0), Vec::new());
}

#[test]
fn a_guard_that_the_server_does_not_know_ends_its_stream() {
    let mut first = server();
    let mut second = server();
    let mut alloc = allocation(4);
    let guard = first.acquire(None, &mut alloc).unwrap();
    let conn = guard.conn();
    let released = second.release(guard, 0);
    assert_eq!(released.baton, None);
    assert_eq!(released.close_conn, Some(conn));
    let guard = first.acquire(None, &mut alloc).unwrap();
    let conn = guard.conn();
    assert_eq!(second.cancel(guard, 0), Some(conn));
}

#[test]
fn job_outcomes_become_results() {
    assert_eq!(finish(Ok(5u8)), Ok(StreamResult::Response(StreamResponse::Engine(5u8))));
    match finish::<u8>(Err(HranaError::Stmt(StmtError::TransactionBusy))) {
        Ok(StreamResult::Error(e)) => {
            assert_eq!(e.code, "TRANSACTION_BUSY");
            assert_eq!(e.message, "Server cannot handle additional transactions");
        }
        other => panic!("unexpected {:?}", other),
    }
    match finish::<u8>(Err(HranaError::Proto(ProtocolError::SqlNotFound { sql_id: 2 }))) {
        Ok(StreamResult::Error(e)) => assert_eq!(e.code, "SQL_NOT_FOUND"),
        other => panic!("unexpected {:?}", other),
    }
    assert_eq!(
        finish::<u8>(Err(HranaError::Libsqlx(Error::ConnectionClosed))),
        Err(HranaError::Libsqlx(Error::ConnectionClosed))
    );
    assert_eq!(
        finish::<u8>(Err(HranaError::Stream(StreamError::BatonExpired))),
        Err(HranaError::Stream(StreamError::BatonExpired))
    );
}

#[test]
fn a_statement_is_run_as_a_program_of_one_step() {
    let query = Query { stmt: statement("select 1"), params: Params::Positional(Vec::new()), want_rows: true };
    let program = execute_stmt(query);
    assert_eq!(program.steps.len(), 1);
    assert_eq!(program.steps[0].stmt, statement("select 1"));
}

#[test]
fn a_worker_that_went_away_means_a_closed_connection() {
    assert_eq!(stmt_outcome(Some(Ok(1u8))), Ok(1u8));
    assert_eq!(
        stmt_outcome::<u8>(Some(Err(HranaError::Stmt(StmtError::SqlNoStmt)))),
        Err(HranaError::Stmt(StmtError::SqlNoStmt))
    );
    assert_eq!(stmt_outcome::<u8>(None), Err(HranaError::Libsqlx(Error::ConnectionClosed)));
}

#[test]
fn describe_outcome_is_put_in_the_protocol_form() {
    let response = DescribeResponse { params: Vec::new(), cols: Vec::new(), is_explain: false, is_readonly: true };
    let result = describe_stmt(Ok(response)).unwrap();
    assert!(result.is_readonly);
    assert_eq!(
        describe_stmt(Err(Error::Libsqlx(sqld_core::error::EngineError::LibSqlTxTimeout))),
        Err(HranaError::Stmt(StmtError::TransactionTimeout))
    );
}

#[test]
fn a_batch_runs_its_statements_in_order() {
    let mut server = server();
    let mut alloc = allocation(4);
    let batch = Batch { steps: vec![stmt("a"), stmt("b"), stmt("c")] };
    let requests = vec![Request::Batch { batch }, execute("d")];
    let (_, results, _) = answer(run(&mut server, &mut alloc, None, requests, Version::Hrana1, 0).unwrap());
    assert_eq!(results, vec![engine("A+B+C"), engine("D")]);
}

#[test]
fn an_empty_batch_is_an_empty_program() {
    let mut server = server();
    let mut alloc = allocation(4);
    let guard = server.acquire(None, &mut alloc).unwrap();
    let job: Begun<String> = guard.analyzed_batch(&Batch { steps: Vec::new() }, Version::Hrana1, &Vec::new()).unwrap();
    match job {
        Begun::Run(Job::Batch(program)) => assert!(program.steps.is_empty()),
        other => panic!("unexpected {:?}", other),
    }
}

#[test]
fn the_first_bad_statement_is_the_error_of_the_batch() {
    let mut server = server();
    let mut alloc = allocation(4);
    let guard = server.acquire(None, &mut alloc).unwrap();
    let mut both = stmt("b");
    both.args = vec![ProtoValue::Null];
    both.named_args = vec![NamedArg { name: "n".to_string(), value: ProtoValue::Null }];
    let batch = Batch { steps: vec![stmt("a"), both, stmt("")] };
    let parsed = vec![vec![Ok(statement("a"))], vec![Ok(statement("b"))], Vec::new()];
    let r: Begun<String> = guard.analyzed_batch(&batch, Version::Hrana1, &parsed).unwrap();
    match r {
        Begun::Done(result) => assert_eq!(error_code(&result), "ARGS_BOTH_POSITIONAL_AND_NAMED"),
        other => panic!("unexpected {:?}", other),
    }
    let batch = Batch { steps: vec![stmt("a"), stmt("b")] };
    let parsed = vec![vec![Ok(statement("a"))]];
    let r: Begun<String> = guard.analyzed_batch(&batch, Version::Hrana1, &parsed).unwrap();
    match r {
        Begun::Done(result) => assert_eq!(error_code(&result), "SQL_NO_STATEMENT"),
        other => panic!("unexpected {:?}", other),
    }
}

#[test]
fn a_batch_resolves_sql_ids() {
    let mut server = server();
    let mut alloc = allocation(4);
    let by_id = Stmt { sql: None, sql_id: Some(5), args: Vec::new(), named_args: Vec::new(), want_rows: None };
    let missing = Stmt { sql: None, sql_id: Some(6), args: Vec::new(), named_args: Vec::new(), want_rows: None };
    let requests = vec![
        Request::StoreSql { sql_id: 5, sql: "stored".to_string() },
        Request::Batch { batch: Batch { steps: vec![stmt("a"), by_id] } },
        Request::Batch { batch: Batch { steps: vec![stmt("a"), missing] } },
    ];
    let (_, results, _) = answer(run(&mut server, &mut alloc, None, requests, Version::Hrana2, 0).unwrap());
    assert_eq!(results[1], engine("A+STORED"));
    assert_eq!(error_code(&results[2]), "SQL_NOT_FOUND");
}

#[test]
fn a_new_stream_holds_no_sql_text() {
    let mut server = server();
    let mut alloc = allocation(4);
    let body = PipelineRequestBody { baton: None, requests: Vec::new() };
    let mut pipeline: Pipeline<String> = handle_pipeline(&mut server, body, &mut alloc, Version::Hrana2).unwrap();
    assert!(pipeline.stream().sqls().is_empty());
    assert!(pipeline.stream().is_fresh());
    assert_eq!(alloc.connection_count(), 1);
}

#[test]
fn the_answer_carries_the_address_of_the_server() {
    let mut server = Server::with_key(Some("https://one.example".to_string()), BatonKey::from_bytes([3u8; 32]));
    let mut alloc = allocation(4);
    let body = PipelineRequestBody { baton: None, requests: Vec::new() };
    let pipeline: Pipeline<String> = handle_pipeline(&mut server, body, &mut alloc, Version::Hrana1).unwrap();
    match pipeline.finish(&mut server, 0) {
        PipelineEnd::Answer { body, .. } => assert_eq!(body.base_url, Some("https://one.example".to_string())),
        other => panic!("unexpected {:?}", other),
    }
    let mut nameless = Server::with_key(None, BatonKey::from_bytes([3u8; 32]));
    let body = PipelineRequestBody { baton: None, requests: Vec::new() };
    let pipeline: Pipeline<String> = handle_pipeline(&mut nameless, body, &mut alloc, Version::Hrana1).unwrap();
    match pipeline.finish(&mut nameless, 0) {
        PipelineEnd::Answer { body, .. } => assert_eq!(body.base_url, None),
        other => panic!("unexpected {:?}", other),
    }
}

#[test]
fn one_stream_expires_by_its_number() {
    let mut server = server();
    let mut alloc = allocation(4);
    let a = server.acquire(None, &mut alloc).unwrap();
    let b = server.acquire(None, &mut alloc).unwrap();
    let (id_a, conn_a) = (a.stream_id(), a.conn());
    let id_b = b.stream_id();
    assert!(server.release(a, 100).baton.is_some());
    assert_eq!(server.expire(id_a, 10_100, IDLE_TIMEOUT_MS), None);
    assert_eq!(server.expire(id_b, u64::MAX, 0), None);
    assert_eq!(server.expire(id_a, 10_101, IDLE_TIMEOUT_MS), Some(conn_a));
    assert_eq!(server.stream_count(), 1);
    assert_eq!(server.expire(id_a, 10_101, IDLE_TIMEOUT_MS), None);
    assert_eq!(server.expire(77, u64::MAX, 0), None);
    assert_eq!(server.stream_count(), 1);
    assert!(server.release(b, 0).baton.is_some());
}

#[test]
fn a_round_of_expiry_ends_every_stale_stream_and_no_other() {
    let mut server = server();
    let mut alloc = allocation(64);
    let mut early: Vec<ConnectionId> = Vec::new();
    let mut late: Vec<String> = Vec::new();
    for n in 0..40u64 {
        let guard = server.acquire(None, &mut alloc).unwrap();
        if n % 2 == 0 {
            early.push(guard.conn());
            assert!(server.release(guard, 0).baton.is_some());
        } else {
            late.push(server.release(guard, 9_000).baton.unwrap());
        }
    }
    let held = server.acquire(None, &mut alloc).unwrap();
    let mut closed = server.run_expire(10_001, IDLE_TIMEOUT_MS);
    closed.sort_by_key(|conn| conn.id);
    early.sort_by_key(|conn| conn.id);
    assert_eq!(closed, early);
    assert_eq!(server.stream_count(), 21);
    for baton in late.iter() {
        let guard = server.acquire(Some(baton), &mut alloc).unwrap();
        assert!(server.release(guard, 10_001).baton.is_some());
    }
    assert!(server.release(held, 10_001).baton.is_some());
    assert_eq!(server.run_expire(10_001, IDLE_TIMEOUT_MS), Vec::new());
    assert_eq!(server.stream_count(), 21);
}

#[test]
fn many_streams_are_found_by_their_numbers() {
    let mut server = server();
    let mut alloc = allocation(512);
    let mut batons: Vec<(u64, String)> = Vec::new();
    for _ in 0..300 {
        let guard = server.acquire(None, &mut alloc).unwrap();
        let id = guard.stream_id();
        batons.push((id, server.release(guard, 0).baton.unwrap()));
    }
    assert_eq!(server.stream_count(), 300);
    for (id, baton) in batons.iter().rev() {
        let guard = server.acquire(Some(baton), &mut alloc).unwrap();
        assert_eq!(guard.stream_id(), *id);
        let again = server.acquire(Some(baton), &mut alloc);
        assert_eq!(again.err(), Some(AcquireError::Stream(StreamError::BatonReused)));
        assert_eq!(server.cancel(guard, 1), None);
    }
    assert_eq!(server.stream_count(), 300);
}

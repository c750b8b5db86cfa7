//! The pipeline of requests that a client sends over HTTP: which request
//! asks for what, and how the results are collected.
//!
//! The SQL engine is not in here. A request that needs it is turned into a
//! job; whoever runs the engine hands back what came of the job.

use vstd::prelude::*;
use vstd::string::*;
use crate::allocation::{is_next_free, Allocation, ConnectionId};
use crate::baton::baton_of;
use crate::error::{Error, HranaError, ProtocolError};
use crate::program::Program;
use crate::stmt::{
    describes, proto_describe_result_from_describe_response, proto_error_from_protocol_error,
    proto_error_from_stmt_error, proto_sql_to_sql, proto_stmt_to_query, query_of, resolved_sql,
    sql_text_of, Batch, DescribeResponse, DescribeResult, ProtoError, Query, QueryView,
    Statement, Stmt,
};
use crate::stream::{
    cancelled_slot, goes_on, released_seq, released_slot, AcquireError, Server, SlotState,
    StreamGuard,
};
use crate::version::Version;

verus! {

broadcast use vstd::std_specs::hash::group_hash_axioms;

/// How many SQL texts a stream may hold.
pub const MAX_SQL_COUNT: usize = 150;

/// A request of a pipeline.
#[derive(Debug, PartialEq, Eq)]
#[allow(inconsistent_fields)]
pub enum Request {
    Close,
    Execute { stmt: Stmt },
    Batch { batch: Batch },
    Sequence { sql: Option<String>, sql_id: Option<i32> },
    Describe { sql: Option<String>, sql_id: Option<i32> },
    StoreSql { sql_id: i32, sql: String },
    CloseSql { sql_id: i32 },
    GetAutocommit,
}

/// What a client sends: the baton of its stream, if it has one, and the
/// requests.
#[derive(Debug, PartialEq, Eq)]
pub struct PipelineRequestBody {
    pub baton: Option<String>,
    pub requests: Vec<Request>,
}

/// Work for the SQL engine.
#[derive(Debug, PartialEq, Eq)]
pub enum Job {
    /// Run one statement.
    Execute(Query),
    /// Run the statements of a batch, one after the other.
    Batch(Program),
    /// Run the statements of an SQL text, one after the other.
    Sequence(String),
    /// Describe the statement of an SQL text.
    Describe(String),
    /// Say whether the connection is outside a transaction.
    GetAutocommit,
}

/// The answer to one request. `R` is what the engine gives for a job.
#[derive(Debug, PartialEq, Eq)]
pub enum StreamResponse<R> {
    Close,
    StoreSql,
    CloseSql,
    /// The engine's answer to the request's job.
    Engine(R),
}

/// The result of one request: its answer, or the error that it ran into.
#[derive(Debug, PartialEq, Eq)]
pub enum StreamResult<R> {
    Response(StreamResponse<R>),
    Error(ProtoError),
}

/// What the server sends back: the baton that resumes the stream, if the
/// stream goes on, the address of the server, and one result for each
/// request, in the order of the requests.
#[derive(Debug, PartialEq, Eq)]
pub struct PipelineResponseBody<R> {
    pub baton: Option<String>,
    pub base_url: Option<String>,
    pub results: Vec<StreamResult<R>>,
}

/// What a request asks for.
#[derive(Debug, PartialEq, Eq)]
pub enum Begun<R> {
    /// The request is done, with this result.
    Done(StreamResult<R>),
    /// The request runs a statement: analyse this SQL text, then prepare
    /// the statement with what the analysis gave.
    Analyze { sql: String, stmt: Stmt },
    /// The request runs a batch: analyse the SQL text of each of its
    /// statements, then prepare the batch with what the analyses gave.
    AnalyzeBatch { batch: Batch },
    /// The request is a job for the engine.
    Run(Job),
}

/// The least version of the protocol that knows a request.
pub open spec fn min_version_of(request: &Request) -> Version {
    match request {
        Request::Close => Version::Hrana1,
        Request::Execute { .. } => Version::Hrana1,
        Request::Batch { .. } => Version::Hrana1,
        Request::Sequence { .. } => Version::Hrana2,
        Request::Describe { .. } => Version::Hrana2,
        Request::StoreSql { .. } => Version::Hrana2,
        Request::CloseSql { .. } => Version::Hrana2,
        Request::GetAutocommit => Version::Hrana3,
    }
}

/// The name of a request, as an error names it.
pub open spec fn request_name(request: &Request) -> &'static str {
    match request {
        Request::Close => "`close`",
        Request::Execute { .. } => "`execute`",
        Request::Batch { .. } => "`batch`",
        Request::Sequence { .. } => "`sequence`",
        Request::Describe { .. } => "`describe`",
        Request::StoreSql { .. } => "`store_sql`",
        Request::CloseSql { .. } => "`close_sql`",
        Request::GetAutocommit => "`get_autocommit`",
    }
}

/// The breach of the protocol that a request is, if it is one: the version
/// does not know it, its SQL text does not resolve, or it stores a text
/// under a number that is taken or in a stream that is full.
pub open spec fn request_fault(request: &Request, sqls: Map<i32, String>, version: Version) -> Option<
    ProtocolError,
> {
    if version.rank() < min_version_of(request).rank() {
        Some(
            ProtocolError::NotSupported {
                what: request_name(request),
                min_version: min_version_of(request),
            },
        )
    } else {
        match request {
            Request::Execute { stmt } => match resolved_sql(
                sql_text_of(stmt),
                stmt.sql_id,
                sqls,
                version,
            ) {
                Err(e) => Some(e),
                Ok(_) => None,
            },
            Request::Sequence { sql, sql_id } => match resolved_sql(
                opt_text(*sql),
                *sql_id,
                sqls,
                version,
            ) {
                Err(e) => Some(e),
                Ok(_) => None,
            },
            Request::Describe { sql, sql_id } => match resolved_sql(
                opt_text(*sql),
                *sql_id,
                sqls,
                version,
            ) {
                Err(e) => Some(e),
                Ok(_) => None,
            },
            Request::StoreSql { sql_id, .. } => if sqls.contains_key(*sql_id) {
                Some(ProtocolError::SqlExists { sql_id: *sql_id })
            } else if sqls.dom().len() >= MAX_SQL_COUNT {
                Some(ProtocolError::SqlTooMany { count: MAX_SQL_COUNT })
            } else {
                None
            },
            _ => None,
        }
    }
}

/// The text of an optional string.
pub open spec fn opt_text(s: Option<String>) -> Option<Seq<char>> {
    match s {
        Some(s) => Some(s@),
        None => None,
    }
}

/// The SQL texts that a stream holds after a request.
pub open spec fn sqls_after(request: &Request, sqls: Map<i32, String>, version: Version) -> Map<
    i32,
    String,
> {
    if request_fault(request, sqls, version) is Some {
        sqls
    } else {
        match request {
            Request::StoreSql { sql_id, sql } => sqls.insert(*sql_id, *sql),
            Request::CloseSql { sql_id } => sqls.remove(*sql_id),
            _ => sqls,
        }
    }
}

impl StreamGuard {
    /// Takes up a request on the stream. A breach of the protocol is the
    /// request's result, and the stream stays as it is. Storing and closing
    /// an SQL text and closing the stream are done at once. Everything else
    /// is work for the engine.
    pub fn begin<R>(&mut self, request: Request, version: Version) -> (r: Begun<R>)
        ensures
            taken_up(*old(self), &request, version, *final(self)),
            final(self).stream().stream_id == old(self).stream().stream_id,
            final(self).stream().conn == old(self).stream().conn,
            final(self).presented() == old(self).presented(),
            final(self).stream().sqls@ == sqls_after(&request, old(self).stream().sqls@, version),
            final(self).is_closed() == (old(self).is_closed() || (request is Close
                && request_fault(&request, old(self).stream().sqls@, version) is None)),
            match request_fault(&request, old(self).stream().sqls@, version) {
                Some(e) => r matches Begun::Done(StreamResult::Error(error)) && error.message@
                    == e.message_text() && error.code@ == e.code_name(),
                None => match request {
                    Request::Close => r == Begun::<R>::Done(StreamResult::Response(StreamResponse::Close)),
                    Request::StoreSql { .. } => r == Begun::<R>::Done(
                        StreamResult::Response(StreamResponse::StoreSql),
                    ),
                    Request::CloseSql { .. } => r == Begun::<R>::Done(
                        StreamResult::Response(StreamResponse::CloseSql),
                    ),
                    Request::GetAutocommit => r == Begun::<R>::Run(Job::GetAutocommit),
                    Request::Batch { batch } => r == Begun::<R>::AnalyzeBatch { batch },
                    Request::Execute { stmt } => r matches Begun::Analyze { sql, stmt: s } && s
                        == stmt && resolved_sql(
                        sql_text_of(&stmt),
                        stmt.sql_id,
                        old(self).stream().sqls@,
                        version,
                    ) == Ok::<Seq<char>, ProtocolError>(sql@),
                    Request::Sequence { sql, sql_id } => r matches Begun::Run(Job::Sequence(text))
                        && resolved_sql(opt_text(sql), sql_id, old(self).stream().sqls@, version)
                        == Ok::<Seq<char>, ProtocolError>(text@),
                    Request::Describe { sql, sql_id } => r matches Begun::Run(Job::Describe(text))
                        && resolved_sql(opt_text(sql), sql_id, old(self).stream().sqls@, version)
                        == Ok::<Seq<char>, ProtocolError>(text@),
                },
            },
    {
        let min_version: Version = match &request {
            Request::Close => Version::Hrana1,
            Request::Execute { .. } => Version::Hrana1,
            Request::Batch { .. } => Version::Hrana1,
            Request::Sequence { .. } => Version::Hrana2,
            Request::Describe { .. } => Version::Hrana2,
            Request::StoreSql { .. } => Version::Hrana2,
            Request::CloseSql { .. } => Version::Hrana2,
            Request::GetAutocommit => Version::Hrana3,
        };
        if !version.at_least(min_version) {
            let what: &'static str = match &request {
                Request::Close => "`close`",
                Request::Execute { .. } => "`execute`",
                Request::Batch { .. } => "`batch`",
                Request::Sequence { .. } => "`sequence`",
                Request::Describe { .. } => "`describe`",
                Request::StoreSql { .. } => "`store_sql`",
                Request::CloseSql { .. } => "`close_sql`",
                Request::GetAutocommit => "`get_autocommit`",
            };
            return Begun::Done(fault_result(&ProtocolError::NotSupported { what, min_version }));
        }
        match request {
            Request::Close => {
                self.close();
                Begun::Done(StreamResult::Response(StreamResponse::Close))
            },
            Request::GetAutocommit => Begun::Run(Job::GetAutocommit),
            Request::Batch { batch } => Begun::AnalyzeBatch { batch },
            Request::StoreSql { sql_id, sql } => {
                if self.sqls().contains_key(&sql_id) {
                    return Begun::Done(fault_result(&ProtocolError::SqlExists { sql_id }));
                }
                if self.sqls().len() >= MAX_SQL_COUNT {
                    return Begun::Done(
                        fault_result(&ProtocolError::SqlTooMany { count: MAX_SQL_COUNT }),
                    );
                }
                self.store_sql(sql_id, sql);
                Begun::Done(StreamResult::Response(StreamResponse::StoreSql))
            },
            Request::CloseSql { sql_id } => {
                self.close_sql(sql_id);
                Begun::Done(StreamResult::Response(StreamResponse::CloseSql))
            },
            Request::Execute { stmt } => {
                let proto_sql: Option<&str> = match &stmt.sql {
                    Some(sql) => Some(sql.as_str()),
                    None => None,
                };
                match proto_sql_to_sql(proto_sql, stmt.sql_id, self.sqls(), version) {
                    Ok(sql) => {
                        let sql = String::from_str(sql);
                        Begun::Analyze { sql, stmt }
                    },
                    Err(e) => Begun::Done(fault_result(&e)),
                }
            },
            Request::Sequence { sql, sql_id } => {
                let proto_sql: Option<&str> = match &sql {
                    Some(sql) => Some(sql.as_str()),
                    None => None,
                };
                match proto_sql_to_sql(proto_sql, sql_id, self.sqls(), version) {
                    Ok(text) => Begun::Run(Job::Sequence(String::from_str(text))),
                    Err(e) => Begun::Done(fault_result(&e)),
                }
            },
            Request::Describe { sql, sql_id } => {
                let proto_sql: Option<&str> = match &sql {
                    Some(sql) => Some(sql.as_str()),
                    None => None,
                };
                match proto_sql_to_sql(proto_sql, sql_id, self.sqls(), version) {
                    Ok(text) => Begun::Run(Job::Describe(String::from_str(text))),
                    Err(e) => Begun::Done(fault_result(&e)),
                }
            },
        }
    }

    /// Prepares the statement of a request with what the analysis of its
    /// SQL text gave: the job for the engine, or the error that is the
    /// request's result. A failure that is not the client's ends the
    /// pipeline.
    pub fn analyzed<R>(
        &self,
        stmt: &Stmt,
        version: Version,
        parsed: &Vec<Result<Statement, String>>,
    ) -> (r: Result<Begun<R>, HranaError>)
        ensures
            match query_of(stmt, self.stream().sqls@, version, parsed@) {
                Ok(query) => r matches Ok(Begun::Run(Job::Execute(q))) && q@ == query,
                Err(HranaError::Stmt(e)) => r matches Ok(Begun::Done(StreamResult::Error(error)))
                    && error.message@ == e.message_text() && error.code@ == e.code_name(),
                Err(HranaError::Proto(e)) => r matches Ok(Begun::Done(StreamResult::Error(error)))
                    && error.message@ == e.message_text() && error.code@ == e.code_name(),
                Err(e) => r == Err::<Begun<R>, HranaError>(e),
            },
    {
        match proto_stmt_to_query(stmt, self.sqls(), version, parsed) {
            Ok(query) => Ok(Begun::Run(Job::Execute(query))),
            Err(e) => match finish::<R>(Err(e)) {
                Ok(result) => Ok(Begun::Done(result)),
                Err(e) => Err(e),
            },
        }
    }

    /// The SQL text of the statement at `index` of a batch, for its
    /// analysis.
    pub fn batch_sql<'a>(&'a self, batch: &'a Batch, index: usize, version: Version) -> (r: Result<
        &'a str,
        ProtocolError,
    >)
        requires
            index < batch.steps@.len(),
        ensures
            r matches Ok(sql) ==> resolved_sql(
                sql_text_of(&batch.steps@[index as int]),
                batch.steps@[index as int].sql_id,
                self.stream().sqls@,
                version,
            ) == Ok::<Seq<char>, ProtocolError>(sql@),
            r matches Err(e) ==> resolved_sql(
                sql_text_of(&batch.steps@[index as int]),
                batch.steps@[index as int].sql_id,
                self.stream().sqls@,
                version,
            ) == Err::<Seq<char>, ProtocolError>(e),
    {
        let stmt = &batch.steps[index];
        let proto_sql: Option<&str> = match &stmt.sql {
            Some(sql) => Some(sql.as_str()),
            None => None,
        };
        proto_sql_to_sql(proto_sql, stmt.sql_id, self.sqls(), version)
    }

    /// Prepares a batch with what the analyses of its statements gave, one
    /// for each statement and in their order: the job for the engine, or
    /// the error of the first statement that has one, which is the
    /// request's result. A statement without an analysis counts as one
    /// whose SQL text holds no statement.
    pub fn analyzed_batch<R>(
        &self,
        batch: &Batch,
        version: Version,
        parsed: &Vec<Vec<Result<Statement, String>>>,
    ) -> (r: Result<Begun<R>, HranaError>)
        ensures
            match batch_queries(batch.steps@, self.stream().sqls@, version, parsed@) {
                Ok(queries) => r matches Ok(Begun::Run(Job::Batch(program))) && program.steps@.len()
                    == queries.len() && forall|i: int|
                    0 <= i < queries.len() ==> (#[trigger] program.steps@[i])@ == queries[i],
                Err(HranaError::Stmt(e)) => r matches Ok(Begun::Done(StreamResult::Error(error)))
                    && error.message@ == e.message_text() && error.code@ == e.code_name(),
                Err(HranaError::Proto(e)) => r matches Ok(Begun::Done(StreamResult::Error(error)))
                    && error.message@ == e.message_text() && error.code@ == e.code_name(),
                Err(e) => r == Err::<Begun<R>, HranaError>(e),
            },
    {
        let n: usize = batch.steps.len();
        let none: Vec<Result<Statement, String>> = Vec::new();
        let mut queries: Vec<Query> = Vec::new();
        let ghost steps = batch.steps@;
        let ghost sqls = self.stream().sqls@;
        let mut i: usize = 0;
        assert(steps.take(0) =~= Seq::<Stmt>::empty());
        while i < n
            invariant
                i <= n,
                n == steps.len(),
                steps == batch.steps@,
                sqls == self.stream().sqls@,
                none@.len() == 0,
                batch_queries(steps.take(i as int), sqls, version, parsed@) matches Ok(qs)
                    && qs.len() == queries@.len() && forall|k: int|
                    0 <= k < qs.len() ==> (#[trigger] queries@[k])@ == qs[k],
            decreases n - i,
        {
            let analysis = if i < parsed.len() {
                &parsed[i]
            } else {
                &none
            };
            proof {
                assert(steps.take(i + 1).drop_last() =~= steps.take(i as int));
                assert(steps.take(i + 1).last() == steps[i as int]);
                assert(analysis@ =~= analysis_at(parsed@, i as int));
            }
            match proto_stmt_to_query(&batch.steps[i], self.sqls(), version, analysis) {
                Ok(query) => {
                    queries.push(query);
                },
                Err(e) => {
                    proof {
                        lemma_batch_fails(steps, sqls, version, parsed@, i + 1);
                    }
                    return match finish::<R>(Err(e)) {
                        Ok(result) => Ok(Begun::Done(result)),
                        Err(e) => Err(e),
                    };
                },
            }
            i += 1;
        }
        assert(steps.take(n as int) =~= steps);
        Ok(Begun::Run(Job::Batch(Program::from_queries(queries))))
    }
}

/// The analysis of the statement at `index`: an empty one where none was
/// given.
pub open spec fn analysis_at(parsed: Seq<Vec<Result<Statement, String>>>, index: int) -> Seq<
    Result<Statement, String>,
> {
    if 0 <= index < parsed.len() {
        parsed[index]@
    } else {
        Seq::empty()
    }
}

/// The queries that the statements of a batch stand for, in their order, or
/// the error of the first statement that stands for none.
pub open spec fn batch_queries(
    steps: Seq<Stmt>,
    sqls: Map<i32, String>,
    version: Version,
    parsed: Seq<Vec<Result<Statement, String>>>,
) -> Result<Seq<QueryView>, HranaError>
    decreases steps.len(),
{
    if steps.len() == 0 {
        Ok(Seq::empty())
    } else {
        match batch_queries(steps.drop_last(), sqls, version, parsed) {
            Err(e) => Err(e),
            Ok(queries) => match query_of(
                &steps.last(),
                sqls,
                version,
                analysis_at(parsed, steps.len() - 1),
            ) {
                Err(e) => Err(e),
                Ok(query) => Ok(queries.push(query)),
            },
        }
    }
}

/// The error of the first statements of a batch is the error of the batch.
proof fn lemma_batch_fails(
    steps: Seq<Stmt>,
    sqls: Map<i32, String>,
    version: Version,
    parsed: Seq<Vec<Result<Statement, String>>>,
    n: int,
)
    requires
        0 <= n <= steps.len(),
        batch_queries(steps.take(n), sqls, version, parsed) is Err,
    ensures
        batch_queries(steps, sqls, version, parsed) == batch_queries(
            steps.take(n),
            sqls,
            version,
            parsed,
        ),
    decreases steps.len() - n,
{
    if n < steps.len() {
        assert(steps.take(n + 1).drop_last() =~= steps.take(n));
        lemma_batch_fails(steps, sqls, version, parsed, n + 1);
    } else {
        assert(steps.take(n) =~= steps);
    }
}

/// The result that a breach of the protocol is.
fn fault_result<R>(e: &ProtocolError) -> (r: StreamResult<R>)
    ensures
        r matches StreamResult::Error(error) && error.message@ == e.message_text() && error.code@
            == e.code_name(),
{
    StreamResult::Error(proto_error_from_protocol_error(e))
}

/// The result of a request from what came of its job. An error of the
/// statement or a breach of the protocol is the request's result; the
/// requests after it still run. Any other failure ends the pipeline.
pub fn finish<R>(outcome: Result<R, HranaError>) -> (r: Result<StreamResult<R>, HranaError>)
    ensures
        match outcome {
            Ok(answer) => r == Ok::<StreamResult<R>, HranaError>(
                StreamResult::Response(StreamResponse::Engine(answer)),
            ),
            Err(HranaError::Stmt(e)) => r matches Ok(StreamResult::Error(error)) && error.message@
                == e.message_text() && error.code@ == e.code_name(),
            Err(HranaError::Proto(e)) => r matches Ok(StreamResult::Error(error)) && error.message@
                == e.message_text() && error.code@ == e.code_name(),
            Err(e) => r == Err::<StreamResult<R>, HranaError>(e),
        },
{
    match outcome {
        Ok(answer) => Ok(StreamResult::Response(StreamResponse::Engine(answer))),
        Err(HranaError::Stmt(e)) => Ok(StreamResult::Error(proto_error_from_stmt_error(&e))),
        Err(HranaError::Proto(e)) => Ok(StreamResult::Error(proto_error_from_protocol_error(&e))),
        Err(e) => Err(e),
    }
}

/// What taking up a request does to a stream: the stream keeps its number,
/// its connection and the number of the baton that resumed it; it holds the
/// SQL texts that the request leaves; and it is closed if it was, or if the
/// request closes it.
pub open spec fn taken_up(
    before: StreamGuard,
    request: &Request,
    version: Version,
    after: StreamGuard,
) -> bool {
    &&& after.stream().stream_id == before.stream().stream_id
    &&& after.stream().conn == before.stream().conn
    &&& after.presented() == before.presented()
    &&& after.stream().sqls@ == sqls_after(request, before.stream().sqls@, version)
    &&& after.is_closed() == (before.is_closed() || (request is Close && request_fault(
        request,
        before.stream().sqls@,
        version,
    ) is None))
}

/// Whether `after` is the stream `before` after the requests were taken up
/// on it one after the other.
pub open spec fn ran(
    before: StreamGuard,
    requests: Seq<Request>,
    version: Version,
    after: StreamGuard,
) -> bool
    decreases requests.len(),
{
    if requests.len() == 0 {
        after == before
    } else {
        exists|mid: StreamGuard|
            ran(before, requests.drop_last(), version, mid) && #[trigger] taken_up(
                mid,
                &requests.last(),
                version,
                after,
            )
    }
}

/// The SQL texts that a stream holds after a run of requests.
pub open spec fn sqls_after_all(requests: Seq<Request>, sqls: Map<i32, String>, version: Version) -> Map<
    i32,
    String,
>
    decreases requests.len(),
{
    if requests.len() == 0 {
        sqls
    } else {
        sqls_after(
            &requests.last(),
            sqls_after_all(requests.drop_last(), sqls, version),
            version,
        )
    }
}

/// Whether one of the requests asks to close the stream.
pub open spec fn has_close(requests: Seq<Request>) -> bool {
    exists|i: int| 0 <= i < requests.len() && #[trigger] requests[i] is Close
}

/// A run of one more request is the run up to it and that request.
pub proof fn lemma_ran_one_more(
    before: StreamGuard,
    requests: Seq<Request>,
    version: Version,
    mid: StreamGuard,
    request: Request,
    after: StreamGuard,
)
    requires
        ran(before, requests, version, mid),
        taken_up(mid, &request, version, after),
    ensures
        ran(before, requests.push(request), version, after),
{
    let all = requests.push(request);
    assert(all.drop_last() =~= requests);
    assert(all.last() == request);
    assert(taken_up(mid, &all.last(), version, after));
}

/// Over a whole run of requests a stream keeps its number, its connection
/// and the number of the baton that resumed it. It ends up closed exactly if
/// it was closed or one of the requests asks to close it, and it holds the
/// SQL texts that the requests leave, one after the other.
pub proof fn lemma_ran(
    before: StreamGuard,
    requests: Seq<Request>,
    version: Version,
    after: StreamGuard,
)
    requires
        ran(before, requests, version, after),
    ensures
        after.stream().stream_id == before.stream().stream_id,
        after.stream().conn == before.stream().conn,
        after.presented() == before.presented(),
        after.is_closed() == (before.is_closed() || has_close(requests)),
        after.stream().sqls@ == sqls_after_all(requests, before.stream().sqls@, version),
    decreases requests.len(),
{
    if requests.len() > 0 {
        let init = requests.drop_last();
        let mid = choose|mid: StreamGuard|
            ran(before, requests.drop_last(), version, mid) && #[trigger] taken_up(
                mid,
                &requests.last(),
                version,
                after,
            );
        lemma_ran(before, init, version, mid);
        if has_close(init) {
            let i = choose|i: int| 0 <= i < init.len() && #[trigger] init[i] is Close;
            assert(requests[i] is Close);
        }
        if requests.last() is Close {
            assert(requests[requests.len() - 1] is Close);
        }
        if has_close(requests) {
            let i = choose|i: int| 0 <= i < requests.len() && #[trigger] requests[i] is Close;
            if i < init.len() {
                assert(init[i] is Close);
            }
        }
    }
}

/// A pipeline hands its stream on: where no request asks to close the
/// stream and a sequence number is left, the stream is idle after the run,
/// under the number after the one that the pipeline was resumed with, and
/// under 0 if the stream was new. So the answer carries a baton, the baton
/// is another than the one that the client presented, and the stream runs on
/// the connection that it had.
pub proof fn lemma_pipeline_hands_on_its_stream(
    server: &Server,
    before: StreamGuard,
    requests: Seq<Request>,
    version: Version,
    after: StreamGuard,
    now: u64,
)
    requires
        ran(before, requests, version, after),
        !before.is_closed(),
        !has_close(requests),
        released_seq(before.presented()) is Some,
        server.stream(before.stream().stream_id) == Some(SlotState::CheckedOut),
    ensures
        goes_on(server, after),
        released_slot(server.stream(after.stream().stream_id), after, now) == Some(
            SlotState::Idle {
                stream: after.stream(),
                seq: released_seq(before.presented())->0,
                last_used: now,
            },
        ),
        after.stream().conn == before.stream().conn,
        before.presented() is None ==> released_seq(before.presented())->0 == 0,
        before.presented() matches Some(presented) ==> released_seq(before.presented())->0
            == presented + 1,
{
    lemma_ran(before, requests, version, after);
}

/// A pipeline at work: the stream that it runs on, the requests that are
/// still to come, and the results so far.
#[derive(Debug)]
pub struct Pipeline<R> {
    guard: StreamGuard,
    version: Version,
    /// The requests that are still to come, the next one last.
    pending: Vec<Request>,
    results: Vec<StreamResult<R>>,
    in_flight: bool,
}

/// What comes of a pipeline at its end.
#[derive(Debug)]
pub enum PipelineEnd<R> {
    /// Every request has its result: this is the answer. The connection is
    /// to be closed where the stream has ended.
    Answer { body: PipelineResponseBody<R>, close_conn: Option<ConnectionId> },
    /// Requests were left without a result: the stream waits for the baton
    /// that resumed it, or has ended, and then its connection is to be
    /// closed.
    Cancelled { close_conn: Option<ConnectionId> },
}

impl<R> Pipeline<R> {
    /// The stream that the pipeline runs on.
    pub closed spec fn guard(&self) -> StreamGuard {
        self.guard
    }

    /// The version of the protocol that the client speaks.
    pub closed spec fn version(&self) -> Version {
        self.version
    }

    /// The requests that are still to come, in their order.
    pub closed spec fn pending(&self) -> Seq<Request> {
        Seq::new(self.pending@.len(), |i: int| self.pending@[self.pending@.len() - 1 - i])
    }

    /// The results so far, in the order of their requests.
    pub closed spec fn results(&self) -> Seq<StreamResult<R>> {
        self.results@
    }

    /// Whether a request was handed out and has no result yet.
    pub closed spec fn in_flight(&self) -> bool {
        self.in_flight
    }

    /// The request that is handed out next, if one is: the first of those
    /// that are still to come. None is handed out while one has no result.
    pub fn next_request(&mut self) -> (r: Option<Request>)
        ensures
            final(self).guard() == old(self).guard(),
            final(self).version() == old(self).version(),
            final(self).results() == old(self).results(),
            r is Some <==> !old(self).in_flight() && old(self).pending().len() > 0,
            r matches Some(request) ==> request == old(self).pending()[0] && final(self).pending()
                == old(self).pending().skip(1) && final(self).in_flight(),
            r is None ==> final(self).pending() == old(self).pending() && final(self).in_flight()
                == old(self).in_flight(),
    {
        if self.in_flight {
            return None;
        }
        let ghost before = self.pending();
        match self.pending.pop() {
            Some(request) => {
                self.in_flight = true;
                assert(self.pending() =~= before.skip(1));
                Some(request)
            },
            None => None,
        }
    }

    /// The stream, for the request that was handed out.
    pub fn stream(&mut self) -> (guard: &mut StreamGuard)
        ensures
            *guard == old(self).guard(),
            final(self).guard() == *final(guard),
            final(self).version() == old(self).version(),
            final(self).pending() == old(self).pending(),
            final(self).results() == old(self).results(),
            final(self).in_flight() == old(self).in_flight(),
    {
        &mut self.guard
    }

    /// Takes the result of the request that was handed out. Says whether
    /// there was such a request; a result without one is dropped.
    pub fn record(&mut self, result: StreamResult<R>) -> (taken: bool)
        ensures
            taken == old(self).in_flight(),
            !final(self).in_flight(),
            final(self).guard() == old(self).guard(),
            final(self).version() == old(self).version(),
            final(self).pending() == old(self).pending(),
            final(self).results() == if taken {
                old(self).results().push(result)
            } else {
                old(self).results()
            },
    {
        if !self.in_flight {
            return false;
        }
        self.results.push(result);
        self.in_flight = false;
        true
    }

    /// Whether every request has its result.
    pub fn is_complete(&self) -> (b: bool)
        ensures
            b == (!self.in_flight() && self.pending().len() == 0),
    {
        !self.in_flight && self.pending.len() == 0
    }

    /// Ends the pipeline and gives the stream back to the server. Where
    /// every request has its result, the stream is released and the answer
    /// carries its new baton and the results; else this is a
    /// cancellation.
    pub fn finish(self, server: &mut Server, now: u64) -> (end: PipelineEnd<R>)
        requires
            old(server).wf(),
        ensures
            final(server).wf(),
            final(server).key() == old(server).key(),
            final(server).next_stream_id() == old(server).next_stream_id(),
            forall|other: u64|
                other != self.guard().stream().stream_id ==> final(server).stream(other) == old(server).stream(other),
            (!self.in_flight() && self.pending().len() == 0) ==> (end matches PipelineEnd::Answer {
                body,
                ..
            } && body.results@ == self.results() && body.base_url == old(server).self_url()),
            (!self.in_flight() && self.pending().len() == 0) ==> (end matches PipelineEnd::Answer {
                body,
                close_conn,
            } && (body.baton is Some <==> goes_on(old(server), self.guard())) && (
            body.baton matches Some(text) ==> baton_of(final(server).key(), text@) == Some(
                (
                    self.guard().stream().stream_id,
                    released_seq(self.guard().presented())->0,
                ),
            )) && (close_conn is Some <==> body.baton is None)),
            (self.in_flight() || self.pending().len() > 0) ==> end is Cancelled,
            final(server).stream(self.guard().stream().stream_id) == (if !self.in_flight()
                && self.pending().len() == 0 {
                released_slot(
                    old(server).stream(self.guard().stream().stream_id),
                    self.guard(),
                    now,
                )
            } else {
                cancelled_slot(
                    old(server).stream(self.guard().stream().stream_id),
                    self.guard(),
                    now,
                )
            }),
    {
        if self.is_complete() {
            let Pipeline { guard, results, .. } = self;
            let base_url = server.base_url();
            let released = server.release(guard, now);
            PipelineEnd::Answer {
                body: PipelineResponseBody { baton: released.baton, base_url, results },
                close_conn: released.close_conn,
            }
        } else {
            let Pipeline { guard, .. } = self;
            let close_conn = server.cancel(guard, now);
            PipelineEnd::Cancelled { close_conn }
        }
    }
}

/// Starts the pipeline of a client: the stream that the baton names, or a
/// new one, is handed to the pipeline, which then has every request still to
/// come and no result yet.
pub fn handle_pipeline<R>(
    server: &mut Server,
    req: PipelineRequestBody,
    alloc: &mut Allocation,
    version: Version,
) -> (r: Result<Pipeline<R>, AcquireError>)
    requires
        old(server).wf(),
        old(alloc).wf(),
    ensures
        final(server).wf(),
        final(alloc).wf(),
        final(server).key() == old(server).key(),
        final(server).self_url() == old(server).self_url(),
        final(alloc).database() == old(alloc).database(),
        final(alloc).database_id() == old(alloc).database_id(),
        final(alloc).db_name() == old(alloc).db_name(),
        final(alloc).max_concurrent_connections() == old(alloc).max_concurrent_connections(),
        r is Err <==> old(server).acquire_fault(opt_text(req.baton), old(alloc)) is Some,
        r matches Err(e) ==> Some(e) == old(server).acquire_fault(opt_text(req.baton), old(alloc))
            && final(server).streams() == old(server).streams() && final(server).next_stream_id()
            == old(server).next_stream_id() && final(alloc).live() == old(alloc).live()
            && final(alloc).last_id() == old(alloc).last_id(),
        r matches Ok(pipeline) ==> {
            let id = old(server).acquired_id(opt_text(req.baton));
            &&& pipeline.guard().stream().stream_id == id
            &&& final(server).stream(id) == Some(SlotState::CheckedOut)
            &&& pipeline.version() == version
            &&& pipeline.pending() == req.requests@
            &&& pipeline.results() == Seq::<StreamResult<R>>::empty()
            &&& !pipeline.in_flight()
            &&& !pipeline.guard().is_closed()
            &&& forall|other: u64|
                other != id ==> final(server).stream(other) == old(server).stream(other)
            &&& match req.baton {
                Some(_) => {
                    &&& old(server).stream(id) matches Some(SlotState::Idle { stream, seq, .. })
                    &&& pipeline.guard().stream() == stream
                    &&& pipeline.guard().presented() == Some(seq)
                    &&& final(server).next_stream_id() == old(server).next_stream_id()
                    &&& final(alloc).live() == old(alloc).live()
                    &&& final(alloc).last_id() == old(alloc).last_id()
                },
                None => {
                    &&& pipeline.guard().presented() is None
                    &&& pipeline.guard().stream().sqls@ == Map::<i32, String>::empty()
                    &&& final(server).next_stream_id() == id + 1
                    &&& final(alloc).live() == old(alloc).live().push(
                        pipeline.guard().stream().conn.id,
                    )
                    &&& !old(alloc).live().contains(pipeline.guard().stream().conn.id)
                    &&& is_next_free(
                        old(alloc).live(),
                        old(alloc).last_id(),
                        pipeline.guard().stream().conn.id,
                    )
                    &&& final(alloc).last_id() == pipeline.guard().stream().conn.id
                },
            }
        },
{
    let PipelineRequestBody { baton, requests } = req;
    let baton_text: Option<&str> = match &baton {
        Some(text) => Some(text.as_str()),
        None => None,
    };
    let guard = match server.acquire(baton_text, alloc) {
        Ok(guard) => guard,
        Err(e) => {
            return Err(e);
        },
    };
    let ghost all = requests@;
    let mut rest = requests;
    let mut pending: Vec<Request> = Vec::new();
    while rest.len() > 0
        invariant
            rest@.len() + pending@.len() == all.len(),
            forall|k: int| 0 <= k < rest@.len() ==> rest@[k] == all[k],
            forall|k: int| 0 <= k < pending@.len() ==> pending@[k] == all[all.len() - 1 - k],
        decreases rest@.len(),
    {
        match rest.pop() {
            Some(request) => {
                pending.push(request);
            },
            None => {},
        }
    }
    let pipeline = Pipeline { guard, version, pending, results: Vec::new(), in_flight: false };
    assert(pipeline.pending() =~= all);
    Ok(pipeline)
}

/// The program that runs one statement.
pub fn execute_stmt(query: Query) -> (program: Program)
    ensures
        program.steps@ == seq![query],
{
    let mut steps: Vec<Query> = Vec::new();
    steps.push(query);
    let program = Program::from_queries(steps);
    assert(program.steps@ =~= seq![query]);
    program
}

/// What came of a statement that a connection worker ran. `received` is
/// `None` where the worker went away without an answer: the connection is
/// closed.
pub fn stmt_outcome<R>(received: Option<Result<R, HranaError>>) -> (r: Result<R, HranaError>)
    ensures
        r == match received {
            Some(outcome) => outcome,
            None => Err(HranaError::Libsqlx(Error::ConnectionClosed)),
        },
{
    match received {
        Some(outcome) => outcome,
        None => Err(HranaError::from_error(Error::ConnectionClosed)),
    }
}

/// The protocol's description of a statement from what the engine said of
/// it: the description in the protocol's form, or the error that a client
/// sees for the engine's failure.
pub fn describe_stmt(outcome: Result<DescribeResponse, Error>) -> (r: Result<
    DescribeResult,
    HranaError,
>)
    ensures
        match outcome {
            Ok(response) => r matches Ok(result) && describes(result, response),
            Err(e) => r == Err::<DescribeResult, HranaError>(crate::error::hrana_error_of(e)),
        },
{
    match outcome {
        Ok(response) => Ok(proto_describe_result_from_describe_response(response)),
        Err(e) => Err(HranaError::from_error(e)),
    }
}

} // verus!

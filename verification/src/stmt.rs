//! Statements of the protocol and their form for the SQL engine.

use std::collections::HashMap;
use vstd::prelude::*;
use vstd::string::*;
use crate::error::{HranaError, ProtocolError, StmtError};
use crate::value::{proto_value_to_value, ProtoValue, Value, ValueView};
use crate::version::Version;

verus! {

broadcast use vstd::std_specs::hash::group_hash_axioms;

/// An argument that a statement names.
#[derive(Debug, PartialEq, Eq)]
pub struct NamedArg {
    pub name: String,
    pub value: ProtoValue,
}

/// A statement as the protocol carries it: the SQL text or the number under
/// which the stream holds it, and the arguments.
#[derive(Debug, PartialEq, Eq)]
pub struct Stmt {
    pub sql: Option<String>,
    pub sql_id: Option<i32>,
    pub args: Vec<ProtoValue>,
    pub named_args: Vec<NamedArg>,
    pub want_rows: Option<bool>,
}

/// Statements that a client wants run in one go.
#[derive(Debug, PartialEq, Eq)]
pub struct Batch {
    pub steps: Vec<Stmt>,
}

/// What kind of work a statement is.
#[derive(Clone, Copy, Debug, PartialEq, Eq, Structural)]
pub enum StmtKind {
    TxnBegin,
    TxnBeginReadOnly,
    TxnEnd,
    Read,
    Write,
    Other,
}

/// One SQL statement, as the engine's analysis of the SQL text gives it.
#[derive(Debug, PartialEq, Eq)]
pub struct Statement {
    pub stmt: String,
    pub kind: StmtKind,
    pub is_iud: bool,
    pub is_insert: bool,
}

/// The arguments of a query. Named arguments keep the order in which the
/// statement gave them.
#[derive(Debug, PartialEq, Eq)]
pub enum Params {
    Named(Vec<(String, Value)>),
    Positional(Vec<Value>),
}

/// The mathematical content of a query's arguments.
pub enum ParamsView {
    Named(Seq<(Seq<char>, ValueView)>),
    Positional(Seq<ValueView>),
}

impl View for Params {
    type V = ParamsView;

    open spec fn view(&self) -> ParamsView {
        match self {
            Params::Named(values) => ParamsView::Named(
                Seq::new(values@.len(), |i: int| (values@[i].0@, values@[i].1@)),
            ),
            Params::Positional(values) => ParamsView::Positional(
                Seq::new(values@.len(), |i: int| values@[i]@),
            ),
        }
    }
}

/// A statement with its arguments, ready for the engine.
#[derive(Debug, PartialEq, Eq)]
pub struct Query {
    pub stmt: Statement,
    pub params: Params,
    pub want_rows: bool,
}

/// The mathematical content of a query.
pub struct QueryView {
    pub stmt: Statement,
    pub params: ParamsView,
    pub want_rows: bool,
}

impl View for Query {
    type V = QueryView;

    open spec fn view(&self) -> QueryView {
        QueryView { stmt: self.stmt, params: self.params@, want_rows: self.want_rows }
    }
}

/// The SQL text that a statement means. A number stands for the text that
/// the stream holds under it, and needs version 2 of the protocol; exactly
/// one of text and number must be given.
pub open spec fn resolved_sql(
    proto_sql: Option<Seq<char>>,
    proto_sql_id: Option<i32>,
    sqls: Map<i32, String>,
    version: Version,
) -> Result<Seq<char>, ProtocolError> {
    if proto_sql_id is Some && version.rank() < Version::Hrana2.rank() {
        Err(ProtocolError::NotSupported { what: "`sql_id`", min_version: Version::Hrana2 })
    } else {
        match (proto_sql, proto_sql_id) {
            (Some(sql), None) => Ok(sql),
            (None, Some(sql_id)) => if sqls.contains_key(sql_id) {
                Ok(sqls[sql_id]@)
            } else {
                Err(ProtocolError::SqlNotFound { sql_id })
            },
            (Some(_), Some(_)) => Err(ProtocolError::SqlIdAndSqlGiven),
            (None, None) => Err(ProtocolError::SqlIdOrSqlNotGiven),
        }
    }
}

/// The text of an optional string.
pub open spec fn text_of(s: Option<&str>) -> Option<Seq<char>> {
    match s {
        Some(s) => Some(s@),
        None => None,
    }
}

/// The SQL text that a statement means: the text given, or the text that
/// `sqls` holds under the number given.
pub fn proto_sql_to_sql<'s>(
    proto_sql: Option<&'s str>,
    proto_sql_id: Option<i32>,
    sqls: &'s HashMap<i32, String>,
    version: Version,
) -> (r: Result<&'s str, ProtocolError>)
    ensures
        r matches Ok(sql) ==> resolved_sql(text_of(proto_sql), proto_sql_id, sqls@, version) == Ok::<
            Seq<char>,
            ProtocolError,
        >(sql@),
        r matches Err(e) ==> resolved_sql(text_of(proto_sql), proto_sql_id, sqls@, version) == Err::<
            Seq<char>,
            ProtocolError,
        >(e),
{
    if proto_sql_id.is_some() && !version.at_least(Version::Hrana2) {
        return Err(
            ProtocolError::NotSupported { what: "`sql_id`", min_version: Version::Hrana2 },
        );
    }
    match (proto_sql, proto_sql_id) {
        (Some(sql), None) => Ok(sql),
        (None, Some(sql_id)) => match sqls.get(&sql_id) {
            Some(sql) => Ok(sql.as_str()),
            None => Err(ProtocolError::SqlNotFound { sql_id }),
        },
        (Some(_), Some(_)) => Err(ProtocolError::SqlIdAndSqlGiven),
        (None, None) => Err(ProtocolError::SqlIdOrSqlNotGiven),
    }
}

/// The content of a statement's positional arguments.
pub open spec fn positional_of(stmt: &Stmt) -> Seq<ValueView> {
    Seq::new(stmt.args@.len(), |i: int| stmt.args@[i]@)
}

/// The content of a statement's named arguments, in their order.
pub open spec fn named_of(stmt: &Stmt) -> Seq<(Seq<char>, ValueView)> {
    Seq::new(stmt.named_args@.len(), |i: int| (stmt.named_args@[i].name@, stmt.named_args@[i].value@))
}

/// The text of a statement's SQL, if it gives one.
pub open spec fn sql_text_of(stmt: &Stmt) -> Option<Seq<char>> {
    match stmt.sql {
        Some(sql) => Some(sql@),
        None => None,
    }
}

/// The query that a statement of the protocol stands for.
///
/// `parsed` is what the engine's analysis yields for the statement's SQL
/// text, item by item. The text must resolve, and it must hold exactly one
/// statement that the analysis accepts. A statement gives its arguments by
/// position or by name, not both. Rows are wanted unless the statement says
/// otherwise.
pub open spec fn query_of(
    proto_stmt: &Stmt,
    sqls: Map<i32, String>,
    version: Version,
    parsed: Seq<Result<Statement, String>>,
) -> Result<QueryView, HranaError> {
    match resolved_sql(sql_text_of(proto_stmt), proto_stmt.sql_id, sqls, version) {
        Err(e) => Err(HranaError::Proto(e)),
        Ok(_) => if parsed.len() == 0 {
            Err(HranaError::Stmt(StmtError::SqlNoStmt))
        } else {
            match parsed[0] {
                Err(source) => Err(HranaError::Stmt(StmtError::SqlParse { source })),
                Ok(stmt) => if parsed.len() > 1 {
                    Err(HranaError::Stmt(StmtError::SqlManyStmts))
                } else if proto_stmt.named_args@.len() == 0 {
                    Ok(
                        QueryView {
                            stmt,
                            params: ParamsView::Positional(positional_of(proto_stmt)),
                            want_rows: want_rows_of(proto_stmt),
                        },
                    )
                } else if proto_stmt.args@.len() == 0 {
                    Ok(
                        QueryView {
                            stmt,
                            params: ParamsView::Named(named_of(proto_stmt)),
                            want_rows: want_rows_of(proto_stmt),
                        },
                    )
                } else {
                    Err(HranaError::Stmt(StmtError::ArgsBothPositionalAndNamed))
                },
            }
        },
    }
}

/// Whether a statement wants its rows: yes, unless it says otherwise.
pub open spec fn want_rows_of(stmt: &Stmt) -> bool {
    match stmt.want_rows {
        Some(want) => want,
        None => true,
    }
}

/// Turns a statement of the protocol into a query for the engine.
///
/// `parsed` holds what the engine's analysis yields for the statement's SQL
/// text, item by item and in order; only the first two items matter.
pub fn proto_stmt_to_query(
    proto_stmt: &Stmt,
    sqls: &HashMap<i32, String>,
    version: Version,
    parsed: &Vec<Result<Statement, String>>,
) -> (r: Result<Query, HranaError>)
    ensures
        r matches Ok(query) ==> query_of(proto_stmt, sqls@, version, parsed@) == Ok::<
            QueryView,
            HranaError,
        >(query@),
        r matches Err(e) ==> query_of(proto_stmt, sqls@, version, parsed@) == Err::<
            QueryView,
            HranaError,
        >(e),
{
    let proto_sql: Option<&str> = match &proto_stmt.sql {
        Some(sql) => Some(sql.as_str()),
        None => None,
    };
    match proto_sql_to_sql(proto_sql, proto_stmt.sql_id, sqls, version) {
        Ok(_) => {},
        Err(e) => {
            return Err(HranaError::Proto(e));
        },
    }
    if parsed.len() == 0 {
        return Err(HranaError::Stmt(StmtError::SqlNoStmt));
    }
    let stmt: Statement = match &parsed[0] {
        Ok(stmt) => Statement {
            stmt: stmt.stmt.clone(),
            kind: stmt.kind,
            is_iud: stmt.is_iud,
            is_insert: stmt.is_insert,
        },
        Err(source) => {
            return Err(HranaError::Stmt(StmtError::SqlParse { source: source.clone() }));
        },
    };
    if parsed.len() > 1 {
        return Err(HranaError::Stmt(StmtError::SqlManyStmts));
    }
    let params = if proto_stmt.named_args.len() == 0 {
        let mut values: Vec<Value> = Vec::new();
        let n: usize = proto_stmt.args.len();
        let mut i: usize = 0;
        while i < n
            invariant
                i <= n,
                n == proto_stmt.args@.len(),
                values@.len() == i,
                forall|k: int| 0 <= k < i ==> (#[trigger] values@[k])@ == proto_stmt.args@[k]@,
            decreases n - i,
        {
            values.push(proto_value_to_value(&proto_stmt.args[i]));
            i += 1;
        }
        let params = Params::Positional(values);
        assert(params@ == ParamsView::Positional(positional_of(proto_stmt))) by {
            assert(params@->Positional_0 =~= positional_of(proto_stmt));
        }
        params
    } else if proto_stmt.args.len() == 0 {
        let mut values: Vec<(String, Value)> = Vec::new();
        let n: usize = proto_stmt.named_args.len();
        let mut i: usize = 0;
        while i < n
            invariant
                i <= n,
                n == proto_stmt.named_args@.len(),
                values@.len() == i,
                forall|k: int|
                    0 <= k < i ==> (#[trigger] values@[k]).0@ == proto_stmt.named_args@[k].name@
                        && values@[k].1@ == proto_stmt.named_args@[k].value@,
            decreases n - i,
        {
            let arg = &proto_stmt.named_args[i];
            values.push((arg.name.clone(), proto_value_to_value(&arg.value)));
            i += 1;
        }
        let params = Params::Named(values);
        assert(params@ == ParamsView::Named(named_of(proto_stmt))) by {
            assert(params@->Named_0 =~= named_of(proto_stmt));
        }
        params
    } else {
        return Err(HranaError::Stmt(StmtError::ArgsBothPositionalAndNamed));
    };
    let want_rows: bool = match proto_stmt.want_rows {
        Some(want) => want,
        None => true,
    };
    Ok(Query { stmt, params, want_rows })
}

/// A parameter of a statement, as the engine describes it.
#[derive(Debug, PartialEq, Eq)]
pub struct DescribeParam {
    pub name: Option<String>,
}

/// A column of a statement's result, as the engine describes it.
#[derive(Debug, PartialEq, Eq)]
pub struct DescribeCol {
    pub name: String,
    pub decltype: Option<String>,
}

/// What the engine says of a statement without running it.
#[derive(Debug, PartialEq, Eq)]
pub struct DescribeResponse {
    pub params: Vec<DescribeParam>,
    pub cols: Vec<DescribeCol>,
    pub is_explain: bool,
    pub is_readonly: bool,
}

/// A parameter of a statement, as the protocol describes it.
#[derive(Debug, PartialEq, Eq)]
pub struct ProtoDescribeParam {
    pub name: Option<String>,
}

/// A column of a statement's result, as the protocol describes it.
#[derive(Debug, PartialEq, Eq)]
pub struct ProtoDescribeCol {
    pub name: String,
    pub decltype: Option<String>,
}

/// The description of a statement, as the protocol carries it.
#[derive(Debug, PartialEq, Eq)]
pub struct DescribeResult {
    pub params: Vec<ProtoDescribeParam>,
    pub cols: Vec<ProtoDescribeCol>,
    pub is_explain: bool,
    pub is_readonly: bool,
}

/// Whether a description in the protocol's form says what the engine said:
/// every parameter and every column in its place, with its names, and the
/// two flags.
pub open spec fn describes(result: DescribeResult, response: DescribeResponse) -> bool {
    &&& result.is_explain == response.is_explain
    &&& result.is_readonly == response.is_readonly
    &&& result.params@.len() == response.params@.len()
    &&& forall|i: int|
        0 <= i < result.params@.len() ==> (#[trigger] result.params@[i]).name
            == response.params@[i].name
    &&& result.cols@.len() == response.cols@.len()
    &&& forall|i: int|
        0 <= i < result.cols@.len() ==> (#[trigger] result.cols@[i]).name
            == response.cols@[i].name && result.cols@[i].decltype == response.cols@[i].decltype
}

/// The protocol's description for the engine's: every parameter and every
/// column in its place, with its names, and the two flags.
pub fn proto_describe_result_from_describe_response(response: DescribeResponse) -> (result:
    DescribeResult)
    ensures
        describes(result, response),
{
    let DescribeResponse { params: in_params, cols: in_cols, is_explain, is_readonly } = response;
    let ghost all_params = in_params@;
    let ghost all_cols = in_cols@;
    let mut params: Vec<ProtoDescribeParam> = Vec::new();
    for p in it: in_params
        invariant
            it.seq() == all_params,
            params@.len() == it.index(),
            forall|k: int| 0 <= k < params@.len() ==> (#[trigger] params@[k]).name == all_params[k].name,
    {
        params.push(ProtoDescribeParam { name: p.name });
    }
    let mut cols: Vec<ProtoDescribeCol> = Vec::new();
    for c in it: in_cols
        invariant
            it.seq() == all_cols,
            cols@.len() == it.index(),
            forall|k: int|
                0 <= k < cols@.len() ==> (#[trigger] cols@[k]).name == all_cols[k].name
                    && cols@[k].decltype == all_cols[k].decltype,
    {
        cols.push(ProtoDescribeCol { name: c.name, decltype: c.decltype });
    }
    DescribeResult { params, cols, is_explain, is_readonly }
}

/// An error as the protocol carries it: a text for people and a code for
/// programs.
#[derive(Debug, PartialEq, Eq)]
pub struct ProtoError {
    pub message: String,
    pub code: String,
}

/// The protocol's form of a statement error: its message and its code.
pub fn proto_error_from_stmt_error(error: &StmtError) -> (e: ProtoError)
    ensures
        e.message@ == error.message_text(),
        e.code@ == error.code_name(),
{
    ProtoError { message: error.message(), code: String::from_str(error.code()) }
}

/// The protocol's form of a protocol error: its message and its code.
pub fn proto_error_from_protocol_error(error: &ProtocolError) -> (e: ProtoError)
    ensures
        e.message@ == error.message_text(),
        e.code@ == error.code_name(),
{
    ProtoError { message: error.message(), code: String::from_str(error.code()) }
}

} // verus!

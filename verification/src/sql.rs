//! SQL statements as they are handed to Postgres, and how a call to it can fail.

use vstd::prelude::*;

verus! {

/// A bound parameter of a statement.
#[derive(Debug, PartialEq, Eq)]
pub enum SqlParam {
    /// `BYTEA`
    Bytes(Vec<u8>),
    /// `BYTEA[]`
    ByteList(Vec<Vec<u8>>),
    /// `TEXT`
    Text(String),
    /// `BIGINT`
    BigInt(i64),
}

/// A bound parameter, in terms of what it holds.
pub enum SqlParamView {
    Bytes(Seq<u8>),
    ByteList(Seq<Seq<u8>>),
    Text(Seq<char>),
    BigInt(int),
}

impl View for SqlParam {
    type V = SqlParamView;

    open spec fn view(&self) -> SqlParamView {
        match *self {
            SqlParam::Bytes(bytes) => SqlParamView::Bytes(bytes@),
            SqlParam::ByteList(list) => SqlParamView::ByteList(byte_list_view(list@)),
            SqlParam::Text(text) => SqlParamView::Text(text@),
            SqlParam::BigInt(n) => SqlParamView::BigInt(n as int),
        }
    }
}

/// The byte strings of a list.
pub open spec fn byte_list_view(list: Seq<Vec<u8>>) -> Seq<Seq<u8>> {
    Seq::new(list.len(), |i: int| list[i]@)
}

/// The contents of a list of parameters.
pub open spec fn params_view(params: Seq<SqlParam>) -> Seq<SqlParamView> {
    Seq::new(params.len(), |i: int| params[i]@)
}

/// A statement: its text, in which parameters are written `$1`, `$2` and so on, and the
/// values bound to them. Only table names are ever written into the text; whatever comes
/// with a request is bound.
#[derive(Debug, PartialEq, Eq)]
pub struct SqlStatement {
    pub text: String,
    pub params: Vec<SqlParam>,
}

/// A statement, in terms of its characters and parameters.
pub struct SqlStatementView {
    pub text: Seq<char>,
    pub params: Seq<SqlParamView>,
}

impl View for SqlStatement {
    type V = SqlStatementView;

    open spec fn view(&self) -> SqlStatementView {
        SqlStatementView { text: self.text@, params: params_view(self.params@) }
    }
}

/// Joins a head, a table name and a tail.
pub fn splice(head: &str, table: &str, tail: &str) -> (text: String)
    ensures
        text@ == head@ + table@ + tail@,
{
    let mut text = head.to_owned();
    text.append(table);
    text.append(tail);
    text
}

/// How a call to Postgres failed, with the reported cause.
#[derive(Debug, PartialEq, Eq)]
pub enum Fault {
    /// No connection could be had from the pool.
    Pool(String),
    /// The statement itself failed.
    Statement(String),
}

/// The calls that are made to Postgres, as they are named in error messages.
#[derive(Clone, Copy, Debug, PartialEq, Eq, Structural)]
pub enum SqlCall {
    Pool,
    Begin,
    Commit,
    Select,
    Insert,
    Upsert,
    Delete,
    Query,
    CasInsert,
    CasUpdate,
    ExistsExact,
    ExistsRepository,
    ExistsHash,
    ExistBatchExact,
    CountAssociations,
    WriteMetadata,
    UpdateMetadataCas,
    LoadMetadata,
    AssociateFragment,
    DeleteAssociation,
}

impl SqlCall {
    /// The name of the call.
    pub open spec fn spec_label(self) -> Seq<char> {
        match self {
            SqlCall::Pool => "pool"@,
            SqlCall::Begin => "begin"@,
            SqlCall::Commit => "commit"@,
            SqlCall::Select => "select"@,
            SqlCall::Insert => "insert"@,
            SqlCall::Upsert => "upsert"@,
            SqlCall::Delete => "delete"@,
            SqlCall::Query => "query"@,
            SqlCall::CasInsert => "cas insert"@,
            SqlCall::CasUpdate => "cas update"@,
            SqlCall::ExistsExact => "exists_exact"@,
            SqlCall::ExistsRepository => "exists_repository"@,
            SqlCall::ExistsHash => "exists_hash"@,
            SqlCall::ExistBatchExact => "exist_batch_exact"@,
            SqlCall::CountAssociations => "count_associations"@,
            SqlCall::WriteMetadata => "write_metadata"@,
            SqlCall::UpdateMetadataCas => "update_metadata_cas"@,
            SqlCall::LoadMetadata => "load_metadata"@,
            SqlCall::AssociateFragment => "associate_fragment"@,
            SqlCall::DeleteAssociation => "delete_association"@,
        }
    }

    /// The name of the call.
    pub fn label(&self) -> (label: &'static str)
        ensures
            label@ == self.spec_label(),
    {
        match *self {
            SqlCall::Pool => "pool",
            SqlCall::Begin => "begin",
            SqlCall::Commit => "commit",
            SqlCall::Select => "select",
            SqlCall::Insert => "insert",
            SqlCall::Upsert => "upsert",
            SqlCall::Delete => "delete",
            SqlCall::Query => "query",
            SqlCall::CasInsert => "cas insert",
            SqlCall::CasUpdate => "cas update",
            SqlCall::ExistsExact => "exists_exact",
            SqlCall::ExistsRepository => "exists_repository",
            SqlCall::ExistsHash => "exists_hash",
            SqlCall::ExistBatchExact => "exist_batch_exact",
            SqlCall::CountAssociations => "count_associations",
            SqlCall::WriteMetadata => "write_metadata",
            SqlCall::UpdateMetadataCas => "update_metadata_cas",
            SqlCall::LoadMetadata => "load_metadata",
            SqlCall::AssociateFragment => "associate_fragment",
            SqlCall::DeleteAssociation => "delete_association",
        }
    }
}

/// The message for a failed call to Postgres.
pub open spec fn call_message_text(call: SqlCall, cause: Seq<char>) -> Seq<char> {
    "pg "@ + call.spec_label() + " error: "@ + cause
}

/// The message for a failed call to Postgres.
pub fn call_message(call: SqlCall, cause: &str) -> (message: String)
    ensures
        message@ == call_message_text(call, cause@),
{
    let mut message = "pg ".to_owned();
    message.append(call.label());
    message.append(" error: ");
    message.append(cause);
    message
}

/// What is bound is what Postgres gets: bytes, texts and numbers as they are, and lists in
/// their order.
pub proof fn bound_as_given(bytes: Vec<u8>, list: Vec<Vec<u8>>, text: String, n: i64, i: int)
    requires
        0 <= i < list@.len(),
    ensures
        SqlParam::Bytes(bytes)@ == SqlParamView::Bytes(bytes@),
        SqlParam::Text(text)@ == SqlParamView::Text(text@),
        SqlParam::BigInt(n)@ == SqlParamView::BigInt(n as int),
        SqlParam::ByteList(list)@ matches SqlParamView::ByteList(items) && items.len()
            == list@.len() && items[i] == list@[i]@,
{
}

/// The parameters of a statement are bound in their order, and its text is sent as it stands.
pub proof fn sent_in_order(sql: SqlStatement, i: int)
    requires
        0 <= i < sql.params@.len(),
    ensures
        sql@.text == sql.text@,
        sql@.params.len() == sql.params@.len(),
        sql@.params[i] == sql.params@[i]@,
{
}

} // verus!

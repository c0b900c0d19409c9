//! References to database records, `table:key`, as SurrealDB writes them.
use vstd::prelude::*;
use vstd::string::StringExecFns;
use surrealdb::types::{RecordId, RecordIdKey, ToSql};

verus! {

/// What `RecordId::new(table, key).to_sql()` writes for a record with a string key.
pub uninterp spec fn record_id_sql(table: Seq<char>, key: Seq<char>) -> Seq<char>;

/// What `RecordId::parse_simple(s)` gives: the table and key of the record, or
/// the text of its error.
pub uninterp spec fn record_id_parse(s: Seq<char>) -> Result<(Seq<char>, Seq<char>), Seq<char>>;

/// A reference to the record `key` of table `table`.
#[derive(Clone, Debug, PartialEq, Eq)]
pub struct RecordRef {
    pub table: String,
    pub key: String,
}

/// `RecordId::new(table, key).to_sql()`: the record written as SurrealQL,
/// with the table and key escaped where they need it.
#[verifier::external_body]
fn record_sql(table: &str, key: &str) -> (r: String)
    ensures
        r@ == record_id_sql(table@, key@),
{
    RecordId::new(table, key).to_sql()
}

/// `RecordId::parse_simple(s)`, split into its table and key (the key it
/// parses is always a string).
#[verifier::external_body]
fn parse_record_id(s: &str) -> (r: Result<RecordRef, String>)
    ensures
        match r {
            Ok(id) => record_id_parse(s@) == Ok::<(Seq<char>, Seq<char>), Seq<char>>((id.table@, id.key@)),
            Err(m) => record_id_parse(s@) == Err::<(Seq<char>, Seq<char>), Seq<char>>(m@),
        },
{
    match RecordId::parse_simple(s) {
        Ok(id) => {
            let key = match id.key {
                RecordIdKey::String(k) => k,
                other => other.to_sql(),
            };
            Ok(RecordRef { table: id.table.into_string(), key })
        },
        Err(e) => Err(e.to_string()),
    }
}

impl RecordRef {
    /// The SurrealQL text of the reference.
    pub open spec fn sql(self) -> Seq<char> {
        record_id_sql(self.table@, self.key@)
    }

    /// The record `key` of table `table`.
    pub fn new(table: &str, key: &str) -> (r: RecordRef)
        ensures
            r.table@ == table@,
            r.key@ == key@,
    {
        RecordRef { table: String::from_str(table), key: String::from_str(key) }
    }

    /// Parses `table:key`; the error is the parser's message.
    pub fn parse_simple(s: &str) -> (r: Result<RecordRef, String>)
        ensures
            match r {
                Ok(id) => record_id_parse(s@) == Ok::<(Seq<char>, Seq<char>), Seq<char>>((id.table@, id.key@)),
                Err(m) => record_id_parse(s@) == Err::<(Seq<char>, Seq<char>), Seq<char>>(m@),
            },
    {
        parse_record_id(s)
    }

    /// The reference written as SurrealQL.
    pub fn to_sql(&self) -> (r: String)
        ensures
            r@ == self.sql(),
    {
        record_sql(self.table.as_str(), self.key.as_str())
    }
}

} // verus!

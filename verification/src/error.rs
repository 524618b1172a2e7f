//! What can go wrong when talking to a database.
use vstd::prelude::*;

verus! {

#[derive(Debug, Clone, PartialEq, Eq)]
pub enum DdbCoreError {
    Connection(String),
    Reflection(String),
    Query(String),
    BulkWrite(String),
    Ddl(String),
    Unsupported(String),
}

impl DdbCoreError {
    /// What each kind of error is called in front of its detail.
    pub open spec fn heading(self) -> Seq<char> {
        match self {
            DdbCoreError::Connection(_) => "connection failed: "@,
            DdbCoreError::Reflection(_) => "schema reflection failed: "@,
            DdbCoreError::Query(_) => "query execution failed: "@,
            DdbCoreError::BulkWrite(_) => "bulk write failed: "@,
            DdbCoreError::Ddl(_) => "DDL operation failed: "@,
            DdbCoreError::Unsupported(_) => "unsupported operation for this engine: "@,
        }
    }

    pub open spec fn spec_detail(self) -> Seq<char> {
        match self {
            DdbCoreError::Connection(s) => s@,
            DdbCoreError::Reflection(s) => s@,
            DdbCoreError::Query(s) => s@,
            DdbCoreError::BulkWrite(s) => s@,
            DdbCoreError::Ddl(s) => s@,
            DdbCoreError::Unsupported(s) => s@,
        }
    }

    /// A failed query with this detail.
    pub open spec fn is_query(self, detail: Seq<char>) -> bool {
        self is Query && self.spec_detail() == detail
    }

    /// An unsupported operation with this detail.
    pub open spec fn is_unsupported(self, detail: Seq<char>) -> bool {
        self is Unsupported && self.spec_detail() == detail
    }

    /// A failed reflection with this detail.
    pub open spec fn is_reflection(self, detail: Seq<char>) -> bool {
        self is Reflection && self.spec_detail() == detail
    }

    /// The error as a line of text: its heading, then its detail.
    pub fn message(&self) -> (r: String)
        ensures
            r@ == self.heading() + self.spec_detail(),
    {
        let (heading, detail): (&str, &String) = match self {
            DdbCoreError::Connection(s) => ("connection failed: ", s),
            DdbCoreError::Reflection(s) => ("schema reflection failed: ", s),
            DdbCoreError::Query(s) => ("query execution failed: ", s),
            DdbCoreError::BulkWrite(s) => ("bulk write failed: ", s),
            DdbCoreError::Ddl(s) => ("DDL operation failed: ", s),
            DdbCoreError::Unsupported(s) => ("unsupported operation for this engine: ", s),
        };
        let mut out = heading.to_string();
        out.append(detail.as_str());
        out
    }
}

} // verus!

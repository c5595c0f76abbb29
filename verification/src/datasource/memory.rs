//! Tables held in memory.

use vstd::prelude::*;
use crate::datasource::Batch;
use vstd::string::*;
use crate::buffer::immutable::share;

verus! {

/// An in-memory table: a schema and batches of rows.
#[derive(Debug)]
pub struct MemTable {
    schema: arrow_schema::SchemaRef,
    data: Vec<Batch>,
    description: Option<String>,
}

impl MemTable {
    pub closed spec fn spec_schema(&self) -> arrow_schema::SchemaRef {
        self.schema
    }

    pub closed spec fn spec_data(&self) -> Seq<Batch> {
        self.data@
    }

    pub closed spec fn spec_description(&self) -> Option<Seq<char>> {
        match self.description {
            Some(d) => Some(d@),
            None => None,
        }
    }

    /// A table over `data`, described by `schema`. The batches are not
    /// checked against the schema.
    pub fn new(
        schema: arrow_schema::SchemaRef,
        data: Vec<Batch>,
        description: Option<String>,
    ) -> (r: Self)
        ensures
            r.spec_schema() == schema,
            r.spec_data() == data@,
            r.spec_description() == match description {
                Some(d) => Some(d@),
                None => None::<Seq<char>>,
            },
    {
        Self { schema, data, description }
    }

    /// The table's schema, shared.
    pub fn schema(&self) -> (r: arrow_schema::SchemaRef)
        ensures
            *r == *self.spec_schema(),
    {
        share(&self.schema)
    }

    /// `MemTable`, followed by ` (description)` when there is one.
    pub fn to_string(&self) -> (r: String)
        ensures
            r@ == "MemTable"@ + match self.spec_description() {
                Some(d) => " ("@ + d + ")"@,
                None => Seq::<char>::empty(),
            },
    {
        let mut r = String::from_str("MemTable");
        match &self.description {
            Some(description) => {
                r.append(" (");
                r.append(description.as_str());
                r.append(")");
            },
            None => {},
        }
        r
    }
}

} // verus!

//! Helpers for processing the QueryRequest and building SQL.
use vstd::prelude::*;

use super::error::{Error, ErrorView};
use crate::metadata::{
    keys_sorted, lemma_lookup_listed, lookup, ColumnInfo, Metadata, NativeQueryInfo, TableInfo,
};
use crate::sql::ast::TableName;
use crate::types::input::Relationship;

verus! {

/// Static information from the query and metadata.
pub struct Env<'a> {
    pub metadata: &'a Metadata,
    pub relationships: Vec<(String, Relationship)>,
}

/// For the root table in the query, and for the current table we are processing,
/// We'd like to track what is their reference in the query (the name we can use to address them,
/// an alias we generate), and what is their name in the metadata (so we can get
/// their information such as which columns are available for that table).
#[derive(Debug, PartialEq, Eq)]
pub struct RootAndCurrentTables {
    /// The root (top-most) table in the query.
    pub root_table: TableNameAndReference,
    /// The current table we are processing.
    pub current_table: TableNameAndReference,
}

/// For a table in the query, We'd like to track what is its reference in the query
/// (the name we can use to address them, an alias we generate), and what is their name in the
/// metadata (so we can get their information such as which columns are available for that table).
#[derive(Debug, PartialEq, Eq)]
pub struct TableNameAndReference {
    /// Table name for column lookup
    pub name: String,
    /// Table alias to query from
    pub reference: TableName,
}

impl Clone for TableNameAndReference {
    fn clone(&self) -> (res: Self)
        ensures
            res == *self,
    {
        TableNameAndReference { name: self.name.clone(), reference: self.reference.clone() }
    }
}

impl Clone for RootAndCurrentTables {
    fn clone(&self) -> (res: Self)
        ensures
            res == *self,
    {
        RootAndCurrentTables {
            root_table: self.root_table.clone(),
            current_table: self.current_table.clone(),
        }
    }
}

/// Metadata information about a specific collection.
#[allow(inconsistent_fields)]
pub enum CollectionInfo<'a> {
    Table { name: String, info: &'a TableInfo },
    NativeQuery { name: String, info: &'a NativeQueryInfo },
}

impl<'a> Env<'a> {
    /// The table named `name`, if the metadata has one.
    pub open spec fn table_of(&self, name: Seq<char>) -> Option<TableInfo> {
        lookup(self.metadata.tables.0@, name)
    }

    /// The native query named `name`, if the metadata has one.
    pub open spec fn native_query_of(&self, name: Seq<char>) -> Option<NativeQueryInfo> {
        lookup(self.metadata.native_queries.0@, name)
    }

    /// The columns of the collection named `name`: a table's if there is one, else a
    /// native query's.
    pub open spec fn columns_of(&self, name: Seq<char>) -> Seq<(String, ColumnInfo)> {
        match self.table_of(name) {
            Some(table) => table.columns@,
            None => match self.native_query_of(name) {
                Some(native_query) => native_query.columns@,
                None => Seq::empty(),
            },
        }
    }

    /// The column `column` of the collection `collection`.
    pub open spec fn column_of(&self, collection: Seq<char>, column: Seq<char>) -> Option<
        ColumnInfo,
    > {
        lookup(self.columns_of(collection), column)
    }

    /// The error of looking a collection up, if it has neither a table nor a native query.
    pub open spec fn collection_error(&self, name: Seq<char>) -> Option<ErrorView> {
        if self.table_of(name) is None && self.native_query_of(name) is None {
            Some(ErrorView::CollectionNotFound(name))
        } else {
            None
        }
    }

    /// The error of looking a column of a collection up.
    pub open spec fn column_error(&self, collection: Seq<char>, column: Seq<char>) -> Option<
        ErrorView,
    > {
        match self.collection_error(collection) {
            Some(e) => Some(e),
            None => if self.column_of(collection, column) is None {
                Some(ErrorView::ColumnNotFoundInCollection(column, collection))
            } else {
                None
            },
        }
    }

    /// The error of looking a collection up where only a table will do.
    pub open spec fn table_error(&self, name: Seq<char>) -> Option<ErrorView> {
        match self.collection_error(name) {
            Some(e) => Some(e),
            None => if self.table_of(name) is None {
                Some(ErrorView::NotSupported("Native Queries"@))
            } else {
                None
            },
        }
    }

    /// The column mapping of every relationship lists its source columns in increasing order,
    /// each once, as the map keyed by source column that it stands for does.
    pub open spec fn mappings_sorted(&self) -> bool {
        forall|i: int|
            0 <= i < self.relationships@.len() ==> keys_sorted(
                #[trigger] self.relationships@[i].1.column_mapping@,
            )
    }

    /// The relationship named `name`, if the request has one.
    pub open spec fn relationship_of(&self, name: Seq<char>) -> Option<Relationship> {
        lookup(self.relationships@, name)
    }

    /// Create a new Env by supplying the metadata and relationships.
    pub fn new(metadata: &'a Metadata, relationships: Vec<(String, Relationship)>) -> (env: Env<'a>)
        ensures
            env.metadata == metadata,
            env.relationships == relationships,
    {
        Env { metadata, relationships }
    }

    /// Lookup a collection's information in the metadata: a table first, else a native
    /// query.
    pub fn lookup_collection(&self, collection_name: &String) -> (res: Result<CollectionInfo<'a>, Error>)
        ensures
            match res {
                Ok(CollectionInfo::Table { name, info }) => name == *collection_name
                    && self.table_of(collection_name@) == Some(*info),
                Ok(CollectionInfo::NativeQuery { name, info }) => name == *collection_name
                    && self.table_of(collection_name@) is None && self.native_query_of(
                    collection_name@,
                ) == Some(*info),
                Err(e) => self.collection_error(collection_name@) == Some(e@),
            },
            res is Ok <==> self.collection_error(collection_name@) is None,
    {
        match crate::metadata::find_entry(&self.metadata.tables.0, collection_name) {
            Some(info) => Ok(CollectionInfo::Table { name: collection_name.clone(), info }),
            None => match crate::metadata::find_entry(
                &self.metadata.native_queries.0,
                collection_name,
            ) {
                Some(info) => Ok(
                    CollectionInfo::NativeQuery { name: collection_name.clone(), info },
                ),
                None => Err(Error::CollectionNotFound(collection_name.clone())),
            },
        }
    }

    /// Lookup a relationship of the request.
    pub fn lookup_relationship(&self, name: &String) -> (res: Result<&Relationship, Error>)
        ensures
            match res {
                Ok(relationship) => self.relationship_of(name@) == Some(*relationship) && (
                self.mappings_sorted() ==> keys_sorted(relationship.column_mapping@)),
                Err(e) => self.relationship_of(name@) is None && e@
                    == ErrorView::RelationshipNotFound(name@),
            },
    {
        proof {
            if self.relationship_of(name@) is Some {
                lemma_lookup_listed(self.relationships@, name@);
            }
        }
        match crate::metadata::find_entry(&self.relationships, name) {
            Some(relationship) => Ok(relationship),
            None => Err(Error::RelationshipNotFound(name.clone())),
        }
    }
}

impl<'a> CollectionInfo<'a> {
    /// The name of the collection.
    pub open spec fn spec_name(&self) -> String {
        match self {
            CollectionInfo::Table { name, .. } => *name,
            CollectionInfo::NativeQuery { name, .. } => *name,
        }
    }

    /// The columns of the collection.
    pub open spec fn spec_columns(&self) -> Seq<(String, ColumnInfo)> {
        match self {
            CollectionInfo::Table { info, .. } => info.columns@,
            CollectionInfo::NativeQuery { info, .. } => info.columns@,
        }
    }

    /// Lookup a column in a collection.
    pub fn lookup_column(&self, column_name: &String) -> (res: Result<&'a ColumnInfo, Error>)
        ensures
            match res {
                Ok(info) => lookup(self.spec_columns(), column_name@) == Some(*info),
                Err(e) => lookup(self.spec_columns(), column_name@) is None && e
                    == Error::ColumnNotFoundInCollection(*column_name, self.spec_name()),
            },
    {
        match self {
            CollectionInfo::Table { name, info } => {
                match crate::metadata::find_entry(&info.columns, column_name) {
                    Some(column) => Ok(column),
                    None => Err(Error::ColumnNotFoundInCollection(column_name.clone(), name.clone())),
                }
            },
            CollectionInfo::NativeQuery { name, info } => {
                match crate::metadata::find_entry(&info.columns, column_name) {
                    Some(column) => Ok(column),
                    None => Err(Error::ColumnNotFoundInCollection(column_name.clone(), name.clone())),
                }
            },
        }
    }
}

} // verus!

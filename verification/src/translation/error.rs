//! Errors for query translation.
use vstd::prelude::*;

verus! {

/// A type for translation errors.
#[derive(Debug)]
pub enum Error {
    CollectionNotFound(String),
    ColumnNotFoundInCollection(String, String),
    RelationshipNotFound(String),
    EmptyPathForStarCountAggregate,
    NoFields,
    NotSupported(String),
    NotImplementedYet(String),
    RelationshipArgumentWasOverriden(String),
}

/// The mathematical value of an [`Error`]: its variant and the text of its fields.
pub ghost enum ErrorView {
    CollectionNotFound(Seq<char>),
    ColumnNotFoundInCollection(Seq<char>, Seq<char>),
    RelationshipNotFound(Seq<char>),
    EmptyPathForStarCountAggregate,
    NoFields,
    NotSupported(Seq<char>),
    NotImplementedYet(Seq<char>),
    RelationshipArgumentWasOverriden(Seq<char>),
}

/// The outcome of a translation that did not succeed: an error, or a panic of the
/// translation on an input it cannot handle.
pub ghost enum Failure {
    Error(ErrorView),
    Panic,
}

impl View for Error {
    type V = ErrorView;

    open spec fn view(&self) -> ErrorView {
        match self {
            Error::CollectionNotFound(name) => ErrorView::CollectionNotFound(name@),
            Error::ColumnNotFoundInCollection(column, collection) => {
                ErrorView::ColumnNotFoundInCollection(column@, collection@)
            },
            Error::RelationshipNotFound(name) => ErrorView::RelationshipNotFound(name@),
            Error::EmptyPathForStarCountAggregate => ErrorView::EmptyPathForStarCountAggregate,
            Error::NoFields => ErrorView::NoFields,
            Error::NotSupported(thing) => ErrorView::NotSupported(thing@),
            Error::NotImplementedYet(thing) => ErrorView::NotImplementedYet(thing@),
            Error::RelationshipArgumentWasOverriden(key) => {
                ErrorView::RelationshipArgumentWasOverriden(key@)
            },
        }
    }
}

impl ErrorView {
    /// The message that describes the error.
    pub open spec fn message_text(self) -> Seq<char> {
        match self {
            ErrorView::CollectionNotFound(name) => "Collection '"@ + name + "' not found."@,
            ErrorView::ColumnNotFoundInCollection(column, collection) => "Column '"@ + column
                + "' not found in collection '"@ + collection + "'."@,
            ErrorView::RelationshipNotFound(name) => "Relationship '"@ + name + "' not found."@,
            ErrorView::NotSupported(thing) => "Queries containing "@ + thing
                + " are not supported."@,
            ErrorView::EmptyPathForStarCountAggregate => "No path elements supplied for Star Count Aggregate"@,
            ErrorView::NoFields => "No fields in request."@,
            ErrorView::NotImplementedYet(thing) => "Queries containing "@ + thing
                + " are not supported."@,
            ErrorView::RelationshipArgumentWasOverriden(key) => "The relationship argument '"@ + key
                + "' was defined as part of the relationship, but was overriden."@,
        }
    }
}

impl Error {
    /// The message that describes the error.
    pub fn message(&self) -> (message: String)
        ensures
            message@ == self@.message_text(),
    {
        match self {
            Error::CollectionNotFound(name) => {
                proof {
                    reveal_strlit("Collection '");
                    reveal_strlit("' not found.");
                }
                let s = String::from_str("Collection '");
                let s = s.concat(name.as_str());
                s.concat("' not found.")
            },
            Error::ColumnNotFoundInCollection(column, collection) => {
                proof {
                    reveal_strlit("Column '");
                    reveal_strlit("' not found in collection '");
                    reveal_strlit("'.");
                }
                let s = String::from_str("Column '");
                let s = s.concat(column.as_str());
                let s = s.concat("' not found in collection '");
                let s = s.concat(collection.as_str());
                s.concat("'.")
            },
            Error::RelationshipNotFound(name) => {
                proof {
                    reveal_strlit("Relationship '");
                    reveal_strlit("' not found.");
                }
                let s = String::from_str("Relationship '");
                let s = s.concat(name.as_str());
                s.concat("' not found.")
            },
            Error::NotSupported(thing) => {
                proof {
                    reveal_strlit("Queries containing ");
                    reveal_strlit(" are not supported.");
                }
                let s = String::from_str("Queries containing ");
                let s = s.concat(thing.as_str());
                s.concat(" are not supported.")
            },
            Error::EmptyPathForStarCountAggregate => {
                proof { reveal_strlit("No path elements supplied for Star Count Aggregate"); }
                String::from_str("No path elements supplied for Star Count Aggregate")
            },
            Error::NoFields => {
                proof { reveal_strlit("No fields in request."); }
                String::from_str("No fields in request.")
            },
            Error::NotImplementedYet(thing) => {
                proof {
                    reveal_strlit("Queries containing ");
                    reveal_strlit(" are not supported.");
                }
                let s = String::from_str("Queries containing ");
                let s = s.concat(thing.as_str());
                s.concat(" are not supported.")
            },
            Error::RelationshipArgumentWasOverriden(key) => {
                proof {
                    reveal_strlit("The relationship argument '");
                    reveal_strlit("' was defined as part of the relationship, but was overriden.");
                }
                let s = String::from_str("The relationship argument '");
                let s = s.concat(key.as_str());
                s.concat("' was defined as part of the relationship, but was overriden.")
            },
        }
    }
}

} // verus!

//! Metadata information regarding the database and tracked information.
//!
//! Maps are kept as lists of `(key, value)` entries in key order, with no key listed twice.
use vstd::prelude::*;

pub mod native_queries;

verus! {

/// The first value listed under `key`, if any.
pub open spec fn lookup<V>(entries: Seq<(String, V)>, key: Seq<char>) -> Option<V>
    decreases entries.len(),
{
    if entries.len() == 0 {
        None
    } else if entries[0].0@ == key {
        Some(entries[0].1)
    } else {
        lookup(entries.subrange(1, entries.len() as int), key)
    }
}

/// No key is listed twice.
pub open spec fn keys_distinct<V>(entries: Seq<(String, V)>) -> bool {
    forall|i: int, j: int|
        0 <= i < j < entries.len() ==> #[trigger] entries[i].0@ != #[trigger] entries[j].0@
}

/// `a` comes before `b` in the order of strings: at the first character where they differ
/// `a` has the smaller one, or `a` is a proper prefix of `b`.
pub open spec fn text_less(a: Seq<char>, b: Seq<char>) -> bool {
    exists|i: int|
        0 <= i <= a.len() && i <= b.len() && #[trigger] a.take(i) == b.take(i) && ((i == a.len()
            && i < b.len()) || (i < a.len() && i < b.len() && (a[i] as u32) < (b[i] as u32)))
}

/// The keys are listed in increasing order, each once, as a map ordered by its keys lists
/// them.
pub open spec fn keys_sorted<V>(entries: Seq<(String, V)>) -> bool {
    forall|i: int, j: int|
        0 <= i < j < entries.len() ==> text_less(#[trigger] entries[i].0@, #[trigger] entries[j].0@)
}

/// A value found by `lookup` is listed in the entries.
pub proof fn lemma_lookup_listed<V>(entries: Seq<(String, V)>, key: Seq<char>)
    requires
        lookup(entries, key) is Some,
    ensures
        exists|i: int|
            0 <= i < entries.len() && #[trigger] entries[i].1 == lookup(entries, key).unwrap(),
    decreases entries.len(),
{
    if entries[0].0@ != key {
        let rest = entries.subrange(1, entries.len() as int);
        lemma_lookup_listed(rest, key);
        let i = choose|i: int| 0 <= i < rest.len() && #[trigger] rest[i].1 == lookup(rest, key).unwrap();
        assert(entries[i + 1] == rest[i]);
    } else {
        assert(entries[0].1 == lookup(entries, key).unwrap());
    }
}

/// Find the value listed under `key`.
pub fn find_entry<'a, V>(entries: &'a Vec<(String, V)>, key: &String) -> (res: Option<&'a V>)
    ensures
        match res {
            Some(v) => lookup(entries@, key@) == Some(*v),
            None => lookup(entries@, key@) is None,
        },
{
    let mut i: usize = 0;
    assert(entries@.subrange(0, entries@.len() as int) =~= entries@);
    while i < entries.len()
        invariant
            i <= entries@.len(),
            lookup(entries@, key@) == lookup(entries@.subrange(i as int, entries@.len() as int), key@),
        decreases entries@.len() - i,
    {
        let ghost rest = entries@.subrange(i as int, entries@.len() as int);
        assert(rest.subrange(1, rest.len() as int) =~= entries@.subrange(
            i + 1,
            entries@.len() as int,
        ));
        if entries[i].0 == *key {
            return Some(&entries[i].1);
        }
        i = i + 1;
    }
    None
}

/// The scalar types supported by the Engine.
#[derive(Debug, Clone, Copy, PartialEq, Eq, Structural)]
pub enum ScalarType {
    Boolean,
    Float,
    Int,
    String,
    /// `Any` isn't supported by the engine.
    Any,
}

/// The types of database columns that a value of a request is read as.
#[derive(Debug, Clone, Copy, PartialEq, Eq, Structural)]
pub enum DatabaseScalarType {
    Smallint,
    Integer,
    Bigint,
    Real,
    DoublePrecision,
    Numeric,
    Boolean,
    Character,
    CharacterVarying,
    Text,
    Date,
    TimeWithTimeZone,
    TimeWithoutTimeZone,
    TimestampWithTimeZone,
    TimestampWithoutTimeZone,
    Uuid,
    /// Any other type: its values are passed as strings.
    Any,
}

impl DatabaseScalarType {
    /// The name of the type in the database's SQL.
    pub open spec fn sql_type_name(self) -> Seq<char> {
        match self {
            DatabaseScalarType::Smallint => "smallint"@,
            DatabaseScalarType::Integer => "integer"@,
            DatabaseScalarType::Bigint => "bigint"@,
            DatabaseScalarType::Real => "real"@,
            DatabaseScalarType::DoublePrecision => "double precision"@,
            DatabaseScalarType::Numeric => "numeric"@,
            DatabaseScalarType::Boolean => "boolean"@,
            DatabaseScalarType::Character => "character"@,
            DatabaseScalarType::CharacterVarying => "character varying"@,
            DatabaseScalarType::Text => "text"@,
            DatabaseScalarType::Date => "date"@,
            DatabaseScalarType::TimeWithTimeZone => "time with time zone"@,
            DatabaseScalarType::TimeWithoutTimeZone => "time without time zone"@,
            DatabaseScalarType::TimestampWithTimeZone => "timestamp with time zone"@,
            DatabaseScalarType::TimestampWithoutTimeZone => "timestamp without time zone"@,
            DatabaseScalarType::Uuid => "uuid"@,
            DatabaseScalarType::Any => "any"@,
        }
    }
}

/// The operators that every scalar type supports.
pub open spec fn operators_supported_by_all_types() -> Seq<BinaryOperator> {
    seq![
        BinaryOperator::Equals,
        BinaryOperator::NotEquals,
        BinaryOperator::LessThan,
        BinaryOperator::LessThanOrEqualTo,
        BinaryOperator::GreaterThan,
        BinaryOperator::GreaterThanOrEqualTo,
    ]
}

/// The operators that only strings support.
pub open spec fn string_operators() -> Seq<BinaryOperator> {
    seq![
        BinaryOperator::Like,
        BinaryOperator::NotLike,
        BinaryOperator::CaseInsensitiveLike,
        BinaryOperator::NotCaseInsensitiveLike,
        BinaryOperator::Similar,
        BinaryOperator::NotSimilar,
        BinaryOperator::Regex,
        BinaryOperator::NotRegex,
        BinaryOperator::CaseInsensitiveRegex,
        BinaryOperator::NotCaseInsensitiveRegex,
    ]
}

impl ScalarType {
    /// The comparison operators of the type, in the order in which `BinaryOperator` lists
    /// them.
    pub open spec fn spec_comparison_operators(self) -> Seq<BinaryOperator> {
        match self {
            ScalarType::String => operators_supported_by_all_types() + string_operators(),
            _ => operators_supported_by_all_types(),
        }
    }

    /// The name of the type.
    pub open spec fn name_text(self) -> Seq<char> {
        match self {
            ScalarType::Boolean => "Boolean"@,
            ScalarType::Float => "Float"@,
            ScalarType::Int => "Int"@,
            ScalarType::String => "String"@,
            ScalarType::Any => "any"@,
        }
    }

    /// Returns the complete set of comparison operators for the given type, each once,
    /// in the order in which `BinaryOperator` lists them.
    pub fn comparison_operators(&self) -> (operators: Vec<BinaryOperator>)
        ensures
            operators@ == self.spec_comparison_operators(),
    {
        let mut operators = vec![
            BinaryOperator::Equals,
            BinaryOperator::NotEquals,
            BinaryOperator::LessThan,
            BinaryOperator::LessThanOrEqualTo,
            BinaryOperator::GreaterThan,
            BinaryOperator::GreaterThanOrEqualTo,
        ];
        if let ScalarType::String = self {
            let mut strings = vec![
                BinaryOperator::Like,
                BinaryOperator::NotLike,
                BinaryOperator::CaseInsensitiveLike,
                BinaryOperator::NotCaseInsensitiveLike,
                BinaryOperator::Similar,
                BinaryOperator::NotSimilar,
                BinaryOperator::Regex,
                BinaryOperator::NotRegex,
                BinaryOperator::CaseInsensitiveRegex,
                BinaryOperator::NotCaseInsensitiveRegex,
            ];
            operators.append(&mut strings);
        }
        assert(operators@ =~= self.spec_comparison_operators());
        operators
    }

    /// The name of the type.
    pub fn to_string(&self) -> (name: String)
        ensures
            name@ == self.name_text(),
    {
        match self {
            ScalarType::Boolean => {
                proof { reveal_strlit("Boolean"); }
                String::from_str("Boolean")
            },
            ScalarType::Float => {
                proof { reveal_strlit("Float"); }
                String::from_str("Float")
            },
            ScalarType::Int => {
                proof { reveal_strlit("Int"); }
                String::from_str("Int")
            },
            ScalarType::String => {
                proof { reveal_strlit("String"); }
                String::from_str("String")
            },
            ScalarType::Any => {
                proof { reveal_strlit("any"); }
                String::from_str("any")
            },
        }
    }
}

/// The complete list of supported binary operators for scalar types.
/// Not all of these are supported for every type.
///
/// These must be kept in sync with the documentation.
#[derive(Debug, Clone, Copy, PartialEq, Eq, Structural)]
pub enum BinaryOperator {
    Equals,
    NotEquals,
    LessThan,
    LessThanOrEqualTo,
    GreaterThan,
    GreaterThanOrEqualTo,
    Like,
    NotLike,
    CaseInsensitiveLike,
    NotCaseInsensitiveLike,
    Similar,
    NotSimilar,
    Regex,
    NotRegex,
    CaseInsensitiveRegex,
    NotCaseInsensitiveRegex,
}

impl BinaryOperator {
    /// The name of the operator exposed via the schema.
    pub open spec fn name_text(self) -> Seq<char> {
        match self {
            BinaryOperator::Equals => "eq"@,
            BinaryOperator::NotEquals => "neq"@,
            BinaryOperator::LessThan => "lt"@,
            BinaryOperator::LessThanOrEqualTo => "lte"@,
            BinaryOperator::GreaterThan => "gt"@,
            BinaryOperator::GreaterThanOrEqualTo => "gte"@,
            BinaryOperator::Like => "like"@,
            BinaryOperator::NotLike => "nlike"@,
            BinaryOperator::CaseInsensitiveLike => "ilike"@,
            BinaryOperator::NotCaseInsensitiveLike => "nilike"@,
            BinaryOperator::Similar => "similar"@,
            BinaryOperator::NotSimilar => "nsimilar"@,
            BinaryOperator::Regex => "regex"@,
            BinaryOperator::NotRegex => "nregex"@,
            BinaryOperator::CaseInsensitiveRegex => "iregex"@,
            BinaryOperator::NotCaseInsensitiveRegex => "niregex"@,
        }
    }

    /// The name of the binary operator exposed via the schema.
    pub fn name(&self) -> (name: &'static str)
        ensures
            name@ == self.name_text(),
    {
        match self {
            BinaryOperator::Equals => {
                proof { reveal_strlit("eq"); }
                "eq"
            },
            BinaryOperator::NotEquals => {
                proof { reveal_strlit("neq"); }
                "neq"
            },
            BinaryOperator::LessThan => {
                proof { reveal_strlit("lt"); }
                "lt"
            },
            BinaryOperator::LessThanOrEqualTo => {
                proof { reveal_strlit("lte"); }
                "lte"
            },
            BinaryOperator::GreaterThan => {
                proof { reveal_strlit("gt"); }
                "gt"
            },
            BinaryOperator::GreaterThanOrEqualTo => {
                proof { reveal_strlit("gte"); }
                "gte"
            },
            BinaryOperator::Like => {
                proof { reveal_strlit("like"); }
                "like"
            },
            BinaryOperator::NotLike => {
                proof { reveal_strlit("nlike"); }
                "nlike"
            },
            BinaryOperator::CaseInsensitiveLike => {
                proof { reveal_strlit("ilike"); }
                "ilike"
            },
            BinaryOperator::NotCaseInsensitiveLike => {
                proof { reveal_strlit("nilike"); }
                "nilike"
            },
            BinaryOperator::Similar => {
                proof { reveal_strlit("similar"); }
                "similar"
            },
            BinaryOperator::NotSimilar => {
                proof { reveal_strlit("nsimilar"); }
                "nsimilar"
            },
            BinaryOperator::Regex => {
                proof { reveal_strlit("regex"); }
                "regex"
            },
            BinaryOperator::NotRegex => {
                proof { reveal_strlit("nregex"); }
                "nregex"
            },
            BinaryOperator::CaseInsensitiveRegex => {
                proof { reveal_strlit("iregex"); }
                "iregex"
            },
            BinaryOperator::NotCaseInsensitiveRegex => {
                proof { reveal_strlit("niregex"); }
                "niregex"
            },
        }
    }

    /// Computes the argument type on the right-hand side of the operator,
    /// given the type of the value on the left-hand side.
    ///
    /// In practice, operators are always assumed to be operating on two values
    /// of the same type, so this just returns its input.
    pub fn rhs_argument_type(&self, lhs: ScalarType) -> (rhs: ScalarType)
        ensures
            rhs == lhs,
    {
        lhs
    }

    /// The name of the operator, as an owned string.
    pub fn to_string(&self) -> (name: String)
        ensures
            name@ == self.name_text(),
    {
        String::from_str(self.name())
    }
}

/// Every binary operator is exposed as a comparison operator of some scalar type.
pub proof fn every_operator_is_exposed(operator: BinaryOperator)
    ensures
        exists|t: ScalarType| #[trigger] t.spec_comparison_operators().contains(operator),
{
    let ops = ScalarType::String.spec_comparison_operators();
    let i: int = match operator {
        BinaryOperator::Equals => 0,
        BinaryOperator::NotEquals => 1,
        BinaryOperator::LessThan => 2,
        BinaryOperator::LessThanOrEqualTo => 3,
        BinaryOperator::GreaterThan => 4,
        BinaryOperator::GreaterThanOrEqualTo => 5,
        BinaryOperator::Like => 6,
        BinaryOperator::NotLike => 7,
        BinaryOperator::CaseInsensitiveLike => 8,
        BinaryOperator::NotCaseInsensitiveLike => 9,
        BinaryOperator::Similar => 10,
        BinaryOperator::NotSimilar => 11,
        BinaryOperator::Regex => 12,
        BinaryOperator::NotRegex => 13,
        BinaryOperator::CaseInsensitiveRegex => 14,
        BinaryOperator::NotCaseInsensitiveRegex => 15,
    };
    assert(ops[i] == operator);
    assert(ops.contains(operator));
}

/// Every scalar type supports the operators common to all types, and only strings support
/// the others.
pub proof fn common_operators_are_supported_by_all_types(t: ScalarType, operator: BinaryOperator)
    ensures
        operators_supported_by_all_types().contains(operator) ==> t.spec_comparison_operators().contains(operator),
        string_operators().contains(operator) ==> (t.spec_comparison_operators().contains(operator) <==> t == ScalarType::String),
{
    let common = operators_supported_by_all_types();
    let strings = string_operators();
    let ops = t.spec_comparison_operators();
    if common.contains(operator) {
        let i = choose|i: int| 0 <= i < common.len() && common[i] == operator;
        assert(ops[i] == operator);
    }
    if strings.contains(operator) {
        let i = choose|i: int| 0 <= i < strings.len() && strings[i] == operator;
        if t == ScalarType::String {
            assert(ops[6 + i] == operator);
        } else {
            assert(ops == common);
            assert forall|j: int| 0 <= j < common.len() implies common[j] != operator by {}
        }
    }
}

/// Mapping from a "table" name to its information.
pub struct TablesInfo(pub Vec<(String, TableInfo)>);

/// Information about a database table (or any other kind of relation).
pub struct TableInfo {
    pub schema_name: String,
    pub table_name: String,
    pub columns: Vec<(String, ColumnInfo)>,
    pub uniqueness_constraints: UniquenessConstraints,
    pub foreign_relations: ForeignRelations,
}

/// Information about a database column.
pub struct ColumnInfo {
    pub name: String,
    pub column_type: ScalarType,
}

/// A mapping from the name of a unique constraint to its value.
pub struct UniquenessConstraints(pub Vec<(String, UniquenessConstraint)>);

/// The set of columns that make up a uniqueness constraint, in order and each once.
pub struct UniquenessConstraint(pub Vec<String>);

/// A mapping from the name of a foreign key constraint to its value.
pub struct ForeignRelations(pub Vec<(String, ForeignRelation)>);

/// A foreign key constraint.
pub struct ForeignRelation {
    pub foreign_table: String,
    pub column_mapping: Vec<(String, String)>,
}

/// All supported aggregate functions, grouped by type.
pub struct AggregateFunctions(pub Vec<(ScalarType, Vec<(String, AggregateFunction)>)>);

/// The result type of an aggregate function.
pub struct AggregateFunction {
    pub return_type: ScalarType,
}

/// Metadata information.
pub struct Metadata {
    pub tables: TablesInfo,
    pub native_queries: NativeQueries,
}

impl Metadata {
    /// Metadata without tables and without native queries.
    pub fn empty() -> (metadata: Self)
        ensures
            metadata.tables.0@.len() == 0,
            metadata.native_queries.0@.len() == 0,
    {
        Metadata { tables: TablesInfo::empty(), native_queries: NativeQueries::empty() }
    }
}

impl TablesInfo {
    /// No tables.
    pub fn empty() -> (tables: Self)
        ensures
            tables.0@.len() == 0,
    {
        TablesInfo(Vec::new())
    }
}

/// Metadata information of native queries.
pub struct NativeQueries(pub Vec<(String, NativeQueryInfo)>);

impl NativeQueries {
    /// No native queries.
    pub fn empty() -> (queries: Self)
        ensures
            queries.0@.len() == 0,
    {
        NativeQueries(Vec::new())
    }
}

/// Information about a native query: its SQL text, its columns and its arguments.
pub struct NativeQueryInfo {
    pub sql: String,
    pub columns: Vec<(String, ColumnInfo)>,
    pub arguments: Vec<(String, ColumnInfo)>,
}

} // verus!

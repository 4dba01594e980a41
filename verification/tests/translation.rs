use query_engine::metadata::{
    ColumnInfo, ForeignRelations, Metadata, NativeQueries, NativeQueryInfo, ScalarType, TableInfo,
    TablesInfo, UniquenessConstraints,
};
use query_engine::sql::ast::Value;
use query_engine::sql::string::Param;
use query_engine::translation::error::Error;
use query_engine::translation::numbers::translation_does_not_panic;
use query_engine::translation::translate;
use query_engine::translation::values::translate_json_value;
use query_engine::types::input::{
    Aggregate, BinaryComparisonOperator, ComparisonTarget, ComparisonValue, ExistsInTable,
    Expression, Field, JsonValue, OrderBy, OrderByElement, OrderByTarget, OrderDirection,
    PathElement, PathElementWithPredicate, Query, QueryRequest, Relationship, RelationshipType,
};

fn column(name: &str, scalar_type: ScalarType) -> (String, ColumnInfo) {
    (name.to_string(), ColumnInfo { name: name.to_string(), column_type: scalar_type })
}

fn table(name: &str, columns: Vec<(String, ColumnInfo)>) -> (String, TableInfo) {
    (
        name.to_string(),
        TableInfo {
            schema_name: "public".to_string(),
            table_name: name.to_string(),
            columns,
            uniqueness_constraints: UniquenessConstraints(vec![]),
            foreign_relations: ForeignRelations(vec![]),
        },
    )
}

fn metadata() -> Metadata {
    Metadata {
        tables: TablesInfo(vec![
            table(
                "Album",
                vec![
                    column("AlbumId", ScalarType::Int),
                    column("ArtistId", ScalarType::Int),
                    column("Title", ScalarType::String),
                ],
            ),
            table(
                "Artist",
                vec![column("ArtistId", ScalarType::Int), column("Name", ScalarType::String)],
            ),
            table(
                "Track",
                vec![
                    column("TrackId", ScalarType::Int),
                    column("AlbumId", ScalarType::Int),
                    column("Name", ScalarType::String),
                ],
            ),
        ]),
        native_queries: NativeQueries(vec![(
            "artist_below_id".to_string(),
            NativeQueryInfo {
                sql: "SELECT * FROM \"public\".\"Artist\" WHERE \"ArtistId\" < {{id}}".to_string(),
                columns: vec![column("ArtistId", ScalarType::Int)],
                arguments: vec![column("id", ScalarType::Int)],
            },
        )]),
    }
}

fn album_artist(relationship_type: RelationshipType) -> (String, Relationship) {
    (
        "AlbumArtist".to_string(),
        Relationship {
            column_mapping: vec![("ArtistId".to_string(), "ArtistId".to_string())],
            relationship_type,
            source_table_or_type: "Album".to_string(),
            target_table: "Artist".to_string(),
            arguments: vec![],
        },
    )
}

fn column_field(name: &str) -> (String, Field) {
    (name.to_string(), Field::Column { column: name.to_string(), arguments: vec![] })
}

fn empty_query() -> Query {
    Query {
        aggregates: None,
        fields: None,
        limit: None,
        offset: None,
        order_by: None,
        predicate: None,
    }
}

fn request(table: &str, query: Query, relationships: Vec<(String, Relationship)>) -> QueryRequest {
    QueryRequest {
        table: table.to_string(),
        query,
        arguments: vec![],
        table_relationships: relationships,
        variables: None,
    }
}

fn title_equals(value: ComparisonValue) -> Expression {
    Expression::BinaryComparisonOperator {
        column: Box::new(ComparisonTarget::Column { name: "Title".to_string(), path: vec![] }),
        operator: BinaryComparisonOperator::Equal,
        value: Box::new(value),
    }
}

fn sql_of(request: QueryRequest) -> (String, Vec<Param>) {
    let plan = translate(&metadata(), request).expect("translation succeeds");
    let sql = plan.query();
    (sql.sql, sql.params)
}

fn error_of(request: QueryRequest) -> Error {
    match translate(&metadata(), request) {
        Ok(_) => panic!("translation should fail"),
        Err(e) => e,
    }
}

#[test]
fn it_converts_select_with_limit() {
    let query = Query {
        fields: Some(vec![column_field("Title")]),
        limit: Some(5),
        ..empty_query()
    };
    let (sql, params) = sql_of(request("Album", query, vec![]));
    assert_eq!(
        sql,
        "SELECT row_to_json(\"universe\") AS \"universe\" FROM (SELECT * FROM (SELECT coalesce(json_agg(row_to_json(\"rows\")), '[]') AS \"rows\" FROM (SELECT \"Album\".\"Title\" AS \"Title\" FROM \"public\".\"Album\" AS \"Album\" LIMIT 5) AS \"rows\") AS \"rows\") AS \"universe\""
    );
    assert!(params.is_empty());
}

#[test]
fn it_select_where_string() {
    let query = Query {
        fields: Some(vec![column_field("Title")]),
        predicate: Some(title_equals(ComparisonValue::Scalar {
            value: JsonValue::String("Let There Be Rock".to_string()),
        })),
        ..empty_query()
    };
    let (sql, params) = sql_of(request("Album", query, vec![]));
    assert_eq!(
        sql,
        "SELECT row_to_json(\"universe\") AS \"universe\" FROM (SELECT * FROM (SELECT coalesce(json_agg(row_to_json(\"rows\")), '[]') AS \"rows\" FROM (SELECT \"Album\".\"Title\" AS \"Title\" FROM \"public\".\"Album\" AS \"Album\" WHERE (\"Album\".\"Title\" = $1)) AS \"rows\") AS \"rows\") AS \"universe\""
    );
    assert_eq!(params, vec![Param::String("Let There Be Rock".to_string())]);
}

#[test]
fn it_aggregate_count_albums() {
    let query = Query {
        aggregates: Some(vec![("how_many_albums".to_string(), Aggregate::StarCount)]),
        ..empty_query()
    };
    let (sql, _) = sql_of(request("Album", query, vec![]));
    assert_eq!(
        sql,
        "SELECT row_to_json(\"universe\") AS \"universe\" FROM (SELECT * FROM (SELECT coalesce(row_to_json(\"aggregates\"), '[]') AS \"aggregates\" FROM (SELECT COUNT(*) AS \"how_many_albums\" FROM \"public\".\"Album\" AS \"Album\") AS \"aggregates\") AS \"aggregates\") AS \"universe\""
    );
}

#[test]
fn it_aggregate_distinct_albums() {
    let query = Query {
        aggregates: Some(vec![(
            "how_many_distinct_artist_ids".to_string(),
            Aggregate::ColumnCount { column: "ArtistId".to_string(), distinct: true },
        )]),
        ..empty_query()
    };
    let (sql, _) = sql_of(request("Album", query, vec![]));
    assert!(sql.contains(
        "SELECT COUNT(DISTINCT \"Album\".\"ArtistId\") AS \"how_many_distinct_artist_ids\" FROM \"public\".\"Album\" AS \"Album\""
    ));
}

#[test]
fn it_aggregate_function_albums() {
    let query = Query {
        fields: Some(vec![column_field("Title")]),
        aggregates: Some(vec![(
            "max_id".to_string(),
            Aggregate::SingleColumn { column: "AlbumId".to_string(), function: "max".to_string() },
        )]),
        ..empty_query()
    };
    let (sql, _) = sql_of(request("Album", query, vec![]));
    assert!(sql.contains("SELECT max(\"Album\".\"AlbumId\") AS \"max_id\""));
    assert!(sql.contains(" AS \"rows\" CROSS JOIN (SELECT coalesce(row_to_json(\"aggregates\"), '[]')"));
}

#[test]
fn it_simple_object_relationship() {
    let query = Query {
        fields: Some(vec![
            column_field("Title"),
            (
                "Artist".to_string(),
                Field::Relationship {
                    query: Box::new(Query {
                        fields: Some(vec![column_field("Name")]),
                        ..empty_query()
                    }),
                    relationship: "AlbumArtist".to_string(),
                    arguments: vec![],
                },
            ),
        ]),
        ..empty_query()
    };
    let (sql, _) = sql_of(request("Album", query, vec![album_artist(RelationshipType::Object)]));
    assert!(sql.contains("SELECT \"Album\".\"Title\" AS \"Title\", \"Artist\".\"Artist\" AS \"Artist\" FROM \"public\".\"Album\" AS \"Album\" LEFT OUTER JOIN LATERAL (SELECT row_to_json(\"Artist\") AS \"Artist\" FROM (SELECT * FROM (SELECT coalesce(json_agg(row_to_json(\"rows\")), '[]') AS \"rows\" FROM (SELECT \"Artist\".\"Name\" AS \"Name\" FROM \"public\".\"Artist\" AS \"Artist\" WHERE (true AND (\"Album\".\"ArtistId\" = \"Artist\".\"ArtistId\"))) AS \"rows\") AS \"rows\") AS \"Artist\") AS \"Artist\" ON ('true') "));
}

#[test]
fn filtering_through_a_relationship_draws_fresh_aliases() {
    let predicate = Expression::BinaryComparisonOperator {
        column: Box::new(ComparisonTarget::Column {
            name: "Name".to_string(),
            path: vec![PathElementWithPredicate {
                relationship: "AlbumArtist".to_string(),
                arguments: vec![],
                predicate: Box::new(Expression::And { expressions: vec![] }),
            }],
        }),
        operator: BinaryComparisonOperator::Other { name: "like".to_string() },
        value: Box::new(ComparisonValue::Variable { name: "pattern".to_string() }),
    };
    let query = Query {
        fields: Some(vec![column_field("Title")]),
        predicate: Some(predicate),
        ..empty_query()
    };
    let (sql, params) = sql_of(request("Album", query, vec![album_artist(RelationshipType::Object)]));
    assert!(sql.contains(" INNER JOIN LATERAL (SELECT * FROM \"public\".\"Artist\" AS \"BOOLEXP_0_Artist\" WHERE (true AND (\"Album\".\"ArtistId\" = \"BOOLEXP_0_Artist\".\"ArtistId\"))) AS \"BOOLEXP_0_Artist\" ON ('true') "));
    assert!(sql.contains("WHERE (\"BOOLEXP_0_Artist\".\"Name\" LIKE $1)"));
    assert_eq!(params, vec![Param::Variable("pattern".to_string())]);
}

#[test]
fn sorting_by_relationship_column() {
    let query = Query {
        fields: Some(vec![column_field("Title")]),
        order_by: Some(OrderBy {
            elements: vec![OrderByElement {
                order_direction: OrderDirection::Desc,
                target: OrderByTarget::Column {
                    name: "Name".to_string(),
                    path: vec![PathElement {
                        relationship: "AlbumArtist".to_string(),
                        arguments: vec![],
                    }],
                },
            }],
        }),
        ..empty_query()
    };
    let (sql, _) = sql_of(request("Album", query, vec![album_artist(RelationshipType::Object)]));
    assert!(sql.contains("LEFT OUTER JOIN LATERAL (SELECT \"ORDER_PART_0_Artist\".\"Name\" AS \"Name\" FROM (SELECT \"ORDER_PART_0_Artist\".\"Name\" AS \"Name\" FROM \"public\".\"Artist\" AS \"ORDER_PART_0_Artist\" WHERE (true AND (\"Album\".\"ArtistId\" = \"ORDER_PART_0_Artist\".\"ArtistId\"))) AS \"ORDER_PART_0_Artist\") AS \"ORDER_FOR_0_Album\" ON ('true') "));
    assert!(sql.contains("ORDER BY \"ORDER_FOR_0_Album\".\"Name\" DESC"));
}

#[test]
fn sorting_by_array_relationship_needs_a_function() {
    let query = Query {
        fields: Some(vec![column_field("Title")]),
        order_by: Some(OrderBy {
            elements: vec![OrderByElement {
                order_direction: OrderDirection::Asc,
                target: OrderByTarget::Column {
                    name: "Name".to_string(),
                    path: vec![PathElement {
                        relationship: "AlbumArtist".to_string(),
                        arguments: vec![],
                    }],
                },
            }],
        }),
        ..empty_query()
    };
    let e = error_of(request("Album", query, vec![album_artist(RelationshipType::Array)]));
    assert!(matches!(e, Error::NotSupported(ref s) if s == "Cannot order by values in an array relationship"));
}

#[test]
fn star_count_ordering_needs_a_relationship() {
    let query = Query {
        fields: Some(vec![column_field("Title")]),
        order_by: Some(OrderBy {
            elements: vec![OrderByElement {
                order_direction: OrderDirection::Asc,
                target: OrderByTarget::StarCountAggregate { path: vec![] },
            }],
        }),
        ..empty_query()
    };
    let e = error_of(request("Album", query, vec![]));
    assert!(matches!(e, Error::NotSupported(ref s) if s == "order by star count aggregates"));
}

#[test]
fn ordering_by_star_count_counts_related_rows() {
    let query = Query {
        fields: Some(vec![column_field("Title")]),
        order_by: Some(OrderBy {
            elements: vec![OrderByElement {
                order_direction: OrderDirection::Asc,
                target: OrderByTarget::StarCountAggregate {
                    path: vec![PathElement {
                        relationship: "AlbumArtist".to_string(),
                        arguments: vec![],
                    }],
                },
            }],
        }),
        ..empty_query()
    };
    let (sql, _) = sql_of(request("Album", query, vec![album_artist(RelationshipType::Array)]));
    assert!(sql.contains("LEFT OUTER JOIN LATERAL (SELECT COUNT(*) AS \"count\" FROM \"Artist\" AS \"Artist\" WHERE (true AND (\"Album\".\"ArtistId\" = \"Artist\".\"ArtistId\"))) AS \"ORDER_COUNT_FOR_0_Album\" ON ('true') "));
    assert!(sql.contains("ORDER BY \"ORDER_COUNT_FOR_0_Album\".\"count\" ASC"));
}

#[test]
fn exists_in_an_unrelated_table() {
    let query = Query {
        fields: Some(vec![column_field("Title")]),
        predicate: Some(Expression::Exists {
            in_table: Box::new(ExistsInTable::Unrelated {
                table: "Artist".to_string(),
                arguments: vec![],
            }),
            predicate: Box::new(Expression::UnaryComparisonOperator {
                column: Box::new(ComparisonTarget::Column { name: "Name".to_string(), path: vec![] }),
                operator: query_engine::types::input::UnaryComparisonOperator::IsNull,
            }),
        }),
        ..empty_query()
    };
    let (sql, _) = sql_of(request("Album", query, vec![]));
    assert!(sql.contains("WHERE EXISTS (SELECT  FROM \"public\".\"Artist\" AS \"Artist\" WHERE (\"Artist\".\"Name\" IS NULL))"));
}

#[test]
fn or_starts_from_true_and_not_negates() {
    let query = Query {
        fields: Some(vec![column_field("Title")]),
        predicate: Some(Expression::Not {
            expression: Box::new(Expression::Or {
                expressions: vec![title_equals(ComparisonValue::Scalar { value: JsonValue::Number(Some(3)) })],
            }),
        }),
        ..empty_query()
    };
    let (sql, params) = sql_of(request("Album", query, vec![]));
    assert!(sql.contains("WHERE NOT (true OR (\"Album\".\"Title\" = 3))"));
    assert!(params.is_empty());
}

#[test]
fn array_comparison_translates_each_value() {
    let query = Query {
        fields: Some(vec![column_field("Title")]),
        predicate: Some(Expression::BinaryArrayComparisonOperator {
            column: Box::new(ComparisonTarget::RootTableColumn { name: "AlbumId".to_string() }),
            operator: query_engine::types::input::BinaryArrayComparisonOperator::In,
            values: vec![
                ComparisonValue::Scalar { value: JsonValue::Number(Some(1)) },
                ComparisonValue::Variable { name: "x".to_string() },
            ],
        }),
        ..empty_query()
    };
    let (sql, params) = sql_of(request("Album", query, vec![]));
    assert!(sql.contains("WHERE (\"Album\".\"AlbumId\" IN (1, $1))"));
    assert_eq!(params, vec![Param::Variable("x".to_string())]);
}

#[test]
fn unknown_table_is_an_error() {
    let query = Query { fields: Some(vec![column_field("Title")]), ..empty_query() };
    let e = error_of(request("Nope", query, vec![]));
    assert!(matches!(e, Error::CollectionNotFound(ref s) if s == "Nope"));
    assert_eq!(e.message(), "Collection 'Nope' not found.");
}

#[test]
fn unknown_column_is_an_error() {
    let query = Query { fields: Some(vec![column_field("Nope")]), ..empty_query() };
    let e = error_of(request("Album", query, vec![]));
    assert!(matches!(e, Error::ColumnNotFoundInCollection(ref c, ref t) if c == "Nope" && t == "Album"));
    assert_eq!(e.message(), "Column 'Nope' not found in collection 'Album'.");
}

#[test]
fn no_fields_is_an_error() {
    let e = error_of(request("Album", empty_query(), vec![]));
    assert!(matches!(e, Error::NoFields));
    assert_eq!(e.message(), "No fields in request.");
}

#[test]
fn unknown_relationship_is_an_error() {
    let query = Query {
        fields: Some(vec![(
            "Artist".to_string(),
            Field::Relationship {
                query: Box::new(Query { fields: Some(vec![column_field("Name")]), ..empty_query() }),
                relationship: "Nope".to_string(),
                arguments: vec![],
            },
        )]),
        ..empty_query()
    };
    let e = error_of(request("Album", query, vec![]));
    assert!(matches!(e, Error::RelationshipNotFound(ref s) if s == "Nope"));
    assert_eq!(e.message(), "Relationship 'Nope' not found.");
}

#[test]
fn object_values_are_not_supported() {
    let query = Query {
        fields: Some(vec![column_field("Title")]),
        predicate: Some(title_equals(ComparisonValue::Scalar { value: JsonValue::Object(vec![]) })),
        ..empty_query()
    };
    let e = error_of(request("Album", query, vec![]));
    assert!(matches!(e, Error::NotSupported(ref s) if s == "object values"));
    assert_eq!(e.message(), "Queries containing object values are not supported.");
}

#[test]
fn native_queries_are_not_supported_in_exists() {
    let query = Query {
        fields: Some(vec![column_field("Title")]),
        predicate: Some(Expression::Exists {
            in_table: Box::new(ExistsInTable::Unrelated {
                table: "artist_below_id".to_string(),
                arguments: vec![],
            }),
            predicate: Box::new(Expression::And { expressions: vec![] }),
        }),
        ..empty_query()
    };
    let e = error_of(request("Album", query, vec![]));
    assert!(matches!(e, Error::NotSupported(ref s) if s == "Native Queries"));
}

#[test]
fn other_error_messages() {
    assert_eq!(
        Error::EmptyPathForStarCountAggregate.message(),
        "No path elements supplied for Star Count Aggregate"
    );
}

#[test]
fn json_values() {
    assert_eq!(translate_json_value(&JsonValue::Null).ok(), Some(Value::Null));
    assert_eq!(translate_json_value(&JsonValue::Bool(true)).ok(), Some(Value::Bool(true)));
    assert_eq!(translate_json_value(&JsonValue::Number(Some(-7))).ok(), Some(Value::Int4(-7)));
    assert_eq!(
        translate_json_value(&JsonValue::String("s".to_string())).ok(),
        Some(Value::String("s".to_string()))
    );
    assert_eq!(
        translate_json_value(&JsonValue::Array(vec![JsonValue::Number(Some(1)), JsonValue::Null])).ok(),
        Some(Value::Array(vec![Value::Int4(1), Value::Null]))
    );
    assert!(matches!(
        translate_json_value(&JsonValue::Array(vec![JsonValue::Object(vec![])])),
        Err(Error::NotSupported(_))
    ));
}

#[test]
fn variables_are_carried_into_the_plan() {
    let query = Query { fields: Some(vec![column_field("Title")]), ..empty_query() };
    let mut req = request("Album", query, vec![]);
    req.variables = Some(vec![vec![("x".to_string(), JsonValue::Number(Some(1)))]]);
    let plan = translate(&metadata(), req).expect("translation succeeds");
    assert_eq!(plan.root_field, "Album");
    assert_eq!(plan.variables, Some(vec![vec![("x".to_string(), JsonValue::Number(Some(1)))]]));
}

fn relationship(
    name: &str,
    source: &str,
    target: &str,
    column: &str,
    relationship_type: RelationshipType,
) -> (String, Relationship) {
    (
        name.to_string(),
        Relationship {
            column_mapping: vec![(column.to_string(), column.to_string())],
            relationship_type,
            source_table_or_type: source.to_string(),
            target_table: target.to_string(),
            arguments: vec![],
        },
    )
}

fn chinook_relationships() -> Vec<(String, Relationship)> {
    vec![
        relationship("ArtistAlbums", "Artist", "Album", "ArtistId", RelationshipType::Array),
        relationship("AlbumTracks", "Album", "Track", "AlbumId", RelationshipType::Array),
        relationship("TrackAlbum", "Track", "Album", "AlbumId", RelationshipType::Object),
        album_artist(RelationshipType::Object),
    ]
}

fn relationship_field(name: &str, relationship: &str, query: Query) -> (String, Field) {
    (
        name.to_string(),
        Field::Relationship {
            query: Box::new(query),
            relationship: relationship.to_string(),
            arguments: vec![],
        },
    )
}

fn fields(names: &[&str]) -> Query {
    Query { fields: Some(names.iter().map(|n| column_field(n)).collect()), ..empty_query() }
}

#[test]
fn it_simple_array_relationship() {
    let query = Query {
        fields: Some(vec![
            column_field("Name"),
            relationship_field("Albums", "ArtistAlbums", fields(&["Title"])),
        ]),
        ..empty_query()
    };
    let (sql, params) = sql_of(request("Artist", query, chinook_relationships()));
    assert!(sql.contains("SELECT \"Artist\".\"Name\" AS \"Name\", \"Albums\".\"Albums\" AS \"Albums\" FROM \"public\".\"Artist\" AS \"Artist\" LEFT OUTER JOIN LATERAL (SELECT row_to_json(\"Albums\") AS \"Albums\" FROM (SELECT * FROM (SELECT coalesce(json_agg(row_to_json(\"rows\")), '[]') AS \"rows\" FROM (SELECT \"Album\".\"Title\" AS \"Title\" FROM \"public\".\"Album\" AS \"Album\" WHERE (true AND (\"Artist\".\"ArtistId\" = \"Album\".\"ArtistId\"))) AS \"rows\") AS \"rows\") AS \"Albums\") AS \"Albums\" ON ('true') "));
    assert!(params.is_empty());
}

#[test]
fn nested_array_relationships() {
    let albums = Query {
        fields: Some(vec![
            column_field("Title"),
            relationship_field("Tracks", "AlbumTracks", fields(&["Name"])),
        ]),
        ..empty_query()
    };
    let query = Query {
        fields: Some(vec![column_field("Name"), relationship_field("Albums", "ArtistAlbums", albums)]),
        ..empty_query()
    };
    let (sql, _) = sql_of(request("Artist", query, chinook_relationships()));
    assert!(sql.contains("FROM \"public\".\"Album\" AS \"Album\" LEFT OUTER JOIN LATERAL ("));
    assert!(sql.contains("FROM (SELECT \"Track\".\"Name\" AS \"Name\" FROM \"public\".\"Track\" AS \"Track\" WHERE (true AND (\"Album\".\"AlbumId\" = \"Track\".\"AlbumId\"))) AS \"rows\""));
    assert!(sql.contains("AS \"Tracks\") AS \"Tracks\" ON ('true')  WHERE (true AND (\"Artist\".\"ArtistId\" = \"Album\".\"ArtistId\"))"));
    assert!(sql.contains("AS \"Albums\") AS \"Albums\" ON ('true') "));
}

#[test]
fn nested_aggregates() {
    let albums = Query {
        aggregates: Some(vec![("how_many_albums".to_string(), Aggregate::StarCount)]),
        ..empty_query()
    };
    let query = Query {
        fields: Some(vec![column_field("Name"), relationship_field("Albums", "ArtistAlbums", albums)]),
        ..empty_query()
    };
    let (sql, _) = sql_of(request("Artist", query, chinook_relationships()));
    assert!(sql.contains("(SELECT coalesce(row_to_json(\"aggregates\"), '[]') AS \"aggregates\" FROM (SELECT COUNT(*) AS \"how_many_albums\" FROM \"public\".\"Album\" AS \"Album\" WHERE (true AND (\"Artist\".\"ArtistId\" = \"Album\".\"ArtistId\"))) AS \"aggregates\") AS \"aggregates\""));
    assert!(sql.contains("AS \"Albums\") AS \"Albums\" ON ('true') "));
}

#[test]
fn dup_array_relationship() {
    let query = Query {
        fields: Some(vec![
            relationship_field("Albums", "ArtistAlbums", fields(&["Title"])),
            relationship_field("SameAlbums", "ArtistAlbums", fields(&["AlbumId"])),
        ]),
        ..empty_query()
    };
    let (sql, _) = sql_of(request("Artist", query, chinook_relationships()));
    assert!(sql.contains("SELECT \"Albums\".\"Albums\" AS \"Albums\", \"SameAlbums\".\"SameAlbums\" AS \"SameAlbums\" FROM \"public\".\"Artist\" AS \"Artist\""));
    assert!(sql.contains("AS \"Albums\") AS \"Albums\" ON ('true')  LEFT OUTER JOIN LATERAL ("));
    assert!(sql.contains("(SELECT \"Album\".\"AlbumId\" AS \"AlbumId\" FROM \"public\".\"Album\" AS \"Album\" WHERE (true AND (\"Artist\".\"ArtistId\" = \"Album\".\"ArtistId\")))"));
    assert!(sql.contains("AS \"SameAlbums\") AS \"SameAlbums\" ON ('true') "));
}

#[test]
fn sorting_by_nested_relationship_column() {
    let query = Query {
        fields: Some(vec![column_field("Name")]),
        order_by: Some(OrderBy {
            elements: vec![OrderByElement {
                order_direction: OrderDirection::Asc,
                target: OrderByTarget::Column {
                    name: "Name".to_string(),
                    path: vec![
                        PathElement { relationship: "TrackAlbum".to_string(), arguments: vec![] },
                        PathElement { relationship: "AlbumArtist".to_string(), arguments: vec![] },
                    ],
                },
            }],
        }),
        ..empty_query()
    };
    let (sql, _) = sql_of(request("Track", query, chinook_relationships()));
    assert!(sql.contains("FROM \"public\".\"Album\" AS \"ORDER_PART_0_Album\" WHERE (true AND (\"Track\".\"AlbumId\" = \"ORDER_PART_0_Album\".\"AlbumId\"))"));
    assert!(sql.contains("FROM \"public\".\"Artist\" AS \"ORDER_PART_1_Artist\" WHERE (true AND (\"ORDER_PART_0_Album\".\"ArtistId\" = \"ORDER_PART_1_Artist\".\"ArtistId\"))"));
    assert!(sql.contains("ORDER BY \"ORDER_FOR_0_Track\".\"Name\" ASC"));
}

fn rich_request() -> QueryRequest {
    let artist_query = Query { fields: Some(vec![column_field("Name")]), ..empty_query() };
    let artist_name_like = Expression::BinaryComparisonOperator {
        column: Box::new(ComparisonTarget::Column {
            name: "Name".to_string(),
            path: vec![PathElementWithPredicate {
                relationship: "AlbumArtist".to_string(),
                arguments: vec![],
                predicate: Box::new(Expression::And { expressions: vec![] }),
            }],
        }),
        operator: BinaryComparisonOperator::Other { name: "like".to_string() },
        value: Box::new(ComparisonValue::Scalar { value: JsonValue::String("AC%".to_string()) }),
    };
    let query = Query {
        fields: Some(vec![
            column_field("Title"),
            (
                "Artist".to_string(),
                Field::Relationship {
                    query: Box::new(artist_query),
                    relationship: "AlbumArtist".to_string(),
                    arguments: vec![],
                },
            ),
        ]),
        predicate: Some(Expression::And {
            expressions: vec![
                artist_name_like,
                title_equals(ComparisonValue::Scalar { value: JsonValue::Number(Some(7)) }),
            ],
        }),
        order_by: Some(OrderBy {
            elements: vec![OrderByElement {
                order_direction: OrderDirection::Desc,
                target: OrderByTarget::Column {
                    name: "Name".to_string(),
                    path: vec![PathElement {
                        relationship: "AlbumArtist".to_string(),
                        arguments: vec![],
                    }],
                },
            }],
        }),
        limit: Some(10),
        ..empty_query()
    };
    request("Album", query, vec![album_artist(RelationshipType::Object)])
}

fn request_comparing_title_with(value: JsonValue) -> QueryRequest {
    let query = Query {
        fields: Some(vec![column_field("Title")]),
        predicate: Some(title_equals(ComparisonValue::Scalar { value })),
        ..empty_query()
    };
    request("Album", query, vec![])
}

#[test]
fn translating_the_same_request_twice_gives_the_same_query() {
    let (first_sql, first_params) = sql_of(rich_request());
    let (second_sql, second_params) = sql_of(rich_request());
    assert_eq!(first_sql, second_sql);
    assert_eq!(first_params, second_params);
    assert!(first_sql.contains("BOOLEXP_0_Artist"));
    assert!(first_sql.contains("ORDER_FOR_0_Album"));
    assert_eq!(first_params, vec![Param::String("AC%".to_string())]);
}

#[test]
fn requests_with_small_numbers_do_not_panic() {
    assert!(translation_does_not_panic(&metadata(), &rich_request()));
    let request = request_comparing_title_with(JsonValue::Number(Some(-2147483648)));
    assert!(translation_does_not_panic(&metadata(), &request));
}

#[test]
fn requests_with_numbers_beyond_32_bits_may_panic() {
    let request = request_comparing_title_with(JsonValue::Number(Some(3_000_000_000)));
    assert!(!translation_does_not_panic(&metadata(), &request));
    let request = request_comparing_title_with(JsonValue::Number(None));
    assert!(!translation_does_not_panic(&metadata(), &request));
    let request = request_comparing_title_with(JsonValue::Array(vec![
        JsonValue::Number(Some(1)),
        JsonValue::Number(Some(-3_000_000_000)),
    ]));
    assert!(!translation_does_not_panic(&metadata(), &request));
}

#[test]
fn an_object_before_a_large_number_is_an_error_not_a_panic() {
    let request = request_comparing_title_with(JsonValue::Array(vec![
        JsonValue::Object(vec![]),
        JsonValue::Number(Some(3_000_000_000)),
    ]));
    assert!(translation_does_not_panic(&metadata(), &request));
    let request = request_comparing_title_with(JsonValue::Array(vec![
        JsonValue::Object(vec![]),
        JsonValue::Number(Some(3_000_000_000)),
    ]));
    assert!(matches!(error_of(request), Error::NotSupported(_)));
}

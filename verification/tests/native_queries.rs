use query_engine::metadata::native_queries::{
    parse_native_query, NativeQueryPart, NativeQueryParts, NativeQuerySql, NativeQuerySqlEither,
    NativeQuerySqlExternal,
};

fn text(s: &str) -> NativeQueryPart {
    NativeQueryPart::Text(s.to_string())
}

fn param(s: &str) -> NativeQueryPart {
    NativeQueryPart::Parameter(s.to_string())
}

#[test]
fn parses_parameters_between_braces() {
    let sql = "SELECT * FROM \"Artist\" WHERE \"Name\" = {{name}} AND \"ArtistId\" > {{id}}";
    let parts = parse_native_query(sql);
    assert_eq!(
        parts,
        NativeQueryParts(vec![
            text("SELECT * FROM \"Artist\" WHERE \"Name\" = "),
            param("name"),
            text(" AND \"ArtistId\" > "),
            param("id"),
        ])
    );
    assert_eq!(parts.render(), sql);
}

#[test]
fn parses_text_without_parameters() {
    assert_eq!(parse_native_query("SELECT 1"), NativeQueryParts(vec![text("SELECT 1")]));
    assert_eq!(parse_native_query(""), NativeQueryParts(vec![text("")]));
}

#[test]
fn unclosed_and_unopened_braces() {
    // a piece after `{{` without `}}` is kept as text, and the `{{` is dropped
    assert_eq!(parse_native_query("x{{y"), NativeQueryParts(vec![text("x"), text("y")]));
    // the first piece is split at `}}` too
    assert_eq!(parse_native_query("a}}b"), NativeQueryParts(vec![param("a"), text("b")]));
    // a third brace belongs to the parameter
    assert_eq!(parse_native_query("a{{{b}}"), NativeQueryParts(vec![text("a"), param("{b")]));
}

#[test]
fn rendering_undoes_parsing_of_well_delimited_text() {
    for sql in ["{{a}}{{b}}", "pre {{x}} mid {{y}}}} post", "{{}}", "no parameters"] {
        assert_eq!(parse_native_query(sql).render(), sql);
    }
}

#[test]
fn parses_non_ascii_text() {
    let parts = parse_native_query("SELECT 'é' = {{ünï}}");
    assert_eq!(parts, NativeQueryParts(vec![text("SELECT 'é' = "), param("ünï")]));
    assert_eq!(parts.render(), "SELECT 'é' = {{ünï}}");
}

#[test]
fn native_query_sql_is_extracted_once_its_file_was_read() {
    let parts = || parse_native_query("SELECT * FROM t WHERE id = {{id}}");
    assert_eq!(
        NativeQuerySqlEither::NativeQuerySql(NativeQuerySql::FromFile {
            file: "q.sql".to_string(),
            sql: parts(),
        })
        .sql(),
        Ok(parts())
    );
    assert_eq!(
        NativeQuerySqlEither::NativeQuerySql(NativeQuerySql::Inline { sql: parts() }).sql(),
        Ok(parts())
    );
    assert_eq!(
        NativeQuerySqlEither::NativeQuerySqlExternal(NativeQuerySqlExternal::Inline {
            inline: parts()
        })
        .sql(),
        Ok(parts())
    );
    assert_eq!(
        NativeQuerySqlEither::NativeQuerySqlExternal(NativeQuerySqlExternal::InlineUntagged(parts()))
            .sql(),
        Ok(parts())
    );
    assert_eq!(
        NativeQuerySqlEither::NativeQuerySqlExternal(NativeQuerySqlExternal::File {
            file: "q.sql".to_string()
        })
        .sql(),
        Err("not all native query sql files were read during parsing".to_string())
    );
}

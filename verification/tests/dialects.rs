use ddbcore::mysql::connection::MySqlAdapter;
use ddbcore::mysql::dialect::mysql_dialect;
use ddbcore::postgres::connection::PostgresAdapter;
use ddbcore::postgres::dialect::postgres_dialect;
use ddbcore::{
    ConnectionConfig, DdbCoreError, Dialect, EncryptionMode, ParamStyle, TransportSecurity,
};

fn config(encryption: EncryptionMode, read_only: bool) -> ConnectionConfig {
    ConnectionConfig {
        host: "localhost".to_string(),
        port: 5432,
        database: "db".to_string(),
        username: "user".to_string(),
        password: "pw".to_string(),
        encryption,
        read_only,
    }
}

#[test]
fn identifiers_double_the_closing_quote() {
    assert_eq!(postgres_dialect().quote_ident("a\"b"), "\"a\"\"b\"");
    assert_eq!(mysql_dialect().quote_ident("a`b"), "`a``b`");
    assert_eq!(mysql_dialect().quote_ident("a\"b"), "`a\"b`");
    let server = Dialect {
        name: "mssql",
        quote_open: '[',
        quote_close: ']',
        param_style: ParamStyle::AtNumbered,
        supports_schemas: false,
        supports_sequences: true,
        supports_drop_table_cascade: false,
        supports_drop_if_exists: false,
    };
    assert_eq!(server.quote_ident("a[b]c"), "[a[b]]c]");
    assert_eq!(server.quote_qualified("s", "t"), "[t]");
    assert_eq!(server.drop_table_stmt("s", "t"), "DROP TABLE [t]");
}

#[test]
fn names_are_qualified_by_their_schema() {
    assert_eq!(postgres_dialect().quote_qualified("public", "t"), "\"public\".\"t\"");
    assert_eq!(mysql_dialect().quote_qualified("db", "t"), "`db`.`t`");
}

#[test]
fn qualified_names_do_not_collide() {
    let d = postgres_dialect();
    assert_ne!(d.quote_qualified("a\".\"b", "c"), d.quote_qualified("a", "b\".\"c"));
}

#[test]
fn tables_are_dropped_as_the_engine_allows() {
    assert_eq!(postgres_dialect().drop_table_stmt("public", "t"), "DROP TABLE IF EXISTS \"public\".\"t\" CASCADE");
    assert_eq!(mysql_dialect().drop_table_stmt("db", "t"), "DROP TABLE IF EXISTS `db`.`t`");
}

#[test]
fn clear_text_is_the_default() {
    assert_eq!(EncryptionMode::default(), EncryptionMode::ClearText);
}

#[test]
fn encryption_decides_the_transport() {
    let transport = |mode| config(mode, false).transport();
    assert_eq!(transport(EncryptionMode::ClearText), TransportSecurity::Disabled);
    assert_eq!(transport(EncryptionMode::Tls { verify_cert: true }), TransportSecurity::VerifyIdentity);
    assert_eq!(transport(EncryptionMode::Tls { verify_cert: false }), TransportSecurity::Required);
}

#[test]
fn read_only_is_enforced_by_the_session() {
    let open = config(EncryptionMode::ClearText, false);
    let closed = config(EncryptionMode::ClearText, true);
    assert_eq!(PostgresAdapter.session_option(&open), None);
    assert_eq!(PostgresAdapter.session_option(&closed), Some(("default_transaction_read_only", "on")));
    assert_eq!(MySqlAdapter.session_statement(&open), None);
    assert_eq!(MySqlAdapter.session_statement(&closed), Some("SET SESSION TRANSACTION READ ONLY"));
}

#[test]
fn errors_say_what_failed() {
    let message = |e: DdbCoreError| e.message();
    assert_eq!(message(DdbCoreError::Connection("x".to_string())), "connection failed: x");
    assert_eq!(message(DdbCoreError::Reflection("x".to_string())), "schema reflection failed: x");
    assert_eq!(message(DdbCoreError::Query("x".to_string())), "query execution failed: x");
    assert_eq!(message(DdbCoreError::BulkWrite("x".to_string())), "bulk write failed: x");
    assert_eq!(message(DdbCoreError::Ddl("x".to_string())), "DDL operation failed: x");
    assert_eq!(message(DdbCoreError::Unsupported("x".to_string())), "unsupported operation for this engine: x");
}

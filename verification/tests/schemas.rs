//! Table names and the statements that make the tables.

use praxis_responses::store::schemas::{generate_ddl, validate_identifier, TableNames, MAX_IDENTIFIER_LEN};
use praxis_responses::store::types::StoreError;

#[test]
fn valid_table_name() {
    validate_identifier("openai_responses").expect("valid name should pass");
}

#[test]
fn valid_name_with_underscore_prefix() {
    validate_identifier("_internal").expect("underscore prefix should pass");
}

#[test]
fn reject_empty_name() {
    let err = validate_identifier("").unwrap_err();
    assert!(err.to_string().contains("empty"), "should reject empty name: {err:?}");
}

#[test]
fn reject_name_starting_with_digit() {
    let err = validate_identifier("123responses").unwrap_err();
    assert!(err.to_string().contains("start with"), "should reject digit prefix: {err:?}");
}

#[test]
fn reject_special_characters() {
    let err = validate_identifier("drop; DROP TABLE").unwrap_err();
    assert!(
        err.to_string().contains("invalid characters"),
        "should reject special chars: {err:?}"
    );
}

#[test]
fn reject_hyphen() {
    let err = validate_identifier("my-table").unwrap_err();
    assert!(
        err.to_string().contains("invalid characters"),
        "should reject hyphen: {err:?}"
    );
}

#[test]
fn reject_excessively_long_name() {
    let long = "a".repeat(MAX_IDENTIFIER_LEN + 1);
    let err = validate_identifier(&long).unwrap_err();
    assert!(err.to_string().contains("exceeds"), "should reject long name: {err:?}");
}

#[test]
fn generate_ddl_produces_valid_statements() {
    let tables = TableNames {
        responses: "test_responses".to_owned(),
        conversations: "test_conversations".to_owned(),
    };
    let ddl = generate_ddl(&tables).expect("valid names should produce DDL");
    assert_eq!(ddl.len(), 4, "should produce 4 DDL statements");
    assert!(
        ddl[0].contains("test_responses"),
        "first statement should reference responses table"
    );
}

#[test]
fn generate_ddl_rejects_invalid_name() {
    let tables = TableNames {
        responses: "valid_name".to_owned(),
        conversations: "1invalid".to_owned(),
    };
    let err = generate_ddl(&tables).unwrap_err();
    assert!(
        err.to_string().contains("start with"),
        "should reject invalid conversation table name: {err:?}"
    );
}

#[test]
fn faults_of_names_in_words() {
    let database = |text: &str| Err(StoreError::Database(text.to_owned()));
    assert_eq!(validate_identifier(""), database("table name must not be empty"));
    assert_eq!(
        validate_identifier("9a"),
        database("table name must start with a letter or underscore: 9a")
    );
    assert_eq!(
        validate_identifier("a b"),
        database("table name contains invalid characters: a b")
    );
    let long = "b".repeat(129);
    assert_eq!(
        validate_identifier(&long),
        Err(StoreError::Database(format!("table name exceeds 128 characters: {long}")))
    );
}

#[test]
fn names_are_measured_in_bytes() {
    assert_eq!(validate_identifier(&"a".repeat(128)), Ok(()));
    let wide = "\u{e9}".repeat(65);
    let err = validate_identifier(&wide).unwrap_err();
    assert!(err.to_string().contains("exceeds 128 characters"), "{err:?}");
    let narrow = "\u{e9}".repeat(64);
    let err = validate_identifier(&narrow).unwrap_err();
    assert!(err.to_string().contains("must start with"), "{err:?}");
}

#[test]
fn letters_outside_ascii_are_refused() {
    let err = validate_identifier("caf\u{e9}").unwrap_err();
    assert_eq!(
        err,
        StoreError::Database("table name contains invalid characters: caf\u{e9}".to_owned())
    );
}

#[test]
fn the_responses_table_is_checked_first() {
    let tables = TableNames { responses: String::new(), conversations: "1".to_owned() };
    assert_eq!(
        generate_ddl(&tables),
        Err(StoreError::Database("table name must not be empty".to_owned()))
    );
}

#[test]
fn ddl_in_words() {
    let tables = TableNames { responses: "r".to_owned(), conversations: "c".to_owned() };
    let ddl = generate_ddl(&tables).unwrap();
    let flat: Vec<String> = ddl
        .iter()
        .map(|statement| statement.split_whitespace().collect::<Vec<_>>().join(" "))
        .collect();
    assert_eq!(
        flat[0],
        "CREATE TABLE IF NOT EXISTS r ( tenant_id TEXT NOT NULL, id TEXT NOT NULL, created_at INTEGER NOT NULL, \
         model TEXT NOT NULL, response_object TEXT NOT NULL, input TEXT NOT NULL, messages TEXT NOT NULL, \
         PRIMARY KEY (tenant_id, id) )"
    );
    assert_eq!(
        ddl[1],
        "CREATE INDEX IF NOT EXISTS idx_r_tenant_created ON r(tenant_id, created_at)"
    );
    assert_eq!(
        flat[2],
        "CREATE TABLE IF NOT EXISTS c ( conversation_id TEXT NOT NULL, tenant_id TEXT NOT NULL, \
         messages TEXT NOT NULL, PRIMARY KEY (conversation_id, tenant_id) )"
    );
    assert_eq!(ddl[3], "CREATE INDEX IF NOT EXISTS idx_c_tenant_id ON c(tenant_id)");
}

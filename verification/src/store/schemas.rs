//! The tables of the store.

use vstd::prelude::*;
use vstd::string::*;
use vstd::utf8::*;

use crate::store::types::StoreError;
use crate::text::{joined, joined3};

verus! {

/// Longest table name, in bytes.
pub const MAX_IDENTIFIER_LEN: usize = 128;

/// The names of a store's tables.
#[derive(Debug)]
pub struct TableNames {
    /// The table of responses.
    pub responses: String,
    /// The table of conversations.
    pub conversations: String,
}

/// Whether a character may start a table name.
pub open spec fn starts_identifier(c: char) -> bool {
    ('a' <= c && c <= 'z') || ('A' <= c && c <= 'Z') || c == '_'
}

/// Whether a character may stand in a table name.
pub open spec fn in_identifier(c: char) -> bool {
    starts_identifier(c) || ('0' <= c && c <= '9')
}

/// What is wrong with a table name, if anything is.
pub open spec fn identifier_fault(name: Seq<char>) -> Option<Seq<char>> {
    if name.len() == 0 {
        Some("table name must not be empty"@)
    } else if encode_utf8(name).len() > MAX_IDENTIFIER_LEN {
        Some("table name exceeds 128 characters: "@ + name)
    } else if !starts_identifier(name[0]) {
        Some("table name must start with a letter or underscore: "@ + name)
    } else if exists|i: int| 0 <= i < name.len() && !in_identifier(#[trigger] name[i]) {
        Some("table name contains invalid characters: "@ + name)
    } else {
        None
    }
}

/// Accepts the names that can stand in a statement as they are.
pub fn validate_identifier(name: &str) -> (checked: Result<(), StoreError>)
    ensures
        match checked {
            Ok(_) => identifier_fault(name@) is None,
            Err(StoreError::Database(message)) => identifier_fault(name@) == Some(message@),
            Err(_) => false,
        },
{
    let length: usize = name.as_bytes().len();
    if name.unicode_len() == 0 {
        return Err(StoreError::Database("table name must not be empty".to_owned()));
    }
    if length > MAX_IDENTIFIER_LEN {
        return Err(StoreError::Database(joined("table name exceeds 128 characters: ", name)));
    }
    let first = name.get_char(0);
    if !(('a' <= first && first <= 'z') || ('A' <= first && first <= 'Z') || first == '_') {
        return Err(StoreError::Database(joined("table name must start with a letter or underscore: ", name)));
    }
    for c in chars: name.chars()
        invariant
            chars.seq() == name@,
            name@.len() > 0,
            encode_utf8(name@).len() <= MAX_IDENTIFIER_LEN,
            starts_identifier(name@[0]),
            forall|i: int| 0 <= i < chars.index() ==> in_identifier(#[trigger] name@[i]),
    {
        if !(('a' <= c && c <= 'z') || ('A' <= c && c <= 'Z') || ('0' <= c && c <= '9') || c == '_') {
            assert(!in_identifier(name@[chars.index() as int]));
            return Err(StoreError::Database(joined("table name contains invalid characters: ", name)));
        }
    }
    Ok(())
}

/// Columns of the table of responses.
pub const RESPONSES_COLUMNS: &'static str = " (
                tenant_id       TEXT NOT NULL,
                id              TEXT NOT NULL,
                created_at      INTEGER NOT NULL,
                model           TEXT NOT NULL,
                response_object TEXT NOT NULL,
                input           TEXT NOT NULL,
                messages        TEXT NOT NULL,
                PRIMARY KEY (tenant_id, id)
            )";

/// Columns of the table of conversations.
pub const CONVERSATIONS_COLUMNS: &'static str = " (
                conversation_id TEXT NOT NULL,
                tenant_id       TEXT NOT NULL,
                messages        TEXT NOT NULL,
                PRIMARY KEY (conversation_id, tenant_id)
            )";

/// The statement that makes a table.
pub open spec fn table_sql(name: Seq<char>, columns: Seq<char>) -> Seq<char> {
    "CREATE TABLE IF NOT EXISTS "@ + name + columns
}

/// The statement that makes an index of a table.
pub open spec fn index_sql(name: Seq<char>, suffix: Seq<char>, columns: Seq<char>) -> Seq<char> {
    "CREATE INDEX IF NOT EXISTS idx_"@ + name + suffix + " ON "@ + name + columns
}

/// The statements that make the tables and their indexes.
pub open spec fn ddl(responses: Seq<char>, conversations: Seq<char>) -> Seq<Seq<char>> {
    seq![
        table_sql(responses, RESPONSES_COLUMNS@),
        index_sql(responses, "_tenant_created"@, "(tenant_id, created_at)"@),
        table_sql(conversations, CONVERSATIONS_COLUMNS@),
        index_sql(conversations, "_tenant_id"@, "(tenant_id)"@),
    ]
}

fn table_statement(name: &str, columns: &str) -> (sql: String)
    ensures
        sql@ == table_sql(name@, columns@),
{
    joined3("CREATE TABLE IF NOT EXISTS ", name, columns)
}

fn index_statement(name: &str, suffix: &str, columns: &str) -> (sql: String)
    ensures
        sql@ == index_sql(name@, suffix@, columns@),
{
    let mut sql: String = joined3("CREATE INDEX IF NOT EXISTS idx_", name, suffix);
    sql.append(" ON ");
    sql.append(name);
    sql.append(columns);
    sql
}

/// The statements that make the tables and their indexes. Each is harmless where
/// they are there already.
pub fn generate_ddl(tables: &TableNames) -> (made: Result<Vec<String>, StoreError>)
    ensures
        match made {
            Ok(statements) => {
                &&& identifier_fault(tables.responses@) is None
                &&& identifier_fault(tables.conversations@) is None
                &&& statements@.len() == 4
                &&& forall|i: int|
                    0 <= i < 4 ==> (#[trigger] statements@[i])@ == ddl(tables.responses@, tables.conversations@)[i]
            },
            Err(StoreError::Database(message)) => Some(message@) == (if identifier_fault(tables.responses@) is Some {
                identifier_fault(tables.responses@)
            } else {
                identifier_fault(tables.conversations@)
            }),
            Err(_) => false,
        },
{
    let responses = tables.responses.as_str();
    let conversations = tables.conversations.as_str();
    match validate_identifier(responses) {
        Ok(_) => {},
        Err(error) => {
            return Err(error);
        },
    }
    match validate_identifier(conversations) {
        Ok(_) => {},
        Err(error) => {
            return Err(error);
        },
    }
    let statements: Vec<String> = vec![
        table_statement(responses, RESPONSES_COLUMNS),
        index_statement(responses, "_tenant_created", "(tenant_id, created_at)"),
        table_statement(conversations, CONVERSATIONS_COLUMNS),
        index_statement(conversations, "_tenant_id", "(tenant_id)"),
    ];
    Ok(statements)
}

/// A table name is accepted exactly where it is made of ASCII letters, digits and
/// underscores alone, does not start with a digit, and is one to 128 bytes long:
/// nothing in it ends the name within a statement.
pub proof fn lemma_accepted_names_are_plain(name: Seq<char>)
    ensures
        identifier_fault(name) is None <==> {
            &&& 0 < name.len()
            &&& encode_utf8(name).len() <= 128
            &&& ('a' <= name[0] && name[0] <= 'z') || ('A' <= name[0] && name[0] <= 'Z') || name[0] == '_'
            &&& forall|i: int|
                0 <= i < name.len() ==> ('a' <= (#[trigger] name[i]) && name[i] <= 'z') || ('A' <= name[i] && name[i]
                    <= 'Z') || ('0' <= name[i] && name[i] <= '9') || name[i] == '_'
        },
        identifier_fault(name) is None ==> starts_identifier(name[0]) && forall|i: int|
            0 <= i < name.len() ==> in_identifier(#[trigger] name[i]),
{
    assert forall|i: int| 0 <= i < name.len() && in_identifier(#[trigger] name[i]) implies ('a' <= name[i] && name[i]
        <= 'z') || ('A' <= name[i] && name[i] <= 'Z') || ('0' <= name[i] && name[i] <= '9') || name[i] == '_' by {}
}

/// What is wrong with a name is told by the first of four faults: it is empty, it
/// is too long, it starts wrongly, or it holds a character, at whatever place,
/// that is none of a table name.
pub proof fn lemma_first_fault_of_a_name_is_told(name: Seq<char>, i: int)
    ensures
        name.len() == 0 ==> identifier_fault(name) == Some("table name must not be empty"@),
        name.len() > 0 && encode_utf8(name).len() > 128 ==> identifier_fault(name) == Some(
            "table name exceeds 128 characters: "@ + name,
        ),
        name.len() > 0 && encode_utf8(name).len() <= 128 ==> {
            let starts = ('a' <= name[0] && name[0] <= 'z') || ('A' <= name[0] && name[0] <= 'Z') || name[0] == '_';
            &&& !starts ==> identifier_fault(name) == Some(
                "table name must start with a letter or underscore: "@ + name,
            )
            &&& starts && 0 <= i < name.len() && !(('a' <= name[i] && name[i] <= 'z') || ('A' <= name[i] && name[i]
                <= 'Z') || ('0' <= name[i] && name[i] <= '9') || name[i] == '_') ==> identifier_fault(name) == Some(
                "table name contains invalid characters: "@ + name,
            )
        },
{
    if 0 <= i < name.len() {
        assert(in_identifier(name[i]) || exists|j: int| 0 <= j < name.len() && !in_identifier(#[trigger] name[j]));
    }
}

/// The statements that make the tables hold the names as they are, and are
/// otherwise the same for every store.
pub proof fn lemma_ddl_in_words(responses: Seq<char>, conversations: Seq<char>)
    ensures
        ddl(responses, conversations).len() == 4,
        ddl(responses, conversations)[0] == "CREATE TABLE IF NOT EXISTS "@ + responses + RESPONSES_COLUMNS@,
        ddl(responses, conversations)[1] == "CREATE INDEX IF NOT EXISTS idx_"@ + responses + "_tenant_created"@ + " ON "@
            + responses + "(tenant_id, created_at)"@,
        ddl(responses, conversations)[2] == "CREATE TABLE IF NOT EXISTS "@ + conversations + CONVERSATIONS_COLUMNS@,
        ddl(responses, conversations)[3] == "CREATE INDEX IF NOT EXISTS idx_"@ + conversations + "_tenant_id"@ + " ON "@
            + conversations + "(tenant_id)"@,
{
}

} // verus!

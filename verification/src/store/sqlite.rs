//! The statements that the store runs, and what their answers mean.

use vstd::prelude::*;

use crate::json::{Json, JsonView};
use crate::store::cursor::{encode_cursor, parse_cursor};
use crate::store::model::{
    Command, ListQuery, SqlValueView, StatementView, StoreState, StoredConversation, StoredResponse,
    CONVERSATION_VALUES, DELETE_FROM, INSERT_INTO, LIST_ASCENDING, LIST_ASCENDING_AFTER, LIST_DESCENDING,
    LIST_DESCENDING_AFTER, RESPONSE_VALUES, SELECT_CONVERSATION, SELECT_RESPONSES, WHERE_CONVERSATION, WHERE_RESPONSE,
};
use crate::store::schemas::{generate_ddl, TableNames};
use crate::store::types::{
    ConversationRecord, ConversationView, ListParams, Order, PageView, ResponsePage, ResponseRecord, ResponseView,
    StoreError, StoreErrorView,
};
use crate::text::joined3;

verus! {

// ---------------------------------------------------------------------------
// Statements
// ---------------------------------------------------------------------------

/// A value to bind to a placeholder.
#[derive(Debug, PartialEq, Eq)]
pub enum SqlValue {
    /// A string.
    Text(String),
    /// An integer.
    Integer(i64),
}

impl View for SqlValue {
    type V = SqlValueView;

    open spec fn view(&self) -> SqlValueView {
        match self {
            SqlValue::Text(text) => SqlValueView::Text(text@),
            SqlValue::Integer(integer) => SqlValueView::Integer(*integer),
        }
    }
}

/// A statement to run.
#[derive(Debug, PartialEq, Eq)]
pub struct Statement {
    /// Its text.
    pub sql: String,
    /// What to bind to its placeholders, in order.
    pub params: Vec<SqlValue>,
}

impl View for Statement {
    type V = StatementView;

    open spec fn view(&self) -> StatementView {
        StatementView { sql: self.sql@, params: Seq::new(self.params@.len(), |i: int| self.params@[i]@) }
    }
}

fn text_value(text: &str) -> (value: SqlValue)
    ensures
        value@ == SqlValueView::Text(text@),
{
    SqlValue::Text(text.to_owned())
}

/// The row that is stored for a response.
pub open spec fn stored_response(record: ResponseView) -> StoredResponse {
    StoredResponse {
        id: record.id,
        tenant_id: record.tenant_id,
        created_at: record.created_at,
        model: record.model,
        response_object: crate::json::json_text(record.response_object),
        input: crate::json::json_text(record.input),
        messages: crate::json::json_text(record.messages),
    }
}

/// The row that is stored for a conversation.
pub open spec fn stored_conversation(record: ConversationView) -> StoredConversation {
    StoredConversation {
        conversation_id: record.conversation_id,
        tenant_id: record.tenant_id,
        messages: crate::json::json_text(record.messages),
    }
}

/// What a list request asks for: the page after its cursor, and one row more
/// that shows whether there is a next page.
pub open spec fn list_query(
    tenant_id: Seq<char>,
    cursor: Option<Seq<char>>,
    limit: u32,
    order: Order,
) -> Result<ListQuery, StoreErrorView> {
    let count = (crate::store::types::clamped_limit(limit) + 1) as i64;
    match cursor {
        None => Ok(ListQuery { tenant_id, start: None, order, count }),
        Some(text) => match crate::store::cursor::cursor_reading(text) {
            Ok(start) => Ok(ListQuery { tenant_id, start: Some(start), order, count }),
            Err(error) => Err(error),
        },
    }
}

/// The cursor of a list request.
pub open spec fn cursor_of(params: ListParams) -> Option<Seq<char>> {
    match params.cursor {
        Some(cursor) => Some(cursor@),
        None => None,
    }
}

/// The tables of a store that `SQLite` keeps.
#[derive(Debug)]
pub struct SqliteResponseStore {
    tables: TableNames,
}

impl SqliteResponseStore {
    #[verifier::type_invariant]
    spec fn names_are_plain(self) -> bool {
        &&& crate::store::schemas::identifier_fault(self.tables.responses@) is None
        &&& crate::store::schemas::identifier_fault(self.tables.conversations@) is None
    }

    /// The name of the table of responses.
    pub closed spec fn responses_table(self) -> Seq<char> {
        self.tables.responses@
    }

    /// The name of the table of conversations.
    pub closed spec fn conversations_table(self) -> Seq<char> {
        self.tables.conversations@
    }

    /// The wording of a command for this store.
    pub open spec fn rendered(self, command: Command) -> StatementView {
        crate::store::model::rendered(self.responses_table(), self.conversations_table(), command)
    }

    /// A store with the given tables, and the statements that make them.
    pub fn new(responses_table: &str, conversations_table: &str) -> (made: Result<
        (SqliteResponseStore, Vec<String>),
        StoreError,
    >)
        ensures
            match made {
                Ok((store, statements)) => {
                    &&& crate::store::schemas::identifier_fault(responses_table@) is None
                    &&& crate::store::schemas::identifier_fault(conversations_table@) is None
                    &&& store.responses_table() == responses_table@
                    &&& store.conversations_table() == conversations_table@
                    &&& statements@.len() == 4
                    &&& forall|i: int|
                        0 <= i < 4 ==> (#[trigger] statements@[i])@ == crate::store::schemas::ddl(
                            responses_table@,
                            conversations_table@,
                        )[i]
                },
                Err(StoreError::Database(message)) => Some(message@) == (
                if crate::store::schemas::identifier_fault(responses_table@) is Some {
                    crate::store::schemas::identifier_fault(responses_table@)
                } else {
                    crate::store::schemas::identifier_fault(conversations_table@)
                }),
                Err(_) => false,
            },
    {
        let tables = TableNames {
            responses: responses_table.to_owned(),
            conversations: conversations_table.to_owned(),
        };
        match generate_ddl(&tables) {
            Ok(statements) => Ok((SqliteResponseStore { tables }, statements)),
            Err(error) => Err(error),
        }
    }

    /// The statement that stores a response, in place of one with the same
    /// tenant and ID.
    pub fn upsert_response(&self, record: &ResponseRecord) -> (made: Result<Statement, StoreError>)
        ensures
            made is Ok,
            made->Ok_0@ == self.rendered(Command::PutResponse(stored_response(record@))),
            record@.survives_text() ==> forall|before: StoreState, row: ResponseRow| #[trigger]
                answers_get_response(
                    crate::store::model::after(before, Command::PutResponse(stored_response(record@))),
                    record@.tenant_id,
                    record@.id,
                    Some(row),
                ) ==> row.reading() == Ok::<ResponseView, StoreErrorView>(record@),
    {
        let response_object = match record.response_object.to_text() {
            Ok(text) => text,
            Err(message) => {
                return Err(StoreError::Serialization(message));
            },
        };
        let input = match record.input.to_text() {
            Ok(text) => text,
            Err(message) => {
                return Err(StoreError::Serialization(message));
            },
        };
        let messages = match record.messages.to_text() {
            Ok(text) => text,
            Err(message) => {
                return Err(StoreError::Serialization(message));
            },
        };
        let sql = joined3(INSERT_INTO, self.tables.responses.as_str(), RESPONSE_VALUES);
        let params: Vec<SqlValue> = vec![
            text_value(record.id.as_str()),
            text_value(record.tenant_id.as_str()),
            SqlValue::Integer(record.created_at),
            text_value(record.model.as_str()),
            SqlValue::Text(response_object),
            SqlValue::Text(input),
            SqlValue::Text(messages),
        ];
        let statement = Statement { sql, params };
        assert(statement@ =~= self.rendered(Command::PutResponse(stored_response(record@))));
        Ok(statement)
    }

    /// The statement that finds a response.
    pub fn get_response(&self, tenant_id: &str, id: &str) -> (statement: Statement)
        ensures
            statement@ == self.rendered(Command::GetResponse { tenant_id: tenant_id@, id: id@ }),
    {
        let sql = joined3(SELECT_RESPONSES, self.tables.responses.as_str(), WHERE_RESPONSE);
        let statement = Statement { sql, params: vec![text_value(id), text_value(tenant_id)] };
        assert(statement@ =~= self.rendered(Command::GetResponse { tenant_id: tenant_id@, id: id@ }));
        statement
    }

    /// The statement that deletes a response.
    pub fn delete_response(&self, tenant_id: &str, id: &str) -> (statement: Statement)
        ensures
            statement@ == self.rendered(Command::DeleteResponse { tenant_id: tenant_id@, id: id@ }),
    {
        let sql = joined3(DELETE_FROM, self.tables.responses.as_str(), WHERE_RESPONSE);
        let statement = Statement { sql, params: vec![text_value(id), text_value(tenant_id)] };
        assert(statement@ =~= self.rendered(Command::DeleteResponse { tenant_id: tenant_id@, id: id@ }));
        statement
    }

    /// The statement that lists a page of responses.
    pub fn list_responses(&self, tenant_id: &str, params: &ListParams) -> (made: Result<Statement, StoreError>)
        ensures
            match (list_query(tenant_id@, cursor_of(*params), params.limit, params.order), made) {
                (Ok(query), Ok(statement)) => statement@ == self.rendered(Command::ListResponses(query)),
                (Err(fault), Err(error)) => error@ == fault,
                _ => false,
            },
    {
        let count: i64 = params.effective_limit() as i64 + 1;
        let table = self.tables.responses.as_str();
        let statement = match &params.cursor {
            None => {
                let clause = match params.order {
                    Order::Ascending => LIST_ASCENDING,
                    Order::Descending => LIST_DESCENDING,
                };
                Statement {
                    sql: joined3(SELECT_RESPONSES, table, clause),
                    params: vec![text_value(tenant_id), SqlValue::Integer(count)],
                }
            },
            Some(cursor) => {
                let (created_at, id) = match parse_cursor(cursor.as_str()) {
                    Ok(start) => start,
                    Err(error) => {
                        return Err(error);
                    },
                };
                let clause = match params.order {
                    Order::Ascending => LIST_ASCENDING_AFTER,
                    Order::Descending => LIST_DESCENDING_AFTER,
                };
                Statement {
                    sql: joined3(SELECT_RESPONSES, table, clause),
                    params: vec![
                        text_value(tenant_id),
                        SqlValue::Integer(created_at),
                        SqlValue::Integer(created_at),
                        text_value(id),
                        SqlValue::Integer(count),
                    ],
                }
            },
        };
        assert(statement@ =~= self.rendered(
            Command::ListResponses(list_query(tenant_id@, cursor_of(*params), params.limit, params.order)->Ok_0),
        ));
        Ok(statement)
    }

    /// The statement that stores a conversation, in place of one with the same
    /// tenant and ID.
    pub fn upsert_conversation(&self, record: &ConversationRecord) -> (made: Result<Statement, StoreError>)
        ensures
            made is Ok,
            made->Ok_0@ == self.rendered(Command::PutConversation(stored_conversation(record@))),
            record@.survives_text() ==> forall|before: StoreState, row: ConversationRow| #[trigger]
                answers_get_conversation(
                    crate::store::model::after(before, Command::PutConversation(stored_conversation(record@))),
                    record@.tenant_id,
                    record@.conversation_id,
                    Some(row),
                ) ==> row.reading() == Ok::<ConversationView, StoreErrorView>(record@),
    {
        let messages = match record.messages.to_text() {
            Ok(text) => text,
            Err(message) => {
                return Err(StoreError::Serialization(message));
            },
        };
        let sql = joined3(INSERT_INTO, self.tables.conversations.as_str(), CONVERSATION_VALUES);
        let params: Vec<SqlValue> = vec![
            text_value(record.conversation_id.as_str()),
            text_value(record.tenant_id.as_str()),
            SqlValue::Text(messages),
        ];
        let statement = Statement { sql, params };
        assert(statement@ =~= self.rendered(Command::PutConversation(stored_conversation(record@))));
        Ok(statement)
    }

    /// The statement that finds a conversation.
    pub fn get_conversation(&self, tenant_id: &str, conversation_id: &str) -> (statement: Statement)
        ensures
            statement@ == self.rendered(Command::GetConversation { tenant_id: tenant_id@, id: conversation_id@ }),
    {
        let sql = joined3(SELECT_CONVERSATION, self.tables.conversations.as_str(), WHERE_CONVERSATION);
        let statement = Statement { sql, params: vec![text_value(conversation_id), text_value(tenant_id)] };
        assert(statement@ =~= self.rendered(
            Command::GetConversation { tenant_id: tenant_id@, id: conversation_id@ },
        ));
        statement
    }

    /// The statement that deletes a conversation.
    pub fn delete_conversation(&self, tenant_id: &str, conversation_id: &str) -> (statement: Statement)
        ensures
            statement@ == self.rendered(Command::DeleteConversation { tenant_id: tenant_id@, id: conversation_id@ }),
    {
        let sql = joined3(DELETE_FROM, self.tables.conversations.as_str(), WHERE_CONVERSATION);
        let statement = Statement { sql, params: vec![text_value(conversation_id), text_value(tenant_id)] };
        assert(statement@ =~= self.rendered(
            Command::DeleteConversation { tenant_id: tenant_id@, id: conversation_id@ },
        ));
        statement
    }
}

// ---------------------------------------------------------------------------
// Answers
// ---------------------------------------------------------------------------

/// What was read of a column: its value, or the driver's error in words.
pub type Column<T> = Result<T, String>;

/// A row of the table of responses, as it was read.
#[derive(Debug)]
pub struct ResponseRow {
    /// The column `id`.
    pub id: Column<String>,
    /// The column `tenant_id`.
    pub tenant_id: Column<String>,
    /// The column `created_at`.
    pub created_at: Column<i64>,
    /// The column `model`.
    pub model: Column<String>,
    /// The column `response_object`.
    pub response_object: Column<String>,
    /// The column `input`.
    pub input: Column<String>,
    /// The column `messages`.
    pub messages: Column<String>,
}

/// A row of the table of conversations, as it was read.
#[derive(Debug)]
pub struct ConversationRow {
    /// The column `conversation_id`.
    pub conversation_id: Column<String>,
    /// The column `tenant_id`.
    pub tenant_id: Column<String>,
    /// The column `messages`.
    pub messages: Column<String>,
}

/// The error for a column that could not be read.
pub open spec fn column_fault<T>(column: Column<T>) -> Option<StoreErrorView> {
    match column {
        Ok(_) => None,
        Err(message) => Some(StoreErrorView::Database(message@)),
    }
}

/// The error for text that is no JSON.
pub open spec fn json_fault(text: Seq<char>) -> Option<StoreErrorView> {
    match crate::json::json_of_text(text) {
        Ok(_) => None,
        Err(message) => Some(StoreErrorView::Serialization(message)),
    }
}

/// The first of two errors.
pub open spec fn either_fault(first: Option<StoreErrorView>, then: Option<StoreErrorView>) -> Option<StoreErrorView> {
    if first is Some {
        first
    } else {
        then
    }
}

/// The JSON value that a text holds.
pub open spec fn json_in(text: Seq<char>) -> JsonView {
    crate::json::json_of_text(text)->Ok_0
}

/// The response that a stored row is read as.
pub open spec fn decoded_response(row: StoredResponse) -> Result<ResponseView, StoreErrorView> {
    match either_fault(
        json_fault(row.response_object),
        either_fault(json_fault(row.input), json_fault(row.messages)),
    ) {
        Some(fault) => Err(fault),
        None => Ok(
            ResponseView {
                id: row.id,
                tenant_id: row.tenant_id,
                created_at: row.created_at,
                model: row.model,
                response_object: json_in(row.response_object),
                input: json_in(row.input),
                messages: json_in(row.messages),
            },
        ),
    }
}

/// The conversation that a stored row is read as.
pub open spec fn decoded_conversation(row: StoredConversation) -> Result<ConversationView, StoreErrorView> {
    match json_fault(row.messages) {
        Some(fault) => Err(fault),
        None => Ok(
            ConversationView {
                conversation_id: row.conversation_id,
                tenant_id: row.tenant_id,
                messages: json_in(row.messages),
            },
        ),
    }
}

impl ResponseRow {
    /// The error for the columns of the row, the JSON ones first.
    pub open spec fn fault(self) -> Option<StoreErrorView> {
        either_fault(
            either_fault(
                column_fault(self.response_object),
                either_fault(column_fault(self.input), column_fault(self.messages)),
            ),
            either_fault(
                either_fault(column_fault(self.id), column_fault(self.tenant_id)),
                either_fault(column_fault(self.created_at), column_fault(self.model)),
            ),
        )
    }

    /// The stored row, where every column was read.
    pub open spec fn content(self) -> StoredResponse {
        StoredResponse {
            id: self.id->Ok_0@,
            tenant_id: self.tenant_id->Ok_0@,
            created_at: self.created_at->Ok_0,
            model: self.model->Ok_0@,
            response_object: self.response_object->Ok_0@,
            input: self.input->Ok_0@,
            messages: self.messages->Ok_0@,
        }
    }

    /// Whether the row shows a stored row, column by column.
    pub open spec fn shows(self, stored: StoredResponse) -> bool {
        self.fault() is None && self.content() == stored
    }

    /// What the row is read as.
    pub open spec fn reading(self) -> Result<ResponseView, StoreErrorView> {
        match self.fault() {
            Some(fault) => Err(fault),
            None => decoded_response(self.content()),
        }
    }
}

impl ConversationRow {
    /// Whether the row shows a stored row, column by column.
    pub open spec fn shows(self, stored: StoredConversation) -> bool {
        &&& self.conversation_id matches Ok(id) && id@ == stored.conversation_id
        &&& self.tenant_id matches Ok(tenant) && tenant@ == stored.tenant_id
        &&& self.messages matches Ok(messages) && messages@ == stored.messages
    }

    /// What the row is read as. The messages come first.
    pub open spec fn reading(self) -> Result<ConversationView, StoreErrorView> {
        match either_fault(
            either_fault(column_fault(self.messages), json_fault(self.messages->Ok_0@)),
            either_fault(column_fault(self.conversation_id), column_fault(self.tenant_id)),
        ) {
            Some(fault) => Err(fault),
            None => Ok(
                ConversationView {
                    conversation_id: self.conversation_id->Ok_0@,
                    tenant_id: self.tenant_id->Ok_0@,
                    messages: json_in(self.messages->Ok_0@),
                },
            ),
        }
    }
}

/// Whether a row, or none, is the answer to `GetResponse`.
pub open spec fn answers_get_response(
    state: StoreState,
    tenant_id: Seq<char>,
    id: Seq<char>,
    row: Option<ResponseRow>,
) -> bool {
    match (crate::store::model::found_response(state, tenant_id, id), row) {
        (None, None) => true,
        (Some(stored), Some(row)) => row.shows(stored),
        _ => false,
    }
}

/// Whether a row, or none, is the answer to `GetConversation`.
pub open spec fn answers_get_conversation(
    state: StoreState,
    tenant_id: Seq<char>,
    id: Seq<char>,
    row: Option<ConversationRow>,
) -> bool {
    match (crate::store::model::found_conversation(state, tenant_id, id), row) {
        (None, None) => true,
        (Some(stored), Some(row)) => row.shows(stored),
        _ => false,
    }
}

/// Whether rows are the answer to `ListResponses`.
pub open spec fn answers_list(state: StoreState, query: ListQuery, rows: Seq<ResponseRow>) -> bool {
    exists|stored: Seq<StoredResponse>| #[trigger]
        crate::store::model::lists(state, query, stored) && stored.len() == rows.len() && forall|i: int|
            0 <= i < rows.len() ==> (#[trigger] rows[i]).shows(stored[i])
}

/// A column that must have been read.
pub fn text_column(column: &Column<String>) -> (read: Result<String, StoreError>)
    ensures
        match read {
            Ok(text) => column matches Ok(value) && text@ == value@,
            Err(error) => column_fault(*column) == Some(error@),
        },
{
    match column {
        Ok(text) => Ok(text.clone()),
        Err(message) => Err(StoreError::Database(message.clone())),
    }
}

/// A column of integers that must have been read.
pub fn integer_column(column: &Column<i64>) -> (read: Result<i64, StoreError>)
    ensures
        match read {
            Ok(integer) => column matches Ok(value) && integer == value,
            Err(error) => column_fault(*column) == Some(error@),
        },
{
    match column {
        Ok(integer) => Ok(*integer),
        Err(message) => Err(StoreError::Database(message.clone())),
    }
}

/// A JSON value that must have been read.
pub fn json_value(read: Result<Json, String>) -> (value: Result<Json, StoreError>)
    ensures
        match (read, value) {
            (Ok(given), Ok(taken)) => taken == given,
            (Err(message), Err(error)) => error@ == StoreErrorView::Serialization(message@),
            _ => false,
        },
{
    match read {
        Ok(json) => Ok(json),
        Err(message) => Err(StoreError::Serialization(message)),
    }
}

/// Reads a row of the table of responses.
pub fn row_to_response_record(row: &ResponseRow) -> (read: Result<ResponseRecord, StoreError>)
    ensures
        match read {
            Ok(record) => row.reading() == Ok::<ResponseView, StoreErrorView>(record@),
            Err(error) => row.reading() == Err::<ResponseView, StoreErrorView>(error@),
        },
{
    let response_object_json = match text_column(&row.response_object) {
        Ok(text) => text,
        Err(error) => {
            return Err(error);
        },
    };
    let input_json = match text_column(&row.input) {
        Ok(text) => text,
        Err(error) => {
            return Err(error);
        },
    };
    let messages_json = match text_column(&row.messages) {
        Ok(text) => text,
        Err(error) => {
            return Err(error);
        },
    };
    let id = match text_column(&row.id) {
        Ok(text) => text,
        Err(error) => {
            return Err(error);
        },
    };
    let tenant_id = match text_column(&row.tenant_id) {
        Ok(text) => text,
        Err(error) => {
            return Err(error);
        },
    };
    let created_at = match integer_column(&row.created_at) {
        Ok(integer) => integer,
        Err(error) => {
            return Err(error);
        },
    };
    let model = match text_column(&row.model) {
        Ok(text) => text,
        Err(error) => {
            return Err(error);
        },
    };
    let response_object = match json_value(Json::from_text(response_object_json.as_str())) {
        Ok(json) => json,
        Err(error) => {
            return Err(error);
        },
    };
    let input = match json_value(Json::from_text(input_json.as_str())) {
        Ok(json) => json,
        Err(error) => {
            return Err(error);
        },
    };
    let messages = match json_value(Json::from_text(messages_json.as_str())) {
        Ok(json) => json,
        Err(error) => {
            return Err(error);
        },
    };
    Ok(ResponseRecord { id, tenant_id, created_at, model, response_object, input, messages })
}

/// Reads a row of the table of conversations.
pub fn row_to_conversation_record(row: &ConversationRow) -> (read: Result<ConversationRecord, StoreError>)
    ensures
        match read {
            Ok(record) => row.reading() == Ok::<ConversationView, StoreErrorView>(record@),
            Err(error) => row.reading() == Err::<ConversationView, StoreErrorView>(error@),
        },
{
    let messages_json = match text_column(&row.messages) {
        Ok(text) => text,
        Err(error) => {
            return Err(error);
        },
    };
    let messages = match json_value(Json::from_text(messages_json.as_str())) {
        Ok(json) => json,
        Err(error) => {
            return Err(error);
        },
    };
    let conversation_id = match text_column(&row.conversation_id) {
        Ok(text) => text,
        Err(error) => {
            return Err(error);
        },
    };
    let tenant_id = match text_column(&row.tenant_id) {
        Ok(text) => text,
        Err(error) => {
            return Err(error);
        },
    };
    Ok(ConversationRecord { conversation_id, tenant_id, messages })
}

/// What `get_response` answers, from the row that was found.
pub fn found_response_record(row: Option<ResponseRow>) -> (found: Result<Option<ResponseRecord>, StoreError>)
    ensures
        match (row, found) {
            (None, Ok(None)) => true,
            (Some(row), Ok(Some(record))) => row.reading() == Ok::<ResponseView, StoreErrorView>(record@),
            (Some(row), Err(error)) => row.reading() == Err::<ResponseView, StoreErrorView>(error@),
            _ => false,
        },
{
    match row {
        None => Ok(None),
        Some(row) => match row_to_response_record(&row) {
            Ok(record) => Ok(Some(record)),
            Err(error) => Err(error),
        },
    }
}

/// What `get_conversation` answers, from the row that was found.
pub fn found_conversation_record(row: Option<ConversationRow>) -> (found: Result<
    Option<ConversationRecord>,
    StoreError,
>)
    ensures
        match (row, found) {
            (None, Ok(None)) => true,
            (Some(row), Ok(Some(record))) => row.reading() == Ok::<ConversationView, StoreErrorView>(record@),
            (Some(row), Err(error)) => row.reading() == Err::<ConversationView, StoreErrorView>(error@),
            _ => false,
        },
{
    match row {
        None => Ok(None),
        Some(row) => match row_to_conversation_record(&row) {
            Ok(record) => Ok(Some(record)),
            Err(error) => Err(error),
        },
    }
}

/// What `delete_response` and `delete_conversation` answer, from the number of
/// rows that were taken away.
pub fn was_deleted(rows_affected: u64) -> (deleted: bool)
    ensures
        deleted == (rows_affected > 0),
{
    rows_affected > 0
}

/// What rows are read as, up to the first that cannot be read.
pub open spec fn readings(rows: Seq<ResponseRow>) -> Result<Seq<ResponseView>, StoreErrorView>
    decreases rows.len(),
{
    if rows.len() == 0 {
        Ok(Seq::empty())
    } else {
        match (readings(rows.drop_last()), rows.last().reading()) {
            (Ok(before), Ok(last)) => Ok(before.push(last)),
            (Err(fault), _) => Err(fault),
            (_, Err(fault)) => Err(fault),
        }
    }
}

/// The page that rows make: the first `limit` of them, and whether there were
/// more.
pub open spec fn page_reading(rows: Seq<ResponseRow>, limit: nat) -> Result<PageView, StoreErrorView> {
    let has_more = rows.len() > limit;
    match readings(if has_more { rows.take(limit as int) } else { rows }) {
        Err(fault) => Err(fault),
        Ok(data) => Ok(
            PageView {
                data,
                next_cursor: if has_more {
                    Some(crate::store::cursor::cursor_text(data.last().created_at, data.last().id))
                } else {
                    None
                },
                has_more,
            },
        ),
    }
}

/// What `list_responses` answers, from the rows that were listed.
pub fn response_page(rows: &Vec<ResponseRow>, params: &ListParams) -> (page: Result<ResponsePage, StoreError>)
    ensures
        page matches Ok(page) ==> page.data@.len() <= 100 && (params.limit >= 1 ==> page.data@.len() <= params.limit),
        match page {
            Ok(page) => page_reading(rows@, crate::store::types::clamped_limit(params.limit) as nat) == Ok::<
                PageView,
                StoreErrorView,
            >(page@),
            Err(error) => page_reading(rows@, crate::store::types::clamped_limit(params.limit) as nat) == Err::<
                PageView,
                StoreErrorView,
            >(error@),
        },
{
    let limit: usize = params.effective_limit() as usize;
    let has_more = rows.len() > limit;
    let kept: usize = if has_more { limit } else { rows.len() };
    let ghost wanted = if has_more { rows@.take(limit as int) } else { rows@ };
    let mut data: Vec<ResponseRecord> = Vec::new();
    assert(wanted =~= rows@.take(kept as int));
    assert(Seq::new(data@.len(), |j: int| data@[j]@) =~= Seq::<ResponseView>::empty());
    for i in 0..kept
        invariant
            limit == crate::store::types::clamped_limit(params.limit),
            has_more == (rows@.len() > limit),
            kept <= rows@.len(),
            wanted == (if has_more { rows@.take(limit as int) } else { rows@ }),
            wanted == rows@.take(kept as int),
            data@.len() == i,
            readings(rows@.take(i as int)) == Ok::<Seq<ResponseView>, StoreErrorView>(
                Seq::new(data@.len(), |j: int| data@[j]@),
            ),
    {
        let ghost before = Seq::new(data@.len(), |j: int| data@[j]@);
        assert(rows@.take(i + 1).drop_last() =~= rows@.take(i as int));
        match row_to_response_record(&rows[i]) {
            Ok(record) => {
                data.push(record);
                assert(Seq::new(data@.len(), |j: int| data@[j]@) =~= before.push(record@));
            },
            Err(error) => {
                proof {
                    assert(wanted.take(i as int) =~= rows@.take(i as int));
                    lemma_readings_stop(wanted, i as int, error@);
                }
                return Err(error);
            },
        }
    }
    let next_cursor = if has_more {
        let last = &data[kept - 1];
        Some(encode_cursor(last.created_at, last.id.as_str()))
    } else {
        None
    };
    let page = ResponsePage { data, next_cursor, has_more };
    Ok(page)
}

proof fn lemma_readings_stop(rows: Seq<ResponseRow>, i: int, fault: StoreErrorView)
    requires
        0 <= i < rows.len(),
        readings(rows.take(i)) is Ok,
        rows[i].reading() == Err::<ResponseView, StoreErrorView>(fault),
    ensures
        readings(rows) == Err::<Seq<ResponseView>, StoreErrorView>(fault),
    decreases rows.len(),
{
    if i == rows.len() - 1 {
        assert(rows.drop_last() =~= rows.take(i));
    } else {
        assert(rows.drop_last().take(i) =~= rows.take(i));
        lemma_readings_stop(rows.drop_last(), i, fault);
    }
}

// ---------------------------------------------------------------------------
// Laws
// ---------------------------------------------------------------------------

/// The view of a statement holds every bound value of it, each at its place.
pub proof fn lemma_statement_view_is_whole(statement: Statement, i: int)
    ensures
        statement@.sql == statement.sql@,
        statement@.params.len() == statement.params@.len(),
        0 <= i < statement.params@.len() ==> match statement.params@[i] {
            SqlValue::Text(text) => statement@.params[i] == SqlValueView::Text(text@),
            SqlValue::Integer(integer) => statement@.params[i] == SqlValueView::Integer(integer),
        },
{
}

/// Storing a response binds every field of it, each whole, and JSON as it is
/// written.
pub proof fn lemma_storing_binds_the_response(store: SqliteResponseStore, record: ResponseView)
    ensures
        ({
            let statement = store.rendered(Command::PutResponse(stored_response(record)));
            &&& statement.sql == "INSERT OR REPLACE INTO "@ + store.responses_table()
                + " (id, tenant_id, created_at, model, response_object, input, messages) VALUES (?, ?, ?, ?, ?, ?, ?)"@
            &&& statement.params.len() == 7
            &&& statement.params[0] == SqlValueView::Text(record.id)
            &&& statement.params[1] == SqlValueView::Text(record.tenant_id)
            &&& statement.params[2] == SqlValueView::Integer(record.created_at)
            &&& statement.params[3] == SqlValueView::Text(record.model)
            &&& statement.params[4] == SqlValueView::Text(crate::json::json_text(record.response_object))
            &&& statement.params[5] == SqlValueView::Text(crate::json::json_text(record.input))
            &&& statement.params[6] == SqlValueView::Text(crate::json::json_text(record.messages))
        }),
{
}

/// Storing a conversation binds every field of it, each whole, and JSON as it is
/// written.
pub proof fn lemma_storing_binds_the_conversation(store: SqliteResponseStore, record: ConversationView)
    ensures
        ({
            let statement = store.rendered(Command::PutConversation(stored_conversation(record)));
            &&& statement.sql == "INSERT OR REPLACE INTO "@ + store.conversations_table()
                + " (conversation_id, tenant_id, messages) VALUES (?, ?, ?)"@
            &&& statement.params.len() == 3
            &&& statement.params[0] == SqlValueView::Text(record.conversation_id)
            &&& statement.params[1] == SqlValueView::Text(record.tenant_id)
            &&& statement.params[2] == SqlValueView::Text(crate::json::json_text(record.messages))
        }),
{
}

/// Finding and deleting go by the ID and the tenant, both whole.
pub proof fn lemma_single_records_go_by_id_and_tenant(
    store: SqliteResponseStore,
    tenant_id: Seq<char>,
    id: Seq<char>,
)
    ensures
        ({
            let get = store.rendered(Command::GetResponse { tenant_id, id });
            let delete = store.rendered(Command::DeleteResponse { tenant_id, id });
            let get_conversation = store.rendered(Command::GetConversation { tenant_id, id });
            let delete_conversation = store.rendered(Command::DeleteConversation { tenant_id, id });
            let bound = seq![SqlValueView::Text(id), SqlValueView::Text(tenant_id)];
            &&& get.sql == "SELECT id, tenant_id, created_at, model, response_object, input, messages FROM "@
                + store.responses_table() + " WHERE id = ? AND tenant_id = ?"@
            &&& get.params == bound
            &&& delete.sql == "DELETE FROM "@ + store.responses_table() + " WHERE id = ? AND tenant_id = ?"@
            &&& delete.params == bound
            &&& get_conversation.sql == "SELECT conversation_id, tenant_id, messages FROM "@
                + store.conversations_table() + " WHERE conversation_id = ? AND tenant_id = ?"@
            &&& get_conversation.params == bound
            &&& delete_conversation.sql == "DELETE FROM "@ + store.conversations_table()
                + " WHERE conversation_id = ? AND tenant_id = ?"@
            &&& delete_conversation.params == bound
        }),
{
}

/// A list from the beginning binds the tenant and one row more than the page
/// holds; the page holds as many as were asked for, from one to a hundred.
pub proof fn lemma_list_from_the_beginning(
    store: SqliteResponseStore,
    tenant_id: Seq<char>,
    limit: u32,
    order: Order,
)
    ensures
        list_query(tenant_id, None, limit, order) matches Ok(query) && {
            let statement = store.rendered(Command::ListResponses(query));
            let count = if limit < 1 {
                2
            } else if limit > 100 {
                101
            } else {
                limit + 1
            };
            &&& statement.sql == "SELECT id, tenant_id, created_at, model, response_object, input, messages FROM "@
                + store.responses_table() + match order {
                Order::Ascending => " WHERE tenant_id = ? ORDER BY created_at ASC, id ASC LIMIT ?"@,
                Order::Descending => " WHERE tenant_id = ? ORDER BY created_at DESC, id DESC LIMIT ?"@,
            }
            &&& statement.params == seq![SqlValueView::Text(tenant_id), SqlValueView::Integer(count as i64)]
        },
{
}

/// A list from the cursor of a record binds the tenant, the record's time and ID,
/// and one row more than the page holds.
pub proof fn lemma_list_from_a_record(
    store: SqliteResponseStore,
    tenant_id: Seq<char>,
    created_at: i64,
    id: Seq<char>,
    limit: u32,
    order: Order,
)
    ensures
        list_query(
            tenant_id,
            Some(crate::text::decimal(created_at as int) + ":"@ + id),
            limit,
            order,
        ) matches Ok(query) && {
            let statement = store.rendered(Command::ListResponses(query));
            let count = if limit < 1 {
                2
            } else if limit > 100 {
                101
            } else {
                limit + 1
            };
            &&& statement.sql == "SELECT id, tenant_id, created_at, model, response_object, input, messages FROM "@
                + store.responses_table() + match order {
                Order::Ascending => " WHERE tenant_id = ? AND (created_at > ? OR (created_at = ? AND id > ?)) ORDER BY created_at ASC, id ASC LIMIT ?"@,
                Order::Descending => " WHERE tenant_id = ? AND (created_at < ? OR (created_at = ? AND id < ?)) ORDER BY created_at DESC, id DESC LIMIT ?"@,
            }
            &&& statement.params == seq![
                SqlValueView::Text(tenant_id),
                SqlValueView::Integer(created_at),
                SqlValueView::Integer(created_at),
                SqlValueView::Text(id),
                SqlValueView::Integer(count as i64),
            ]
        },
{
    crate::store::cursor::lemma_cursor_reads_back(created_at, id);
}

/// The cursor that comes with a request is taken whole. One that can be read is
/// where the list starts; one that cannot fails the request with its own fault.
pub proof fn lemma_cursor_of_a_request_is_taken_whole(
    params: ListParams,
    tenant_id: Seq<char>,
    start: (i64, Seq<char>),
    fault: StoreErrorView,
)
    ensures
        params.cursor matches Some(cursor) ==> crate::store::cursor::cursor_reading(cursor@) == Ok::<
            (i64, Seq<char>),
            StoreErrorView,
        >(start) ==> list_query(tenant_id, Some(cursor@), params.limit, params.order) == list_query(
            tenant_id,
            Some(crate::text::decimal(start.0 as int) + ":"@ + start.1),
            params.limit,
            params.order,
        ),
        params.cursor matches Some(cursor) ==> cursor_of(params) == Some(cursor@) && (
        crate::store::cursor::cursor_reading(cursor@) == Err::<(i64, Seq<char>), StoreErrorView>(fault) ==> list_query(
            tenant_id,
            cursor_of(params),
            params.limit,
            params.order,
        ) == Err::<ListQuery, StoreErrorView>(fault)),
        params.cursor is None ==> cursor_of(params) is None,
{
    crate::store::cursor::lemma_cursor_reads_back(start.0, start.1);
}

/// A row of the table of responses is read field by field, each whole, and JSON
/// as its text is read. The first column that failed, of the columns in this
/// order, fails the row, and after them the first text that is no JSON does.
pub proof fn lemma_response_row_is_read_whole(row: ResponseRow)
    ensures
        match row.reading() {
            Ok(record) => {
                &&& row.id matches Ok(id) && record.id == id@
                &&& row.tenant_id matches Ok(tenant_id) && record.tenant_id == tenant_id@
                &&& row.created_at matches Ok(created_at) && record.created_at == created_at
                &&& row.model matches Ok(model) && record.model == model@
                &&& row.response_object matches Ok(text) && crate::json::json_of_text(text@)
                    == crate::json::Reading::Ok(record.response_object)
                &&& row.input matches Ok(text) && crate::json::json_of_text(text@) == crate::json::Reading::Ok(
                    record.input,
                )
                &&& row.messages matches Ok(text) && crate::json::json_of_text(text@) == crate::json::Reading::Ok(
                    record.messages,
                )
            },
            Err(fault) => {
                let columns: Seq<Option<Seq<char>>> = seq![
                    text_failure(row.response_object),
                    text_failure(row.input),
                    text_failure(row.messages),
                    text_failure(row.id),
                    text_failure(row.tenant_id),
                    match row.created_at {
                        Ok(_) => None,
                        Err(message) => Some(message@),
                    },
                    text_failure(row.model),
                ];
                ||| exists|k: int|
                    0 <= k < 7 && (#[trigger] columns[k]) is Some && fault == StoreErrorView::Database(columns[k]->0)
                        && forall|j: int| 0 <= j < k ==> columns[j] is None
                ||| (forall|j: int| 0 <= j < 7 ==> columns[j] is None) && {
                    let object = crate::json::json_of_text(row.response_object->Ok_0@);
                    let input = crate::json::json_of_text(row.input->Ok_0@);
                    let messages = crate::json::json_of_text(row.messages->Ok_0@);
                    match (object, input, messages) {
                        (Err(message), _, _) => fault == StoreErrorView::Serialization(message),
                        (Ok(_), Err(message), _) => fault == StoreErrorView::Serialization(message),
                        (Ok(_), Ok(_), Err(message)) => fault == StoreErrorView::Serialization(message),
                        _ => false,
                    }
                }
            },
        },
{
    let columns: Seq<Option<Seq<char>>> = seq![
        text_failure(row.response_object),
        text_failure(row.input),
        text_failure(row.messages),
        text_failure(row.id),
        text_failure(row.tenant_id),
        match row.created_at {
            Ok(_) => None,
            Err(message) => Some(message@),
        },
        text_failure(row.model),
    ];
    assert(row.fault() is None <==> forall|j: int| 0 <= j < 7 ==> (#[trigger] columns[j]) is None) by {
        assert(columns[0] is Some || columns[1] is Some || columns[2] is Some || columns[3] is Some || columns[4] is Some
            || columns[5] is Some || columns[6] is Some || row.fault() is None);
    }
}

/// Why a column of text was not read, if it was not.
pub open spec fn text_failure(column: Column<String>) -> Option<Seq<char>> {
    match column {
        Ok(_) => None,
        Err(message) => Some(message@),
    }
}

/// A row of the table of conversations is read field by field, each whole. Its
/// messages are read first, and the first that fails fails the row.
pub proof fn lemma_conversation_row_is_read_whole(row: ConversationRow)
    ensures
        match row.reading() {
            Ok(record) => {
                &&& row.conversation_id matches Ok(id) && record.conversation_id == id@
                &&& row.tenant_id matches Ok(tenant_id) && record.tenant_id == tenant_id@
                &&& row.messages matches Ok(text) && crate::json::json_of_text(text@) == crate::json::Reading::Ok(
                    record.messages,
                )
            },
            Err(fault) => match row.messages {
                Err(message) => fault == StoreErrorView::Database(message@),
                Ok(text) => match crate::json::json_of_text(text@) {
                    Err(message) => fault == StoreErrorView::Serialization(message),
                    Ok(_) => match (row.conversation_id, row.tenant_id) {
                        (Err(message), _) => fault == StoreErrorView::Database(message@),
                        (Ok(_), Err(message)) => fault == StoreErrorView::Database(message@),
                        _ => false,
                    },
                },
            },
        },
{
}

/// Rows are read one by one, in their order; the first that cannot be read fails
/// them all.
pub proof fn lemma_rows_are_read_one_by_one(rows: Seq<ResponseRow>)
    ensures
        match readings(rows) {
            Ok(records) => records.len() == rows.len() && forall|i: int|
                0 <= i < rows.len() ==> (#[trigger] rows[i]).reading() == Ok::<ResponseView, StoreErrorView>(
                    records[i],
                ),
            Err(fault) => exists|i: int|
                0 <= i < rows.len() && (#[trigger] rows[i]).reading() == Err::<ResponseView, StoreErrorView>(fault)
                    && forall|j: int| 0 <= j < i ==> (#[trigger] rows[j]).reading() is Ok,
        },
    decreases rows.len(),
{
    if rows.len() > 0 {
        let shorter = rows.drop_last();
        lemma_rows_are_read_one_by_one(shorter);
        assert forall|i: int| 0 <= i < shorter.len() implies #[trigger] rows[i] == shorter[i] by {}
        match readings(shorter) {
            Ok(records) => {
                assert forall|j: int| 0 <= j < shorter.len() implies (#[trigger] rows[j]).reading() == Ok::<
                    ResponseView,
                    StoreErrorView,
                >(records[j]) by {
                    assert(shorter[j].reading() == Ok::<ResponseView, StoreErrorView>(records[j]));
                }
                assert(rows[rows.len() - 1] == rows.last());
            },
            Err(fault) => {
                let i = choose|i: int|
                    0 <= i < shorter.len() && (#[trigger] shorter[i]).reading() == Err::<ResponseView, StoreErrorView>(
                        fault,
                    ) && forall|j: int| 0 <= j < i ==> (#[trigger] shorter[j]).reading() is Ok;
                assert(rows[i].reading() == Err::<ResponseView, StoreErrorView>(fault));
                assert forall|j: int| 0 <= j < i implies (#[trigger] rows[j]).reading() is Ok by {
                    assert(shorter[j].reading() is Ok);
                }
            },
        }
    }
}

/// A page holds the first of the rows, each read whole and in its order, up to
/// the number that was asked for; there is more exactly where rows are left over,
/// and then the cursor names the last record of the page.
pub proof fn lemma_page_is_the_first_rows(rows: Seq<ResponseRow>, limit: u32, page: PageView)
    requires
        1 <= limit <= 100,
        page_reading(rows, crate::store::types::clamped_limit(limit) as nat) == Ok::<PageView, StoreErrorView>(page),
    ensures
        page.data.len() <= limit,
        page.has_more <==> rows.len() > limit,
        page.data.len() == (if rows.len() > limit {
            limit as nat
        } else {
            rows.len()
        }),
        forall|i: int|
            0 <= i < page.data.len() ==> (#[trigger] rows[i]).reading() == Ok::<ResponseView, StoreErrorView>(
                page.data[i],
            ),
        page.next_cursor == (if rows.len() > limit {
            Some(
                crate::text::decimal(page.data[limit - 1].created_at as int) + ":"@ + page.data[limit - 1].id,
            )
        } else {
            None
        }),
{
    let kept = if rows.len() > limit { rows.take(limit as int) } else { rows };
    lemma_rows_are_read_one_by_one(kept);
    assert forall|i: int| 0 <= i < page.data.len() implies (#[trigger] rows[i]).reading() == Ok::<
        ResponseView,
        StoreErrorView,
    >(page.data[i]) by {
        assert(kept[i] == rows[i]);
    }
}

} // verus!

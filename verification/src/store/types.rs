//! The records of the store, its page parameters and its errors.

use vstd::prelude::*;

use crate::json::{Json, JsonView, READABLE_LEVELS};
use crate::text::joined;

verus! {

/// Page size where none is asked for.
pub const DEFAULT_PAGE_LIMIT: u32 = 20;

/// Largest page size.
pub const MAX_PAGE_LIMIT: u32 = 100;

// ---------------------------------------------------------------------------
// Records
// ---------------------------------------------------------------------------

/// A stored response.
#[derive(Debug, PartialEq)]
pub struct ResponseRecord {
    /// The response's ID.
    pub id: String,
    /// The tenant that it belongs to.
    pub tenant_id: String,
    /// When the response was created, in seconds since the Unix epoch.
    pub created_at: i64,
    /// The model that answered.
    pub model: String,
    /// The public response object.
    pub response_object: Json,
    /// The input as it was received.
    pub input: Json,
    /// The messages that a later turn starts from, hidden ones among them.
    pub messages: Json,
}

/// What a stored response denotes.
#[verifier::ext_equal]
pub struct ResponseView {
    pub id: Seq<char>,
    pub tenant_id: Seq<char>,
    pub created_at: i64,
    pub model: Seq<char>,
    pub response_object: JsonView,
    pub input: JsonView,
    pub messages: JsonView,
}

impl View for ResponseRecord {
    type V = ResponseView;

    open spec fn view(&self) -> ResponseView {
        ResponseView {
            id: self.id@,
            tenant_id: self.tenant_id@,
            created_at: self.created_at,
            model: self.model@,
            response_object: self.response_object@,
            input: self.input@,
            messages: self.messages@,
        }
    }
}

impl ResponseView {
    /// Whether each JSON value of the record is read back from the text that is
    /// written for it.
    pub open spec fn survives_text(self) -> bool {
        &&& self.response_object.survives_text(READABLE_LEVELS as nat)
        &&& self.input.survives_text(READABLE_LEVELS as nat)
        &&& self.messages.survives_text(READABLE_LEVELS as nat)
    }

    /// Whether each JSON value of the record nests no deeper than text is read,
    /// and each number in it is an integer.
    pub open spec fn float_free(self) -> bool {
        &&& self.response_object.float_free_within(READABLE_LEVELS as nat)
        &&& self.input.float_free_within(READABLE_LEVELS as nat)
        &&& self.messages.float_free_within(READABLE_LEVELS as nat)
    }
}

/// A response without floating-point numbers survives being stored.
pub proof fn lemma_float_free_response_survives(record: ResponseView)
    requires
        record.float_free(),
    ensures
        record.survives_text(),
{
    crate::json::lemma_float_free_values_survive(record.response_object, READABLE_LEVELS as nat);
    crate::json::lemma_float_free_values_survive(record.input, READABLE_LEVELS as nat);
    crate::json::lemma_float_free_values_survive(record.messages, READABLE_LEVELS as nat);
}

impl Clone for ResponseRecord {
    fn clone(&self) -> (copy: ResponseRecord)
        ensures
            copy@ == self@,
    {
        ResponseRecord {
            id: self.id.clone(),
            tenant_id: self.tenant_id.clone(),
            created_at: self.created_at,
            model: self.model.clone(),
            response_object: self.response_object.clone(),
            input: self.input.clone(),
            messages: self.messages.clone(),
        }
    }
}

/// The stored messages of a conversation.
#[derive(Debug, PartialEq)]
pub struct ConversationRecord {
    /// The conversation's ID.
    pub conversation_id: String,
    /// The tenant that it belongs to.
    pub tenant_id: String,
    /// The messages so far.
    pub messages: Json,
}

/// What a stored conversation denotes.
#[verifier::ext_equal]
pub struct ConversationView {
    pub conversation_id: Seq<char>,
    pub tenant_id: Seq<char>,
    pub messages: JsonView,
}

impl View for ConversationRecord {
    type V = ConversationView;

    open spec fn view(&self) -> ConversationView {
        ConversationView {
            conversation_id: self.conversation_id@,
            tenant_id: self.tenant_id@,
            messages: self.messages@,
        }
    }
}

impl ConversationView {
    /// Whether the messages are read back from the text that is written for
    /// them.
    pub open spec fn survives_text(self) -> bool {
        self.messages.survives_text(READABLE_LEVELS as nat)
    }

    /// Whether the messages nest no deeper than text is read, and each number in
    /// them is an integer.
    pub open spec fn float_free(self) -> bool {
        self.messages.float_free_within(READABLE_LEVELS as nat)
    }
}

/// A conversation without floating-point numbers survives being stored.
pub proof fn lemma_float_free_conversation_survives(record: ConversationView)
    requires
        record.float_free(),
    ensures
        record.survives_text(),
{
    crate::json::lemma_float_free_values_survive(record.messages, READABLE_LEVELS as nat);
}

impl Clone for ConversationRecord {
    fn clone(&self) -> (copy: ConversationRecord)
        ensures
            copy@ == self@,
    {
        ConversationRecord {
            conversation_id: self.conversation_id.clone(),
            tenant_id: self.tenant_id.clone(),
            messages: self.messages.clone(),
        }
    }
}

// ---------------------------------------------------------------------------
// Paging
// ---------------------------------------------------------------------------

/// In which order responses are listed.
#[derive(Debug, Clone, Copy, PartialEq, Eq, Structural)]
pub enum Order {
    /// Oldest first.
    Ascending,
    /// Newest first.
    Descending,
}

impl Default for Order {
    fn default() -> (order: Order)
        ensures
            order == Order::Descending,
    {
        Order::Descending
    }
}

/// Which page to list.
#[derive(Debug)]
pub struct ListParams {
    /// Where the page starts: after the record that the cursor names, or at the
    /// beginning.
    pub cursor: Option<String>,
    /// How many records to list, before clamping.
    pub limit: u32,
    /// In which order.
    pub order: Order,
}

impl Default for ListParams {
    fn default() -> (params: ListParams)
        ensures
            params.cursor is None,
            params.limit == DEFAULT_PAGE_LIMIT,
            params.limit == 20,
            params.order == Order::Descending,
    {
        ListParams { cursor: None, limit: DEFAULT_PAGE_LIMIT, order: Order::default() }
    }
}

impl Clone for ListParams {
    fn clone(&self) -> (copy: ListParams)
        ensures
            copy.limit == self.limit,
            copy.order == self.order,
            match (self.cursor, copy.cursor) {
                (Some(cursor), Some(copied)) => copied@ == cursor@,
                (None, None) => true,
                _ => false,
            },
    {
        let cursor = match &self.cursor {
            Some(cursor) => Some(cursor.clone()),
            None => None,
        };
        ListParams { cursor, limit: self.limit, order: self.order }
    }
}

/// A limit brought into the range of page sizes.
pub open spec fn clamped_limit(limit: u32) -> u32 {
    if limit < 1 {
        1
    } else if limit > MAX_PAGE_LIMIT {
        MAX_PAGE_LIMIT
    } else {
        limit
    }
}

impl ListParams {
    /// The page size: the limit, but at least one and at most
    /// [`MAX_PAGE_LIMIT`].
    pub fn effective_limit(&self) -> (limit: u32)
        ensures
            limit == clamped_limit(self.limit),
            1 <= limit <= MAX_PAGE_LIMIT,
            1 <= self.limit <= 100 ==> limit == self.limit,
            self.limit == 0 ==> limit == 1,
            self.limit > 100 ==> limit == 100,
    {
        if self.limit < 1 {
            1
        } else if self.limit > MAX_PAGE_LIMIT {
            MAX_PAGE_LIMIT
        } else {
            self.limit
        }
    }
}

/// A page of responses.
#[derive(Debug)]
pub struct ResponsePage {
    /// The responses of the page.
    pub data: Vec<ResponseRecord>,
    /// Where the next page starts, where there is one.
    pub next_cursor: Option<String>,
    /// Whether there is a next page.
    pub has_more: bool,
}

/// What a page denotes.
#[verifier::ext_equal]
pub struct PageView {
    pub data: Seq<ResponseView>,
    pub next_cursor: Option<Seq<char>>,
    pub has_more: bool,
}

impl View for ResponsePage {
    type V = PageView;

    open spec fn view(&self) -> PageView {
        PageView {
            data: Seq::new(self.data@.len(), |i: int| self.data@[i]@),
            next_cursor: match self.next_cursor {
                Some(cursor) => Some(cursor@),
                None => None,
            },
            has_more: self.has_more,
        }
    }
}

// ---------------------------------------------------------------------------
// Errors
// ---------------------------------------------------------------------------

/// Why a store operation failed.
#[derive(Debug, PartialEq, Eq)]
pub enum StoreError {
    /// A connection, a query, a cursor or a table name failed.
    Database(String),
    /// JSON could not be written or read.
    Serialization(String),
    /// The store is not there.
    Unavailable(String),
}

/// What a store error denotes.
#[verifier::ext_equal]
pub enum StoreErrorView {
    Database(Seq<char>),
    Serialization(Seq<char>),
    Unavailable(Seq<char>),
}

impl View for StoreError {
    type V = StoreErrorView;

    open spec fn view(&self) -> StoreErrorView {
        match self {
            StoreError::Database(message) => StoreErrorView::Database(message@),
            StoreError::Serialization(message) => StoreErrorView::Serialization(message@),
            StoreError::Unavailable(message) => StoreErrorView::Unavailable(message@),
        }
    }
}

impl StoreErrorView {
    /// The error in words.
    pub open spec fn text(self) -> Seq<char> {
        match self {
            StoreErrorView::Database(message) => "database error: "@ + message,
            StoreErrorView::Serialization(message) => "serialization error: "@ + message,
            StoreErrorView::Unavailable(message) => "store unavailable: "@ + message,
        }
    }
}

impl StoreError {
    /// The error in words.
    pub fn to_string(&self) -> (text: String)
        ensures
            text@ == self@.text(),
    {
        match self {
            StoreError::Database(message) => joined("database error: ", message.as_str()),
            StoreError::Serialization(message) => joined("serialization error: ", message.as_str()),
            StoreError::Unavailable(message) => joined("store unavailable: ", message.as_str()),
        }
    }
}

/// A limit that is a page size is taken as it is; one below becomes the least
/// page size and one above the greatest.
pub proof fn lemma_limit_in_range_is_kept(limit: u32)
    ensures
        1 <= limit <= 100 ==> clamped_limit(limit) == limit,
        limit < 1 ==> clamped_limit(limit) == 1,
        limit > 100 ==> clamped_limit(limit) == 100,
{
}

/// A greater limit gives no smaller page, and no limit of at least one gives a
/// page that is larger than asked for.
pub proof fn lemma_limits_keep_their_order(limit: u32, greater: u32)
    requires
        limit <= greater,
    ensures
        clamped_limit(limit) <= clamped_limit(greater),
        1 <= limit ==> clamped_limit(limit) <= limit,
        clamped_limit(clamped_limit(limit)) == clamped_limit(limit),
{
}

/// The view of a page holds every record of it, each at its place.
pub proof fn lemma_page_view_is_whole(page: ResponsePage, i: int)
    ensures
        page@.data.len() == page.data@.len(),
        0 <= i < page.data@.len() ==> page@.data[i] == page.data@[i]@,
        page@.has_more == page.has_more,
        page.next_cursor matches Some(cursor) ==> page@.next_cursor == Some(cursor@),
        page.next_cursor is None ==> page@.next_cursor is None,
{
}

/// An error in words names its kind, then gives its message whole.
pub proof fn lemma_errors_keep_their_message(message: Seq<char>)
    ensures
        StoreErrorView::Database(message).text() == "database error: "@ + message,
        StoreErrorView::Serialization(message).text() == "serialization error: "@ + message,
        StoreErrorView::Unavailable(message).text() == "store unavailable: "@ + message,
{
}

/// The view of a record holds each of its fields, whole.
pub proof fn lemma_record_views_are_whole(response: ResponseRecord, conversation: ConversationRecord)
    ensures
        response@.id == response.id@,
        response@.tenant_id == response.tenant_id@,
        response@.created_at == response.created_at,
        response@.model == response.model@,
        response@.response_object == response.response_object@,
        response@.input == response.input@,
        response@.messages == response.messages@,
        conversation@.conversation_id == conversation.conversation_id@,
        conversation@.tenant_id == conversation.tenant_id@,
        conversation@.messages == conversation.messages@,
{
}

} // verus!

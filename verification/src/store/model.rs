//! What the store's statements ask of its tables.
//!
//! A [`Command`] is a statement by its meaning. [`rendered`] is its wording;
//! [`after`], [`affected`], [`found_response`], [`found_conversation`] and
//! [`lists`] are what it does to the tables and what it answers.

use vstd::prelude::*;

use crate::store::types::Order;

verus! {

// ---------------------------------------------------------------------------
// Tables
// ---------------------------------------------------------------------------

/// A row of the table of responses. JSON stands in it as text.
#[verifier::ext_equal]
pub struct StoredResponse {
    pub id: Seq<char>,
    pub tenant_id: Seq<char>,
    pub created_at: i64,
    pub model: Seq<char>,
    pub response_object: Seq<char>,
    pub input: Seq<char>,
    pub messages: Seq<char>,
}

impl StoredResponse {
    /// What the row is ordered by.
    pub open spec fn place(self) -> (i64, Seq<char>) {
        (self.created_at, self.id)
    }
}

/// A row of the table of conversations.
#[verifier::ext_equal]
pub struct StoredConversation {
    pub conversation_id: Seq<char>,
    pub tenant_id: Seq<char>,
    pub messages: Seq<char>,
}

/// The keys of a tenant's rows.
pub open spec fn keys_of(tenant_id: Seq<char>) -> Set<(Seq<char>, Seq<char>)> {
    Set::new(|key: (Seq<char>, Seq<char>)| key.0 == tenant_id)
}

/// The tables, each by its primary key: a tenant and an ID.
#[verifier::ext_equal]
pub struct StoreState {
    pub responses: Map<(Seq<char>, Seq<char>), StoredResponse>,
    pub conversations: Map<(Seq<char>, Seq<char>), StoredConversation>,
}

impl StoreState {
    /// The tables are finite, and each row stands under its own key.
    pub open spec fn well_formed(self) -> bool {
        &&& self.responses.dom().finite()
        &&& self.conversations.dom().finite()
        &&& forall|key: (Seq<char>, Seq<char>)| #[trigger]
            self.responses.contains_key(key) ==> (self.responses[key].tenant_id, self.responses[key].id) == key
        &&& forall|key: (Seq<char>, Seq<char>)| #[trigger]
            self.conversations.contains_key(key) ==> (
                self.conversations[key].tenant_id,
                self.conversations[key].conversation_id,
            ) == key
    }

    /// The rows of one tenant.
    pub open spec fn of_tenant(self, tenant_id: Seq<char>) -> StoreState {
        StoreState {
            responses: self.responses.restrict(keys_of(tenant_id)),
            conversations: self.conversations.restrict(keys_of(tenant_id)),
        }
    }
}

// ---------------------------------------------------------------------------
// Order
// ---------------------------------------------------------------------------

/// Whether a text sorts before another, character by character.
pub open spec fn text_less(a: Seq<char>, b: Seq<char>) -> bool
    decreases a.len(),
{
    if b.len() == 0 {
        false
    } else if a.len() == 0 {
        true
    } else {
        a[0] < b[0] || (a[0] == b[0] && text_less(a.drop_first(), b.drop_first()))
    }
}

/// Whether a place is earlier than another: by time, then by ID.
pub open spec fn place_less(a: (i64, Seq<char>), b: (i64, Seq<char>)) -> bool {
    a.0 < b.0 || (a.0 == b.0 && text_less(a.1, b.1))
}

/// Whether a place is listed before another.
pub open spec fn listed_before(order: Order, a: (i64, Seq<char>), b: (i64, Seq<char>)) -> bool {
    match order {
        Order::Ascending => place_less(a, b),
        Order::Descending => place_less(b, a),
    }
}

// ---------------------------------------------------------------------------
// Commands
// ---------------------------------------------------------------------------

/// A list query.
#[verifier::ext_equal]
pub struct ListQuery {
    /// Whose responses.
    pub tenant_id: Seq<char>,
    /// The place after which the listing starts; from the beginning where there
    /// is none.
    pub start: Option<(i64, Seq<char>)>,
    /// In which order.
    pub order: Order,
    /// How many rows at most.
    pub count: i64,
}

/// A statement by its meaning.
#[verifier::ext_equal]
pub enum Command {
    /// Insert a response, in place of one with the same key.
    PutResponse(StoredResponse),
    /// Find a response.
    GetResponse { tenant_id: Seq<char>, id: Seq<char> },
    /// Delete a response.
    DeleteResponse { tenant_id: Seq<char>, id: Seq<char> },
    /// List responses.
    ListResponses(ListQuery),
    /// Insert a conversation, in place of one with the same key.
    PutConversation(StoredConversation),
    /// Find a conversation.
    GetConversation { tenant_id: Seq<char>, id: Seq<char> },
    /// Delete a conversation.
    DeleteConversation { tenant_id: Seq<char>, id: Seq<char> },
}

impl Command {
    /// The tenant on whose behalf the command runs.
    pub open spec fn tenant(self) -> Seq<char> {
        match self {
            Command::PutResponse(row) => row.tenant_id,
            Command::GetResponse { tenant_id, .. } => tenant_id,
            Command::DeleteResponse { tenant_id, .. } => tenant_id,
            Command::ListResponses(query) => query.tenant_id,
            Command::PutConversation(row) => row.tenant_id,
            Command::GetConversation { tenant_id, .. } => tenant_id,
            Command::DeleteConversation { tenant_id, .. } => tenant_id,
        }
    }
}

// ---------------------------------------------------------------------------
// Wording
// ---------------------------------------------------------------------------

/// A value bound to a placeholder.
#[verifier::ext_equal]
pub enum SqlValueView {
    Text(Seq<char>),
    Integer(i64),
}

/// A statement: its text and the values bound to its placeholders, in order.
#[verifier::ext_equal]
pub struct StatementView {
    pub sql: Seq<char>,
    pub params: Seq<SqlValueView>,
}

/// Up to the table's name, the statement that inserts a row.
pub const INSERT_INTO: &'static str = "INSERT OR REPLACE INTO ";

/// The rest of the statement that inserts a response.
pub const RESPONSE_VALUES: &'static str =
    " (id, tenant_id, created_at, model, response_object, input, messages) VALUES (?, ?, ?, ?, ?, ?, ?)";

/// The rest of the statement that inserts a conversation.
pub const CONVERSATION_VALUES: &'static str = " (conversation_id, tenant_id, messages) VALUES (?, ?, ?)";

/// Up to the table's name, the statements that read responses.
pub const SELECT_RESPONSES: &'static str =
    "SELECT id, tenant_id, created_at, model, response_object, input, messages FROM ";

/// Up to the table's name, the statement that reads a conversation.
pub const SELECT_CONVERSATION: &'static str = "SELECT conversation_id, tenant_id, messages FROM ";

/// Up to the table's name, the statements that delete.
pub const DELETE_FROM: &'static str = "DELETE FROM ";

/// The condition on one response.
pub const WHERE_RESPONSE: &'static str = " WHERE id = ? AND tenant_id = ?";

/// The condition on one conversation.
pub const WHERE_CONVERSATION: &'static str = " WHERE conversation_id = ? AND tenant_id = ?";

/// The rest of the list query from the beginning, oldest first.
pub const LIST_ASCENDING: &'static str = " WHERE tenant_id = ? ORDER BY created_at ASC, id ASC LIMIT ?";

/// The rest of the list query from the beginning, newest first.
pub const LIST_DESCENDING: &'static str = " WHERE tenant_id = ? ORDER BY created_at DESC, id DESC LIMIT ?";

/// The rest of the list query from a cursor on, oldest first.
pub const LIST_ASCENDING_AFTER: &'static str =
    " WHERE tenant_id = ? AND (created_at > ? OR (created_at = ? AND id > ?)) ORDER BY created_at ASC, id ASC LIMIT ?";

/// The rest of the list query from a cursor on, newest first.
pub const LIST_DESCENDING_AFTER: &'static str =
    " WHERE tenant_id = ? AND (created_at < ? OR (created_at = ? AND id < ?)) ORDER BY created_at DESC, id DESC LIMIT ?";

/// What stands behind the table's name in a list query.
pub open spec fn list_clause(query: ListQuery) -> Seq<char> {
    match (query.start, query.order) {
        (None, Order::Ascending) => LIST_ASCENDING@,
        (None, Order::Descending) => LIST_DESCENDING@,
        (Some(_), Order::Ascending) => LIST_ASCENDING_AFTER@,
        (Some(_), Order::Descending) => LIST_DESCENDING_AFTER@,
    }
}

/// The values bound in a list query.
pub open spec fn list_params(query: ListQuery) -> Seq<SqlValueView> {
    match query.start {
        None => seq![SqlValueView::Text(query.tenant_id), SqlValueView::Integer(query.count)],
        Some(start) => seq![
            SqlValueView::Text(query.tenant_id),
            SqlValueView::Integer(start.0),
            SqlValueView::Integer(start.0),
            SqlValueView::Text(start.1),
            SqlValueView::Integer(query.count),
        ],
    }
}

/// The wording of a command, for tables of the given names.
pub open spec fn rendered(responses: Seq<char>, conversations: Seq<char>, command: Command) -> StatementView {
    match command {
        Command::PutResponse(row) => StatementView {
            sql: INSERT_INTO@ + responses + RESPONSE_VALUES@,
            params: seq![
                SqlValueView::Text(row.id),
                SqlValueView::Text(row.tenant_id),
                SqlValueView::Integer(row.created_at),
                SqlValueView::Text(row.model),
                SqlValueView::Text(row.response_object),
                SqlValueView::Text(row.input),
                SqlValueView::Text(row.messages),
            ],
        },
        Command::GetResponse { tenant_id, id } => StatementView {
            sql: SELECT_RESPONSES@ + responses + WHERE_RESPONSE@,
            params: seq![SqlValueView::Text(id), SqlValueView::Text(tenant_id)],
        },
        Command::DeleteResponse { tenant_id, id } => StatementView {
            sql: DELETE_FROM@ + responses + WHERE_RESPONSE@,
            params: seq![SqlValueView::Text(id), SqlValueView::Text(tenant_id)],
        },
        Command::ListResponses(query) => StatementView {
            sql: SELECT_RESPONSES@ + responses + list_clause(query),
            params: list_params(query),
        },
        Command::PutConversation(row) => StatementView {
            sql: INSERT_INTO@ + conversations + CONVERSATION_VALUES@,
            params: seq![
                SqlValueView::Text(row.conversation_id),
                SqlValueView::Text(row.tenant_id),
                SqlValueView::Text(row.messages),
            ],
        },
        Command::GetConversation { tenant_id, id } => StatementView {
            sql: SELECT_CONVERSATION@ + conversations + WHERE_CONVERSATION@,
            params: seq![SqlValueView::Text(id), SqlValueView::Text(tenant_id)],
        },
        Command::DeleteConversation { tenant_id, id } => StatementView {
            sql: DELETE_FROM@ + conversations + WHERE_CONVERSATION@,
            params: seq![SqlValueView::Text(id), SqlValueView::Text(tenant_id)],
        },
    }
}

// ---------------------------------------------------------------------------
// Meaning
// ---------------------------------------------------------------------------

/// The tables after a command.
pub open spec fn after(state: StoreState, command: Command) -> StoreState {
    match command {
        Command::PutResponse(row) => StoreState {
            responses: state.responses.insert((row.tenant_id, row.id), row),
            ..state
        },
        Command::DeleteResponse { tenant_id, id } => StoreState {
            responses: state.responses.remove((tenant_id, id)),
            ..state
        },
        Command::PutConversation(row) => StoreState {
            conversations: state.conversations.insert((row.tenant_id, row.conversation_id), row),
            ..state
        },
        Command::DeleteConversation { tenant_id, id } => StoreState {
            conversations: state.conversations.remove((tenant_id, id)),
            ..state
        },
        _ => state,
    }
}

/// How many rows a command that deletes takes away.
pub open spec fn affected(state: StoreState, command: Command) -> nat {
    match command {
        Command::DeleteResponse { tenant_id, id } => if state.responses.contains_key((tenant_id, id)) {
            1
        } else {
            0
        },
        Command::DeleteConversation { tenant_id, id } => if state.conversations.contains_key((tenant_id, id)) {
            1
        } else {
            0
        },
        _ => 0,
    }
}

/// The row that `GetResponse` answers, if it answers one.
pub open spec fn found_response(state: StoreState, tenant_id: Seq<char>, id: Seq<char>) -> Option<StoredResponse> {
    if state.responses.contains_key((tenant_id, id)) {
        Some(state.responses[(tenant_id, id)])
    } else {
        None
    }
}

/// The row that `GetConversation` answers, if it answers one.
pub open spec fn found_conversation(
    state: StoreState,
    tenant_id: Seq<char>,
    id: Seq<char>,
) -> Option<StoredConversation> {
    if state.conversations.contains_key((tenant_id, id)) {
        Some(state.conversations[(tenant_id, id)])
    } else {
        None
    }
}

/// Whether a row is in the table of responses.
pub open spec fn holds(state: StoreState, row: StoredResponse) -> bool {
    state.responses.contains_key((row.tenant_id, row.id)) && state.responses[(row.tenant_id, row.id)] == row
}

/// Whether a row is one that a list query is about.
pub open spec fn matches_query(state: StoreState, query: ListQuery, row: StoredResponse) -> bool {
    &&& holds(state, row)
    &&& row.tenant_id == query.tenant_id
    &&& query.start matches Some(start) ==> listed_before(query.order, start, row.place())
}

/// Whether rows are in strict order.
pub open spec fn in_order(order: Order, rows: Seq<StoredResponse>) -> bool {
    forall|i: int, j: int|
        0 <= i < j < rows.len() ==> listed_before(order, (#[trigger] rows[i]).place(), (#[trigger] rows[j]).place())
}

/// Whether `ListResponses` answers these rows: the first `count` of those that
/// the query is about, in order.
pub open spec fn lists(state: StoreState, query: ListQuery, rows: Seq<StoredResponse>) -> bool {
    &&& rows.len() <= query.count
    &&& in_order(query.order, rows)
    &&& forall|i: int| 0 <= i < rows.len() ==> matches_query(state, query, #[trigger] rows[i])
    &&& forall|row: StoredResponse| #[trigger]
        matches_query(state, query, row) && !rows.contains(row) ==> rows.len() == query.count && forall|i: int|
            0 <= i < rows.len() ==> listed_before(query.order, (#[trigger] rows[i]).place(), row.place())
}

// ---------------------------------------------------------------------------
// Laws
// ---------------------------------------------------------------------------

/// Every command keeps the tables finite and each row under its own key.
pub proof fn lemma_commands_keep_keys(state: StoreState, command: Command)
    requires
        state.well_formed(),
    ensures
        after(state, command).well_formed(),
{
}

proof fn lemma_own_response(state: StoreState, tenant_id: Seq<char>, id: Seq<char>)
    ensures
        found_response(state, tenant_id, id) == found_response(state.of_tenant(tenant_id), tenant_id, id),
{
    assert(keys_of(tenant_id).contains((tenant_id, id)));
}

proof fn lemma_own_conversation(state: StoreState, tenant_id: Seq<char>, id: Seq<char>)
    ensures
        found_conversation(state, tenant_id, id) == found_conversation(state.of_tenant(tenant_id), tenant_id, id),
{
    assert(keys_of(tenant_id).contains((tenant_id, id)));
}

/// What a tenant's commands answer rests on that tenant's rows alone.
pub proof fn lemma_answers_rest_on_own_rows(
    state: StoreState,
    other: StoreState,
    tenant_id: Seq<char>,
    id: Seq<char>,
    query: ListQuery,
    rows: Seq<StoredResponse>,
)
    requires
        state.of_tenant(tenant_id) == other.of_tenant(tenant_id),
        query.tenant_id == tenant_id,
    ensures
        found_response(state, tenant_id, id) == found_response(other, tenant_id, id),
        found_conversation(state, tenant_id, id) == found_conversation(other, tenant_id, id),
        lists(state, query, rows) == lists(other, query, rows),
        forall|command: Command|
            command.tenant() == tenant_id ==> #[trigger] affected(state, command) == affected(other, command),
{
    assert forall|i: Seq<char>| #[trigger] found_response(state, tenant_id, i) == found_response(other, tenant_id, i) by {
        lemma_own_response(state, tenant_id, i);
        lemma_own_response(other, tenant_id, i);
    }
    assert forall|i: Seq<char>| #[trigger] found_conversation(state, tenant_id, i) == found_conversation(
        other,
        tenant_id,
        i,
    ) by {
        lemma_own_conversation(state, tenant_id, i);
        lemma_own_conversation(other, tenant_id, i);
    }
    assert forall|row: StoredResponse|
        #![trigger matches_query(state, query, row)]
        #![trigger matches_query(other, query, row)]
        matches_query(state, query, row) == matches_query(other, query, row) by {
        if row.tenant_id == tenant_id {
            assert(found_response(state, tenant_id, row.id) == found_response(other, tenant_id, row.id));
        }
    }
    assert forall|command: Command| command.tenant() == tenant_id implies #[trigger] affected(state, command)
        == affected(other, command) by {
        match command {
            Command::DeleteResponse { id, .. } => {
                assert(found_response(state, tenant_id, id) == found_response(other, tenant_id, id));
            },
            Command::DeleteConversation { id, .. } => {
                assert(found_conversation(state, tenant_id, id) == found_conversation(other, tenant_id, id));
            },
            _ => {},
        }
    }
}

/// A tenant's commands leave the rows of every other tenant as they are.
pub proof fn lemma_tenants_keep_apart(state: StoreState, command: Command, tenant_id: Seq<char>)
    requires
        command.tenant() != tenant_id,
    ensures
        after(state, command).of_tenant(tenant_id) == state.of_tenant(tenant_id),
{
    assert(after(state, command).of_tenant(tenant_id) =~= state.of_tenant(tenant_id));
}

/// A response that was put is found, whatever was there before, and nothing else
/// changes.
pub proof fn lemma_put_response_is_found(state: StoreState, row: StoredResponse, tenant_id: Seq<char>, id: Seq<char>)
    ensures
        found_response(after(state, Command::PutResponse(row)), tenant_id, id) == (if (tenant_id, id) == (
            row.tenant_id,
            row.id,
        ) {
            Some(row)
        } else {
            found_response(state, tenant_id, id)
        }),
        found_conversation(after(state, Command::PutResponse(row)), tenant_id, id) == found_conversation(
            state,
            tenant_id,
            id,
        ),
{
}

/// A conversation that was put is found, whatever was there before, and nothing
/// else changes.
pub proof fn lemma_put_conversation_is_found(
    state: StoreState,
    row: StoredConversation,
    tenant_id: Seq<char>,
    id: Seq<char>,
)
    ensures
        found_conversation(after(state, Command::PutConversation(row)), tenant_id, id) == (if (tenant_id, id) == (
            row.tenant_id,
            row.conversation_id,
        ) {
            Some(row)
        } else {
            found_conversation(state, tenant_id, id)
        }),
        found_response(after(state, Command::PutConversation(row)), tenant_id, id) == found_response(
            state,
            tenant_id,
            id,
        ),
{
}

/// A response that is deleted is no longer found, a row is taken away exactly
/// where it was found before, and nothing else changes.
pub proof fn lemma_deleted_response_is_gone(
    state: StoreState,
    tenant_id: Seq<char>,
    id: Seq<char>,
    other_tenant: Seq<char>,
    other_id: Seq<char>,
)
    ensures
        ({
            let command = Command::DeleteResponse { tenant_id, id };
            &&& found_response(after(state, command), tenant_id, id) is None
            &&& affected(state, command) > 0 <==> found_response(state, tenant_id, id) is Some
            &&& affected(after(state, command), command) == 0
            &&& (other_tenant, other_id) != (tenant_id, id) ==> found_response(
                after(state, command),
                other_tenant,
                other_id,
            ) == found_response(state, other_tenant, other_id)
            &&& found_conversation(after(state, command), other_tenant, other_id) == found_conversation(
                state,
                other_tenant,
                other_id,
            )
        }),
{
}

/// A conversation that is deleted is no longer found, a row is taken away
/// exactly where it was found before, and nothing else changes.
pub proof fn lemma_deleted_conversation_is_gone(
    state: StoreState,
    tenant_id: Seq<char>,
    id: Seq<char>,
    other_tenant: Seq<char>,
    other_id: Seq<char>,
)
    ensures
        ({
            let command = Command::DeleteConversation { tenant_id, id };
            &&& found_conversation(after(state, command), tenant_id, id) is None
            &&& affected(state, command) > 0 <==> found_conversation(state, tenant_id, id) is Some
            &&& affected(after(state, command), command) == 0
            &&& (other_tenant, other_id) != (tenant_id, id) ==> found_conversation(
                after(state, command),
                other_tenant,
                other_id,
            ) == found_conversation(state, other_tenant, other_id)
            &&& found_response(after(state, command), other_tenant, other_id) == found_response(
                state,
                other_tenant,
                other_id,
            )
        }),
{
}

proof fn lemma_text_less_is_strict(a: Seq<char>, b: Seq<char>)
    ensures
        !(text_less(a, b) && text_less(b, a)),
        !text_less(a, a),
    decreases a.len(),
{
    if a.len() > 0 && b.len() > 0 {
        lemma_text_less_is_strict(a.drop_first(), b.drop_first());
    }
    if a.len() > 0 {
        lemma_text_less_is_strict(a.drop_first(), a.drop_first());
    }
}

proof fn lemma_text_less_chains(a: Seq<char>, b: Seq<char>, c: Seq<char>)
    requires
        text_less(a, b),
        text_less(b, c),
    ensures
        text_less(a, c),
    decreases a.len(),
{
    if a.len() > 0 && a[0] == b[0] && b[0] == c[0] {
        lemma_text_less_chains(a.drop_first(), b.drop_first(), c.drop_first());
    }
}

proof fn lemma_text_less_is_total(a: Seq<char>, b: Seq<char>)
    ensures
        a == b || text_less(a, b) || text_less(b, a),
    decreases a.len(),
{
    if a.len() > 0 && b.len() > 0 {
        lemma_text_less_is_total(a.drop_first(), b.drop_first());
        if a[0] == b[0] && a.drop_first() == b.drop_first() {
            assert(a =~= seq![a[0]] + a.drop_first());
            assert(b =~= seq![b[0]] + b.drop_first());
        }
    } else if a.len() == 0 && b.len() == 0 {
        assert(a =~= b);
    }
}

/// Listing order is a strict total order of places.
pub proof fn lemma_listing_order_is_strict_and_total(
    order: Order,
    a: (i64, Seq<char>),
    b: (i64, Seq<char>),
    c: (i64, Seq<char>),
)
    ensures
        !listed_before(order, a, a),
        listed_before(order, a, b) && listed_before(order, b, c) ==> listed_before(order, a, c),
        a == b || listed_before(order, a, b) || listed_before(order, b, a),
        !(listed_before(order, a, b) && listed_before(order, b, a)),
{
    lemma_text_less_is_strict(a.1, b.1);
    lemma_text_less_is_total(a.1, b.1);
    if text_less(a.1, b.1) && text_less(b.1, c.1) {
        lemma_text_less_chains(a.1, b.1, c.1);
    }
    if text_less(c.1, b.1) && text_less(b.1, a.1) {
        lemma_text_less_chains(c.1, b.1, a.1);
    }
}

proof fn lemma_listings_agree(
    state: StoreState,
    query: ListQuery,
    a: Seq<StoredResponse>,
    b: Seq<StoredResponse>,
    i: int,
)
    requires
        lists(state, query, a),
        lists(state, query, b),
        0 <= i < a.len(),
        i < b.len(),
    ensures
        a[i] == b[i],
    decreases i,
{
    assert forall|j: int| 0 <= j < i implies a[j] == b[j] by {
        lemma_listings_agree(state, query, a, b, j);
    }
    if a[i] != b[i] {
        lemma_not_listed_earlier(state, query, a, b, i);
        lemma_not_listed_earlier(state, query, b, a, i);
        lemma_listing_order_is_strict_and_total(query.order, a[i].place(), b[i].place(), a[i].place());
    }
}

/// Where two listings agree up to a row, the row of the second there is listed
/// before that of the first, unless they are the same.
proof fn lemma_not_listed_earlier(
    state: StoreState,
    query: ListQuery,
    a: Seq<StoredResponse>,
    b: Seq<StoredResponse>,
    i: int,
)
    requires
        lists(state, query, a),
        lists(state, query, b),
        0 <= i < a.len(),
        i < b.len(),
        forall|j: int| 0 <= j < i ==> a[j] == b[j],
        a[i] != b[i],
    ensures
        listed_before(query.order, b[i].place(), a[i].place()),
{
    assert(matches_query(state, query, a[i]));
    if b.contains(a[i]) {
        let k = choose|k: int| 0 <= k < b.len() && b[k] == a[i];
        if k < i {
            assert(listed_before(query.order, a[k].place(), a[i].place()));
            lemma_listing_order_is_strict_and_total(query.order, a[i].place(), a[i].place(), a[i].place());
        }
        assert(listed_before(query.order, b[i].place(), b[k].place()));
    } else {
        assert(listed_before(query.order, b[i].place(), a[i].place()));
    }
}

/// A list query has one answer.
pub proof fn lemma_listing_is_unique(
    state: StoreState,
    query: ListQuery,
    a: Seq<StoredResponse>,
    b: Seq<StoredResponse>,
)
    requires
        lists(state, query, a),
        lists(state, query, b),
    ensures
        a == b,
{
    assert forall|i: int| 0 <= i < a.len() && i < b.len() implies a[i] == b[i] by {
        lemma_listings_agree(state, query, a, b, i);
    }
    lemma_listing_is_no_longer(state, query, a, b);
    lemma_listing_is_no_longer(state, query, b, a);
    assert(a =~= b);
}

proof fn lemma_listing_is_no_longer(
    state: StoreState,
    query: ListQuery,
    a: Seq<StoredResponse>,
    b: Seq<StoredResponse>,
)
    requires
        lists(state, query, a),
        lists(state, query, b),
        forall|i: int| 0 <= i < a.len() && i < b.len() ==> a[i] == b[i],
    ensures
        b.len() <= a.len(),
{
    if b.len() > a.len() {
        let row = b[a.len() as int];
        assert(matches_query(state, query, row));
        if a.contains(row) {
            let k = choose|k: int| 0 <= k < a.len() && a[k] == row;
            assert(b[k] == row);
            assert(listed_before(query.order, b[k].place(), b[a.len() as int].place()));
            lemma_listing_order_is_strict_and_total(query.order, row.place(), row.place(), row.place());
        }
    }
}

} // verus!

//! What the filters of the Responses API share about a request.

use vstd::prelude::*;

use crate::json::{Json, JsonView};

verus! {

/// What the filters of the Responses API share about a request.
#[derive(Debug, PartialEq)]
pub struct ResponsesState {
    /// The input items of the request, as the client sent them.
    pub input: Vec<Json>,
    /// How many rounds of inference came before this one.
    pub iteration: u32,
    /// The conversation to send to the backend: the input at first, later with
    /// history before it and tool results behind it.
    pub messages: Vec<Json>,
    /// What the response has put out so far.
    pub output_items: Vec<Json>,
    /// The request body as it was received.
    pub request_body: Json,
    /// The response object of the current round.
    pub response_object: Json,
    /// The tool calls of the current round.
    pub tool_calls: Vec<Json>,
    /// Which tool the model is to choose.
    pub tool_choice: Json,
    /// The tools of the request.
    pub tools: Vec<Json>,
    /// Tokens used over all rounds.
    pub usage: Json,
}

/// What a shared state denotes.
#[verifier::ext_equal]
pub struct StateView {
    pub input: Seq<JsonView>,
    pub iteration: u32,
    pub messages: Seq<JsonView>,
    pub output_items: Seq<JsonView>,
    pub request_body: JsonView,
    pub response_object: JsonView,
    pub tool_calls: Seq<JsonView>,
    pub tool_choice: JsonView,
    pub tools: Seq<JsonView>,
    pub usage: JsonView,
}

impl View for ResponsesState {
    type V = StateView;

    open spec fn view(&self) -> StateView {
        StateView {
            input: crate::json::item_views(self.input@),
            iteration: self.iteration,
            messages: crate::json::item_views(self.messages@),
            output_items: crate::json::item_views(self.output_items@),
            request_body: self.request_body@,
            response_object: self.response_object@,
            tool_calls: crate::json::item_views(self.tool_calls@),
            tool_choice: self.tool_choice@,
            tools: crate::json::item_views(self.tools@),
            usage: self.usage@,
        }
    }
}

/// A text as a message of the user.
pub open spec fn user_message(content: Seq<char>) -> JsonView {
    JsonView::Object(
        Map::empty().insert("type"@, JsonView::String("message"@)).insert("role"@, JsonView::String("user"@)).insert(
            "content"@,
            JsonView::String(content),
        ),
    )
}

/// The input items of a request: those of an array, or one message for a string.
pub open spec fn normalized_input(body: JsonView) -> Seq<JsonView> {
    match body.member("input"@) {
        Some(JsonView::Array(items)) => items,
        Some(JsonView::String(text)) => seq![user_message(text)],
        _ => Seq::empty(),
    }
}

/// The items of an array that is a member of an object; none where there is no
/// such array.
pub open spec fn array_member(body: JsonView, field: Seq<char>) -> Seq<JsonView> {
    match body.member(field) {
        Some(JsonView::Array(items)) => items,
        _ => Seq::empty(),
    }
}

/// The state at the start of a request.
pub open spec fn initial_state(body: JsonView) -> StateView {
    StateView {
        input: normalized_input(body),
        iteration: 0,
        messages: normalized_input(body),
        output_items: Seq::empty(),
        request_body: body,
        response_object: JsonView::Null,
        tool_calls: Seq::empty(),
        tool_choice: match body.member("tool_choice"@) {
            Some(choice) => choice,
            None => JsonView::String("auto"@),
        },
        tools: array_member(body, "tools"@),
        usage: JsonView::Null,
    }
}

/// Copies of items.
fn copied(items: &Vec<Json>) -> (copies: Vec<Json>)
    ensures
        crate::json::item_views(copies@) == crate::json::item_views(items@),
{
    let mut copies: Vec<Json> = Vec::new();
    for i in 0..items.len()
        invariant
            copies@.len() == i,
            forall|j: int| 0 <= j < i ==> (#[trigger] copies@[j])@ == items@[j]@,
    {
        copies.push(items[i].clone());
    }
    assert(crate::json::item_views(copies@) =~= crate::json::item_views(items@));
    copies
}

/// A text as a message of the user.
fn message_of(text: &str) -> (message: Json)
    ensures
        message@ == user_message(text@),
{
    let members: Vec<(String, Json)> = vec![
        ("type".to_owned(), Json::String("message".to_owned())),
        ("role".to_owned(), Json::String("user".to_owned())),
        ("content".to_owned(), Json::String(text.to_owned())),
    ];
    proof {
        let views = crate::json::member_views(members@);
        assert(views.drop_last().drop_last().drop_last() =~= Seq::empty());
        assert(views.drop_last().drop_last().last() == ("type"@, JsonView::String("message"@)));
        assert(views.drop_last().last() == ("role"@, JsonView::String("user"@)));
        assert(views.last() == ("content"@, JsonView::String(text@)));
        reveal_with_fuel(crate::json::entries_map, 4);
    }
    Json::Object(members)
}

/// The input items of a request: those of an array, or one message for a string.
pub fn normalize_input(body: &Json) -> (items: Vec<Json>)
    ensures
        crate::json::item_views(items@) == normalized_input(body@),
{
    let items = match body.get("input") {
        Some(Json::Array(items)) => copied(items),
        Some(Json::String(text)) => vec![message_of(text.as_str())],
        _ => Vec::new(),
    };
    assert(crate::json::item_views(items@) =~= normalized_input(body@));
    items
}

/// The items of an array that is a member of an object; none where there is no
/// such array.
pub fn extract_array_field(body: &Json, field: &str) -> (items: Vec<Json>)
    ensures
        crate::json::item_views(items@) == array_member(body@, field@),
{
    let items = match body.get(field) {
        Some(Json::Array(items)) => copied(items),
        _ => Vec::new(),
    };
    assert(crate::json::item_views(items@) =~= array_member(body@, field@));
    items
}

impl ResponsesState {
    /// The state at the start of a request.
    pub fn from_request_body(body: Json) -> (state: ResponsesState)
        ensures
            state@ == initial_state(body@),
    {
        let messages = normalize_input(&body);
        let tools = extract_array_field(&body, "tools");
        let tool_choice = match body.get("tool_choice") {
            Some(choice) => choice.clone(),
            None => Json::String("auto".to_owned()),
        };
        let state = ResponsesState {
            input: copied(&messages),
            iteration: 0,
            messages,
            output_items: Vec::new(),
            request_body: body,
            response_object: Json::Null,
            tool_calls: Vec::new(),
            tool_choice,
            tools,
            usage: Json::Null,
        };
        assert(state@ =~= initial_state(body@));
        state
    }
}

/// At the start of a request its input and the conversation to send are the
/// same, and a plain text is sent as the one message of the user that it stands
/// for.
pub proof fn lemma_conversation_starts_as_input(body: JsonView)
    ensures
        initial_state(body).messages == initial_state(body).input,
        body.member("input"@) matches Some(JsonView::String(text)) ==> initial_state(body).input == seq![
            user_message(text),
        ],
{
}

/// The input items of a request that gives an array are the items of that array,
/// as many, and each at its place. So are the messages that the conversation
/// starts with.
pub proof fn lemma_input_items_keep_their_order(body: JsonView, items: Seq<JsonView>, i: int)
    requires
        body.member("input"@) == Some(JsonView::Array(items)),
    ensures
        initial_state(body).input.len() == items.len(),
        initial_state(body).messages.len() == items.len(),
        0 <= i < items.len() ==> initial_state(body).input[i] == items[i] && initial_state(body).messages[i]
            == items[i],
{
}

/// A text is sent as one message of the user, whose content is the whole text.
pub proof fn lemma_text_input_is_one_message(body: JsonView, text: Seq<char>, name: Seq<char>)
    requires
        body.member("input"@) == Some(JsonView::String(text)),
    ensures
        initial_state(body).input.len() == 1,
        initial_state(body).messages.len() == 1,
        initial_state(body).messages[0] == initial_state(body).input[0],
        initial_state(body).input[0].member("type"@) == Some(JsonView::String("message"@)),
        initial_state(body).input[0].member("role"@) == Some(JsonView::String("user"@)),
        initial_state(body).input[0].member("content"@) == Some(JsonView::String(text)),
        name != "type"@ && name != "role"@ && name != "content"@ ==> initial_state(body).input[0].member(name) is None,
{
    reveal_strlit("type");
    reveal_strlit("role");
    reveal_strlit("content");
    assert("type"@[0] != "role"@[0]);
    assert("content"@.len() == 7 && "type"@.len() == 4 && "role"@.len() == 4);
}

/// Any other input, or none, gives no items.
pub proof fn lemma_other_input_gives_no_items(body: JsonView)
    requires
        !(body.member("input"@) matches Some(JsonView::Array(_))),
        !(body.member("input"@) matches Some(JsonView::String(_))),
    ensures
        initial_state(body).input.len() == 0,
        initial_state(body).messages.len() == 0,
{
}

/// The tools are the items of the request's array of tools, each at its place;
/// none where there is no such array. Its tool choice is taken as it is, and is
/// `"auto"` where it has none.
pub proof fn lemma_tools_are_taken_as_they_are(body: JsonView, i: int)
    ensures
        match body.member("tools"@) {
            Some(JsonView::Array(items)) => initial_state(body).tools.len() == items.len() && (0 <= i < items.len()
                ==> initial_state(body).tools[i] == items[i]),
            _ => initial_state(body).tools.len() == 0,
        },
        body.member("tool_choice"@) matches Some(choice) ==> initial_state(body).tool_choice == choice,
        body.member("tool_choice"@) is None ==> initial_state(body).tool_choice == JsonView::String("auto"@),
{
}

/// A request starts with its body kept whole, in the first round, with nothing
/// put out, called or used.
pub proof fn lemma_requests_start_afresh(body: JsonView)
    ensures
        initial_state(body).request_body == body,
        initial_state(body).iteration == 0,
        initial_state(body).output_items.len() == 0,
        initial_state(body).tool_calls.len() == 0,
        initial_state(body).response_object == JsonView::Null,
        initial_state(body).usage == JsonView::Null,
{
}

/// The items of any array member are taken each at its place.
pub proof fn lemma_array_members_keep_their_order(body: JsonView, field: Seq<char>, i: int)
    ensures
        match body.member(field) {
            Some(JsonView::Array(items)) => array_member(body, field).len() == items.len() && (0 <= i < items.len()
                ==> array_member(body, field)[i] == items[i]),
            _ => array_member(body, field).len() == 0,
        },
{
}

/// The view of a state holds every item of each list at its place.
pub proof fn lemma_state_view_is_whole(state: ResponsesState, i: int)
    ensures
        state@.input.len() == state.input@.len(),
        0 <= i < state.input@.len() ==> state@.input[i] == state.input@[i]@,
        state@.messages.len() == state.messages@.len(),
        0 <= i < state.messages@.len() ==> state@.messages[i] == state.messages@[i]@,
        state@.tools.len() == state.tools@.len(),
        0 <= i < state.tools@.len() ==> state@.tools[i] == state.tools@[i]@,
        state@.output_items.len() == state.output_items@.len(),
        state@.tool_calls.len() == state.tool_calls@.len(),
        state@.tool_choice == state.tool_choice@,
        state@.request_body == state.request_body@,
        state@.iteration == state.iteration,
{
}

} // verus!

//! Conversation (alpha2): the request bodies the conversation API takes,
//! and the results read back from its reply.

use vstd::prelude::*;
use crate::channel::{opt_bool_json, opt_bool_text};
use crate::failure::{Error, ErrorKind};
use crate::inbound::pair_views;
use crate::json_text::{
    array_text, json_array, json_error, json_error_text, json_member, json_object, json_reformatted,
    json_string, object_text, opt_member, opt_string_json, push_member, push_opt_member, reformat_json,
};
use crate::metadata::{metadata_map, metadata_pairs, pairs_map, sorted_keys};
use crate::query::views;
use crate::runtime_doc::{string_map_json, string_map_text};
use crate::text::{bytes_of, concat, opt_view};
use crate::cloud_event::{json_object_members, object_members};
use crate::time::{duration_fields, humantime_duration, interval_in_range, interval_pb};
use vstd::utf8::encode_utf8;

verus! {

/// The role of a conversation message.
#[derive(PartialEq, Eq, Structural, Clone, Copy, Debug)]
pub enum ConversationRole {
    User,
    System,
    Assistant,
    Tool,
    Developer,
}

/// The JSON key that wraps a message of a role.
pub open spec fn role_word(role: ConversationRole) -> Seq<char> {
    match role {
        ConversationRole::User => "ofUser"@,
        ConversationRole::System => "ofSystem"@,
        ConversationRole::Assistant => "ofAssistant"@,
        ConversationRole::Tool => "ofTool"@,
        ConversationRole::Developer => "ofDeveloper"@,
    }
}

/// The JSON key that wraps a message of a role.
pub fn role_key(role: ConversationRole) -> (k: &'static str)
    ensures
        k@ == role_word(role),
{
    match role {
        ConversationRole::User => "ofUser",
        ConversationRole::System => "ofSystem",
        ConversationRole::Assistant => "ofAssistant",
        ConversationRole::Tool => "ofTool",
        ConversationRole::Developer => "ofDeveloper",
    }
}

/// A content part: `{"text": …}`.
pub open spec fn text_part(t: Seq<char>) -> Seq<char> {
    json_object(seq![json_member("text"@, json_string(t))])
}

fn text_part_text(t: &str) -> (r: String)
    ensures
        r@ == text_part(t@),
{
    let mut members: Vec<String> = Vec::new();
    push_member(&mut members, "text", crate::json_text::quoted(t).as_str());
    assert(views(members@) =~= seq![json_member("text"@, json_string(t@))]);
    object_text(&members)
}

// ---------------------------------------------------------------------------
// The single-text conversation

/// A message: a role and its text.
pub struct ConversationMessage {
    pub role: ConversationRole,
    pub content: String,
}

/// One input of a conversation.
pub struct ConversationInput {
    pub messages: Vec<ConversationMessage>,
    pub scrub_pii: Option<bool>,
}

/// The options of a conversation, but for the temperature.
pub struct ConversationOptionsPlain {
    pub context_id: Option<String>,
    /// Model parameters, JSON text.
    pub parameters: Option<String>,
    pub metadata: Vec<(String, String)>,
    pub scrub_pii: Option<bool>,
}

pub open spec fn message_json(m: ConversationMessage) -> Seq<char> {
    json_object(seq![json_member(
        role_word(m.role),
        json_object(seq![json_member("content"@, json_array(seq![text_part(m.content@)]))]),
    )])
}

pub open spec fn input_json(i: ConversationInput) -> Seq<char> {
    json_object(
        seq![json_member("messages"@, json_array(i.messages@.map_values(|m: ConversationMessage| message_json(m))))]
            + opt_member("scrubPii"@, opt_bool_json(i.scrub_pii)),
    )
}

pub open spec fn inputs_json(inputs: Seq<ConversationInput>) -> Seq<char> {
    json_array(inputs.map_values(|i: ConversationInput| input_json(i)))
}

/// The parameters as embedded JSON: none when absent, `None` (the outer)
/// when they are not JSON.
pub open spec fn embedded(text: Option<String>) -> Option<Option<Seq<char>>> {
    match text {
        Some(t) => match json_reformatted(t@) {
            Some(v) => Some(Some(v)),
            None => None,
        },
        None => Some(None),
    }
}

/// The metadata member: the map's pairs (given in key order), when the
/// options carry any.
pub open spec fn metadata_member(given: Seq<(String, String)>, sorted: Seq<(Seq<char>, Seq<char>)>) -> Seq<Seq<char>> {
    if given.len() > 0 {
        seq![json_member("metadata"@, string_map_json(sorted))]
    } else {
        Seq::empty()
    }
}

/// The body of a conversation request, the metadata given as its pairs in
/// key order and the temperature already rendered: members ordered by
/// key, the options' members only when set. None when the parameters are
/// not JSON.
pub open spec fn converse_body_of(
    inputs: Seq<ConversationInput>,
    options: Option<ConversationOptionsPlain>,
    temperature: Option<Seq<char>>,
    metadata: Seq<(Seq<char>, Seq<char>)>,
) -> Option<Seq<char>> {
    match options {
        None => Some(json_object(seq![json_member("inputs"@, inputs_json(inputs))])),
        Some(o) => match embedded(o.parameters) {
            None => None,
            Some(p) => Some(json_object(
                opt_member("contextId"@, opt_string_json(o.context_id))
                    + seq![json_member("inputs"@, inputs_json(inputs))]
                    + metadata_member(o.metadata@, metadata)
                    + opt_member("parameters"@, p)
                    + opt_member("scrubPii"@, opt_bool_json(o.scrub_pii))
                    + opt_member("temperature"@, temperature),
            )),
        },
    }
}

fn message_text(m: &ConversationMessage) -> (r: String)
    ensures
        r@ == message_json(*m),
{
    let mut parts: Vec<String> = Vec::new();
    parts.push(text_part_text(m.content.as_str()));
    assert(views(parts@) =~= seq![text_part(m.content@)]);
    let mut inner: Vec<String> = Vec::new();
    push_member(&mut inner, "content", array_text(&parts).as_str());
    let mut outer: Vec<String> = Vec::new();
    push_member(&mut outer, role_key(m.role), object_text(&inner).as_str());
    assert(views(inner@) =~= seq![json_member("content"@, json_array(seq![text_part(m.content@)]))]);
    assert(views(outer@) =~= seq![json_member(
        role_word(m.role),
        json_object(seq![json_member("content"@, json_array(seq![text_part(m.content@)]))]),
    )]);
    object_text(&outer)
}

fn input_text(input: &ConversationInput) -> (r: String)
    ensures
        r@ == input_json(*input),
{
    let ms = &input.messages;
    let mut items: Vec<String> = Vec::new();
    let mut i: usize = 0;
    while i < ms.len()
        invariant
            i <= ms.len(),
            views(items@) == ms@.take(i as int).map_values(|m: ConversationMessage| message_json(m)),
        decreases ms.len() - i,
    {
        let ghost before = views(items@);
        let t = message_text(&ms[i]);
        items.push(t);
        assert(views(items@) =~= before.push(t@));
        assert(ms@.take(i + 1) =~= ms@.take(i as int).push(ms@[i as int]));
        i += 1;
        assert(views(items@) =~= ms@.take(i as int).map_values(|m: ConversationMessage| message_json(m)));
    }
    assert(ms@.take(ms@.len() as int) =~= ms@);
    let mut members: Vec<String> = Vec::new();
    push_member(&mut members, "messages", array_text(&items).as_str());
    push_opt_member(&mut members, "scrubPii", opt_bool_text(input.scrub_pii));
    assert(views(members@) =~= seq![json_member("messages"@, json_array(ms@.map_values(|m: ConversationMessage| message_json(m))))]
        + opt_member("scrubPii"@, opt_bool_json(input.scrub_pii)));
    object_text(&members)
}

fn inputs_text(inputs: &Vec<ConversationInput>) -> (r: String)
    ensures
        r@ == inputs_json(inputs@),
{
    let mut items: Vec<String> = Vec::new();
    let mut i: usize = 0;
    while i < inputs.len()
        invariant
            i <= inputs.len(),
            views(items@) == inputs@.take(i as int).map_values(|x: ConversationInput| input_json(x)),
        decreases inputs.len() - i,
    {
        let ghost before = views(items@);
        let t = input_text(&inputs[i]);
        items.push(t);
        assert(views(items@) =~= before.push(t@));
        assert(inputs@.take(i + 1) =~= inputs@.take(i as int).push(inputs@[i as int]));
        i += 1;
        assert(views(items@) =~= inputs@.take(i as int).map_values(|x: ConversationInput| input_json(x)));
    }
    assert(inputs@.take(inputs@.len() as int) =~= inputs@);
    array_text(&items)
}

/// Write the body of a conversation request; `temperature` is the JSON
/// rendering of the options' temperature, when they set one. An
/// `InvalidArgument` error when the parameters are not JSON.
pub fn converse_body(
    inputs: &Vec<ConversationInput>,
    options: &Option<ConversationOptionsPlain>,
    temperature: Option<String>,
) -> (r: Result<String, Error>)
    ensures
        r is Err <==> (options matches Some(o) && o.parameters matches Some(p) && json_reformatted(p@) is None),
        r matches Err(e) ==> e.kind() == ErrorKind::InvalidArgument && (options matches Some(o)
            && o.parameters matches Some(p) && e.text() == "parameters is not valid JSON: "@ + json_error_text(p@)),
        r matches Ok(b) ==> exists|pairs: Seq<(String, String)>| {
            &&& sorted_keys(pairs)
            &&& pairs_map(pairs) == pairs_map(match *options { Some(o) => o.metadata@, None => Seq::empty() })
            &&& converse_body_of(inputs@, *options, opt_view(temperature), pair_views(pairs)) == Some(b@)
        },
{
    let inputs_json_text = inputs_text(inputs);
    match options {
        None => {
            let mut members: Vec<String> = Vec::new();
            push_member(&mut members, "inputs", inputs_json_text.as_str());
            let empty: Vec<(String, String)> = Vec::new();
            assert(pairs_map(empty@) =~= pairs_map(Seq::<(String, String)>::empty()));
            assert(sorted_keys(empty@));
            assert(views(members@) =~= seq![json_member("inputs"@, inputs_json(inputs@))]);
            let b = object_text(&members);
            assert(converse_body_of(inputs@, *options, opt_view(temperature), pair_views(empty@)) == Some(b@));
            Ok(b)
        },
        Some(o) => {
            let parameters = match &o.parameters {
                Some(p) => match reformat_json(p.as_str()) {
                    Some(v) => Some(v),
                    None => {
                        let message = concat("parameters is not valid JSON: ", json_error(p.as_str()).as_str());
                        return Err(Error::new(ErrorKind::InvalidArgument, message));
                    },
                },
                None => None,
            };
            let pairs = metadata_pairs(metadata_map(&o.metadata));
            let mut members: Vec<String> = Vec::new();
            push_opt_member(&mut members, "contextId", crate::json_text::opt_quoted(&o.context_id));
            push_member(&mut members, "inputs", inputs_json_text.as_str());
            let ghost m2 = views(members@);
            if o.metadata.len() > 0 {
                push_member(&mut members, "metadata", string_map_text(&pairs).as_str());
            }
            assert(views(members@) =~= m2 + metadata_member(o.metadata@, pair_views(pairs@)));
            push_opt_member(&mut members, "parameters", parameters);
            push_opt_member(&mut members, "scrubPii", opt_bool_text(o.scrub_pii));
            push_opt_member(&mut members, "temperature", temperature);
            let b = object_text(&members);
            proof {
                assert(embedded(o.parameters) == Some(opt_view(parameters)));
                assert(views(members@) =~= opt_member("contextId"@, opt_string_json(o.context_id))
                    + seq![json_member("inputs"@, inputs_json(inputs@))]
                    + metadata_member(o.metadata@, pair_views(pairs@))
                    + opt_member("parameters"@, opt_view(parameters))
                    + opt_member("scrubPii"@, opt_bool_json(o.scrub_pii))
                    + opt_member("temperature"@, opt_view(temperature)));
                assert(converse_body_of(inputs@, *options, opt_view(temperature), pair_views(pairs@)) == Some(b@));
            }
            Ok(b)
        },
    }
}

/// One result of a conversation.
pub struct ConversationResult {
    pub content: String,
    pub finish_reason: Option<String>,
}

/// The choices of the reply's outputs, flattened in order; a choice is its
/// finish reason and its message's content, when there are.
pub open spec fn choices_of(outputs: Seq<Vec<(Option<String>, Option<String>)>>) -> Seq<(Option<String>, Option<String>)>
    decreases outputs.len(),
{
    if outputs.len() == 0 {
        Seq::empty()
    } else {
        choices_of(outputs.drop_last()) + outputs.last()@
    }
}

/// The result of a choice: its content (empty when there is none) and its
/// finish reason.
pub open spec fn result_of(choice: (Option<String>, Option<String>), r: ConversationResult) -> bool {
    &&& r.finish_reason == choice.0
    &&& r.content@ == match choice.1 {
        Some(c) => c@,
        None => Seq::<char>::empty(),
    }
}

/// The results of a conversation reply: the outputs' choices, flattened in
/// order.
pub fn converse_results(outputs: Vec<Vec<(Option<String>, Option<String>)>>) -> (r: Vec<ConversationResult>)
    ensures
        r@.len() == choices_of(outputs@).len(),
        forall|k: int| 0 <= k < r@.len() ==> result_of(choices_of(outputs@)[k], #[trigger] r@[k]),
{
    let mut r: Vec<ConversationResult> = Vec::new();
    let mut i: usize = 0;
    while i < outputs.len()
        invariant
            i <= outputs.len(),
            r@.len() == choices_of(outputs@.take(i as int)).len(),
            forall|k: int| 0 <= k < r@.len() ==> result_of(choices_of(outputs@.take(i as int))[k], #[trigger] r@[k]),
        decreases outputs.len() - i,
    {
        let choices = &outputs[i];
        let ghost done = choices_of(outputs@.take(i as int));
        assert(outputs@.take(i + 1).drop_last() =~= outputs@.take(i as int));
        assert(choices_of(outputs@.take(i + 1)) == done + choices@);
        let mut j: usize = 0;
        while j < choices.len()
            invariant
                j <= choices.len(),
                choices == outputs@[i as int],
                r@.len() == done.len() + j,
                forall|k: int| 0 <= k < r@.len() ==> result_of((done + choices@)[k], #[trigger] r@[k]),
            decreases choices.len() - j,
        {
            let finish_reason = match &choices[j].0 {
                Some(f) => Some(f.clone()),
                None => None,
            };
            let content = match &choices[j].1 {
                Some(c) => c.clone(),
                None => String::new(),
            };
            r.push(ConversationResult { content, finish_reason });
            j += 1;
        }
        i += 1;
    }
    assert(outputs@.take(outputs@.len() as int) =~= outputs@);
    r
}

// ---------------------------------------------------------------------------
// The full conversation request: content parts, tools and tool calls

/// A tool call an assistant message carries.
pub struct ToolCall {
    pub id: Option<String>,
    pub name: String,
    pub arguments: String,
}

/// A developer, system or user message.
pub struct Participant {
    pub name: Option<String>,
    pub content: Vec<String>,
}

/// A message of the conversation, by role.
#[allow(inconsistent_fields)]
pub enum Message {
    Developer(Participant),
    System(Participant),
    User(Participant),
    Assistant { name: Option<String>, content: Vec<String>, tool_calls: Vec<ToolCall> },
    Tool { tool_id: Option<String>, name: String, content: Vec<String> },
}

/// One input of a conversation request.
pub struct RequestInput {
    pub messages: Vec<Message>,
    pub scrub_pii: Option<bool>,
}

/// A tool the model may call; its parameters a JSON schema, as text.
pub struct Tool {
    pub name: String,
    pub description: Option<String>,
    pub parameters: Option<String>,
}

/// The options of a conversation request, but for the temperature.
pub struct RequestOptions {
    pub context_id: Option<String>,
    pub parameters: Option<String>,
    pub metadata: Vec<(String, String)>,
    pub scrub_pii: Option<bool>,
    pub tools: Vec<Tool>,
    pub tool_choice: Option<String>,
    pub response_format: Option<String>,
    pub prompt_cache_retention: Option<String>,
}

/// The role a message of the conversation speaks in.
pub open spec fn message_role(m: Message) -> ConversationRole {
    match m {
        Message::Developer(_) => ConversationRole::Developer,
        Message::System(_) => ConversationRole::System,
        Message::User(_) => ConversationRole::User,
        Message::Assistant { .. } => ConversationRole::Assistant,
        Message::Tool { .. } => ConversationRole::Tool,
    }
}

pub open spec fn content_json(parts: Seq<String>) -> Seq<char> {
    json_array(parts.map_values(|t: String| text_part(t@)))
}

pub open spec fn participant_json(p: Participant) -> Seq<char> {
    json_object(seq![json_member("content"@, content_json(p.content@))] + opt_member("name"@, opt_string_json(p.name)))
}

pub open spec fn tool_call_json(c: ToolCall) -> Seq<char> {
    json_object(
        seq![json_member("function"@, json_object(seq![
            json_member("arguments"@, json_string(c.arguments@)),
            json_member("name"@, json_string(c.name@)),
        ]))] + opt_member("id"@, opt_string_json(c.id)),
    )
}

pub open spec fn full_message_json(m: Message) -> Seq<char> {
    match m {
        Message::Developer(p) => json_object(seq![json_member("ofDeveloper"@, participant_json(p))]),
        Message::System(p) => json_object(seq![json_member("ofSystem"@, participant_json(p))]),
        Message::User(p) => json_object(seq![json_member("ofUser"@, participant_json(p))]),
        Message::Assistant { name, content, tool_calls } => json_object(seq![json_member(
            "ofAssistant"@,
            json_object(
                seq![json_member("content"@, content_json(content@))] + opt_member("name"@, opt_string_json(name))
                    + if tool_calls@.len() > 0 {
                    seq![json_member("toolCalls"@, json_array(tool_calls@.map_values(|c: ToolCall| tool_call_json(c))))]
                } else {
                    Seq::empty()
                },
            ),
        )]),
        Message::Tool { tool_id, name, content } => json_object(seq![json_member(
            "ofTool"@,
            json_object(
                seq![json_member("content"@, content_json(content@)), json_member("name"@, json_string(name@))]
                    + opt_member("toolId"@, opt_string_json(tool_id)),
            ),
        )]),
    }
}

pub open spec fn request_input_json(i: RequestInput) -> Seq<char> {
    json_object(
        seq![json_member("messages"@, json_array(i.messages@.map_values(|m: Message| full_message_json(m))))]
            + opt_member("scrubPii"@, opt_bool_json(i.scrub_pii)),
    )
}

/// A tool definition; none when its parameters are not JSON.
pub open spec fn tool_json(t: Tool) -> Option<Seq<char>> {
    match embedded(t.parameters) {
        None => None,
        Some(p) => Some(json_object(seq![json_member("function"@, json_object(
            opt_member("description"@, opt_string_json(t.description))
                + seq![json_member("name"@, json_string(t.name@))] + opt_member("parameters"@, p),
        ))])),
    }
}

/// The tool definitions; none when any tool's parameters are not JSON.
pub open spec fn tools_json(tools: Seq<Tool>) -> Option<Seq<Seq<char>>>
    decreases tools.len(),
{
    if tools.len() == 0 {
        Some(Seq::empty())
    } else {
        match (tools_json(tools.drop_last()), tool_json(tools.last())) {
            (Some(before), Some(t)) => Some(before.push(t)),
            _ => None,
        }
    }
}

/// The body of a conversation request, the metadata given as its pairs in
/// key order and the temperature already rendered; members ordered by key.
/// None when the parameters, the response format or a tool's parameters
/// are not JSON.
pub open spec fn request_body_of(
    inputs: Seq<RequestInput>,
    options: Option<RequestOptions>,
    temperature: Option<Seq<char>>,
    metadata: Seq<(Seq<char>, Seq<char>)>,
) -> Option<Seq<char>> {
    let inputs_member = json_member("inputs"@, json_array(inputs.map_values(|i: RequestInput| request_input_json(i))));
    match options {
        None => Some(json_object(seq![inputs_member])),
        Some(o) => match (embedded(o.parameters), embedded(o.response_format), tools_json(o.tools@)) {
            (Some(p), Some(f), Some(ts)) => Some(json_object(
                opt_member("contextId"@, opt_string_json(o.context_id)) + seq![inputs_member]
                    + metadata_member(o.metadata@, metadata) + opt_member("parameters"@, p)
                    + opt_member("promptCacheRetention"@, opt_string_json(o.prompt_cache_retention))
                    + opt_member("responseFormat"@, f)
                    + opt_member("scrubPii"@, opt_bool_json(o.scrub_pii))
                    + opt_member("temperature"@, temperature)
                    + opt_member("toolChoice"@, opt_string_json(o.tool_choice))
                    + if o.tools@.len() > 0 {
                    seq![json_member("tools"@, json_array(ts))]
                } else {
                    Seq::empty()
                },
            )),
            _ => None,
        },
    }
}

fn content_text(parts: &Vec<String>) -> (r: String)
    ensures
        r@ == content_json(parts@),
{
    let mut items: Vec<String> = Vec::new();
    let mut i: usize = 0;
    while i < parts.len()
        invariant
            i <= parts.len(),
            views(items@) == parts@.take(i as int).map_values(|t: String| text_part(t@)),
        decreases parts.len() - i,
    {
        let ghost before = views(items@);
        let t = text_part_text(parts[i].as_str());
        items.push(t);
        assert(views(items@) =~= before.push(t@));
        assert(parts@.take(i + 1) =~= parts@.take(i as int).push(parts@[i as int]));
        i += 1;
        assert(views(items@) =~= parts@.take(i as int).map_values(|t: String| text_part(t@)));
    }
    assert(parts@.take(parts@.len() as int) =~= parts@);
    array_text(&items)
}

fn participant_text(p: &Participant) -> (r: String)
    ensures
        r@ == participant_json(*p),
{
    let mut members: Vec<String> = Vec::new();
    push_member(&mut members, "content", content_text(&p.content).as_str());
    push_opt_member(&mut members, "name", crate::json_text::opt_quoted(&p.name));
    assert(views(members@) =~= seq![json_member("content"@, content_json(p.content@))] + opt_member(
        "name"@,
        opt_string_json(p.name),
    ));
    object_text(&members)
}

fn tool_call_text(c: &ToolCall) -> (r: String)
    ensures
        r@ == tool_call_json(*c),
{
    let mut function: Vec<String> = Vec::new();
    push_member(&mut function, "arguments", crate::json_text::quoted(c.arguments.as_str()).as_str());
    push_member(&mut function, "name", crate::json_text::quoted(c.name.as_str()).as_str());
    assert(views(function@) =~= seq![
        json_member("arguments"@, json_string(c.arguments@)),
        json_member("name"@, json_string(c.name@)),
    ]);
    let mut members: Vec<String> = Vec::new();
    push_member(&mut members, "function", object_text(&function).as_str());
    push_opt_member(&mut members, "id", crate::json_text::opt_quoted(&c.id));
    assert(views(members@) =~= seq![json_member("function"@, json_object(seq![
        json_member("arguments"@, json_string(c.arguments@)),
        json_member("name"@, json_string(c.name@)),
    ]))] + opt_member("id"@, opt_string_json(c.id)));
    object_text(&members)
}

fn tool_calls_text(calls: &Vec<ToolCall>) -> (r: String)
    ensures
        r@ == json_array(calls@.map_values(|c: ToolCall| tool_call_json(c))),
{
    let mut items: Vec<String> = Vec::new();
    let mut i: usize = 0;
    while i < calls.len()
        invariant
            i <= calls.len(),
            views(items@) == calls@.take(i as int).map_values(|c: ToolCall| tool_call_json(c)),
        decreases calls.len() - i,
    {
        let ghost before = views(items@);
        let t = tool_call_text(&calls[i]);
        items.push(t);
        assert(views(items@) =~= before.push(t@));
        assert(calls@.take(i + 1) =~= calls@.take(i as int).push(calls@[i as int]));
        i += 1;
        assert(views(items@) =~= calls@.take(i as int).map_values(|c: ToolCall| tool_call_json(c)));
    }
    assert(calls@.take(calls@.len() as int) =~= calls@);
    array_text(&items)
}

fn wrapped(key: &str, inner: String) -> (r: String)
    ensures
        r@ == json_object(seq![json_member(key@, inner@)]),
{
    let mut members: Vec<String> = Vec::new();
    push_member(&mut members, key, inner.as_str());
    assert(views(members@) =~= seq![json_member(key@, inner@)]);
    object_text(&members)
}

fn full_message_text(m: &Message) -> (r: String)
    ensures
        r@ == full_message_json(*m),
{
    match m {
        Message::Developer(p) => wrapped("ofDeveloper", participant_text(p)),
        Message::System(p) => wrapped("ofSystem", participant_text(p)),
        Message::User(p) => wrapped("ofUser", participant_text(p)),
        Message::Assistant { name, content, tool_calls } => {
            let mut members: Vec<String> = Vec::new();
            push_member(&mut members, "content", content_text(content).as_str());
            push_opt_member(&mut members, "name", crate::json_text::opt_quoted(name));
            let ghost m2 = views(members@);
            if tool_calls.len() > 0 {
                push_member(&mut members, "toolCalls", tool_calls_text(tool_calls).as_str());
            }
            assert(views(members@) =~= seq![json_member("content"@, content_json(content@))] + opt_member(
                "name"@,
                opt_string_json(*name),
            ) + if tool_calls@.len() > 0 {
                seq![json_member("toolCalls"@, json_array(tool_calls@.map_values(|c: ToolCall| tool_call_json(c))))]
            } else {
                Seq::empty()
            });
            wrapped("ofAssistant", object_text(&members))
        },
        Message::Tool { tool_id, name, content } => {
            let mut members: Vec<String> = Vec::new();
            push_member(&mut members, "content", content_text(content).as_str());
            push_member(&mut members, "name", crate::json_text::quoted(name.as_str()).as_str());
            push_opt_member(&mut members, "toolId", crate::json_text::opt_quoted(tool_id));
            assert(views(members@) =~= seq![
                json_member("content"@, content_json(content@)),
                json_member("name"@, json_string(name@)),
            ] + opt_member("toolId"@, opt_string_json(*tool_id)));
            wrapped("ofTool", object_text(&members))
        },
    }
}

fn request_input_text(input: &RequestInput) -> (r: String)
    ensures
        r@ == request_input_json(*input),
{
    let ms = &input.messages;
    let mut items: Vec<String> = Vec::new();
    let mut i: usize = 0;
    while i < ms.len()
        invariant
            i <= ms.len(),
            views(items@) == ms@.take(i as int).map_values(|m: Message| full_message_json(m)),
        decreases ms.len() - i,
    {
        let ghost before = views(items@);
        let t = full_message_text(&ms[i]);
        items.push(t);
        assert(views(items@) =~= before.push(t@));
        assert(ms@.take(i + 1) =~= ms@.take(i as int).push(ms@[i as int]));
        i += 1;
        assert(views(items@) =~= ms@.take(i as int).map_values(|m: Message| full_message_json(m)));
    }
    assert(ms@.take(ms@.len() as int) =~= ms@);
    let mut members: Vec<String> = Vec::new();
    push_member(&mut members, "messages", array_text(&items).as_str());
    push_opt_member(&mut members, "scrubPii", opt_bool_text(input.scrub_pii));
    assert(views(members@) =~= seq![json_member("messages"@, json_array(ms@.map_values(|m: Message| full_message_json(m))))]
        + opt_member("scrubPii"@, opt_bool_json(input.scrub_pii)));
    object_text(&members)
}

fn request_inputs_text(inputs: &Vec<RequestInput>) -> (r: String)
    ensures
        r@ == json_array(inputs@.map_values(|i: RequestInput| request_input_json(i))),
{
    let mut items: Vec<String> = Vec::new();
    let mut i: usize = 0;
    while i < inputs.len()
        invariant
            i <= inputs.len(),
            views(items@) == inputs@.take(i as int).map_values(|x: RequestInput| request_input_json(x)),
        decreases inputs.len() - i,
    {
        let ghost before = views(items@);
        let t = request_input_text(&inputs[i]);
        items.push(t);
        assert(views(items@) =~= before.push(t@));
        assert(inputs@.take(i + 1) =~= inputs@.take(i as int).push(inputs@[i as int]));
        i += 1;
        assert(views(items@) =~= inputs@.take(i as int).map_values(|x: RequestInput| request_input_json(x)));
    }
    assert(inputs@.take(inputs@.len() as int) =~= inputs@);
    array_text(&items)
}

/// Embed a JSON text; none when it is not JSON.
fn embed(text: &Option<String>) -> (r: Option<Option<String>>)
    ensures
        match r {
            Some(v) => embedded(*text) == Some(opt_view(v)),
            None => embedded(*text) is None,
        },
{
    match text {
        Some(t) => match reformat_json(t.as_str()) {
            Some(v) => Some(Some(v)),
            None => None,
        },
        None => Some(None),
    }
}

fn tool_text(t: &Tool) -> (r: Option<String>)
    ensures
        opt_view(r) == tool_json(*t),
{
    let parameters = match embed(&t.parameters) {
        Some(p) => p,
        None => return None,
    };
    let mut function: Vec<String> = Vec::new();
    push_opt_member(&mut function, "description", crate::json_text::opt_quoted(&t.description));
    push_member(&mut function, "name", crate::json_text::quoted(t.name.as_str()).as_str());
    push_opt_member(&mut function, "parameters", parameters);
    assert(views(function@) =~= opt_member("description"@, opt_string_json(t.description))
        + seq![json_member("name"@, json_string(t.name@))] + opt_member("parameters"@, opt_view(parameters)));
    Some(wrapped("function", object_text(&function)))
}

fn tools_text(tools: &Vec<Tool>) -> (r: Option<Vec<String>>)
    ensures
        match r {
            Some(v) => tools_json(tools@) == Some(views(v@)),
            None => tools_json(tools@) is None,
        },
{
    let mut items: Vec<String> = Vec::new();
    let mut i: usize = 0;
    assert(tools@.take(0) =~= Seq::<Tool>::empty());
    while i < tools.len()
        invariant
            i <= tools.len(),
            tools_json(tools@.take(i as int)) == Some(views(items@)),
        decreases tools.len() - i,
    {
        assert(tools@.take(i + 1).drop_last() =~= tools@.take(i as int));
        assert(tools@.take(i + 1).last() == tools@[i as int]);
        match tool_text(&tools[i]) {
            Some(t) => {
                let ghost before = views(items@);
                items.push(t);
                assert(views(items@) =~= before.push(t@));
            },
            None => {
                proof {
                    lemma_tools_json_none(tools@, i as int);
                }
                return None;
            },
        }
        i += 1;
    }
    assert(tools@.take(tools@.len() as int) =~= tools@);
    Some(items)
}

/// A tool whose parameters are not JSON spoils the whole list.
proof fn lemma_tools_json_none(tools: Seq<Tool>, i: int)
    requires
        0 <= i < tools.len(),
        tool_json(tools[i]) is None,
    ensures
        tools_json(tools) is None,
    decreases tools.len(),
{
    if i < tools.len() - 1 {
        lemma_tools_json_none(tools.drop_last(), i);
        assert(tools.drop_last()[i] == tools[i]);
    }
}

/// Write the body of a conversation request; `temperature` is the JSON
/// rendering of the options' temperature, when they set one. None when the
/// parameters, the response format or a tool's parameters are not JSON (a
/// programming error of the app).
#[verifier::rlimit(60)]
pub fn converse_request_body(
    inputs: &Vec<RequestInput>,
    options: &Option<RequestOptions>,
    temperature: Option<String>,
) -> (r: Option<String>)
    ensures
        r is None <==> (options matches Some(o) && (embedded(o.parameters) is None
            || embedded(o.response_format) is None || tools_json(o.tools@) is None)),
        r matches Some(b) ==> exists|pairs: Seq<(String, String)>| {
            &&& sorted_keys(pairs)
            &&& pairs_map(pairs) == pairs_map(match *options { Some(o) => o.metadata@, None => Seq::empty() })
            &&& request_body_of(inputs@, *options, opt_view(temperature), pair_views(pairs)) == Some(b@)
        },
{
    let inputs_json_text = request_inputs_text(inputs);
    let ghost inputs_member = json_member(
        "inputs"@,
        json_array(inputs@.map_values(|i: RequestInput| request_input_json(i))),
    );
    match options {
        None => {
            let mut members: Vec<String> = Vec::new();
            push_member(&mut members, "inputs", inputs_json_text.as_str());
            let empty: Vec<(String, String)> = Vec::new();
            assert(pairs_map(empty@) =~= pairs_map(Seq::<(String, String)>::empty()));
            assert(sorted_keys(empty@));
            assert(views(members@) =~= seq![inputs_member]);
            let b = object_text(&members);
            assert(request_body_of(inputs@, *options, opt_view(temperature), pair_views(empty@)) == Some(b@));
            Some(b)
        },
        Some(o) => {
            let parameters = match embed(&o.parameters) {
                Some(p) => p,
                None => return None,
            };
            let format = match embed(&o.response_format) {
                Some(f) => f,
                None => return None,
            };
            let tools = match tools_text(&o.tools) {
                Some(t) => t,
                None => return None,
            };
            let pairs = metadata_pairs(metadata_map(&o.metadata));
            let mut members: Vec<String> = Vec::new();
            push_opt_member(&mut members, "contextId", crate::json_text::opt_quoted(&o.context_id));
            push_member(&mut members, "inputs", inputs_json_text.as_str());
            let ghost m2 = views(members@);
            if o.metadata.len() > 0 {
                push_member(&mut members, "metadata", string_map_text(&pairs).as_str());
            }
            assert(views(members@) =~= m2 + metadata_member(o.metadata@, pair_views(pairs@)));
            push_opt_member(&mut members, "parameters", parameters);
            push_opt_member(&mut members, "promptCacheRetention", crate::json_text::opt_quoted(&o.prompt_cache_retention));
            push_opt_member(&mut members, "responseFormat", format);
            push_opt_member(&mut members, "scrubPii", opt_bool_text(o.scrub_pii));
            push_opt_member(&mut members, "temperature", temperature);
            push_opt_member(&mut members, "toolChoice", crate::json_text::opt_quoted(&o.tool_choice));
            let ghost m9 = views(members@);
            if o.tools.len() > 0 {
                push_member(&mut members, "tools", array_text(&tools).as_str());
            }
            let b = object_text(&members);
            proof {
                assert(views(members@) =~= opt_member("contextId"@, opt_string_json(o.context_id)) + seq![inputs_member]
                    + metadata_member(o.metadata@, pair_views(pairs@)) + opt_member("parameters"@, opt_view(parameters))
                    + opt_member("promptCacheRetention"@, opt_string_json(o.prompt_cache_retention))
                    + opt_member("responseFormat"@, opt_view(format))
                    + opt_member("scrubPii"@, opt_bool_json(o.scrub_pii))
                    + opt_member("temperature"@, opt_view(temperature))
                    + opt_member("toolChoice"@, opt_string_json(o.tool_choice))
                    + if o.tools@.len() > 0 {
                    seq![json_member("tools"@, json_array(views(tools@)))]
                } else {
                    Seq::empty()
                });
                assert(request_body_of(inputs@, *options, opt_view(temperature), pair_views(pairs@)) == Some(b@));
            }
            Some(b)
        },
    }
}

// ---------------------------------------------------------------------------
// The options the gRPC conversation takes

/// A text that reads as a JSON object.
pub open spec fn is_json_object(t: Seq<char>) -> bool {
    json_object_members(encode_utf8(t)) matches Ok(Some(_))
}

/// An absent text, or one that reads as a JSON object.
pub open spec fn object_or_absent(o: Option<String>) -> bool {
    match o {
        Some(t) => is_json_object(t@),
        None => true,
    }
}

/// An absent retention, or one humantime reads as a duration whose seconds
/// fit the proto's field.
pub open spec fn retention_ok(o: Option<String>) -> bool {
    match o {
        Some(t) => humantime_duration(t@) matches Some(d) && duration_fields(d) is Some,
        None => true,
    }
}

/// Options the gRPC conversation can send: the parameters, the response
/// format and every tool's parameters JSON objects when given, and the
/// prompt-cache retention a duration of the proto's range. Any other
/// options are a programming error of the app, which traps on them.
pub open spec fn options_valid(o: RequestOptions) -> bool {
    &&& object_or_absent(o.parameters)
    &&& object_or_absent(o.response_format)
    &&& forall|i: int| 0 <= i < o.tools@.len() ==> object_or_absent(#[trigger] o.tools@[i].parameters)
    &&& retention_ok(o.prompt_cache_retention)
}

fn is_object(text: &Option<String>) -> (b: bool)
    ensures
        b == object_or_absent(*text),
{
    match text {
        Some(t) => match object_members(bytes_of(t.as_str()).as_slice()) {
            Ok(Some(_)) => true,
            _ => false,
        },
        None => true,
    }
}

/// Whether the gRPC conversation can send these options (see
/// [`options_valid`]); the retention, when given, must be a text in range.
pub fn converse_options_valid(o: &RequestOptions) -> (b: bool)
    requires
        o.prompt_cache_retention matches Some(t) ==> interval_in_range(t@),
    ensures
        b == options_valid(*o),
{
    if !is_object(&o.parameters) || !is_object(&o.response_format) {
        return false;
    }
    let mut i: usize = 0;
    while i < o.tools.len()
        invariant
            i <= o.tools.len(),
            forall|k: int| 0 <= k < i ==> object_or_absent(#[trigger] o.tools@[k].parameters),
        decreases o.tools.len() - i,
    {
        if !is_object(&o.tools[i].parameters) {
            return false;
        }
        i += 1;
    }
    match &o.prompt_cache_retention {
        Some(t) => interval_pb(t.as_str()).is_some(),
        None => true,
    }
}

/// Every message is wrapped under the key of the role it speaks in: the
/// alpha2 message of a role is one JSON member whose key is that role's
/// key (`ofSystem` for a system message, `ofAssistant` for an assistant's,
/// and so on), so the single-text messages, which take their key from the
/// role, are keyed as the full messages of the same role are.
pub proof fn lemma_messages_keyed_by_role(m: Message)
    ensures
        exists|body: Seq<char>| full_message_json(m) == json_object(seq![json_member(role_word(message_role(m)), body)]),
{
    match m {
        Message::Developer(p) => {
            assert(full_message_json(m) == json_object(seq![json_member(role_word(message_role(m)), participant_json(p))]));
        },
        Message::System(p) => {
            assert(full_message_json(m) == json_object(seq![json_member(role_word(message_role(m)), participant_json(p))]));
        },
        Message::User(p) => {
            assert(full_message_json(m) == json_object(seq![json_member(role_word(message_role(m)), participant_json(p))]));
        },
        Message::Assistant { name, content, tool_calls } => {
            let body = json_object(
                seq![json_member("content"@, content_json(content@))] + opt_member("name"@, opt_string_json(name))
                    + if tool_calls@.len() > 0 {
                    seq![json_member("toolCalls"@, json_array(tool_calls@.map_values(|c: ToolCall| tool_call_json(c))))]
                } else {
                    Seq::empty()
                },
            );
            assert(full_message_json(m) == json_object(seq![json_member(role_word(message_role(m)), body)]));
        },
        Message::Tool { tool_id, name, content } => {
            let body = json_object(
                seq![json_member("content"@, content_json(content@)), json_member("name"@, json_string(name@))]
                    + opt_member("toolId"@, opt_string_json(tool_id)),
            );
            assert(full_message_json(m) == json_object(seq![json_member(role_word(message_role(m)), body)]));
        },
    }
}

/// A single-text message is written as the full message of its role
/// holding that one text and no name (for every role but `tool`, whose
/// full message also names the tool): `p` is such a participant, `calls`
/// no tool calls.
pub proof fn lemma_single_text_is_full_message(m: ConversationMessage, p: Participant, calls: Vec<ToolCall>)
    requires
        m.role != ConversationRole::Tool,
        p.name is None,
        p.content@ == seq![m.content],
        calls@.len() == 0,
    ensures
        message_json(m) == full_message_json(match m.role {
            ConversationRole::Developer => Message::Developer(p),
            ConversationRole::System => Message::System(p),
            ConversationRole::User => Message::User(p),
            _ => Message::Assistant { name: None, content: p.content, tool_calls: calls },
        }),
{
    assert(p.content@.map_values(|t: String| text_part(t@)) =~= seq![text_part(m.content@)]);
    assert(opt_member("name"@, opt_string_json(None)) =~= Seq::<Seq<char>>::empty());
    assert(seq![json_member("content"@, json_array(seq![text_part(m.content@)]))] + Seq::<Seq<char>>::empty()
        =~= seq![json_member("content"@, json_array(seq![text_part(m.content@)]))]);
    assert(seq![json_member("content"@, json_array(seq![text_part(m.content@)]))] + Seq::<Seq<char>>::empty()
        + Seq::<Seq<char>>::empty() =~= seq![json_member("content"@, json_array(seq![text_part(m.content@)]))]);
}

} // verus!

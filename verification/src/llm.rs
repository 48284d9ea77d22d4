use vstd::prelude::*;

use crate::config::{opt_json, opt_text, Backend};
use crate::error::AssistError;
use crate::json::{
    get_index, get_key, items_view, json_str, key_of, lemma_items_view_index, lemma_member_absent,
    lemma_member_found, lemma_members_view_index, member, members_view, Json, JsonView,
};

verus! {

/// One member of the object of a tool call's arguments, as the tools read it.
#[derive(Clone, Debug, PartialEq)]
pub struct ArgField {
    pub key: String,
    /// The text of the value, when the value is a JSON string.
    pub as_str: Option<String>,
    /// The compact JSON text of the value.
    pub text: String,
}

/// The parsed arguments of a tool call.
#[derive(Clone, Debug, PartialEq)]
pub struct ToolArguments {
    /// The compact JSON text of the arguments.
    pub text: String,
    /// The members, in the parser's order, when the arguments are an object.
    pub fields: Option<Vec<ArgField>>,
}

/// The mathematical value of an [`ArgField`].
pub struct ArgFieldView {
    pub key: Seq<char>,
    pub as_str: Option<Seq<char>>,
    pub text: Seq<char>,
}

/// The mathematical value of [`ToolArguments`].
pub struct ToolArgumentsView {
    pub text: Seq<char>,
    pub fields: Option<Seq<ArgFieldView>>,
}

impl View for ArgField {
    type V = ArgFieldView;

    open spec fn view(&self) -> ArgFieldView {
        ArgFieldView {
            key: self.key@,
            as_str: match self.as_str {
                Some(s) => Some(s@),
                None => None,
            },
            text: self.text@,
        }
    }
}

impl View for ToolArguments {
    type V = ToolArgumentsView;

    open spec fn view(&self) -> ToolArgumentsView {
        ToolArgumentsView {
            text: self.text@,
            fields: match self.fields {
                Some(f) => Some(f@.map_values(|a: ArgField| a@)),
                None => None,
            },
        }
    }
}

impl ArgField {
    /// A member named `key` whose value has the compact JSON text `text`.
    pub fn new(key: &String, as_str: Option<&str>, text: String) -> (f: ArgField)
        ensures
            f.key == *key,
            f.text == text,
            match as_str {
                Some(s) => f.as_str matches Some(t) && t@ == s@,
                None => f.as_str is None,
            },
    {
        ArgField {
            key: key.clone(),
            as_str: match as_str {
                Some(s) => Some(s.to_string()),
                None => None,
            },
            text,
        }
    }
}

/// What `serde_json` parses the text `text` into, as the tools read it;
/// `None` when the text is not JSON.
pub uninterp spec fn json_arguments(text: Seq<char>) -> Option<ToolArgumentsView>;

/// `serde_json::from_str::<serde_json::Value>`: parses the arguments of a tool call,
/// and keeps of the value its compact text (`Value::to_string`) and, for an
/// object, each member's key, string text (`Value::as_str`) and compact text.
/// The result is named; besides, the members of a parsed object have distinct
/// keys, as a JSON map's keys are.
#[verifier::external_body]
pub(crate) fn parse_arguments(text: &str) -> (r: Result<ToolArguments, serde_json::Error>)
    ensures
        match r {
            Ok(a) => json_arguments(text@) == Some(a@),
            Err(_) => json_arguments(text@) is None,
        },
        r matches Ok(a) ==> (a.fields matches Some(f) ==> forall|i: int, j: int|
            0 <= i < j < f@.len() ==> f@[i].key@ != f@[j].key@),
{
    match serde_json::from_str::<serde_json::Value>(text) {
        Ok(v) => Ok(ToolArguments {
            text: v.to_string(),
            fields: v.as_object().map(
                |m| m.iter().map(|(k, x)| ArgField::new(k, x.as_str(), x.to_string())).collect(),
            ),
        }),
        Err(e) => Err(e),
    }
}

/// A tool call the model asked for.
#[derive(Clone, Debug, PartialEq)]
pub struct ToolCall {
    pub id: String,
    pub name: String,
    pub arguments: ToolArguments,
}

impl ToolArguments {
    /// A copy of the arguments.
    pub fn duplicate(&self) -> (r: ToolArguments)
        ensures
            r@ == self@,
    {
        let fields = match &self.fields {
            None => None,
            Some(f) => {
                let mut out: Vec<ArgField> = Vec::new();
                let mut k: usize = 0;
                while k < f.len()
                    invariant
                        k <= f.len(),
                        out@ == f@.subrange(0, k as int),
                    decreases f.len() - k,
                {
                    let a = &f[k];
                    out.push(
                        ArgField {
                            key: a.key.clone(),
                            as_str: match &a.as_str {
                                Some(t) => Some(t.clone()),
                                None => None,
                            },
                            text: a.text.clone(),
                        },
                    );
                    k = k + 1;
                }
                assert(f@.subrange(0, f.len() as int) =~= f@);
                Some(out)
            },
        };
        ToolArguments { text: self.text.clone(), fields }
    }
}

impl ToolCall {
    /// A copy of the call.
    pub fn duplicate(&self) -> (r: ToolCall)
        ensures
            r.id == self.id,
            r.name == self.name,
            r.arguments@ == self.arguments@,
    {
        ToolCall { id: self.id.clone(), name: self.name.clone(), arguments: self.arguments.duplicate() }
    }
}

/// What a tool answered to a call.
#[derive(Clone, Debug, PartialEq)]
pub struct ToolResponse {
    pub tool_call_id: String,
    pub output: String,
}

/// A tool call repeated in the assistant's message.
#[derive(Clone, Debug, PartialEq)]
pub struct AssistantToolCall {
    pub id: String,
    pub name: String,
    /// The arguments as compact JSON text.
    pub arguments: String,
}

/// A message of the conversation sent to the model.
#[allow(inconsistent_fields)]
#[derive(Clone, Debug, PartialEq)]
pub enum ChatMessage {
    System { content: String },
    User { content: String },
    Assistant { content: Option<String>, tool_calls: Vec<AssistantToolCall> },
    Tool { tool_call_id: String, content: String },
}

/// A tool as it is offered to the model.
#[derive(Clone, Debug, PartialEq)]
pub struct ToolDescription {
    pub name: String,
    pub description: String,
    pub parameters: Json,
}

/// The body of a chat-completion request.
#[derive(Clone, Debug, PartialEq)]
pub struct ChatRequest {
    pub model: String,
    pub messages: Vec<ChatMessage>,
    pub options: Option<Json>,
    pub tools: Option<Vec<ToolDescription>>,
    pub tool_choice: Option<String>,
}

/// The request timeout of a backend, in seconds: its own, or 30.
pub open spec fn timeout_spec(b: Backend) -> u64 {
    match b.timeout_secs {
        Some(t) => t,
        None => 30,
    }
}

/// The timeout the HTTP client of a backend is built with.
pub fn client_timeout_secs(backend: &Backend) -> (t: u64)
    ensures
        t == timeout_spec(*backend),
{
    match backend.timeout_secs {
        Some(t) => t,
        None => 30,
    }
}

/// `r` is the first request of a conversation: the system prompt, the user's
/// message, the backend's model and options, and the tools when there are any,
/// with `tool_choice` `auto`.
pub open spec fn first_request(
    r: ChatRequest,
    backend: Backend,
    system_prompt: Seq<char>,
    user_message: Seq<char>,
    tools: Vec<ToolDescription>,
) -> bool {
    &&& r.model == backend.model
    &&& r.messages@.len() == 2
    &&& r.messages@[0] matches ChatMessage::System { content } && content@ == system_prompt
    &&& r.messages@[1] matches ChatMessage::User { content } && content@ == user_message
    &&& opt_json(r.options) == opt_json(backend.options)
    &&& tools@.len() > 0 ==> r.tools == Some(tools) && (r.tool_choice matches Some(c) && c@
        == "auto"@)
    &&& tools@.len() == 0 ==> r.tools is None && r.tool_choice is None
}

/// `r` is the follow-up request: the earlier messages, then one tool message
/// per response, in order; the backend's model and options; no tools.
pub open spec fn follow_up(
    r: ChatRequest,
    backend: Backend,
    messages: Seq<ChatMessage>,
    responses: Seq<ToolResponse>,
) -> bool {
    &&& r.model == backend.model
    &&& r.messages@ == messages + responses.map_values(|t: ToolResponse| tool_message(t))
    &&& opt_json(r.options) == opt_json(backend.options)
    &&& r.tools is None
    &&& r.tool_choice is None
}

/// `m` is the conversation the tool results are sent back with: the system
/// prompt, the user's message, and the assistant's message with the text
/// `content` and each call repeated in order.
pub open spec fn conversation(
    m: Seq<ChatMessage>,
    system_prompt: Seq<char>,
    user_message: Seq<char>,
    content: Option<Seq<char>>,
    calls: Seq<ToolCall>,
) -> bool {
    &&& m.len() == 3
    &&& m[0] matches ChatMessage::System { content } && content@ == system_prompt
    &&& m[1] matches ChatMessage::User { content } && content@ == user_message
    &&& m[2] matches ChatMessage::Assistant { content: c, tool_calls } && opt_text(c) == content
        && tool_calls@.len() == calls.len() && forall|k: int|
        0 <= k < calls.len() ==> {
            &&& (#[trigger] tool_calls@[k]).id == calls[k].id
            &&& tool_calls@[k].name == calls[k].name
            &&& tool_calls@[k].arguments == calls[k].arguments.text
        }
}

/// The first request of a conversation: the system prompt, the user's message,
/// the backend's options, and the tools when there are any.
pub fn chat_request(
    backend: &Backend,
    system_prompt: &str,
    user_message: &str,
    tools: Vec<ToolDescription>,
) -> (r: ChatRequest)
    ensures
        first_request(r, *backend, system_prompt@, user_message@, tools),
{
    let mut messages: Vec<ChatMessage> = Vec::new();
    messages.push(ChatMessage::System { content: system_prompt.to_string() });
    messages.push(ChatMessage::User { content: user_message.to_string() });
    let options = match &backend.options {
        Some(o) => Some(o.duplicate()),
        None => None,
    };
    let has_tools = tools.len() > 0;
    ChatRequest {
        model: backend.model.clone(),
        messages,
        options,
        tools: if has_tools {
            Some(tools)
        } else {
            None
        },
        tool_choice: if has_tools {
            Some(String::from_str("auto"))
        } else {
            None
        },
    }
}

/// The message that reports a tool's answer.
pub open spec fn tool_message(r: ToolResponse) -> ChatMessage {
    ChatMessage::Tool { tool_call_id: r.tool_call_id, content: r.output }
}

/// The follow-up request: the earlier messages, then one tool message per
/// response, in order; no tools are offered.
pub fn tool_results_request(
    backend: &Backend,
    original_messages: Vec<ChatMessage>,
    tool_responses: Vec<ToolResponse>,
) -> (r: ChatRequest)
    ensures
        follow_up(r, *backend, original_messages@, tool_responses@),
        opt_json(r.options) == opt_json(backend.options),
{
    let mut messages = original_messages;
    let ghost start = messages@;
    let mut i: usize = 0;
    while i < tool_responses.len()
        invariant
            i <= tool_responses.len(),
            messages@ == start + tool_responses@.subrange(0, i as int).map_values(
                |t: ToolResponse| tool_message(t),
            ),
        decreases tool_responses.len() - i,
    {
        let tr = &tool_responses[i];
        messages.push(
            ChatMessage::Tool { tool_call_id: tr.tool_call_id.clone(), content: tr.output.clone() },
        );
        assert(tool_responses@.subrange(0, i + 1).map_values(|t: ToolResponse| tool_message(t))
            =~= tool_responses@.subrange(0, i as int).map_values(|t: ToolResponse| tool_message(t)).push(
            tool_message(tool_responses@[i as int])));
        i = i + 1;
    }
    assert(tool_responses@.subrange(0, tool_responses.len() as int) =~= tool_responses@);
    let options = match &backend.options {
        Some(o) => Some(o.duplicate()),
        None => None,
    };
    ChatRequest { model: backend.model.clone(), messages, options, tools: None, tool_choice: None }
}

/// The JSON form of a tool call repeated in the assistant's message.
pub open spec fn assistant_call_json(c: AssistantToolCall) -> JsonView {
    JsonView::Object(
        seq![
            ("id"@, JsonView::Str(c.id@)),
            ("type"@, JsonView::Str("function"@)),
            ("function"@, JsonView::Object(
                seq![("name"@, JsonView::Str(c.name@)), ("arguments"@, JsonView::Str(c.arguments@))],
            )),
        ],
    )
}

/// The JSON form of a message.
pub open spec fn message_json(m: ChatMessage) -> JsonView {
    match m {
        ChatMessage::System { content } => JsonView::Object(
            seq![("role"@, JsonView::Str("system"@)), ("content"@, JsonView::Str(content@))],
        ),
        ChatMessage::User { content } => JsonView::Object(
            seq![("role"@, JsonView::Str("user"@)), ("content"@, JsonView::Str(content@))],
        ),
        ChatMessage::Assistant { content, tool_calls } => JsonView::Object(
            seq![
                ("role"@, JsonView::Str("assistant"@)),
                ("content"@, match content {
                    Some(c) => JsonView::Str(c@),
                    None => JsonView::Null,
                }),
                ("tool_calls"@, JsonView::Array(
                    tool_calls@.map_values(|c: AssistantToolCall| assistant_call_json(c)),
                )),
            ],
        ),
        ChatMessage::Tool { tool_call_id, content } => JsonView::Object(
            seq![
                ("role"@, JsonView::Str("tool"@)),
                ("tool_call_id"@, JsonView::Str(tool_call_id@)),
                ("content"@, JsonView::Str(content@)),
            ],
        ),
    }
}

/// The JSON form of a tool offered to the model.
pub open spec fn description_json(d: ToolDescription) -> JsonView {
    JsonView::Object(
        seq![
            ("type"@, JsonView::Str("function"@)),
            ("function"@, JsonView::Object(
                seq![
                    ("name"@, JsonView::Str(d.name@)),
                    ("description"@, JsonView::Str(d.description@)),
                    ("parameters"@, d.parameters@),
                ],
            )),
        ],
    )
}

/// The body of a request: `model` and `messages`, then `options`, `tools`
/// and `tool_choice` when the request has them.
pub open spec fn request_json_spec(r: ChatRequest) -> JsonView {
    JsonView::Object(request_members(r))
}

/// The members of the body of a request, in order.
pub open spec fn request_members(r: ChatRequest) -> Seq<(Seq<char>, JsonView)> {
        seq![
            ("model"@, JsonView::Str(r.model@)),
            ("messages"@, JsonView::Array(r.messages@.map_values(|m: ChatMessage| message_json(m)))),
        ] + match r.options {
            Some(o) => seq![("options"@, o@)],
            None => Seq::empty(),
        } + match r.tools {
            Some(t) => seq![("tools"@, JsonView::Array(t@.map_values(|d: ToolDescription| description_json(d))))],
            None => Seq::empty(),
        } + match r.tool_choice {
            Some(c) => seq![("tool_choice"@, JsonView::Str(c@))],
            None => Seq::empty(),
        }
}

fn text_json(s: &String) -> (j: Json)
    ensures
        j@ == JsonView::Str(s@),
{
    Json::Str(s.clone())
}

fn assistant_call_to_json(c: &AssistantToolCall) -> (j: Json)
    ensures
        j@ == assistant_call_json(*c),
{
    let mut f: Vec<(String, Json)> = Vec::new();
    f.push(member("name", text_json(&c.name)));
    f.push(member("arguments", text_json(&c.arguments)));
    let ghost fv = f@;
    let mut m: Vec<(String, Json)> = Vec::new();
    m.push(member("id", text_json(&c.id)));
    m.push(member("type", json_str("function")));
    m.push(member("function", Json::Object(f)));
    proof {
        lemma_members_view_index(fv);
        assert(members_view(fv) =~= seq![("name"@, JsonView::Str(c.name@)), ("arguments"@, JsonView::Str(c.arguments@))]);
        lemma_members_view_index(m@);
        assert(members_view(m@) =~= seq![
            ("id"@, JsonView::Str(c.id@)),
            ("type"@, JsonView::Str("function"@)),
            ("function"@, JsonView::Object(members_view(fv))),
        ]);
    }
    Json::Object(m)
}

fn message_to_json(msg: &ChatMessage) -> (j: Json)
    ensures
        j@ == message_json(*msg),
{
    let mut m: Vec<(String, Json)> = Vec::new();
    match msg {
        ChatMessage::System { content } => {
            m.push(member("role", json_str("system")));
            m.push(member("content", text_json(content)));
            proof {
                lemma_members_view_index(m@);
                assert(members_view(m@) =~= seq![("role"@, JsonView::Str("system"@)), ("content"@, JsonView::Str(content@))]);
            }
        },
        ChatMessage::User { content } => {
            m.push(member("role", json_str("user")));
            m.push(member("content", text_json(content)));
            proof {
                lemma_members_view_index(m@);
                assert(members_view(m@) =~= seq![("role"@, JsonView::Str("user"@)), ("content"@, JsonView::Str(content@))]);
            }
        },
        ChatMessage::Assistant { content, tool_calls } => {
            m.push(member("role", json_str("assistant")));
            m.push(
                member(
                    "content",
                    match content {
                        Some(c) => text_json(c),
                        None => Json::Null,
                    },
                ),
            );
            let mut calls: Vec<Json> = Vec::new();
            let mut k: usize = 0;
            while k < tool_calls.len()
                invariant
                    k <= tool_calls.len(),
                    calls@.len() == k,
                    forall|t: int| 0 <= t < k ==> (#[trigger] calls@[t])@ == assistant_call_json(tool_calls@[t]),
                decreases tool_calls.len() - k,
            {
                calls.push(assistant_call_to_json(&tool_calls[k]));
                k = k + 1;
            }
            proof {
                lemma_items_view_index(calls@);
                assert(items_view(calls@) =~= tool_calls@.map_values(|c: AssistantToolCall| assistant_call_json(c)));
            }
            let ghost cv = calls@;
            m.push(member("tool_calls", Json::Array(calls)));
            proof {
                lemma_members_view_index(m@);
                assert(members_view(m@) =~= seq![
                    ("role"@, JsonView::Str("assistant"@)),
                    ("content"@, match content {
                        Some(c) => JsonView::Str(c@),
                        None => JsonView::Null,
                    }),
                    ("tool_calls"@, JsonView::Array(items_view(cv))),
                ]);
            }
        },
        ChatMessage::Tool { tool_call_id, content } => {
            m.push(member("role", json_str("tool")));
            m.push(member("tool_call_id", text_json(tool_call_id)));
            m.push(member("content", text_json(content)));
            proof {
                lemma_members_view_index(m@);
                assert(members_view(m@) =~= seq![
                    ("role"@, JsonView::Str("tool"@)),
                    ("tool_call_id"@, JsonView::Str(tool_call_id@)),
                    ("content"@, JsonView::Str(content@)),
                ]);
            }
        },
    }
    Json::Object(m)
}

fn description_to_json(d: &ToolDescription) -> (j: Json)
    ensures
        j@ == description_json(*d),
{
    let mut f: Vec<(String, Json)> = Vec::new();
    f.push(member("name", text_json(&d.name)));
    f.push(member("description", text_json(&d.description)));
    f.push(member("parameters", d.parameters.duplicate()));
    let ghost fv = f@;
    let mut m: Vec<(String, Json)> = Vec::new();
    m.push(member("type", json_str("function")));
    m.push(member("function", Json::Object(f)));
    proof {
        lemma_members_view_index(fv);
        assert(members_view(fv) =~= seq![
            ("name"@, JsonView::Str(d.name@)),
            ("description"@, JsonView::Str(d.description@)),
            ("parameters"@, d.parameters@),
        ]);
        lemma_members_view_index(m@);
        assert(members_view(m@) =~= seq![
            ("type"@, JsonView::Str("function"@)),
            ("function"@, JsonView::Object(members_view(fv))),
        ]);
    }
    Json::Object(m)
}

impl ChatRequest {
    /// The JSON body sent for this request.
    pub fn to_json(&self) -> (j: Json)
        ensures
            j@ == request_json_spec(*self),
    {
        let mut messages: Vec<Json> = Vec::new();
        let mut k: usize = 0;
        while k < self.messages.len()
            invariant
                k <= self.messages.len(),
                messages@.len() == k,
                forall|t: int| 0 <= t < k ==> (#[trigger] messages@[t])@ == message_json(self.messages@[t]),
            decreases self.messages.len() - k,
        {
            messages.push(message_to_json(&self.messages[k]));
            k = k + 1;
        }
        proof {
            lemma_items_view_index(messages@);
            assert(items_view(messages@) =~= self.messages@.map_values(|m: ChatMessage| message_json(m)));
        }
        let mut m: Vec<(String, Json)> = Vec::new();
        m.push(member("model", text_json(&self.model)));
        m.push(member("messages", Json::Array(messages)));
        let ghost head = m@;
        proof {
            lemma_members_view_index(head);
        }
        match &self.options {
            Some(o) => {
                m.push(member("options", o.duplicate()));
            },
            None => {},
        }
        let ghost with_options = m@;
        match &self.tools {
            Some(tools) => {
                let mut ds: Vec<Json> = Vec::new();
                let mut k: usize = 0;
                while k < tools.len()
                    invariant
                        k <= tools.len(),
                        ds@.len() == k,
                        forall|t: int| 0 <= t < k ==> (#[trigger] ds@[t])@ == description_json(tools@[t]),
                    decreases tools.len() - k,
                {
                    ds.push(description_to_json(&tools[k]));
                    k = k + 1;
                }
                proof {
                    lemma_items_view_index(ds@);
                    assert(items_view(ds@) =~= tools@.map_values(|d: ToolDescription| description_json(d)));
                }
                m.push(member("tools", Json::Array(ds)));
            },
            None => {},
        }
        let ghost with_tools = m@;
        match &self.tool_choice {
            Some(c) => {
                m.push(member("tool_choice", text_json(c)));
            },
            None => {},
        }
        proof {
            lemma_members_view_index(m@);
            lemma_members_view_index(with_options);
            lemma_members_view_index(with_tools);
            assert(members_view(m@) =~= request_members(*self));
        }
        Json::Object(m)
    }
}

/// The conversation that the tool results are sent back with: the system
/// prompt, the user's message, and the assistant's message with its tool calls.
pub fn conversation_with_calls(
    system_prompt: &str,
    user_message: &str,
    content: Option<String>,
    calls: &Vec<ToolCall>,
) -> (m: Vec<ChatMessage>)
    ensures
        conversation(m@, system_prompt@, user_message@, opt_text(content), calls@),
{
    let mut repeated: Vec<AssistantToolCall> = Vec::new();
    let mut i: usize = 0;
    while i < calls.len()
        invariant
            i <= calls.len(),
            repeated@.len() == i,
            forall|k: int|
                0 <= k < i ==> {
                    &&& (#[trigger] repeated@[k]).id == calls@[k].id
                    &&& repeated@[k].name == calls@[k].name
                    &&& repeated@[k].arguments == calls@[k].arguments.text
                },
        decreases calls.len() - i,
    {
        let c = &calls[i];
        repeated.push(
            AssistantToolCall {
                id: c.id.clone(),
                name: c.name.clone(),
                arguments: c.arguments.text.clone(),
            },
        );
        i = i + 1;
    }
    let mut m: Vec<ChatMessage> = Vec::new();
    m.push(ChatMessage::System { content: system_prompt.to_string() });
    m.push(ChatMessage::User { content: user_message.to_string() });
    m.push(ChatMessage::Assistant { content, tool_calls: repeated });
    m
}

/// The body of a request names its model and carries its options, when it
/// has any, under `options`.
pub proof fn lemma_body_model_and_options(r: ChatRequest)
    ensures
        get_key(request_json_spec(r), "model"@) == Some(JsonView::Str(r.model@)),
        get_key(request_json_spec(r), "options"@) == opt_json(r.options),
{
    reveal_strlit("model");
    reveal_strlit("messages");
    reveal_strlit("options");
    reveal_strlit("tools");
    reveal_strlit("tool_choice");
    let ms = request_members(r);
    let key = "options"@;
    assert("model"@.len() == 5 && "messages"@.len() == 8 && key.len() == 7);
    assert("tools"@.len() == 5 && "tool_choice"@.len() == 11);
    assert(ms[0].0 == "model"@);
    lemma_member_found(ms, "model"@, 0);
    match r.options {
        Some(o) => {
            assert(ms[2] == (key, o@));
            assert forall|t: int| 0 <= t < 2 implies (#[trigger] ms[t]).0 != key by {
                assert(ms[t].0.len() != key.len());
            }
            lemma_member_found(ms, key, 2);
        },
        None => {
            assert forall|t: int| 0 <= t < ms.len() implies (#[trigger] ms[t]).0 != key by {
                assert(ms[t].0.len() != key.len());
            }
            lemma_member_absent(ms, key);
        },
    }
}

/// The message at position `i` of the body of a request.
pub open spec fn body_message(r: ChatRequest, i: int) -> Option<JsonView> {
    match get_key(request_json_spec(r), "messages"@) {
        Some(ms) => get_index(ms, i),
        None => None,
    }
}

/// The body of a request lists its messages in order under `messages`.
pub proof fn lemma_body_messages(r: ChatRequest, i: int)
    requires
        0 <= i < r.messages@.len(),
    ensures
        body_message(r, i) == Some(message_json(r.messages@[i])),
{
    reveal_strlit("model");
    reveal_strlit("messages");
    let ms = request_members(r);
    assert("model"@.len() == 5 && "messages"@.len() == 8);
    assert(ms[0].0 != "messages"@);
    assert(ms[1].0 == "messages"@);
    lemma_member_found(ms, "messages"@, 1);
}

/// The tool call at position `k` of the message at position `i` of the body
/// of a request.
pub open spec fn body_tool_call(r: ChatRequest, i: int, k: int) -> Option<JsonView> {
    match body_message(r, i) {
        Some(m) => match get_key(m, "tool_calls"@) {
            Some(cs) => get_index(cs, k),
            None => None,
        },
        None => None,
    }
}

/// In the body of a request, each tool call that an assistant message
/// repeats keeps its id, its name and its arguments, so that the tool
/// message answering it can be matched to it by id.
pub proof fn lemma_body_repeats_tool_calls(r: ChatRequest, i: int, k: int)
    requires
        0 <= i < r.messages@.len(),
        r.messages@[i] is Assistant,
        0 <= k < r.messages@[i]->tool_calls@.len(),
    ensures
        body_message(r, i) matches Some(m) && get_key(m, "role"@) == Some(JsonView::Str("assistant"@)),
        body_tool_call(r, i, k) matches Some(c)
            && get_key(c, "id"@) == Some(JsonView::Str(r.messages@[i]->tool_calls@[k].id@))
            && get_key(c, "type"@) == Some(JsonView::Str("function"@))
            && key_of(get_key(c, "function"@), "name"@) == Some(
            JsonView::Str(r.messages@[i]->tool_calls@[k].name@),
        ) && key_of(get_key(c, "function"@), "arguments"@) == Some(
            JsonView::Str(r.messages@[i]->tool_calls@[k].arguments@),
        ),
{
    lemma_body_messages(r, i);
    reveal_strlit("role");
    reveal_strlit("content");
    reveal_strlit("tool_calls");
    reveal_strlit("id");
    reveal_strlit("type");
    reveal_strlit("function");
    reveal_strlit("name");
    reveal_strlit("arguments");
    assert("role"@.len() == 4 && "content"@.len() == 7 && "tool_calls"@.len() == 10);
    assert("id"@.len() == 2 && "type"@.len() == 4 && "function"@.len() == 8);
    assert("name"@.len() == 4 && "arguments"@.len() == 9);
    let call = r.messages@[i]->tool_calls@[k];
    let mm = match message_json(r.messages@[i]) {
        JsonView::Object(m) => m,
        _ => Seq::empty(),
    };
    lemma_member_found(mm, "role"@, 0);
    assert(mm[0].0 != "tool_calls"@ && mm[1].0 != "tool_calls"@);
    lemma_member_found(mm, "tool_calls"@, 2);
    let cm = match assistant_call_json(call) {
        JsonView::Object(m) => m,
        _ => Seq::empty(),
    };
    lemma_member_found(cm, "id"@, 0);
    assert(cm[0].0 != "type"@);
    lemma_member_found(cm, "type"@, 1);
    assert(cm[0].0 != "function"@ && cm[1].0 != "function"@);
    lemma_member_found(cm, "function"@, 2);
    let fm = seq![("name"@, JsonView::Str(call.name@)), ("arguments"@, JsonView::Str(call.arguments@))];
    lemma_member_found(fm, "name"@, 0);
    assert(fm[0].0 != "arguments"@);
    lemma_member_found(fm, "arguments"@, 1);
}

/// In the body of a request, a tool message carries the id of the call it
/// answers and the tool's output.
pub proof fn lemma_body_tool_message(r: ChatRequest, i: int)
    requires
        0 <= i < r.messages@.len(),
        r.messages@[i] is Tool,
    ensures
        body_message(r, i) matches Some(m)
            && get_key(m, "role"@) == Some(JsonView::Str("tool"@))
            && get_key(m, "tool_call_id"@) == Some(JsonView::Str(r.messages@[i]->tool_call_id@))
            && get_key(m, "content"@) == Some(JsonView::Str(r.messages@[i]->Tool_content@)),
{
    lemma_body_messages(r, i);
    reveal_strlit("role");
    reveal_strlit("tool_call_id");
    reveal_strlit("content");
    assert("role"@.len() == 4 && "tool_call_id"@.len() == 12 && "content"@.len() == 7);
    let mm = match message_json(r.messages@[i]) {
        JsonView::Object(m) => m,
        _ => Seq::empty(),
    };
    lemma_member_found(mm, "role"@, 0);
    assert(mm[0].0 != "tool_call_id"@);
    lemma_member_found(mm, "tool_call_id"@, 1);
    assert(mm[0].0 != "content"@ && mm[1].0 != "content"@);
    lemma_member_found(mm, "content"@, 2);
}

/// The follow-up request is sent to the same model with the same options as
/// the first request of the conversation: those of the backend.
pub proof fn lemma_follow_up_keeps_model_and_options(
    first: ChatRequest,
    next: ChatRequest,
    backend: Backend,
    system_prompt: Seq<char>,
    user_message: Seq<char>,
    tools: Vec<ToolDescription>,
    messages: Seq<ChatMessage>,
    responses: Seq<ToolResponse>,
)
    requires
        first_request(first, backend, system_prompt, user_message, tools),
        follow_up(next, backend, messages, responses),
    ensures
        get_key(request_json_spec(next), "options"@) == opt_json(backend.options),
        get_key(request_json_spec(next), "options"@) == get_key(request_json_spec(first), "options"@),
        get_key(request_json_spec(next), "model"@) == Some(JsonView::Str(backend.model@)),
        get_key(request_json_spec(next), "model"@) == get_key(request_json_spec(first), "model"@),
{
    lemma_body_model_and_options(first);
    lemma_body_model_and_options(next);
}

} // verus!

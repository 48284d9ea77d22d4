use vstd::prelude::*;

use crate::config::opt_text;
use crate::error::{json_error_text, AssistError};
use crate::json::{
    as_text, at, get, get_index, get_key, get_opt, items_view, key_of, lemma_items_view_index,
    opt_view, text_of, Json, JsonView,
};
use crate::llm::{json_arguments, parse_arguments, ToolArguments, ToolCall};
use crate::text::text_eq;

verus! {

/// A tool call as it stands in the model's answer; each field is present when
/// the answer holds a JSON string there.
#[derive(Clone, Debug, PartialEq)]
pub struct RawToolCall {
    pub kind: Option<String>,
    pub id: Option<String>,
    pub name: Option<String>,
    pub arguments: Option<String>,
}

/// What the assistant reads of the model's answer.
#[derive(Clone, Debug, PartialEq)]
pub struct ChatResponse {
    /// `choices[0]` is a JSON object.
    pub has_choice: bool,
    /// `choices[0]` is an object with a member `message`.
    pub has_message: bool,
    /// `choices[0].message.content`, when it is a string.
    pub content: Option<String>,
    /// `choices[0].message.tool_calls`, when it is an array.
    pub tool_calls: Option<Vec<RawToolCall>>,
}

/// The mathematical value of a [`RawToolCall`].
pub struct RawCallView {
    pub kind: Option<Seq<char>>,
    pub id: Option<Seq<char>>,
    pub name: Option<Seq<char>>,
    pub arguments: Option<Seq<char>>,
}

/// The mathematical value of a [`ChatResponse`].
pub struct ResponseView {
    pub has_choice: bool,
    pub has_message: bool,
    pub content: Option<Seq<char>>,
    pub tool_calls: Option<Seq<RawCallView>>,
}

impl View for RawToolCall {
    type V = RawCallView;

    open spec fn view(&self) -> RawCallView {
        RawCallView {
            kind: opt_text(self.kind),
            id: opt_text(self.id),
            name: opt_text(self.name),
            arguments: opt_text(self.arguments),
        }
    }
}

impl View for ChatResponse {
    type V = ResponseView;

    open spec fn view(&self) -> ResponseView {
        ResponseView {
            has_choice: self.has_choice,
            has_message: self.has_message,
            content: opt_text(self.content),
            tool_calls: match self.tool_calls {
                Some(c) => Some(c@.map_values(|t: RawToolCall| t@)),
                None => None,
            },
        }
    }
}

/// What the assistant reads of one element of `tool_calls`: its `type`, `id`,
/// `function.name` and `function.arguments`, each when it is a string.
pub open spec fn raw_call_spec(c: JsonView) -> RawCallView {
    RawCallView {
        kind: text_of(get_key(c, "type"@)),
        id: text_of(get_key(c, "id"@)),
        name: text_of(key_of(get_key(c, "function"@), "name"@)),
        arguments: text_of(key_of(get_key(c, "function"@), "arguments"@)),
    }
}

/// The first choice of an answer, if the answer has one.
pub open spec fn first_choice(doc: JsonView) -> Option<JsonView> {
    match get_key(doc, "choices"@) {
        Some(c) => get_index(c, 0),
        None => None,
    }
}

/// What the assistant reads of the model's answer `doc`.
pub open spec fn response_spec(doc: JsonView) -> ResponseView {
    let choice = first_choice(doc);
    let message = key_of(choice, "message"@);
    ResponseView {
        has_choice: choice matches Some(JsonView::Object(_)),
        has_message: message is Some,
        content: text_of(key_of(message, "content"@)),
        tool_calls: match key_of(message, "tool_calls"@) {
            Some(JsonView::Array(items)) => Some(items.map_values(|c: JsonView| raw_call_spec(c))),
            _ => None,
        },
    }
}

fn raw_call_of(c: &Json) -> (r: RawToolCall)
    ensures
        r@ == raw_call_spec(c@),
{
    let function = get(c, "function");
    RawToolCall {
        kind: as_text(get(c, "type")),
        id: as_text(get(c, "id")),
        name: as_text(get_opt(function, "name")),
        arguments: as_text(get_opt(function, "arguments")),
    }
}

/// Reads the model's answer.
pub fn chat_response_of(doc: &Json) -> (r: ChatResponse)
    ensures
        r@ == response_spec(doc@),
{
    let choice = match get(doc, "choices") {
        Some(c) => at(c, 0),
        None => None,
    };
    let has_choice = match choice {
        Some(Json::Object(_)) => true,
        _ => false,
    };
    let message = get_opt(choice, "message");
    let content = as_text(get_opt(message, "content"));
    let tool_calls = match get_opt(message, "tool_calls") {
        Some(Json::Array(items)) => {
            proof {
                lemma_items_view_index(items@);
            }
            let ghost iv = items_view(items@);
            let mut calls: Vec<RawToolCall> = Vec::new();
            let mut k: usize = 0;
            while k < items.len()
                invariant
                    iv == items_view(items@),
                    iv.len() == items@.len(),
                    forall|t: int| 0 <= t < items@.len() ==> #[trigger] iv[t] == items@[t]@,
                    k <= items.len(),
                    calls@.len() == k,
                    forall|t: int| 0 <= t < k ==> (#[trigger] calls@[t])@ == raw_call_spec(iv[t]),
                decreases items.len() - k,
            {
                calls.push(raw_call_of(&items[k]));
                k = k + 1;
            }
            assert(calls@.map_values(|t: RawToolCall| t@) =~= iv.map_values(
                |c: JsonView| raw_call_spec(c),
            ));
            Some(calls)
        },
        _ => None,
    };
    ChatResponse { has_choice, has_message: message.is_some(), content, tool_calls }
}

/// The calls the assistant acts on: those whose `type` is the string `function`.
pub open spec fn is_function_call(c: RawCallView) -> bool {
    c.kind == Some("function"@)
}

/// [`is_function_call`] as a predicate value.
pub open spec fn function_call_pred() -> spec_fn(RawCallView) -> bool {
    |c: RawCallView| is_function_call(c)
}

/// The calls of `calls` that the assistant acts on, in order.
pub open spec fn function_calls(calls: Seq<RawCallView>) -> Seq<RawCallView> {
    calls.filter(function_call_pred())
}

/// A text field of a call, or the empty text when it is missing.
pub open spec fn text_or_empty(s: Option<Seq<char>>) -> Seq<char> {
    match s {
        Some(t) => t,
        None => Seq::empty(),
    }
}

/// The arguments text of a call, or `{}` when it is missing.
pub open spec fn arguments_text(c: RawCallView) -> Seq<char> {
    match c.arguments {
        Some(a) => a,
        None => "{}"@,
    }
}

/// Every call the assistant acts on has arguments that parse.
pub open spec fn all_arguments_parse(calls: Seq<RawCallView>) -> bool {
    forall|j: int|
        0 <= j < function_calls(calls).len() ==> #[trigger] json_arguments(
            arguments_text(function_calls(calls)[j]),
        ) is Some
}

/// `out` holds one call per call of `calls` that the assistant acts on, in order.
pub open spec fn calls_read(calls: Seq<RawCallView>, out: Seq<ToolCall>) -> bool {
    let sel = function_calls(calls);
    &&& out.len() == sel.len()
    &&& forall|k: int|
        0 <= k < out.len() ==> {
            &&& (#[trigger] out[k]).id@ == text_or_empty(sel[k].id)
            &&& out[k].name@ == text_or_empty(sel[k].name)
            &&& json_arguments(arguments_text(sel[k])) == Some(out[k].arguments@)
        }
}

/// The outcome of reading the first answer `resp`: no choice is an error; the
/// text is kept; without `tool_calls` there are no calls; otherwise every
/// `function` call, in order, or an error when the arguments of one do not parse.
pub open spec fn reply_outcome(
    resp: ResponseView,
    r: Result<(Option<String>, Option<Vec<ToolCall>>), AssistError>,
) -> bool {
    match r {
        Err(AssistError::NoChoice) => !resp.has_choice,
        Err(AssistError::InvalidArguments(_)) => resp.has_choice && (resp.tool_calls matches Some(
            calls,
        ) && !all_arguments_parse(calls)),
        Err(_) => false,
        Ok((content, calls_out)) => {
            &&& resp.has_choice
            &&& opt_text(content) == resp.content
            &&& match resp.tool_calls {
                None => calls_out is None,
                Some(calls) => all_arguments_parse(calls) && (calls_out matches Some(out)
                    && calls_read(calls, out@)),
            }
        },
    }
}

/// The text handed to the parser for a call's arguments.
pub fn arguments_text_of(raw: &RawToolCall) -> (t: String)
    ensures
        t@ == arguments_text(raw@),
{
    match &raw.arguments {
        Some(a) => a.clone(),
        None => String::from_str("{}"),
    }
}

/// The tool call made of a call of the answer and its parsed arguments.
pub fn tool_call_of(raw: &RawToolCall, arguments: ToolArguments) -> (c: ToolCall)
    ensures
        c.id@ == text_or_empty(raw@.id),
        c.name@ == text_or_empty(raw@.name),
        c.arguments == arguments,
{
    proof {
        reveal_strlit("");
    }
    let id = match &raw.id {
        Some(t) => t.clone(),
        None => String::from_str(""),
    };
    let name = match &raw.name {
        Some(t) => t.clone(),
        None => String::from_str(""),
    };
    ToolCall { id, name, arguments }
}

/// Reads the model's first answer: its text, and the tool calls it asks for.
/// A first choice that is an object without `message` is not an answer.
pub fn read_chat_reply(resp: ChatResponse) -> (r: Result<
    (Option<String>, Option<Vec<ToolCall>>),
    AssistError,
>)
    requires
        resp.has_choice ==> resp.has_message,
    ensures
        reply_outcome(resp@, r),
{
    if !resp.has_choice {
        return Err(AssistError::NoChoice);
    }
    let ghost rv = resp@;
    let content = resp.content;
    let calls = match resp.tool_calls {
        None => {
            return Ok((content, None));
        },
        Some(c) => c,
    };
    let ghost cv = calls@.map_values(|t: RawToolCall| t@);
    let ghost pred = function_call_pred();
    let mut out: Vec<ToolCall> = Vec::new();
    let mut i: usize = 0;
    while i < calls.len()
        invariant
            i <= calls.len(),
            pred == function_call_pred(),
            cv == calls@.map_values(|t: RawToolCall| t@),
            cv.len() == calls@.len(),
            rv == resp@,
            rv.has_choice,
            rv.tool_calls == Some(cv),
            calls_read(cv.subrange(0, i as int), out@),
            all_arguments_parse(cv.subrange(0, i as int)),
        decreases calls.len() - i,
    {
        proof {
            reveal(Seq::filter);
        }
        let ghost before = cv.subrange(0, i as int);
        let ghost after = cv.subrange(0, i + 1);
        assert(after.drop_last() =~= before);
        assert(after.last() == calls@[i as int]@);
        let call = &calls[i];
        let is_function = match &call.kind {
            Some(k) => text_eq(k.as_str(), "function"),
            None => false,
        };
        if is_function {
            let args_text = arguments_text_of(call);
            match parse_arguments(args_text.as_str()) {
                Ok(arguments) => {
                    let ghost old_out = out@;
                    out.push(tool_call_of(call, arguments));
                    proof {
                        let sel = function_calls(after);
                        assert(sel == function_calls(before).push(cv[i as int]));
                        assert forall|k: int| 0 <= k < out@.len() implies {
                            &&& (#[trigger] out@[k]).id@ == text_or_empty(sel[k].id)
                            &&& out@[k].name@ == text_or_empty(sel[k].name)
                            &&& json_arguments(arguments_text(sel[k])) == Some(out@[k].arguments@)
                        } by {
                            if k < old_out.len() {
                                assert(out@[k] == old_out[k]);
                                assert(sel[k] == function_calls(before)[k]);
                            } else {
                                assert(sel[k] == cv[i as int]);
                            }
                        }
                    }
                },
                Err(e) => {
                    proof {
                        let rest = cv.subrange(i as int, cv.len() as int);
                        assert(cv =~= before + rest);
                        Seq::filter_distributes_over_add(before, rest, pred);
                        assert(rest[0] == cv[i as int]);
                        assert(rest.subrange(0, 1).filter(pred) =~= seq![cv[i as int]]) by {
                            reveal_with_fuel(Seq::filter, 2);
                            assert(rest.subrange(0, 1).drop_last() =~= Seq::<RawCallView>::empty());
                        }
                        let tail = rest.subrange(1, rest.len() as int);
                        assert(rest =~= rest.subrange(0, 1) + tail);
                        Seq::filter_distributes_over_add(rest.subrange(0, 1), tail, pred);
                        let j = function_calls(before).len() as int;
                        assert(function_calls(cv)[j] == cv[i as int]);
                        assert(arguments_text(cv[i as int]) == args_text@);
                        assert(json_arguments(arguments_text(function_calls(cv)[j])) is None);
                    }
                    return Err(AssistError::InvalidArguments(json_error_text(&e)));
                },
            }
        } else {
            assert(function_calls(after) == function_calls(before));
        }
        i = i + 1;
    }
    assert(cv.subrange(0, calls.len() as int) =~= cv);
    Ok((content, Some(out)))
}

/// Reads the model's first answer from the parsed body of the reply.
pub fn read_chat_reply_doc(doc: &Json) -> (r: Result<(Option<String>, Option<Vec<ToolCall>>), AssistError>)
    requires
        response_spec(doc@).has_choice ==> response_spec(doc@).has_message,
    ensures
        reply_outcome(response_spec(doc@), r),
{
    read_chat_reply(chat_response_of(doc))
}

/// The text of the model's final answer.
pub fn read_final_answer(resp: ChatResponse) -> (answer: Option<String>)
    ensures
        answer == resp.content,
{
    resp.content
}

/// The text of the model's final answer, from the parsed body of the reply.
pub fn read_final_answer_doc(doc: &Json) -> (answer: Option<String>)
    ensures
        opt_text(answer) == response_spec(doc@).content,
{
    read_final_answer(chat_response_of(doc))
}

/// Whether reading the first answer would go wrong the way indexing a missing
/// `message` does: the first choice is an object without that member.
pub fn lacks_message(doc: &Json) -> (r: bool)
    ensures
        r == (response_spec(doc@).has_choice && !response_spec(doc@).has_message),
{
    let resp = chat_response_of(doc);
    resp.has_choice && !resp.has_message
}

} // verus!

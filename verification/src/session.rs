use vstd::prelude::*;

use crate::config::{opt_text, Backend, Config};
use crate::error::AssistError;
use crate::json::Json;
use crate::llm::{
    conversation, conversation_with_calls, first_request, follow_up, chat_request,
    tool_results_request, ChatMessage, ChatRequest, ToolCall, ToolDescription, ToolResponse,
};
use crate::reply::{
    all_arguments_parse, calls_read, function_calls, read_chat_reply_doc, read_final_answer_doc,
    response_spec, ResponseView,
};
use crate::text::{join, join_spec, string_views, trim, trim_spec};
use crate::tools::ToolOutput;

verus! {

/// The system prompt used when neither the command line nor the configuration gives one.
pub open spec fn fallback_prompt() -> Seq<char> {
    "Ты полезный ассистент."@
}

/// The system prompt: the one on the command line, else the configured one,
/// else the fallback.
pub open spec fn system_prompt_spec(cli_prompt: Option<String>, config: Config) -> Seq<char> {
    match cli_prompt {
        Some(p) => p@,
        None => match config.default_prompt {
            Some(d) => d@,
            None => fallback_prompt(),
        },
    }
}

/// Chooses the system prompt.
pub fn select_system_prompt(cli_prompt: Option<String>, config: &Config) -> (p: String)
    ensures
        p@ == system_prompt_spec(cli_prompt, *config),
{
    match cli_prompt {
        Some(p) => p,
        None => match &config.default_prompt {
            Some(d) => d.clone(),
            None => String::from_str("Ты полезный ассистент."),
        },
    }
}

/// The question: the words of the command line joined by spaces; without
/// words, the text read from standard input with white space trimmed, which
/// must not be empty before trimming.
pub fn compose_user_message(query: &Vec<String>, piped: Option<&str>) -> (r: Result<
    String,
    AssistError,
>)
    ensures
        query@.len() > 0 ==> (r matches Ok(m) && m@ == join_spec(string_views(query@), " "@)),
        query@.len() == 0 ==> match piped {
            Some(t) => if t@.len() > 0 {
                r matches Ok(m) && m@ == trim_spec(t@)
            } else {
                r matches Err(AssistError::EmptyInput)
            },
            None => r matches Err(AssistError::EmptyInput),
        },
{
    if query.len() > 0 {
        return Ok(join(query, " "));
    }
    match piped {
        Some(t) => {
            if t.is_empty() {
                Err(AssistError::EmptyInput)
            } else {
                Ok(trim(t))
            }
        },
        None => Err(AssistError::EmptyInput),
    }
}

/// The backend the assistant talks to: the first one configured.
pub fn first_backend(config: &Config) -> (r: Result<&Backend, AssistError>)
    ensures
        config.backends@.len() > 0 ==> (r matches Ok(b) && *b == config.backends@[0]),
        config.backends@.len() == 0 ==> r matches Err(AssistError::NoBackend),
{
    if config.backends.len() > 0 {
        Ok(&config.backends[0])
    } else {
        Err(AssistError::NoBackend)
    }
}

/// The answer to a tool call: its id and what the tool produced.
pub fn tool_response(call: &ToolCall, output: &ToolOutput) -> (r: ToolResponse)
    ensures
        r.tool_call_id == call.id,
        r.output == output.content,
{
    ToolResponse { tool_call_id: call.id.clone(), output: output.content.clone() }
}

/// The line that reports a tool's details in explain mode.
pub fn tool_detail_line(name: &str, details: &str) -> (line: String)
    ensures
        line@ == "🔧 ["@ + name@ + "]: "@ + details@,
{
    let mut line = String::from_str("🔧 [");
    line.append(name);
    line.append("]: ");
    line.append(details);
    line
}

/// `out` is what is printed of the answer `answer`: the answer, under a
/// heading in explain mode; nothing when the model gave none.
pub open spec fn rendered(answer: Option<Seq<char>>, explain: bool, out: Option<String>) -> bool {
    match answer {
        None => out is None,
        Some(a) => out matches Some(o) && o@ == if explain {
            "🤖 Ответ:\n"@ + a
        } else {
            a
        },
    }
}

/// What is printed of the model's answer.
pub fn render_answer(answer: Option<String>, explain: bool) -> (out: Option<String>)
    ensures
        rendered(opt_text(answer), explain, out),
{
    match answer {
        None => None,
        Some(a) => if explain {
            let mut o = String::from_str("🤖 Ответ:\n");
            o.append(a.as_str());
            Some(o)
        } else {
            Some(a)
        },
    }
}

/// Where a conversation with the model stands.
pub enum Phase {
    /// The first request is out; its reply is awaited.
    AwaitingReply,
    /// The model asked for tools: `responses` holds the answers to the first
    /// calls, in order; `messages` is the conversation they will be sent with.
    RunningTools { calls: Vec<ToolCall>, messages: Vec<ChatMessage>, responses: Vec<ToolResponse> },
    /// The tool results are out; the final answer is awaited.
    AwaitingAnswer,
    /// The answer has been given.
    Done,
}

/// A conversation with the model about one question.
pub struct Session {
    pub system_prompt: String,
    pub user_message: String,
    pub explain: bool,
    pub phase: Phase,
}

/// What the program does next.
pub enum Step {
    /// Send the request and hand back the parsed body of the reply.
    Send(ChatRequest),
    /// Carry out the tool call and hand back what the tool produced.
    CallTool(ToolCall),
    /// Print this (or, when there is nothing, that the model gave no answer) and stop.
    Finish(Option<String>),
}

/// Two calls that agree in id, name and arguments.
pub open spec fn same_call(a: ToolCall, b: ToolCall) -> bool {
    a.id == b.id && a.name == b.name && a.arguments@ == b.arguments@
}

/// The step after the first reply `rv`: an error when the reply has no choice
/// or a call's arguments do not parse; the answer when the model asked for no
/// tools; the follow-up request at once when `tool_calls` holds no function
/// call; otherwise the first call, with the calls kept in order.
pub open spec fn first_reply_step(
    rv: ResponseView,
    before: Session,
    after: Session,
    backend: Backend,
    r: Result<Step, AssistError>,
) -> bool {
    match r {
        Err(AssistError::NoChoice) => !rv.has_choice,
        Err(AssistError::InvalidArguments(_)) => rv.has_choice && (rv.tool_calls matches Some(c)
            && !all_arguments_parse(c)),
        Err(_) => false,
        Ok(step) => rv.has_choice && match rv.tool_calls {
            None => (step matches Step::Finish(out) && rendered(rv.content, before.explain, out))
                && after.phase is Done,
            Some(calls) => all_arguments_parse(calls) && if function_calls(calls).len() == 0 {
                &&& after.phase is AwaitingAnswer
                &&& step matches Step::Send(req) && follow_up(req, backend, req.messages@, Seq::empty())
                    && conversation(
                    req.messages@,
                    before.system_prompt@,
                    before.user_message@,
                    rv.content,
                    Seq::empty(),
                )
            } else {
                &&& after.phase matches Phase::RunningTools { calls: cs, messages, responses }
                    && calls_read(calls, cs@) && responses@.len() == 0 && conversation(
                    messages@,
                    before.system_prompt@,
                    before.user_message@,
                    rv.content,
                    cs@,
                ) && (step matches Step::CallTool(c) && same_call(c, cs@[0]))
            },
        },
    }
}

/// The line reported of a tool's output: its details under the tool's name,
/// in explain mode and when there are details.
pub open spec fn detail_spec(explain: bool, name: Seq<char>, details: Option<String>, line: Option<String>) -> bool {
    match details {
        Some(d) if explain => line matches Some(l) && l@ == "🔧 ["@ + name + "]: "@ + d@,
        _ => line is None,
    }
}

impl Session {
    /// Starts the conversation: the first request, with the tools offered.
    pub fn start(
        system_prompt: String,
        user_message: String,
        explain: bool,
        backend: &Backend,
        tools: Vec<ToolDescription>,
    ) -> (r: (Session, Step))
        ensures
            r.0.system_prompt == system_prompt,
            r.0.user_message == user_message,
            r.0.explain == explain,
            r.0.phase is AwaitingReply,
            r.1 matches Step::Send(req) && first_request(req, *backend, system_prompt@, user_message@, tools),
    {
        let req = chat_request(backend, system_prompt.as_str(), user_message.as_str(), tools);
        (Session { system_prompt, user_message, explain, phase: Phase::AwaitingReply }, Step::Send(req))
    }

    /// Whether the session waits for a reply of the model.
    pub fn awaits_reply(&self) -> (r: bool)
        ensures
            r == (self.phase is AwaitingReply || self.phase is AwaitingAnswer),
    {
        match self.phase {
            Phase::AwaitingReply => true,
            Phase::AwaitingAnswer => true,
            _ => false,
        }
    }

    /// Whether the session waits for the first reply of the model.
    pub fn awaits_first_reply(&self) -> (r: bool)
        ensures
            r == self.phase is AwaitingReply,
    {
        match self.phase {
            Phase::AwaitingReply => true,
            _ => false,
        }
    }

    /// Whether the session waits for the output of a tool.
    pub fn awaits_tool_output(&self) -> (r: bool)
        ensures
            r == (self.phase matches Phase::RunningTools { calls, responses, .. } && responses@.len()
                < calls@.len()),
    {
        match &self.phase {
            Phase::RunningTools { calls, responses, .. } => responses.len() < calls.len(),
            _ => false,
        }
    }

    /// Takes in a reply of the model (its parsed body) and says what comes next.
    /// The first reply must not have a first choice that is an object
    /// without `message`.
    pub fn on_reply(&mut self, doc: &Json, backend: &Backend) -> (r: Result<Step, AssistError>)
        requires
            old(self).phase is AwaitingReply || old(self).phase is AwaitingAnswer,
            old(self).phase is AwaitingReply ==> (response_spec(doc@).has_choice ==> response_spec(
                doc@,
            ).has_message),
        ensures
            final(self).system_prompt == old(self).system_prompt,
            final(self).user_message == old(self).user_message,
            final(self).explain == old(self).explain,
            old(self).phase is AwaitingAnswer ==> (r matches Ok(Step::Finish(out)) && rendered(
                response_spec(doc@).content,
                old(self).explain,
                out,
            )) && final(self).phase is Done,
            old(self).phase is AwaitingReply ==> first_reply_step(
                response_spec(doc@),
                *old(self),
                *final(self),
                *backend,
                r,
            ),
    {
        if !self.awaits_first_reply() {
            let answer = read_final_answer_doc(doc);
            self.phase = Phase::Done;
            return Ok(Step::Finish(render_answer(answer, self.explain)));
        }
        let (content, calls) = match read_chat_reply_doc(doc) {
            Ok(x) => x,
            Err(e) => {
                return Err(e);
            },
        };
        match calls {
            None => {
                self.phase = Phase::Done;
                Ok(Step::Finish(render_answer(content, self.explain)))
            },
            Some(calls) => {
                let messages = conversation_with_calls(
                    self.system_prompt.as_str(),
                    self.user_message.as_str(),
                    content,
                    &calls,
                );
                if calls.len() == 0 {
                    self.phase = Phase::AwaitingAnswer;
                    let req = tool_results_request(backend, messages, Vec::new());
                    assert(Seq::<ToolResponse>::empty().map_values(|t: ToolResponse| crate::llm::tool_message(t)) =~= Seq::<ChatMessage>::empty());
                    Ok(Step::Send(req))
                } else {
                    let first = calls[0].duplicate();
                    self.phase = Phase::RunningTools { calls, messages, responses: Vec::new() };
                    Ok(Step::CallTool(first))
                }
            },
        }
    }

    /// Takes in what the tool of the next pending call produced: records its
    /// answer, says what comes next (the next call, or the follow-up request
    /// with every answer in call order), and gives the line to report of it.
    pub fn on_tool_output(&mut self, output: &ToolOutput, backend: &Backend) -> (r: (Step, Option<String>))
        requires
            old(self).phase matches Phase::RunningTools { calls, responses, .. } && responses@.len()
                < calls@.len(),
        ensures
            final(self).system_prompt == old(self).system_prompt,
            final(self).user_message == old(self).user_message,
            final(self).explain == old(self).explain,
            match old(self).phase {
                Phase::RunningTools { calls, messages, responses } => {
                    let n = responses@.len() as int;
                    let answered = responses@.push(
                        ToolResponse { tool_call_id: calls@[n].id, output: output.content },
                    );
                    &&& detail_spec(old(self).explain, calls@[n].name@, output.details, r.1)
                    &&& if n + 1 < calls@.len() {
                        &&& final(self).phase matches Phase::RunningTools { calls: c2, messages: m2, responses: r2 }
                            && c2 == calls && m2 == messages && r2@ == answered
                        &&& r.0 matches Step::CallTool(c) && same_call(c, calls@[n + 1])
                    } else {
                        &&& final(self).phase is AwaitingAnswer
                        &&& r.0 matches Step::Send(req) && follow_up(req, *backend, messages@, answered)
                    }
                },
                _ => true,
            },
    {
        let mut phase = Phase::Done;
        std::mem::swap(&mut phase, &mut self.phase);
        match phase {
            Phase::RunningTools { calls, messages, mut responses } => {
                let n = responses.len();
                let call = &calls[n];
                responses.push(tool_response(call, output));
                let line = if self.explain {
                    match &output.details {
                        Some(d) => Some(tool_detail_line(call.name.as_str(), d.as_str())),
                        None => None,
                    }
                } else {
                    None
                };
                if n < calls.len() - 1 {
                    let next = calls[n + 1].duplicate();
                    self.phase = Phase::RunningTools { calls, messages, responses };
                    (Step::CallTool(next), line)
                } else {
                    self.phase = Phase::AwaitingAnswer;
                    (Step::Send(tool_results_request(backend, messages, responses)), line)
                }
            },
            _ => {
                self.phase = phase;
                (Step::Finish(None), None)
            },
        }
    }
}

} // verus!

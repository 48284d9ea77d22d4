use ai_assist::config::{Backend, Config};
use ai_assist::error::AssistError;
use ai_assist::json::Json;
use ai_assist::llm::{chat_request, ChatMessage, ToolDescription};
use ai_assist::reply::{
    arguments_text_of, chat_response_of, lacks_message, read_chat_reply_doc, read_final_answer_doc,
    tool_call_of, RawToolCall,
};
use ai_assist::session::{Phase, Session, Step};
use ai_assist::tools::ToolOutput;
use ai_assist::llm::ToolArguments;

fn s(t: &str) -> Json {
    Json::Str(t.to_string())
}

fn obj(members: Vec<(&str, Json)>) -> Json {
    Json::Object(members.into_iter().map(|(k, v)| (k.to_string(), v)).collect())
}

fn reply(message: Json) -> Json {
    obj(vec![("choices", Json::Array(vec![obj(vec![("message", message)])]))])
}

fn call(id: &str, kind: &str, name: &str, args: &str) -> Json {
    obj(vec![
        ("id", s(id)),
        ("type", s(kind)),
        ("function", obj(vec![("name", s(name)), ("arguments", s(args))])),
    ])
}

fn backend() -> Backend {
    Config::default_config().backends.remove(0)
}

#[test]
fn reading_the_reply_document() {
    let doc = reply(obj(vec![
        ("content", s("hi")),
        ("tool_calls", Json::Array(vec![call("c1", "function", "calculator", "{}"), Json::Null])),
    ]));
    let r = chat_response_of(&doc);
    assert!(r.has_choice && r.has_message);
    assert_eq!(r.content.as_deref(), Some("hi"));
    let calls = r.tool_calls.unwrap();
    assert_eq!(calls.len(), 2);
    assert_eq!(calls[0].kind.as_deref(), Some("function"));
    assert_eq!(calls[0].id.as_deref(), Some("c1"));
    assert_eq!(calls[0].name.as_deref(), Some("calculator"));
    assert_eq!(calls[0].arguments.as_deref(), Some("{}"));
    assert_eq!(calls[1], RawToolCall { kind: None, id: None, name: None, arguments: None });
}

#[test]
fn reply_shapes_without_choice_or_message() {
    let empty = obj(vec![]);
    let r = chat_response_of(&empty);
    assert!(!r.has_choice && !r.has_message && r.content.is_none() && r.tool_calls.is_none());
    assert!(matches!(read_chat_reply_doc(&empty), Err(AssistError::NoChoice)));
    let no_message = obj(vec![("choices", Json::Array(vec![obj(vec![])]))]);
    assert!(lacks_message(&no_message));
    assert!(!lacks_message(&empty));
    let not_object = obj(vec![("choices", Json::Array(vec![s("x")]))]);
    let r = chat_response_of(&not_object);
    assert!(!r.has_choice && !r.has_message);
    assert_eq!(read_final_answer_doc(&no_message), None);
    assert_eq!(read_final_answer_doc(&reply(obj(vec![("content", s("done"))]))).as_deref(), Some("done"));
}

#[test]
fn reading_calls_from_the_document() {
    let doc = reply(obj(vec![(
        "tool_calls",
        Json::Array(vec![call("a", "function", "calculator", "{\"expression\":\"1+1\"}"), call("b", "x", "y", "oops")]),
    )]));
    let (content, calls) = read_chat_reply_doc(&doc).unwrap();
    assert!(content.is_none());
    let calls = calls.unwrap();
    assert_eq!(calls.len(), 1);
    assert_eq!(calls[0].id, "a");
    let bad = reply(obj(vec![("tool_calls", Json::Array(vec![call("a", "function", "n", "{")]))]));
    assert!(matches!(read_chat_reply_doc(&bad), Err(AssistError::InvalidArguments(_))));
}

#[test]
fn call_parts() {
    let raw = RawToolCall { kind: None, id: None, name: Some("n".to_string()), arguments: None };
    assert_eq!(arguments_text_of(&raw), "{}");
    let c = tool_call_of(&raw, ToolArguments { text: "{}".to_string(), fields: None });
    assert_eq!(c.id, "");
    assert_eq!(c.name, "n");
}

#[test]
fn request_body_shape() {
    let tools = vec![ToolDescription { name: "t".to_string(), description: "d".to_string(), parameters: Json::Null }];
    let req = chat_request(&backend(), "sys", "hi", tools);
    let j = req.to_json();
    match j {
        Json::Object(m) => {
            let keys: Vec<&str> = m.iter().map(|(k, _)| k.as_str()).collect();
            assert_eq!(keys, vec!["model", "messages", "options", "tools", "tool_choice"]);
            assert_eq!(m[0].1, s("qwen3.5:0.8b"));
            assert_eq!(
                m[1].1,
                Json::Array(vec![
                    obj(vec![("role", s("system")), ("content", s("sys"))]),
                    obj(vec![("role", s("user")), ("content", s("hi"))]),
                ])
            );
            assert_eq!(m[2].1, obj(vec![("nothink", Json::Bool(true))]));
            assert_eq!(
                m[3].1,
                Json::Array(vec![obj(vec![
                    ("type", s("function")),
                    ("function", obj(vec![("name", s("t")), ("description", s("d")), ("parameters", Json::Null)])),
                ])])
            );
            assert_eq!(m[4].1, s("auto"));
        }
        other => panic!("unexpected {:?}", other),
    }
    let bare = chat_request(&Backend { options: None, ..backend() }, "a", "b", Vec::new()).to_json();
    match bare {
        Json::Object(m) => assert_eq!(m.len(), 2),
        other => panic!("unexpected {:?}", other),
    }
}

#[test]
fn assistant_and_tool_messages_in_json() {
    let msgs = vec![
        ChatMessage::Assistant { content: None, tool_calls: Vec::new() },
        ChatMessage::Tool { tool_call_id: "c".to_string(), content: "4".to_string() },
    ];
    let req = ai_assist::llm::tool_results_request(&backend(), msgs, Vec::new());
    match req.to_json() {
        Json::Object(m) => {
            assert_eq!(
                m[1].1,
                Json::Array(vec![
                    obj(vec![("role", s("assistant")), ("content", Json::Null), ("tool_calls", Json::Array(vec![]))]),
                    obj(vec![("role", s("tool")), ("tool_call_id", s("c")), ("content", s("4"))]),
                ])
            );
        }
        other => panic!("unexpected {:?}", other),
    }
}

#[test]
fn session_answers_without_tools() {
    let b = backend();
    let (mut session, step) = Session::start("sys".to_string(), "q".to_string(), true, &b, Vec::new());
    assert!(matches!(step, Step::Send(_)));
    let next = session.on_reply(&reply(obj(vec![("content", s("42"))])), &b).unwrap();
    match next {
        Step::Finish(Some(text)) => assert_eq!(text, "🤖 Ответ:\n42"),
        _ => panic!("unexpected step"),
    }
    assert!(matches!(session.phase, Phase::Done));
}

#[test]
fn session_runs_tools_in_order_then_sends_results() {
    let b = backend();
    let (mut session, _) = Session::start("sys".to_string(), "q".to_string(), true, &b, Vec::new());
    let doc = reply(obj(vec![(
        "tool_calls",
        Json::Array(vec![
            call("c1", "function", "calculator", "{\"expression\":\"2+2\"}"),
            call("c2", "function", "current_time", "{}"),
        ]),
    )]));
    match session.on_reply(&doc, &b).unwrap() {
        Step::CallTool(c) => assert_eq!(c.id, "c1"),
        _ => panic!("unexpected step"),
    }
    let out1 = ToolOutput { content: "4".to_string(), details: Some("Вычислено: 2+2 = 4".to_string()) };
    let (step, line) = session.on_tool_output(&out1, &b);
    assert_eq!(line.as_deref(), Some("🔧 [calculator]: Вычислено: 2+2 = 4"));
    match step {
        Step::CallTool(c) => assert_eq!(c.name, "current_time"),
        _ => panic!("unexpected step"),
    }
    let out2 = ToolOutput { content: "now".to_string(), details: None };
    let (step, line) = session.on_tool_output(&out2, &b);
    assert!(line.is_none());
    match step {
        Step::Send(req) => {
            assert_eq!(req.messages.len(), 5);
            assert_eq!(req.messages[3], ChatMessage::Tool { tool_call_id: "c1".to_string(), content: "4".to_string() });
            assert_eq!(req.messages[4], ChatMessage::Tool { tool_call_id: "c2".to_string(), content: "now".to_string() });
            assert!(req.tools.is_none());
        }
        _ => panic!("unexpected step"),
    }
    match session.on_reply(&obj(vec![]), &b).unwrap() {
        Step::Finish(None) => {}
        _ => panic!("unexpected step"),
    }
}

#[test]
fn session_with_empty_tool_calls_sends_results_at_once() {
    let b = backend();
    let (mut session, _) = Session::start("s".to_string(), "q".to_string(), false, &b, Vec::new());
    let doc = reply(obj(vec![("content", s("x")), ("tool_calls", Json::Array(vec![]))]));
    match session.on_reply(&doc, &b).unwrap() {
        Step::Send(req) => assert_eq!(req.messages.len(), 3),
        _ => panic!("unexpected step"),
    }
    assert!(session.awaits_reply() && !session.awaits_first_reply());
}

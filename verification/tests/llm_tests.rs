use ai_assist::config::Backend;
use ai_assist::error::{api_error, status_is_success, AssistError};
use ai_assist::json::Json;
use ai_assist::llm::{
    chat_request, client_timeout_secs, conversation_with_calls, tool_results_request, ArgField,
    ChatMessage, ToolArguments, ToolCall, ToolDescription, ToolResponse,
};
use ai_assist::reply::{read_chat_reply, read_final_answer, ChatResponse, RawToolCall};

fn backend(options: Option<Json>, timeout: Option<u64>) -> Backend {
    Backend {
        api_url: "http://localhost:11434/v1/chat/completions".to_string(),
        api_key: None,
        model: "m1".to_string(),
        timeout_secs: timeout,
        options,
    }
}

fn raw(kind: Option<&str>, id: Option<&str>, name: Option<&str>, args: Option<&str>) -> RawToolCall {
    RawToolCall {
        kind: kind.map(String::from),
        id: id.map(String::from),
        name: name.map(String::from),
        arguments: args.map(String::from),
    }
}

#[test]
fn timeout_defaults_to_thirty_seconds() {
    assert_eq!(client_timeout_secs(&backend(None, None)), 30);
    assert_eq!(client_timeout_secs(&backend(None, Some(5))), 5);
}

#[test]
fn first_request_without_tools() {
    let r = chat_request(&backend(None, None), "sys", "hello", Vec::new());
    assert_eq!(r.model, "m1");
    assert_eq!(
        r.messages,
        vec![
            ChatMessage::System { content: "sys".to_string() },
            ChatMessage::User { content: "hello".to_string() }
        ]
    );
    assert_eq!(r.options, None);
    assert_eq!(r.tools, None);
    assert_eq!(r.tool_choice, None);
}

#[test]
fn first_request_with_tools_and_options() {
    let opts = Json::Object(vec![("nothink".to_string(), Json::Bool(true))]);
    let tools = vec![ToolDescription {
        name: "calculator".to_string(),
        description: "d".to_string(),
        parameters: Json::Null,
    }];
    let r = chat_request(&backend(Some(opts.clone()), None), "s", "u", tools.clone());
    assert_eq!(r.options, Some(opts));
    assert_eq!(r.tools, Some(tools));
    assert_eq!(r.tool_choice.as_deref(), Some("auto"));
}

#[test]
fn follow_up_request_appends_tool_messages() {
    let earlier = vec![ChatMessage::User { content: "q".to_string() }];
    let responses = vec![
        ToolResponse { tool_call_id: "a".to_string(), output: "1".to_string() },
        ToolResponse { tool_call_id: "b".to_string(), output: "2".to_string() },
    ];
    let r = tool_results_request(&backend(None, None), earlier, responses);
    assert_eq!(
        r.messages,
        vec![
            ChatMessage::User { content: "q".to_string() },
            ChatMessage::Tool { tool_call_id: "a".to_string(), content: "1".to_string() },
            ChatMessage::Tool { tool_call_id: "b".to_string(), content: "2".to_string() },
        ]
    );
    assert_eq!(r.tools, None);
    assert_eq!(r.tool_choice, None);
}

#[test]
fn reply_without_choice_is_an_error() {
    let resp = ChatResponse { has_choice: false, has_message: false, content: None, tool_calls: None };
    let r = read_chat_reply(resp);
    assert!(matches!(r, Err(AssistError::NoChoice)));
    assert_eq!(
        AssistError::NoChoice.message(),
        "Нет выбора в ответе"
    );
}

#[test]
fn reply_with_text_only() {
    let resp = ChatResponse { has_choice: true, has_message: true, content: Some("42".to_string()), tool_calls: None };
    let (content, calls) = read_chat_reply(resp).unwrap();
    assert_eq!(content.as_deref(), Some("42"));
    assert!(calls.is_none());
}

#[test]
fn reply_keeps_only_function_calls_and_parses_arguments() {
    let resp = ChatResponse {
        has_choice: true,
        has_message: true,
        content: None,
        tool_calls: Some(vec![
            raw(Some("function"), Some("c1"), Some("calculator"), Some("{\"expression\": \"2+2\"}")),
            raw(Some("other"), Some("c2"), Some("x"), Some("not json")),
            raw(None, Some("c3"), Some("y"), None),
            raw(Some("function"), None, None, None),
        ]),
    };
    let (content, calls) = read_chat_reply(resp).unwrap();
    assert!(content.is_none());
    let calls = calls.unwrap();
    assert_eq!(calls.len(), 2);
    assert_eq!(calls[0].id, "c1");
    assert_eq!(calls[0].name, "calculator");
    assert_eq!(calls[0].arguments.text, "{\"expression\":\"2+2\"}");
    assert_eq!(
        calls[0].arguments.fields,
        Some(vec![ArgField {
            key: "expression".to_string(),
            as_str: Some("2+2".to_string()),
            text: "\"2+2\"".to_string()
        }])
    );
    assert_eq!(calls[1].id, "");
    assert_eq!(calls[1].name, "");
    assert_eq!(calls[1].arguments.text, "{}");
    assert_eq!(calls[1].arguments.fields, Some(Vec::new()));
}

#[test]
fn reply_with_malformed_arguments_is_an_error() {
    let resp = ChatResponse {
        has_choice: true,
        has_message: true,
        content: Some("x".to_string()),
        tool_calls: Some(vec![raw(Some("function"), Some("c1"), Some("calculator"), Some("{oops"))]),
    };
    match read_chat_reply(resp) {
        Err(e @ AssistError::InvalidArguments(_)) => assert!(!e.message().is_empty()),
        other => panic!("unexpected {:?}", other),
    }
}

#[test]
fn non_object_arguments_have_no_fields() {
    let resp = ChatResponse {
        has_choice: true,
        has_message: true,
        content: None,
        tool_calls: Some(vec![raw(Some("function"), Some("i"), Some("n"), Some("[1, 2]"))]),
    };
    let (_, calls) = read_chat_reply(resp).unwrap();
    let calls = calls.unwrap();
    assert_eq!(calls[0].arguments.text, "[1,2]");
    assert_eq!(calls[0].arguments.fields, None);
}

#[test]
fn final_answer_is_the_content() {
    let resp = ChatResponse { has_choice: false, has_message: false, content: Some("done".to_string()), tool_calls: None };
    assert_eq!(read_final_answer(resp).as_deref(), Some("done"));
}

#[test]
fn conversation_repeats_the_calls() {
    let calls = vec![ToolCall {
        id: "c1".to_string(),
        name: "calculator".to_string(),
        arguments: ToolArguments { text: "{\"expression\":\"1\"}".to_string(), fields: None },
    }];
    let m = conversation_with_calls("s", "u", Some("thinking".to_string()), &calls);
    assert_eq!(m.len(), 3);
    assert_eq!(m[0], ChatMessage::System { content: "s".to_string() });
    assert_eq!(m[1], ChatMessage::User { content: "u".to_string() });
    match &m[2] {
        ChatMessage::Assistant { content, tool_calls } => {
            assert_eq!(content.as_deref(), Some("thinking"));
            assert_eq!(tool_calls.len(), 1);
            assert_eq!(tool_calls[0].id, "c1");
            assert_eq!(tool_calls[0].name, "calculator");
            assert_eq!(tool_calls[0].arguments, "{\"expression\":\"1\"}");
        }
        other => panic!("unexpected {:?}", other),
    }
}

#[test]
fn http_status_success_range() {
    assert!(status_is_success(200));
    assert!(status_is_success(204));
    assert!(status_is_success(299));
    assert!(!status_is_success(199));
    assert!(!status_is_success(300));
    assert!(!status_is_success(500));
}

#[test]
fn api_error_message_names_status_and_body() {
    let e = api_error("500 Internal Server Error", "boom");
    assert_eq!(e.message(), "API error 500 Internal Server Error: boom");
    let t = AssistError::InvalidArguments("expected value at line 1 column 1".to_string());
    assert_eq!(t.message(), "expected value at line 1 column 1");
}

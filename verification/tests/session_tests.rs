use ai_assist::config::Config;
use ai_assist::error::AssistError;
use ai_assist::json::{lookup_member, Json};
use ai_assist::llm::{ToolArguments, ToolCall};
use ai_assist::session::{
    compose_user_message, first_backend, render_answer, select_system_prompt, tool_detail_line,
    tool_response,
};
use ai_assist::tools::ToolOutput;

#[test]
fn system_prompt_precedence() {
    let cfg = Config::default_config();
    assert_eq!(select_system_prompt(Some("cli".to_string()), &cfg), "cli");
    assert_eq!(
        select_system_prompt(None, &cfg),
        "Ты — полезный ассистент. Отвечай кратко и по делу."
    );
    let mut bare = Config::default_config();
    bare.default_prompt = None;
    assert_eq!(select_system_prompt(None, &bare), "Ты полезный ассистент.");
}

#[test]
fn question_from_words_or_input() {
    let words = vec!["сколько".to_string(), "времени?".to_string()];
    assert_eq!(compose_user_message(&words, None).unwrap(), "сколько времени?");
    assert_eq!(compose_user_message(&Vec::new(), Some("  piped text\n")).unwrap(), "piped text");
    assert!(matches!(compose_user_message(&Vec::new(), Some("")), Err(AssistError::EmptyInput)));
    assert!(matches!(compose_user_message(&Vec::new(), None), Err(AssistError::EmptyInput)));
    assert_eq!(compose_user_message(&Vec::new(), Some(" \n")).unwrap(), "");
    assert!(AssistError::EmptyInput.message().starts_with("Ошибка: не указан запрос."));
}

#[test]
fn backend_is_the_first_configured() {
    let cfg = Config::default_config();
    assert_eq!(first_backend(&cfg).unwrap().model, "qwen3.5:0.8b");
    let mut none = Config::default_config();
    none.backends.clear();
    let e = first_backend(&none).unwrap_err();
    assert_eq!(e.message(), "Нет доступных бэкендов");
}

#[test]
fn answer_rendering() {
    assert_eq!(render_answer(Some("42".to_string()), false).as_deref(), Some("42"));
    assert_eq!(render_answer(Some("42".to_string()), true).as_deref(), Some("🤖 Ответ:\n42"));
    assert_eq!(render_answer(None, true), None);
    assert_eq!(tool_detail_line("calculator", "Вычислено: 1+1 = 2"), "🔧 [calculator]: Вычислено: 1+1 = 2");
}

#[test]
fn tool_response_carries_call_id() {
    let call = ToolCall {
        id: "call_7".to_string(),
        name: "calculator".to_string(),
        arguments: ToolArguments { text: "{}".to_string(), fields: None },
    };
    let out = ToolOutput { content: "4".to_string(), details: Some("d".to_string()) };
    let r = tool_response(&call, &out);
    assert_eq!(r.tool_call_id, "call_7");
    assert_eq!(r.output, "4");
}

#[test]
fn json_member_lookup_and_copy() {
    let members = vec![
        ("a".to_string(), Json::Number("1".to_string())),
        ("b".to_string(), Json::Array(vec![Json::Null, Json::Bool(false)])),
    ];
    assert_eq!(lookup_member(&members, "b"), Some(&members[1].1));
    assert_eq!(lookup_member(&members, "c"), None);
    let doc = Json::Object(members.clone());
    assert_eq!(doc.duplicate(), doc);
}

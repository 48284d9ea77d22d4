use ai_assist::config::{Config, Tool, ToolExecution};
use ai_assist::error::AssistError;
use ai_assist::json::Json;
use ai_assist::llm::{ArgField, ToolArguments};
use ai_assist::registry::{shadowed_tool_names, BuiltinKind, ToolRegistry, ToolTarget};
use ai_assist::tools::{
    blocking_pattern, command_output, confirm_answer, confirm_setting, confirmation_accepted,
    fill_placeholders, http_output, script_output, ToolAction,
};

fn tool(name: &str, desc: &str, execution: Option<ToolExecution>) -> Tool {
    Tool { name: name.to_string(), description: desc.to_string(), schema: Json::Null, execution }
}

fn command(c: &str) -> Option<ToolExecution> {
    Some(ToolExecution::Command { command: c.to_string() })
}

fn config_with(tools: Vec<Tool>) -> Config {
    let mut c = Config::default_config();
    c.tools = Some(tools);
    c
}

fn args(pairs: &[(&str, Option<&str>, &str)]) -> ToolArguments {
    ToolArguments {
        text: String::new(),
        fields: Some(
            pairs
                .iter()
                .map(|(k, s, t)| ArgField {
                    key: k.to_string(),
                    as_str: s.map(String::from),
                    text: t.to_string(),
                })
                .collect(),
        ),
    }
}

#[test]
fn registry_offers_builtins_first() {
    let reg = ToolRegistry::new(&Config::default_config());
    let d = reg.tool_descriptions();
    let names: Vec<&str> = d.iter().map(|x| x.name.as_str()).collect();
    assert_eq!(names, vec!["calculator", "run_shell", "current_time"]);
    assert_eq!(d[0].description, "Выполняет математические вычисления. Используй для арифметики.");
    match &d[0].parameters {
        Json::Object(m) => {
            assert_eq!(m[0].0, "type");
            assert_eq!(m[0].1, Json::Str("object".to_string()));
            assert_eq!(m[2].0, "required");
            assert_eq!(m[2].1, Json::Array(vec![Json::Str("expression".to_string())]));
        }
        other => panic!("unexpected {:?}", other),
    }
}

#[test]
fn registry_skips_shadowing_and_tools_without_execution() {
    let cfg = config_with(vec![
        tool("calculator", "mine", command("bc")),
        tool("weather", "w", None),
        tool("echo", "first", command("echo 1")),
        tool("echo", "second", command("echo 2")),
        tool("date", "d", command("date")),
    ]);
    let reg = ToolRegistry::new(&cfg);
    let d = reg.tool_descriptions();
    let names: Vec<&str> = d.iter().map(|x| x.name.as_str()).collect();
    assert_eq!(names, vec!["calculator", "run_shell", "current_time", "echo", "date"]);
    assert_eq!(d[3].description, "second");
    assert_eq!(shadowed_tool_names(&cfg), vec!["calculator".to_string()]);
    assert_eq!(
        reg.resolve("calculator").unwrap(),
        ToolTarget::Builtin(BuiltinKind::Calculator)
    );
    assert_eq!(
        reg.resolve("echo").unwrap(),
        ToolTarget::External(ToolExecution::Command { command: "echo 2".to_string() })
    );
    match reg.resolve("weather") {
        Err(e @ AssistError::ToolNotFound(_)) => {
            assert_eq!(e.message(), "Инструмент 'weather' не найден")
        }
        other => panic!("unexpected {:?}", other),
    }
}

#[test]
fn calculator_needs_an_expression() {
    let cfg = Config::default_config();
    let reg = ToolRegistry::new(&cfg);
    let a = args(&[("expression", Some("2+2*3"), "\"2+2*3\"")]);
    assert_eq!(
        reg.execute("calculator", &a, &cfg, None).unwrap(),
        ToolAction::Evaluate { expression: "2+2*3".to_string() }
    );
    let missing = args(&[("expression", None, "5")]);
    let e = reg.execute("calculator", &missing, &cfg, None).unwrap_err();
    assert_eq!(e.message(), "Не указано выражение (поле 'expression')");
}

#[test]
fn shell_respects_stop_list_and_confirmation_option() {
    let cfg = Config::default_config();
    let reg = ToolRegistry::new(&cfg);
    let blocked = args(&[("command", Some("sudo rm -rf / --no-preserve-root"), "")]);
    let e = reg.execute("run_shell", &blocked, &cfg, None).unwrap_err();
    assert_eq!(e.message(), "Команда запрещена стоп-листом (содержит 'rm -rf /')");
    let ok = args(&[("command", Some("ls"), "\"ls\"")]);
    assert_eq!(
        reg.execute("run_shell", &ok, &cfg, None).unwrap(),
        ToolAction::RunShell { command: "ls".to_string(), confirm: true }
    );
    let no_confirm = Json::Object(vec![("confirm_shell".to_string(), Json::Bool(false))]);
    assert_eq!(
        reg.execute("run_shell", &ok, &cfg, Some(&no_confirm)).unwrap(),
        ToolAction::RunShell { command: "ls".to_string(), confirm: false }
    );
    let e = reg.execute("run_shell", &args(&[]), &cfg, None).unwrap_err();
    assert_eq!(e.message(), "Не указана команда (поле 'command')");
}

#[test]
fn confirmation_setting_defaults_to_asking() {
    assert!(confirm_setting(None));
    let other = Json::Object(vec![("nothink".to_string(), Json::Bool(true))]);
    assert!(confirm_setting(Some(&other)));
    let not_bool = Json::Object(vec![("confirm_shell".to_string(), Json::Str("no".to_string()))]);
    assert!(confirm_setting(Some(&not_bool)));
    let off = Json::Object(vec![("confirm_shell".to_string(), Json::Bool(false))]);
    assert!(!confirm_setting(Some(&off)));
    assert!(confirm_setting(Some(&Json::Bool(false))));
}

#[test]
fn stop_list_reports_first_match() {
    let list = Some(vec!["mkfs".to_string(), "rm".to_string()]);
    assert_eq!(blocking_pattern("rm x; mkfs y", &list).as_deref(), Some("mkfs"));
    assert_eq!(blocking_pattern("ls", &list), None);
    assert_eq!(blocking_pattern("rm x", &None), None);
}

#[test]
fn answers_that_confirm() {
    assert!(confirmation_accepted("y\n"));
    assert!(confirmation_accepted("  Y  "));
    assert!(!confirmation_accepted("yes"));
    assert!(!confirmation_accepted(""));
    assert!(confirm_answer("y").is_ok());
    let e = confirm_answer("n\n").unwrap_err();
    assert_eq!(e.message(), "Выполнение отменено пользователем");
}

#[test]
fn external_command_gets_arguments_in_placeholders() {
    let cfg = config_with(vec![tool("greet", "g", command("echo {name} is {age}"))]);
    let reg = ToolRegistry::new(&cfg);
    let a = args(&[("age", None, "30"), ("name", Some("Ann"), "\"Ann\"")]);
    assert_eq!(
        reg.execute("greet", &a, &cfg, None).unwrap(),
        ToolAction::RunCommand { command_line: "echo Ann is 30".to_string() }
    );
    assert_eq!(fill_placeholders("date", &a), "date");
    let none = ToolArguments { text: "[]".to_string(), fields: None };
    assert_eq!(fill_placeholders("echo {name}", &none), "echo {name}");
}

#[test]
fn external_api_and_script_tools() {
    let cfg = config_with(vec![
        tool(
            "weather",
            "w",
            Some(ToolExecution::ApiCall {
                url: "https://wttr.in/{city}?format=%t".to_string(),
                method: Some("GET".to_string()),
                headers: None,
                params: None,
            }),
        ),
        tool("s1", "s", Some(ToolExecution::Script { path: "/x.sh".to_string(), interpreter: None })),
        tool(
            "s2",
            "s",
            Some(ToolExecution::Script {
                path: "/x.py".to_string(),
                interpreter: Some("python3".to_string()),
            }),
        ),
    ]);
    let reg = ToolRegistry::new(&cfg);
    let a = args(&[]);
    assert_eq!(
        reg.execute("weather", &a, &cfg, None).unwrap(),
        ToolAction::HttpGet { url: "https://wttr.in/{city}?format=%t".to_string() }
    );
    let city = args(&[("city", Some("Moscow"), "\"Moscow\"")]);
    assert_eq!(
        reg.execute("weather", &city, &cfg, None).unwrap(),
        ToolAction::HttpGet { url: "https://wttr.in/Moscow?format=%t".to_string() }
    );
    assert_eq!(
        reg.execute("s1", &a, &cfg, None).unwrap(),
        ToolAction::RunScript { interpreter: "sh".to_string(), path: "/x.sh".to_string() }
    );
    assert_eq!(
        reg.execute("s2", &a, &cfg, None).unwrap(),
        ToolAction::RunScript { interpreter: "python3".to_string(), path: "/x.py".to_string() }
    );
}

#[test]
fn current_time_is_finished_without_details() {
    let cfg = Config::default_config();
    let reg = ToolRegistry::new(&cfg);
    match reg.execute("current_time", &args(&[]), &cfg, None).unwrap() {
        ToolAction::Finished(out) => {
            assert!(out.details.is_none());
            assert_eq!(out.content.len(), 19);
            assert_eq!(&out.content[4..5], "-");
            assert_eq!(&out.content[7..8], "-");
            assert_eq!(&out.content[10..11], " ");
            assert_eq!(&out.content[13..14], ":");
            assert_eq!(&out.content[16..17], ":");
            assert!(out.content.chars().filter(|c| c.is_ascii_digit()).count() == 14);
        }
        other => panic!("unexpected {:?}", other),
    }
}

#[test]
fn outputs_of_commands_and_calls() {
    let o = command_output("hi\n".to_string(), "exit status: 0");
    assert_eq!(o.content, "hi\n");
    assert_eq!(o.details.as_deref(), Some("Команда выполнена, код выхода: exit status: 0"));
    let s = script_output("".to_string(), "exit status: 1");
    assert_eq!(s.details.as_deref(), Some("Скрипт выполнен, код выхода: exit status: 1"));
    let h = http_output("+12°C".to_string());
    assert_eq!(h.content, "+12°C");
    assert!(h.details.is_none());
}

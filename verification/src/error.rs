use vstd::prelude::*;

verus! {

#[verifier::external_type_specification]
#[verifier::external_body]
pub struct ExJsonError(serde_json::Error);

/// The ways a request to the assistant can fail.
#[derive(Debug)]
pub enum AssistError {
    /// No tool of this name is registered.
    ToolNotFound(String),
    /// The calculator was called without an `expression` text.
    MissingExpression,
    /// The shell tool was called without a `command` text.
    MissingCommand,
    /// The command contains this entry of the stop list.
    CommandBlocked(String),
    /// The user declined to run the command.
    Cancelled,
    /// The model's answer holds no choice.
    NoChoice,
    /// The configuration names no backend.
    NoBackend,
    /// Neither the command line nor standard input gave a question.
    EmptyInput,
    /// The arguments of a tool call are not JSON; the parser's description.
    InvalidArguments(String),
    /// The model's server answered with a status other than success: the
    /// status and the body of the answer.
    ApiError { status: String, body: String },
}

/// `<serde_json::Error as Display>::fmt`: the parser's description of the error.
/// Nothing is stated of the text.
#[verifier::external_body]
pub(crate) fn json_error_text(e: &serde_json::Error) -> String {
    e.to_string()
}

/// The text shown for each error other than a JSON error.
pub open spec fn message_spec(e: AssistError) -> Seq<char> {
    match e {
        AssistError::ToolNotFound(name) => "Инструмент '"@ + name@ + "' не найден"@,
        AssistError::MissingExpression => "Не указано выражение (поле 'expression')"@,
        AssistError::MissingCommand => "Не указана команда (поле 'command')"@,
        AssistError::CommandBlocked(pattern) => "Команда запрещена стоп-листом (содержит '"@
            + pattern@ + "')"@,
        AssistError::Cancelled => "Выполнение отменено пользователем"@,
        AssistError::NoChoice => "Нет выбора в ответе"@,
        AssistError::NoBackend => "Нет доступных бэкендов"@,
        AssistError::EmptyInput =>
            "Ошибка: не указан запрос. Используйте: ask вопрос без кавычек, ask \"вопрос в кавычках\", или передайте текст через pipe."@,
        AssistError::InvalidArguments(text) => text@,
        AssistError::ApiError { status, body } => "API error "@ + status@ + ": "@ + body@,
    }
}

/// Whether an HTTP status code means success (`StatusCode::is_success`: 200 to 299).
pub open spec fn is_success_spec(code: u16) -> bool {
    200 <= code < 300
}

/// Whether the model's server answered with success.
pub fn status_is_success(code: u16) -> (r: bool)
    ensures
        r == is_success_spec(code),
{
    200 <= code && code < 300
}

/// The error for an answer whose status is not success: the status as shown
/// (`"200 OK"` style) and the body of the answer.
pub fn api_error(status: &str, body: &str) -> (e: AssistError)
    ensures
        e matches AssistError::ApiError { status: s, body: b } && s@ == status@ && b@ == body@,
{
    AssistError::ApiError { status: status.to_string(), body: body.to_string() }
}

impl AssistError {
    /// The text shown to the user for this error.
    pub fn message(&self) -> (m: String)
        ensures
            m@ == message_spec(*self),
    {
        match self {
            AssistError::ToolNotFound(name) => {
                let mut m = String::from_str("Инструмент '");
                m.append(name.as_str());
                m.append("' не найден");
                m
            },
            AssistError::MissingExpression => String::from_str(
                "Не указано выражение (поле 'expression')",
            ),
            AssistError::MissingCommand => String::from_str("Не указана команда (поле 'command')"),
            AssistError::CommandBlocked(pattern) => {
                let mut m = String::from_str("Команда запрещена стоп-листом (содержит '");
                m.append(pattern.as_str());
                m.append("')");
                m
            },
            AssistError::Cancelled => String::from_str("Выполнение отменено пользователем"),
            AssistError::NoChoice => String::from_str("Нет выбора в ответе"),
            AssistError::NoBackend => String::from_str("Нет доступных бэкендов"),
            AssistError::EmptyInput => String::from_str(
                "Ошибка: не указан запрос. Используйте: ask вопрос без кавычек, ask \"вопрос в кавычках\", или передайте текст через pipe.",
            ),
            AssistError::InvalidArguments(text) => text.clone(),
            AssistError::ApiError { status, body } => {
                let mut m = String::from_str("API error ");
                m.append(status.as_str());
                m.append(": ");
                m.append(body.as_str());
                m
            },
        }
    }
}

} // verus!

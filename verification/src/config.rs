use vstd::prelude::*;

use crate::json::{members_view, Json, JsonView};
use crate::text::{join_path, join_path_spec};

verus! {

/// One language-model endpoint the assistant can talk to.
#[derive(Clone, Debug, PartialEq)]
pub struct Backend {
    pub api_url: String,
    pub api_key: Option<String>,
    pub model: String,
    pub timeout_secs: Option<u64>,
    /// Extra options sent with each request.
    pub options: Option<Json>,
}

/// How an external tool is carried out.
#[derive(Clone, Debug, PartialEq)]
pub enum ToolExecution {
    /// A shell command line; `{name}` stands for the argument `name`.
    Command { command: String },
    /// An HTTP GET of `url`; `{name}` stands for the argument `name`.
    ApiCall {
        url: String,
        method: Option<String>,
        headers: Option<Vec<(String, String)>>,
        params: Option<Json>,
    },
    /// A script run by an interpreter (`sh` unless another is named).
    Script { path: String, interpreter: Option<String> },
}

/// A tool declared in the configuration.
#[derive(Clone, Debug, PartialEq)]
pub struct Tool {
    pub name: String,
    pub description: String,
    pub schema: Json,
    pub execution: Option<ToolExecution>,
}

/// The assistant's configuration.
#[derive(Clone, Debug, PartialEq)]
pub struct Config {
    pub default_prompt: Option<String>,
    pub explain_language: Option<String>,
    pub stop_list: Option<Vec<String>>,
    pub backends: Vec<Backend>,
    pub tools: Option<Vec<Tool>>,
}

/// The mathematical value of a [`ToolExecution`].
pub enum ToolExecutionView {
    Command { command: Seq<char> },
    ApiCall {
        url: Seq<char>,
        method: Option<Seq<char>>,
        headers: Option<Seq<(String, String)>>,
        params: Option<JsonView>,
    },
    Script { path: Seq<char>, interpreter: Option<Seq<char>> },
}

/// The view of an optional string.
pub open spec fn opt_text(s: Option<String>) -> Option<Seq<char>> {
    match s {
        Some(t) => Some(t@),
        None => None,
    }
}

/// The view of an optional document.
pub open spec fn opt_json(j: Option<Json>) -> Option<JsonView> {
    match j {
        Some(v) => Some(v@),
        None => None,
    }
}

impl View for ToolExecution {
    type V = ToolExecutionView;

    open spec fn view(&self) -> ToolExecutionView {
        match *self {
            ToolExecution::Command { command } => ToolExecutionView::Command { command: command@ },
            ToolExecution::ApiCall { url, method, headers, params } => ToolExecutionView::ApiCall {
                url: url@,
                method: opt_text(method),
                headers: match headers {
                    Some(h) => Some(h@),
                    None => None,
                },
                params: match params {
                    Some(p) => Some(p@),
                    None => None,
                },
            },
            ToolExecution::Script { path, interpreter } => ToolExecutionView::Script {
                path: path@,
                interpreter: opt_text(interpreter),
            },
        }
    }
}

fn duplicate_text(s: &Option<String>) -> (r: Option<String>)
    ensures
        opt_text(r) == opt_text(*s),
{
    match s {
        Some(t) => Some(t.clone()),
        None => None,
    }
}

fn duplicate_pairs(v: &Vec<(String, String)>) -> (r: Vec<(String, String)>)
    ensures
        r@ == v@,
{
    let mut out: Vec<(String, String)> = Vec::new();
    let mut i: usize = 0;
    while i < v.len()
        invariant
            i <= v.len(),
            out@ == v@.subrange(0, i as int),
        decreases v.len() - i,
    {
        out.push((v[i].0.clone(), v[i].1.clone()));
        i = i + 1;
    }
    assert(v@.subrange(0, v.len() as int) =~= v@);
    out
}

impl ToolExecution {
    /// A copy of the execution.
    pub fn duplicate(&self) -> (r: ToolExecution)
        ensures
            r@ == self@,
    {
        match self {
            ToolExecution::Command { command } => ToolExecution::Command { command: command.clone() },
            ToolExecution::ApiCall { url, method, headers, params } => ToolExecution::ApiCall {
                url: url.clone(),
                method: duplicate_text(method),
                headers: match headers {
                    Some(h) => Some(duplicate_pairs(h)),
                    None => None,
                },
                params: match params {
                    Some(p) => Some(p.duplicate()),
                    None => None,
                },
            },
            ToolExecution::Script { path, interpreter } => ToolExecution::Script {
                path: path.clone(),
                interpreter: duplicate_text(interpreter),
            },
        }
    }
}

/// The prompt of the default configuration.
pub open spec fn default_prompt_text() -> Seq<char> {
    "Ты — полезный ассистент. Отвечай кратко и по делу."@
}

/// The endpoint of the default configuration: a local Ollama server.
pub open spec fn default_api_url() -> Seq<char> {
    "http://localhost:11434/v1/chat/completions"@
}

/// The model of the default configuration.
pub open spec fn default_model() -> Seq<char> {
    "qwen3.5:0.8b"@
}

/// The configuration file under the user's configuration directory `base`
/// (`.` when there is none): `ai-assist/config.toml`.
pub open spec fn config_file_spec(base: Option<Seq<char>>) -> Seq<char> {
    join_path_spec(
        join_path_spec(
            match base {
                Some(b) => b,
                None => "."@,
            },
            "ai-assist"@,
        ),
        "config.toml"@,
    )
}

/// The path of the configuration file.
pub fn config_file_path(config_dir: Option<String>) -> (p: String)
    ensures
        p@ == config_file_spec(opt_text(config_dir)),
{
    let root = match config_dir {
        Some(d) => d,
        None => String::from_str("."),
    };
    let dir = join_path(root.as_str(), "ai-assist");
    join_path(dir.as_str(), "config.toml")
}

impl Config {
    /// The configuration written when none exists yet.
    pub fn default_config() -> (c: Config)
        ensures
            c.default_prompt matches Some(p) && p@ == default_prompt_text(),
            c.explain_language matches Some(l) && l@ == "ru"@,
            c.stop_list matches Some(s) && s@.len() == 2 && s@[0]@ == "rm -rf /"@ && s@[1]@
                == "mkfs"@,
            c.backends@.len() == 1,
            c.backends@[0].api_url@ == default_api_url(),
            c.backends@[0].api_key is None,
            c.backends@[0].model@ == default_model(),
            c.backends@[0].timeout_secs == Some(30u64),
            opt_json(c.backends@[0].options) == Some(
                JsonView::Object(seq![("nothink"@, JsonView::Bool(true))]),
            ),
            c.tools matches Some(t) && t@.len() == 0,
    {
        let mut options: Vec<(String, Json)> = Vec::new();
        options.push((String::from_str("nothink"), Json::Bool(true)));
        proof {
            crate::json::lemma_members_view_index(options@);
            assert(members_view(options@) =~= seq![("nothink"@, JsonView::Bool(true))]);
        }
        let mut backends: Vec<Backend> = Vec::new();
        backends.push(
            Backend {
                api_url: String::from_str("http://localhost:11434/v1/chat/completions"),
                api_key: None,
                model: String::from_str("qwen3.5:0.8b"),
                timeout_secs: Some(30),
                options: Some(Json::Object(options)),
            },
        );
        let mut stop_list: Vec<String> = Vec::new();
        stop_list.push(String::from_str("rm -rf /"));
        stop_list.push(String::from_str("mkfs"));
        Config {
            default_prompt: Some(String::from_str("Ты — полезный ассистент. Отвечай кратко и по делу.")),
            explain_language: Some(String::from_str("ru")),
            stop_list: Some(stop_list),
            backends,
            tools: Some(Vec::new()),
        }
    }
}

} // verus!

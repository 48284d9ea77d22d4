use vstd::prelude::*;

use crate::config::{opt_text, Config, ToolExecution, ToolExecutionView};
use crate::error::AssistError;
use crate::json::{as_bool, bool_of, get, get_key, opt_view, Json, JsonView};
use crate::llm::{ArgField, ArgFieldView, ToolArguments, ToolArgumentsView};
use crate::registry::{builtin_kind, BuiltinKind, ToolRegistry, ToolTarget};
use crate::text::{
    contains, contains_spec, eq_ignore_ascii_case, eq_ignore_ascii_case_spec, push_char,
    replace_all, replace_spec, string_views, text_eq, trim, trim_spec,
};

verus! {

/// What a tool hands back.
#[derive(Clone, Debug, PartialEq)]
pub struct ToolOutput {
    pub content: String,
    pub details: Option<String>,
}

/// The text of the first member named `key`, when its value is a JSON string.
pub open spec fn field_text(fields: Seq<ArgFieldView>, key: Seq<char>) -> Option<Seq<char>>
    decreases fields.len(),
{
    if fields.len() == 0 {
        None
    } else if fields[0].key == key {
        fields[0].as_str
    } else {
        field_text(fields.drop_first(), key)
    }
}

/// The text of the argument `key` (`args.get(key).and_then(Value::as_str)`).
pub open spec fn arg_text(args: ToolArgumentsView, key: Seq<char>) -> Option<Seq<char>> {
    match args.fields {
        Some(f) => field_text(f, key),
        None => None,
    }
}

/// The text of the argument `key`, when the arguments are an object whose
/// member `key` is a string.
pub fn argument_text(args: &ToolArguments, key: &str) -> (r: Option<String>)
    ensures
        opt_text(r) == arg_text(args@, key@),
{
    match &args.fields {
        None => None,
        Some(fields) => {
            let ghost fv = fields@.map_values(|a: ArgField| a@);
            let mut i: usize = 0;
            assert(fv.subrange(0, fv.len() as int) =~= fv);
            while i < fields.len()
                invariant
                    fv == fields@.map_values(|a: ArgField| a@),
                    fv.len() == fields@.len(),
                    args.fields == Some(*fields),
                    i <= fields.len(),
                    field_text(fv, key@) == field_text(fv.subrange(i as int, fv.len() as int), key@),
                decreases fields.len() - i,
            {
                let ghost rest = fv.subrange(i as int, fv.len() as int);
                assert(rest[0] == fields@[i as int]@);
                if text_eq(fields[i].key.as_str(), key) {
                    return match &fields[i].as_str {
                        Some(t) => Some(t.clone()),
                        None => None,
                    };
                }
                assert(rest.drop_first() =~= fv.subrange(i + 1, fv.len() as int));
                i = i + 1;
            }
            None
        },
    }
}

/// The first entry of the stop list that occurs in the command.
pub open spec fn first_blocking(patterns: Seq<Seq<char>>, command: Seq<char>) -> Option<Seq<char>>
    decreases patterns.len(),
{
    if patterns.len() == 0 {
        None
    } else if contains_spec(command, patterns[0]) {
        Some(patterns[0])
    } else {
        first_blocking(patterns.drop_first(), command)
    }
}

/// The stop list of a configuration, empty when it has none.
pub open spec fn stop_patterns(c: Config) -> Seq<Seq<char>> {
    match c.stop_list {
        Some(l) => string_views(l@),
        None => Seq::empty(),
    }
}

/// The first entry of the stop list that occurs in `command`, if any.
pub fn blocking_pattern(command: &str, stop_list: &Option<Vec<String>>) -> (r: Option<String>)
    ensures
        opt_text(r) == first_blocking(
            match stop_list {
                Some(l) => string_views(l@),
                None => Seq::empty(),
            },
            command@,
        ),
{
    match stop_list {
        None => None,
        Some(list) => {
            let ghost pv = string_views(list@);
            let mut i: usize = 0;
            assert(pv.subrange(0, pv.len() as int) =~= pv);
            while i < list.len()
                invariant
                    pv == string_views(list@),
                    pv.len() == list@.len(),
                    *stop_list == Some(*list),
                    i <= list.len(),
                    first_blocking(pv, command@) == first_blocking(
                        pv.subrange(i as int, pv.len() as int),
                        command@,
                    ),
                decreases list.len() - i,
            {
                let ghost rest = pv.subrange(i as int, pv.len() as int);
                assert(rest[0] == list@[i as int]@);
                if contains(command, list[i].as_str()) {
                    return Some(list[i].clone());
                }
                assert(rest.drop_first() =~= pv.subrange(i + 1, pv.len() as int));
                i = i + 1;
            }
            None
        },
    }
}

/// Whether the shell tool asks before it runs a command: the backend option
/// `confirm_shell` when it is a boolean, and yes otherwise.
pub open spec fn confirm_spec(options: Option<JsonView>) -> bool {
    match options {
        Some(v) => match bool_of(get_key(v, "confirm_shell"@)) {
            Some(b) => b,
            None => true,
        },
        None => true,
    }
}

/// Whether the shell tool asks before it runs a command.
pub fn confirm_setting(options: Option<&Json>) -> (r: bool)
    ensures
        r == confirm_spec(opt_view(options)),
{
    match options {
        None => true,
        Some(v) => match as_bool(get(v, "confirm_shell")) {
            Some(b) => b,
            None => true,
        },
    }
}

/// The placeholder that stands for the argument `key` in a command: `{key}`.
pub open spec fn placeholder(key: Seq<char>) -> Seq<char> {
    seq!['{'] + key + seq!['}']
}

/// The text an argument is put in as: its string, or its JSON text.
pub open spec fn value_text(f: ArgFieldView) -> Seq<char> {
    match f.as_str {
        Some(s) => s,
        None => f.text,
    }
}

/// The command with each argument's placeholder replaced, argument by argument in order.
pub open spec fn substitute(command: Seq<char>, fields: Seq<ArgFieldView>) -> Seq<char>
    decreases fields.len(),
{
    if fields.len() == 0 {
        command
    } else {
        substitute(
            replace_spec(command, placeholder(fields[0].key), value_text(fields[0])),
            fields.drop_first(),
        )
    }
}

/// The command line an external command tool runs, or the URL an external
/// API tool fetches, for these arguments: each placeholder filled.
pub open spec fn command_line_spec(command: Seq<char>, args: ToolArgumentsView) -> Seq<char> {
    match args.fields {
        Some(f) => substitute(command, f),
        None => command,
    }
}

/// Fills the placeholders of an external command or URL with the arguments.
pub fn fill_placeholders(command: &str, args: &ToolArguments) -> (r: String)
    ensures
        r@ == command_line_spec(command@, args@),
{
    let mut line = command.to_string();
    match &args.fields {
        None => {},
        Some(fields) => {
            let ghost fv = fields@.map_values(|a: ArgField| a@);
            let mut i: usize = 0;
            assert(fv.subrange(0, fv.len() as int) =~= fv);
            while i < fields.len()
                invariant
                    fv == fields@.map_values(|a: ArgField| a@),
                    fv.len() == fields@.len(),
                    args.fields == Some(*fields),
                    i <= fields.len(),
                    substitute(command@, fv) == substitute(line@, fv.subrange(i as int, fv.len() as int)),
                decreases fields.len() - i,
            {
                let ghost rest = fv.subrange(i as int, fv.len() as int);
                assert(rest[0] == fields@[i as int]@);
                assert(rest.drop_first() =~= fv.subrange(i + 1, fv.len() as int));
                let f = &fields[i];
                let mut ph = String::new();
                push_char(&mut ph, '{');
                ph.append(f.key.as_str());
                push_char(&mut ph, '}');
                assert(ph@ =~= placeholder(f.key@));
                let value: &str = match &f.as_str {
                    Some(t) => t.as_str(),
                    None => f.text.as_str(),
                };
                line = replace_all(line.as_str(), ph.as_str(), value);
                i = i + 1;
            }
        },
    }
    line
}

/// The date-time format of the time tool.
pub open spec fn time_format() -> Seq<char> {
    "%Y-%m-%d %H:%M:%S"@
}

/// A decimal digit.
pub open spec fn is_digit(c: char) -> bool {
    '0' <= c <= '9'
}

/// Every character is a decimal digit.
pub open spec fn all_digits(s: Seq<char>) -> bool {
    forall|k: int| 0 <= k < s.len() ==> is_digit(#[trigger] s[k])
}

/// Two decimal digits stand at `at`.
pub open spec fn two_digits(s: Seq<char>, at: int) -> bool {
    is_digit(s[at]) && is_digit(s[at + 1])
}

/// The shape of a date and time written by the time tool's format: a year of
/// four digits, or a sign and at least four digits for years outside 0 to
/// 9999, then `-MM-DD HH:MM:SS` with two digits each.
pub open spec fn local_time_text(s: Seq<char>) -> bool {
    let n = s.len() as int;
    let year = s.subrange(0, n - 15);
    &&& n >= 19
    &&& ((year.len() == 4 && all_digits(year)) || (year.len() >= 5 && (year[0] == '+' || year[0]
        == '-') && all_digits(year.drop_first())))
    &&& s[n - 15] == '-'
    &&& two_digits(s, n - 14)
    &&& s[n - 12] == '-'
    &&& two_digits(s, n - 11)
    &&& s[n - 9] == ' '
    &&& two_digits(s, n - 8)
    &&& s[n - 6] == ':'
    &&& two_digits(s, n - 5)
    &&& s[n - 3] == ':'
    &&& two_digits(s, n - 2)
}

/// `chrono::Local::now().format(fmt)`: the present local date and time,
/// written by the format `fmt`.  Which date and time depends on the clock and
/// the time zone; the contract states only the shape that every outcome has
/// (chrono writes `%Y` with four digits, or with a sign and at least four
/// digits outside 0 to 9999, and the other fields with two digits each).  Only the time tool's
/// format is passed: writing a format with an unknown specifier fails, and
/// `to_string` then panics.
#[verifier::external_body]
fn local_now_formatted(fmt: &str) -> (t: String)
    requires
        fmt@ == time_format(),
    ensures
        local_time_text(t@),
{
    chrono::Local::now().format(fmt).to_string()
}

/// What the assistant does to answer a tool call.
#[derive(Clone, Debug, PartialEq)]
pub enum ToolAction {
    /// Evaluate the arithmetic expression.
    Evaluate { expression: String },
    /// Run the command in `sh -c`, after asking the user when `confirm` holds.
    RunShell { command: String, confirm: bool },
    /// The answer is ready.
    Finished(ToolOutput),
    /// Run the command line in `sh -c`.
    RunCommand { command_line: String },
    /// Fetch the URL (its placeholders filled) with an HTTP GET.
    HttpGet { url: String },
    /// Run the script with the interpreter.
    RunScript { interpreter: String, path: String },
}

impl ToolRegistry {
    /// Decides how to answer a call of the tool `name` with `args`: a built-in
    /// tool first, then an external one.
    pub fn execute(
        &self,
        name: &str,
        args: &ToolArguments,
        config: &Config,
        backend_options: Option<&Json>,
    ) -> (r: Result<ToolAction, AssistError>)
        ensures
            match builtin_kind(name@) {
                Some(BuiltinKind::Calculator) => match arg_text(args@, "expression"@) {
                    Some(e) => r matches Ok(ToolAction::Evaluate { expression }) && expression@ == e,
                    None => r matches Err(AssistError::MissingExpression),
                },
                Some(BuiltinKind::RunShell) => match arg_text(args@, "command"@) {
                    None => r matches Err(AssistError::MissingCommand),
                    Some(c) => match first_blocking(stop_patterns(*config), c) {
                        Some(p) => r matches Err(AssistError::CommandBlocked(q)) && q@ == p,
                        None => r matches Ok(ToolAction::RunShell { command, confirm }) && command@
                            == c && confirm == confirm_spec(opt_view(backend_options)),
                    },
                },
                Some(BuiltinKind::CurrentTime) => r matches Ok(ToolAction::Finished(out))
                    && out.details is None && local_time_text(out.content@),
                None => if self.externals_map().contains_key(name@) {
                    match self.externals_map()[name@].execution {
                        ToolExecutionView::Command { command } => r matches Ok(
                            ToolAction::RunCommand { command_line },
                        ) && command_line@ == command_line_spec(command, args@),
                        ToolExecutionView::ApiCall { url, .. } => r matches Ok(
                            ToolAction::HttpGet { url: u },
                        ) && u@ == command_line_spec(url, args@),
                        ToolExecutionView::Script { path, interpreter } => r matches Ok(
                            ToolAction::RunScript { interpreter: i, path: p },
                        ) && p@ == path && i@ == match interpreter {
                            Some(t) => t,
                            None => "sh"@,
                        },
                    }
                } else {
                    r matches Err(AssistError::ToolNotFound(n)) && n@ == name@
                },
            },
    {
        let target = self.resolve(name);
        match target {
            Err(e) => Err(e),
            Ok(ToolTarget::Builtin(BuiltinKind::Calculator)) => match argument_text(args, "expression") {
                Some(expression) => Ok(ToolAction::Evaluate { expression }),
                None => Err(AssistError::MissingExpression),
            },
            Ok(ToolTarget::Builtin(BuiltinKind::RunShell)) => match argument_text(args, "command") {
                None => Err(AssistError::MissingCommand),
                Some(command) => match blocking_pattern(command.as_str(), &config.stop_list) {
                    Some(p) => Err(AssistError::CommandBlocked(p)),
                    None => Ok(
                        ToolAction::RunShell { command, confirm: confirm_setting(backend_options) },
                    ),
                },
            },
            Ok(ToolTarget::Builtin(BuiltinKind::CurrentTime)) => Ok(
                ToolAction::Finished(
                    ToolOutput { content: local_now_formatted("%Y-%m-%d %H:%M:%S"), details: None },
                ),
            ),
            Ok(ToolTarget::External(execution)) => match execution {
                ToolExecution::Command { command } => Ok(
                    ToolAction::RunCommand { command_line: fill_placeholders(command.as_str(), args) },
                ),
                ToolExecution::ApiCall { url, .. } => Ok(
                    ToolAction::HttpGet { url: fill_placeholders(url.as_str(), args) },
                ),
                ToolExecution::Script { path, interpreter } => Ok(
                    ToolAction::RunScript {
                        interpreter: match interpreter {
                            Some(i) => i,
                            None => String::from_str("sh"),
                        },
                        path,
                    },
                ),
            },
        }
    }
}

/// Whether the user's answer allows the command: `y` or `Y`, white space around it aside.
pub fn confirmation_accepted(answer: &str) -> (r: bool)
    ensures
        r == eq_ignore_ascii_case_spec(trim_spec(answer@), "y"@),
{
    let t = trim(answer);
    eq_ignore_ascii_case(t.as_str(), "y")
}

/// Refuses the command unless the user's answer allows it.
pub fn confirm_answer(answer: &str) -> (r: Result<(), AssistError>)
    ensures
        r is Ok <==> eq_ignore_ascii_case_spec(trim_spec(answer@), "y"@),
        r matches Err(e) ==> e is Cancelled,
{
    if confirmation_accepted(answer) {
        Ok(())
    } else {
        Err(AssistError::Cancelled)
    }
}

/// The output of a command: what it wrote, and its exit status.
pub fn command_output(stdout: String, status: &str) -> (out: ToolOutput)
    ensures
        out.content == stdout,
        out.details matches Some(d) && d@ == "Команда выполнена, код выхода: "@ + status@,
{
    let mut details = String::from_str("Команда выполнена, код выхода: ");
    details.append(status);
    ToolOutput { content: stdout, details: Some(details) }
}

/// The output of a script: what it wrote, and its exit status.
pub fn script_output(stdout: String, status: &str) -> (out: ToolOutput)
    ensures
        out.content == stdout,
        out.details matches Some(d) && d@ == "Скрипт выполнен, код выхода: "@ + status@,
{
    let mut details = String::from_str("Скрипт выполнен, код выхода: ");
    details.append(status);
    ToolOutput { content: stdout, details: Some(details) }
}

/// The output of an HTTP call: the body of the answer.
pub fn http_output(body: String) -> (out: ToolOutput)
    ensures
        out.content == body,
        out.details is None,
{
    ToolOutput { content: body, details: None }
}

/// A command that contains an entry of the stop list is refused, with the
/// first such entry; one that contains none is let through.
pub proof fn lemma_first_blocking(patterns: Seq<Seq<char>>, command: Seq<char>)
    ensures
        first_blocking(patterns, command) is Some <==> exists|k: int|
            0 <= k < patterns.len() && contains_spec(command, #[trigger] patterns[k]),
        first_blocking(patterns, command) matches Some(p) ==> exists|k: int|
            0 <= k < patterns.len() && #[trigger] patterns[k] == p && contains_spec(command, p) && forall|j: int|
                0 <= j < k ==> !contains_spec(command, #[trigger] patterns[j]),
    decreases patterns.len(),
{
    if patterns.len() > 0 {
        let rest = patterns.drop_first();
        lemma_first_blocking(rest, command);
        if !contains_spec(command, patterns[0]) {
            if exists|k: int| 0 <= k < patterns.len() && contains_spec(command, #[trigger] patterns[k]) {
                let k = choose|k: int| 0 <= k < patterns.len() && contains_spec(command, #[trigger] patterns[k]);
                assert(rest[k - 1] == patterns[k]);
            }
            if exists|k: int| 0 <= k < rest.len() && contains_spec(command, #[trigger] rest[k]) {
                let k = choose|k: int| 0 <= k < rest.len() && contains_spec(command, #[trigger] rest[k]);
                assert(rest[k] == patterns[k + 1]);
            }
            if let Some(p) = first_blocking(patterns, command) {
                let k = choose|k: int|
                    0 <= k < rest.len() && #[trigger] rest[k] == p && contains_spec(command, p) && forall|j: int|
                        0 <= j < k ==> !contains_spec(command, #[trigger] rest[j]);
                assert(patterns[k + 1] == p);
                assert forall|j: int| 0 <= j < k + 1 implies !contains_spec(command, #[trigger] patterns[j]) by {
                    if j > 0 {
                        assert(patterns[j] == rest[j - 1]);
                    }
                }
            }
        }
    }
}

/// A command in which no argument's placeholder occurs runs as it is written.
pub proof fn lemma_command_without_placeholders(command: Seq<char>, fields: Seq<ArgFieldView>)
    requires
        forall|k: int| 0 <= k < fields.len() ==> !contains_spec(command, placeholder(#[trigger] fields[k].key)),
    ensures
        substitute(command, fields) == command,
    decreases fields.len(),
{
    if fields.len() > 0 {
        crate::text::lemma_replace_absent(command, placeholder(fields[0].key), value_text(fields[0]));
        assert forall|k: int| 0 <= k < fields.drop_first().len() implies !contains_spec(
            command,
            placeholder(#[trigger] fields.drop_first()[k].key),
        ) by {
            assert(fields.drop_first()[k] == fields[k + 1]);
        }
        lemma_command_without_placeholders(command, fields.drop_first());
    }
}


/// Filling with the arguments `a` and then `b` is filling with `a` followed by
/// `b`: each argument is taken in turn, whatever comes before or after it.
pub proof fn lemma_fill_in_sequence(command: Seq<char>, a: Seq<ArgFieldView>, b: Seq<ArgFieldView>)
    ensures
        substitute(command, a + b) == substitute(substitute(command, a), b),
    decreases a.len(),
{
    if a.len() == 0 {
        assert(a + b =~= b);
    } else {
        assert((a + b)[0] == a[0]);
        assert((a + b).drop_first() =~= a.drop_first() + b);
        lemma_fill_in_sequence(
            replace_spec(command, placeholder(a[0].key), value_text(a[0])),
            a.drop_first(),
            b,
        );
    }
}

/// Filling with one argument replaces every occurrence of its placeholder by
/// its text.
pub proof fn lemma_fill_one(command: Seq<char>, f: ArgFieldView)
    ensures
        substitute(command, seq![f]) == replace_spec(command, placeholder(f.key), value_text(f)),
{
    let one = seq![f];
    let line = replace_spec(command, placeholder(f.key), value_text(f));
    assert(one[0] == f);
    assert(one.drop_first() =~= Seq::<ArgFieldView>::empty());
    assert(substitute(line, Seq::<ArgFieldView>::empty()) == line);
    assert(substitute(command, one) == substitute(line, one.drop_first()));
}

/// An argument whose placeholder is not in the line when its turn comes
/// changes nothing: filling without it gives the same line, and the
/// arguments after it are filled all the same.
pub proof fn lemma_absent_argument_skipped(command: Seq<char>, fields: Seq<ArgFieldView>, i: int)
    requires
        0 <= i < fields.len(),
        !contains_spec(substitute(command, fields.take(i)), placeholder(fields[i].key)),
    ensures
        substitute(command, fields) == substitute(command, fields.remove(i)),
{
    let before = fields.take(i);
    let after = fields.skip(i + 1);
    let f = fields[i];
    assert(fields =~= before + (seq![f] + after));
    assert(fields.remove(i) =~= before + after);
    lemma_fill_in_sequence(command, before, seq![f] + after);
    lemma_fill_in_sequence(command, before, after);
    let line = substitute(command, before);
    lemma_fill_in_sequence(line, seq![f], after);
    lemma_fill_one(line, f);
    crate::text::lemma_replace_absent(line, placeholder(f.key), value_text(f));
}

} // verus!

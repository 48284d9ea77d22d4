use vstd::prelude::*;

use crate::config::{Config, Tool, ToolExecution, ToolExecutionView};
use crate::error::AssistError;
use crate::json::{
    json_str, lemma_items_view_index, lemma_members_view_index, items_view, member, members_view,
    Json, JsonView,
};
use crate::llm::ToolDescription;
use crate::text::text_eq;

verus! {

/// The tools the assistant carries itself.
#[derive(Clone, Copy, PartialEq, Eq, Structural, Debug)]
pub enum BuiltinKind {
    Calculator,
    RunShell,
    CurrentTime,
}

/// The built-in tool a name stands for, if any.
pub open spec fn builtin_kind(name: Seq<char>) -> Option<BuiltinKind> {
    if name == "calculator"@ {
        Some(BuiltinKind::Calculator)
    } else if name == "run_shell"@ {
        Some(BuiltinKind::RunShell)
    } else if name == "current_time"@ {
        Some(BuiltinKind::CurrentTime)
    } else {
        None
    }
}

/// The name of a built-in tool.
pub open spec fn builtin_name(kind: BuiltinKind) -> Seq<char> {
    match kind {
        BuiltinKind::Calculator => "calculator"@,
        BuiltinKind::RunShell => "run_shell"@,
        BuiltinKind::CurrentTime => "current_time"@,
    }
}

/// The description of a built-in tool.
pub open spec fn builtin_description(kind: BuiltinKind) -> Seq<char> {
    match kind {
        BuiltinKind::Calculator => "Выполняет математические вычисления. Используй для арифметики."@,
        BuiltinKind::RunShell => "Выполняет команду в оболочке (осторожно!). Принимает команду строкой."@,
        BuiltinKind::CurrentTime => "Возвращает текущие дату и время."@,
    }
}

/// The schema of a string parameter.
pub open spec fn string_property(desc: Seq<char>) -> JsonView {
    JsonView::Object(
        seq![("type"@, JsonView::Str("string"@)), ("description"@, JsonView::Str(desc))],
    )
}

/// The schema of an object with one required string parameter.
pub open spec fn one_parameter_schema(prop: Seq<char>, desc: Seq<char>) -> JsonView {
    JsonView::Object(
        seq![
            ("type"@, JsonView::Str("object"@)),
            ("properties"@, JsonView::Object(seq![(prop, string_property(desc))])),
            ("required"@, JsonView::Array(seq![JsonView::Str(prop)])),
        ],
    )
}

/// The parameter schema of a built-in tool.
pub open spec fn builtin_schema(kind: BuiltinKind) -> JsonView {
    match kind {
        BuiltinKind::Calculator => one_parameter_schema(
            "expression"@,
            "Выражение для вычисления (например, '2+2*3')"@,
        ),
        BuiltinKind::RunShell => one_parameter_schema("command"@, "Команда для выполнения"@),
        BuiltinKind::CurrentTime => JsonView::Object(
            seq![("type"@, JsonView::Str("object"@)), ("properties"@, JsonView::Object(seq![]))],
        ),
    }
}

/// The built-in tools, in the order they are offered.
pub open spec fn builtin_order() -> Seq<BuiltinKind> {
    seq![BuiltinKind::Calculator, BuiltinKind::RunShell, BuiltinKind::CurrentTime]
}

fn one_parameter_schema_json(prop: &str, desc: &str) -> (j: Json)
    ensures
        j@ == one_parameter_schema(prop@, desc@),
{
    let mut property: Vec<(String, Json)> = Vec::new();
    property.push(member("type", json_str("string")));
    property.push(member("description", json_str(desc)));
    let mut properties: Vec<(String, Json)> = Vec::new();
    let ghost pv = property@;
    properties.push(member(prop, Json::Object(property)));
    let mut required: Vec<Json> = Vec::new();
    required.push(json_str(prop));
    let mut schema: Vec<(String, Json)> = Vec::new();
    schema.push(member("type", json_str("object")));
    let ghost ppv = properties@;
    schema.push(member("properties", Json::Object(properties)));
    let ghost rv = required@;
    schema.push(member("required", Json::Array(required)));
    proof {
        lemma_members_view_index(pv);
        assert(members_view(pv) =~= seq![("type"@, JsonView::Str("string"@)), ("description"@, JsonView::Str(desc@))]);
        lemma_members_view_index(ppv);
        assert(members_view(ppv) =~= seq![(prop@, string_property(desc@))]);
        lemma_items_view_index(rv);
        assert(items_view(rv) =~= seq![JsonView::Str(prop@)]);
        lemma_members_view_index(schema@);
    }
    let j = Json::Object(schema);
    assert(j@ == one_parameter_schema(prop@, desc@)) by {
        assert(members_view(schema@) =~= seq![
            ("type"@, JsonView::Str("object"@)),
            ("properties"@, JsonView::Object(seq![(prop@, string_property(desc@))])),
            ("required"@, JsonView::Array(seq![JsonView::Str(prop@)])),
        ]);
    }
    j
}

fn empty_schema_json() -> (j: Json)
    ensures
        j@ == builtin_schema(BuiltinKind::CurrentTime),
{
    let mut schema: Vec<(String, Json)> = Vec::new();
    schema.push(member("type", json_str("object")));
    let properties: Vec<(String, Json)> = Vec::new();
    let ghost ppv = properties@;
    schema.push(member("properties", Json::Object(properties)));
    proof {
        lemma_members_view_index(ppv);
        assert(members_view(ppv) =~= Seq::<(Seq<char>, JsonView)>::empty());
        lemma_members_view_index(schema@);
        assert(members_view(schema@) =~= seq![("type"@, JsonView::Str("object"@)), ("properties"@, JsonView::Object(seq![]))]);
    }
    Json::Object(schema)
}

/// A tool the assistant carries itself.
struct BuiltinTool {
    name: String,
    description: String,
    schema: Json,
    kind: BuiltinKind,
}

/// A tool declared in the configuration, as the registry keeps it.
struct ExternalTool {
    description: String,
    schema: Json,
    execution: ToolExecution,
}

/// The mathematical value of a registered external tool.
pub struct ExternalToolView {
    pub description: Seq<char>,
    pub schema: JsonView,
    pub execution: ToolExecutionView,
}

/// What the registry keeps of a configured tool (one that has an execution).
pub open spec fn external_view_of(t: Tool) -> ExternalToolView {
    ExternalToolView {
        description: t.description@,
        schema: t.schema@,
        execution: t.execution->Some_0@,
    }
}

/// A configured tool is registered when it has an execution and its name is
/// not that of a built-in tool.
pub open spec fn is_registrable(t: Tool) -> bool {
    t.execution is Some && builtin_kind(t.name@) is None
}

/// The external tools that registering `tools` one after the other yields:
/// a later tool replaces an earlier one of the same name.
pub open spec fn registered(tools: Seq<Tool>) -> Map<Seq<char>, ExternalToolView>
    decreases tools.len(),
{
    if tools.len() == 0 {
        Map::empty()
    } else {
        let before = registered(tools.drop_last());
        if is_registrable(tools.last()) {
            before.insert(tools.last().name@, external_view_of(tools.last()))
        } else {
            before
        }
    }
}

/// The names of the registered tools in the order they were first registered.
pub open spec fn registration_order(tools: Seq<Tool>) -> Seq<Seq<char>>
    decreases tools.len(),
{
    if tools.len() == 0 {
        Seq::empty()
    } else {
        let before = registration_order(tools.drop_last());
        if is_registrable(tools.last()) && !before.contains(tools.last().name@) {
            before.push(tools.last().name@)
        } else {
            before
        }
    }
}

/// The configured tools, or none when the configuration lists none.
pub open spec fn configured_tools(c: Config) -> Seq<Tool> {
    match c.tools {
        Some(t) => t@,
        None => Seq::empty(),
    }
}

/// The configured tools that are skipped because a built-in tool has their name.
pub open spec fn shadowed(tools: Seq<Tool>) -> Seq<Tool> {
    tools.filter(|t: Tool| t.execution is Some && builtin_kind(t.name@) is Some)
}

spec fn ext_view(e: ExternalTool) -> ExternalToolView {
    ExternalToolView { description: e.description@, schema: e.schema@, execution: e.execution@ }
}

spec fn names_distinct(s: Seq<(String, ExternalTool)>) -> bool {
    forall|i: int, j: int| 0 <= i < j < s.len() ==> (#[trigger] s[i]).0@ != (#[trigger] s[j]).0@
}

spec fn has_name(s: Seq<(String, ExternalTool)>, n: Seq<char>) -> bool {
    exists|k: int| 0 <= k < s.len() && (#[trigger] s[k]).0@ == n
}

spec fn index_of(s: Seq<(String, ExternalTool)>, n: Seq<char>) -> int {
    choose|k: int| 0 <= k < s.len() && (#[trigger] s[k]).0@ == n
}

spec fn ext_names(s: Seq<(String, ExternalTool)>) -> Seq<Seq<char>> {
    s.map_values(|e: (String, ExternalTool)| e.0@)
}

spec fn ext_map(s: Seq<(String, ExternalTool)>) -> Map<Seq<char>, ExternalToolView> {
    Map::new(|n: Seq<char>| has_name(s, n), |n: Seq<char>| ext_view(s[index_of(s, n)].1))
}

proof fn lemma_index_of(s: Seq<(String, ExternalTool)>, k: int)
    requires
        names_distinct(s),
        0 <= k < s.len(),
    ensures
        has_name(s, s[k].0@),
        index_of(s, s[k].0@) == k,
{
    assert(has_name(s, s[k].0@));
    let j = index_of(s, s[k].0@);
    if j != k {
        if j < k {
            assert(s[j].0@ != s[k].0@);
        } else {
            assert(s[k].0@ != s[j].0@);
        }
    }
}

proof fn lemma_ext_map_push(s: Seq<(String, ExternalTool)>, e: (String, ExternalTool))
    requires
        names_distinct(s),
        !has_name(s, e.0@),
    ensures
        names_distinct(s.push(e)),
        ext_map(s.push(e)) == ext_map(s).insert(e.0@, ext_view(e.1)),
{
    let t = s.push(e);
    assert forall|i: int, j: int| 0 <= i < j < t.len() implies (#[trigger] t[i]).0@ != (
    #[trigger] t[j]).0@ by {
        if j == s.len() {
            assert(s[i] == t[i]);
        } else {
            assert(s[i] == t[i] && s[j] == t[j]);
        }
    }
    assert forall|n: Seq<char>| has_name(t, n) == (has_name(s, n) || n == e.0@) by {
        if has_name(s, n) {
            let k = choose|k: int| 0 <= k < s.len() && (#[trigger] s[k]).0@ == n;
            assert(t[k] == s[k]);
        }
        if n == e.0@ {
            assert(t[s.len() as int] == e);
        }
    }
    assert forall|n: Seq<char>| #[trigger] has_name(t, n) implies ext_view(t[index_of(t, n)].1) == if n
        == e.0@ {
        ext_view(e.1)
    } else {
        ext_view(s[index_of(s, n)].1)
    } by {
        if n == e.0@ {
            lemma_index_of(t, s.len() as int);
        } else {
            let k = index_of(s, n);
            assert(t[k] == s[k]);
            lemma_index_of(t, k);
        }
    }
    assert(ext_map(t) =~= ext_map(s).insert(e.0@, ext_view(e.1)));
}

proof fn lemma_ext_map_update(s: Seq<(String, ExternalTool)>, j: int, e: (String, ExternalTool))
    requires
        names_distinct(s),
        0 <= j < s.len(),
        s[j].0@ == e.0@,
    ensures
        names_distinct(s.update(j, e)),
        ext_map(s.update(j, e)) == ext_map(s).insert(e.0@, ext_view(e.1)),
{
    let t = s.update(j, e);
    assert forall|a: int, b: int| 0 <= a < b < t.len() implies (#[trigger] t[a]).0@ != (
    #[trigger] t[b]).0@ by {
        assert(t[a].0@ == s[a].0@ && t[b].0@ == s[b].0@);
    }
    assert forall|n: Seq<char>| has_name(t, n) == has_name(s, n) by {
        if has_name(s, n) {
            let k = choose|k: int| 0 <= k < s.len() && (#[trigger] s[k]).0@ == n;
            assert(t[k].0@ == n);
        }
        if has_name(t, n) {
            let k = choose|k: int| 0 <= k < t.len() && (#[trigger] t[k]).0@ == n;
            assert(s[k].0@ == n);
        }
    }
    assert forall|n: Seq<char>| #[trigger] has_name(t, n) implies ext_view(t[index_of(t, n)].1) == if n
        == e.0@ {
        ext_view(e.1)
    } else {
        ext_view(s[index_of(s, n)].1)
    } by {
        if n == e.0@ {
            lemma_index_of(t, j);
        } else {
            let k = index_of(s, n);
            assert(t[k] == s[k]);
            lemma_index_of(t, k);
        }
    }
    assert(ext_map(t) =~= ext_map(s).insert(e.0@, ext_view(e.1)));
}

/// The tools the model may call: the built-in ones, then those of the configuration.
pub struct ToolRegistry {
    builtins: Vec<BuiltinTool>,
    externals: Vec<(String, ExternalTool)>,
}

impl ToolRegistry {
    #[verifier::type_invariant]
    spec fn well_formed(self) -> bool {
        &&& self.builtins@.len() == 3
        &&& forall|k: int|
            0 <= k < 3 ==> {
                let b = #[trigger] self.builtins@[k];
                &&& b.kind == builtin_order()[k]
                &&& b.name@ == builtin_name(b.kind)
                &&& b.description@ == builtin_description(b.kind)
                &&& b.schema@ == builtin_schema(b.kind)
            }
        &&& names_distinct(self.externals@)
        &&& forall|k: int|
            0 <= k < self.externals@.len() ==> builtin_kind((#[trigger] self.externals@[k]).0@) is None
    }

    /// The external tools, by name.
    pub closed spec fn externals_map(&self) -> Map<Seq<char>, ExternalToolView> {
        ext_map(self.externals@)
    }

    /// The number of external tools.
    pub closed spec fn external_count(&self) -> nat {
        self.externals@.len()
    }

    /// The name of the `k`-th external tool, in the order they are offered.
    pub closed spec fn external_name(&self, k: int) -> Seq<char> {
        self.externals@[k].0@
    }

    /// Builds the registry: the three built-in tools, and each configured tool
    /// that has an execution and whose name no built-in tool has, a later one
    /// replacing an earlier one of the same name.
    pub fn new(config: &Config) -> (r: ToolRegistry)
        ensures
            r.externals_map() == registered(configured_tools(*config)),
            r.external_count() == registration_order(configured_tools(*config)).len(),
            forall|k: int|
                0 <= k < r.external_count() ==> #[trigger] r.external_name(k) == registration_order(
                    configured_tools(*config),
                )[k],
    {
        let mut builtins: Vec<BuiltinTool> = Vec::new();
        builtins.push(
            BuiltinTool {
                name: String::from_str("calculator"),
                description: String::from_str(
                    "Выполняет математические вычисления. Используй для арифметики.",
                ),
                schema: one_parameter_schema_json(
                    "expression",
                    "Выражение для вычисления (например, '2+2*3')",
                ),
                kind: BuiltinKind::Calculator,
            },
        );
        builtins.push(
            BuiltinTool {
                name: String::from_str("run_shell"),
                description: String::from_str(
                    "Выполняет команду в оболочке (осторожно!). Принимает команду строкой.",
                ),
                schema: one_parameter_schema_json("command", "Команда для выполнения"),
                kind: BuiltinKind::RunShell,
            },
        );
        builtins.push(
            BuiltinTool {
                name: String::from_str("current_time"),
                description: String::from_str("Возвращает текущие дату и время."),
                schema: empty_schema_json(),
                kind: BuiltinKind::CurrentTime,
            },
        );
        let mut externals: Vec<(String, ExternalTool)> = Vec::new();
        proof {
            assert(ext_map(externals@) =~= Map::<Seq<char>, ExternalToolView>::empty());
            assert(ext_names(externals@) =~= Seq::<Seq<char>>::empty());
        }
        match &config.tools {
            None => {},
            Some(tools) => {
                let mut i: usize = 0;
                while i < tools.len()
                    invariant
                        i <= tools.len(),
                        names_distinct(externals@),
                        forall|k: int|
                            0 <= k < externals@.len() ==> builtin_kind(
                                (#[trigger] externals@[k]).0@,
                            ) is None,
                        ext_map(externals@) == registered(tools@.subrange(0, i as int)),
                        ext_names(externals@) == registration_order(tools@.subrange(0, i as int)),
                    decreases tools.len() - i,
                {
                    let tool = &tools[i];
                    assert(tools@.subrange(0, i + 1).drop_last() =~= tools@.subrange(0, i as int));
                    assert(tools@.subrange(0, i + 1).last() == tools@[i as int]);
                    match &tool.execution {
                        None => {},
                        Some(execution) => {
                            if is_builtin_name(tool.name.as_str()) {
                            } else {
                                let entry = (
                                    tool.name.clone(),
                                    ExternalTool {
                                        description: tool.description.clone(),
                                        schema: tool.schema.duplicate(),
                                        execution: execution.duplicate(),
                                    },
                                );
                                assert(ext_view(entry.1) == external_view_of(*tool));
                                match find_external(&externals, tool.name.as_str()) {
                                    Some(j) => {
                                        proof {
                                            lemma_ext_map_update(externals@, j as int, entry);
                                            assert(ext_names(externals@).contains(tool.name@)) by {
                                                assert(ext_names(externals@)[j as int] == tool.name@);
                                            }
                                            assert(ext_names(externals@.update(j as int, entry)) =~= ext_names(externals@));
                                        }
                                        externals.set(j, entry);
                                    },
                                    None => {
                                        proof {
                                            lemma_ext_map_push(externals@, entry);
                                            assert(!ext_names(externals@).contains(tool.name@)) by {
                                                if ext_names(externals@).contains(tool.name@) {
                                                    let k = choose|k: int| 0 <= k < ext_names(externals@).len() && ext_names(externals@)[k] == tool.name@;
                                                    assert(externals@[k].0@ == tool.name@);
                                                }
                                            }
                                            assert(ext_names(externals@.push(entry)) =~= ext_names(externals@).push(tool.name@));
                                        }
                                        externals.push(entry);
                                    },
                                }
                            }
                        },
                    }
                    i = i + 1;
                }
                assert(tools@.subrange(0, tools.len() as int) =~= tools@);
            },
        }
        ToolRegistry { builtins, externals }
    }
}

impl ToolRegistry {
    /// The descriptions offered to the model: the three built-in tools in
    /// order, then each external tool.
    pub fn tool_descriptions(&self) -> (d: Vec<ToolDescription>)
        ensures
            d@.len() == 3 + self.external_count(),
            forall|k: int|
                0 <= k < 3 ==> {
                    &&& (#[trigger] d@[k]).name@ == builtin_name(builtin_order()[k])
                    &&& d@[k].description@ == builtin_description(builtin_order()[k])
                    &&& d@[k].parameters@ == builtin_schema(builtin_order()[k])
                },
            forall|k: int|
                0 <= k < self.external_count() ==> {
                    let name = self.external_name(k);
                    &&& (#[trigger] d@[3 + k]).name@ == name
                    &&& self.externals_map().contains_key(name)
                    &&& d@[3 + k].description@ == self.externals_map()[name].description
                    &&& d@[3 + k].parameters@ == self.externals_map()[name].schema
                },
            forall|i: int, j: int| 0 <= i < j < d@.len() ==> (#[trigger] d@[i]).name@ != (#[trigger] d@[j]).name@,
            forall|name: Seq<char>|
                #[trigger] self.externals_map().contains_key(name) <==> exists|k: int|
                    0 <= k < self.external_count() && self.external_name(k) == name,
    {
        proof {
            use_type_invariant(self);
        }
        let mut d: Vec<ToolDescription> = Vec::new();
        let mut i: usize = 0;
        while i < self.builtins.len()
            invariant
                self.builtins@.len() == 3,
                i <= 3,
                d@.len() == i,
                forall|k: int|
                    0 <= k < i ==> {
                        &&& (#[trigger] d@[k]).name == self.builtins@[k].name
                        &&& d@[k].description == self.builtins@[k].description
                        &&& d@[k].parameters@ == self.builtins@[k].schema@
                    },
            decreases 3 - i,
        {
            let b = &self.builtins[i];
            d.push(
                ToolDescription {
                    name: b.name.clone(),
                    description: b.description.clone(),
                    parameters: b.schema.duplicate(),
                },
            );
            i = i + 1;
        }
        let mut j: usize = 0;
        while j < self.externals.len()
            invariant
                d@.len() == 3 + j,
                j <= self.externals@.len(),
                forall|k: int|
                    0 <= k < 3 ==> {
                        &&& (#[trigger] d@[k]).name == self.builtins@[k].name
                        &&& d@[k].description == self.builtins@[k].description
                        &&& d@[k].parameters@ == self.builtins@[k].schema@
                    },
                forall|k: int|
                    0 <= k < j ==> {
                        &&& (#[trigger] d@[3 + k]).name == self.externals@[k].0
                        &&& d@[3 + k].description == self.externals@[k].1.description
                        &&& d@[3 + k].parameters@ == self.externals@[k].1.schema@
                    },
            decreases self.externals@.len() - j,
        {
            let e = &self.externals[j];
            d.push(
                ToolDescription {
                    name: e.0.clone(),
                    description: e.1.description.clone(),
                    parameters: e.1.schema.duplicate(),
                },
            );
            j = j + 1;
        }
        proof {
            assert forall|k: int| 0 <= k < self.external_count() implies {
                let name = self.external_name(k);
                &&& (#[trigger] d@[3 + k]).name@ == name
                &&& self.externals_map().contains_key(name)
                &&& d@[3 + k].description@ == self.externals_map()[name].description
                &&& d@[3 + k].parameters@ == self.externals_map()[name].schema
            } by {
                lemma_index_of(self.externals@, k);
            }
            reveal_strlit("calculator");
            reveal_strlit("run_shell");
            reveal_strlit("current_time");
            assert forall|i: int, j: int| 0 <= i < j < d@.len() implies (#[trigger] d@[i]).name@ != (
            #[trigger] d@[j]).name@ by {
                let bi = self.builtins@[i];
                if i < 3 {
                    assert(d@[i].name == bi.name);
                    assert(bi.name@ == builtin_name(builtin_order()[i]));
                }
                if j < 3 {
                    let bj = self.builtins@[j];
                    assert(d@[j].name == bj.name);
                    assert(bj.name@ == builtin_name(builtin_order()[j]));
                    assert(builtin_order()[i] != builtin_order()[j]);
                    assert("calculator"@.len() == 10);
                    assert("run_shell"@.len() == 9);
                    assert("current_time"@.len() == 12);
                    assert(builtin_name(builtin_order()[i]) != builtin_name(builtin_order()[j]));
                }
                if j >= 3 {
                    let kj = j - 3;
                    assert(d@[3 + kj].name == self.externals@[kj].0);
                    assert(builtin_kind(self.externals@[j - 3].0@) is None);
                    if i >= 3 {
                        let ki = i - 3;
                        assert(d@[3 + ki].name == self.externals@[ki].0);
                        assert(self.externals@[i - 3].0@ != self.externals@[j - 3].0@);
                    }
                }
            }
            assert forall|name: Seq<char>|
                #[trigger] self.externals_map().contains_key(name) implies exists|k: int|
                    0 <= k < self.external_count() && self.external_name(k) == name by {
                let k = choose|k: int| 0 <= k < self.externals@.len() && (#[trigger] self.externals@[k]).0@ == name;
                assert(self.external_name(k) == name);
            }
            assert forall|name: Seq<char>|
                (exists|k: int| 0 <= k < self.external_count() && self.external_name(k) == name) implies
                #[trigger] self.externals_map().contains_key(name) by {
                let k = choose|k: int| 0 <= k < self.external_count() && self.external_name(k) == name;
                assert(has_name(self.externals@, self.externals@[k].0@));
            }
        }
        d
    }

    /// The tool a name stands for: a built-in tool first, then an external one.
    pub fn resolve(&self, name: &str) -> (r: Result<ToolTarget, AssistError>)
        ensures
            match builtin_kind(name@) {
                Some(kind) => r == Ok::<ToolTarget, AssistError>(ToolTarget::Builtin(kind)),
                None => if self.externals_map().contains_key(name@) {
                    r matches Ok(ToolTarget::External(e)) && e@ == self.externals_map()[name@].execution
                } else {
                    r matches Err(AssistError::ToolNotFound(n)) && n@ == name@
                },
            },
    {
        proof {
            use_type_invariant(self);
        }
        if text_eq(name, "calculator") {
            return Ok(ToolTarget::Builtin(BuiltinKind::Calculator));
        }
        if text_eq(name, "run_shell") {
            return Ok(ToolTarget::Builtin(BuiltinKind::RunShell));
        }
        if text_eq(name, "current_time") {
            return Ok(ToolTarget::Builtin(BuiltinKind::CurrentTime));
        }
        match find_external(&self.externals, name) {
            Some(j) => {
                proof {
                    lemma_index_of(self.externals@, j as int);
                }
                Ok(ToolTarget::External(self.externals[j].1.execution.duplicate()))
            },
            None => Err(AssistError::ToolNotFound(name.to_string())),
        }
    }
}

/// What a tool name stands for.
#[derive(Clone, Debug, PartialEq)]
pub enum ToolTarget {
    Builtin(BuiltinKind),
    External(ToolExecution),
}

/// The names of the configured tools that a built-in tool shadows, in order;
/// the assistant warns of each.
pub fn shadowed_tool_names(config: &Config) -> (names: Vec<String>)
    ensures
        names@.len() == shadowed(configured_tools(*config)).len(),
        forall|k: int|
            0 <= k < names@.len() ==> (#[trigger] names@[k]) == shadowed(configured_tools(*config))[k].name,
{
    let mut names: Vec<String> = Vec::new();
    let ghost pred = |t: Tool| t.execution is Some && builtin_kind(t.name@) is Some;
    match &config.tools {
        None => {
            proof {
                reveal(Seq::filter);
            }
        },
        Some(tools) => {
            let mut i: usize = 0;
            while i < tools.len()
                invariant
                    i <= tools.len(),
                    pred == (|t: Tool| t.execution is Some && builtin_kind(t.name@) is Some),
                    names@.len() == tools@.subrange(0, i as int).filter(pred).len(),
                    forall|k: int|
                        0 <= k < names@.len() ==> (#[trigger] names@[k]) == tools@.subrange(
                            0,
                            i as int,
                        ).filter(pred)[k].name,
                decreases tools.len() - i,
            {
                proof {
                    reveal(Seq::filter);
                }
                let ghost before = tools@.subrange(0, i as int);
                let ghost after = tools@.subrange(0, i + 1);
                assert(after.drop_last() =~= before);
                assert(after.last() == tools@[i as int]);
                let tool = &tools[i];
                if tool.execution.is_some() && is_builtin_name(tool.name.as_str()) {
                    names.push(tool.name.clone());
                }
                i = i + 1;
            }
            assert(tools@.subrange(0, tools.len() as int) =~= tools@);
        },
    }
    names
}

/// A name is registered exactly when some configured tool of that name has an
/// execution and no built-in tool has the name.
pub proof fn lemma_registered_domain(tools: Seq<Tool>, name: Seq<char>)
    ensures
        registered(tools).contains_key(name) <==> exists|i: int|
            0 <= i < tools.len() && is_registrable(#[trigger] tools[i]) && tools[i].name@ == name,
    decreases tools.len(),
{
    if tools.len() > 0 {
        let before = tools.drop_last();
        lemma_registered_domain(before, name);
        if registered(tools).contains_key(name) {
            if !registered(before).contains_key(name) {
                assert(is_registrable(tools[tools.len() - 1]));
            } else {
                let i = choose|i: int|
                    0 <= i < before.len() && is_registrable(#[trigger] before[i]) && before[i].name@ == name;
                assert(tools[i] == before[i]);
            }
        }
        if exists|i: int| 0 <= i < tools.len() && is_registrable(#[trigger] tools[i]) && tools[i].name@ == name {
            let i = choose|i: int| 0 <= i < tools.len() && is_registrable(#[trigger] tools[i]) && tools[i].name@ == name;
            if i < tools.len() - 1 {
                assert(before[i] == tools[i]);
            }
        }
    }
}

/// The tool registered under a name is the last configured tool of that name
/// that has an execution.
pub proof fn lemma_registered_last_wins(tools: Seq<Tool>, i: int)
    requires
        0 <= i < tools.len(),
        is_registrable(tools[i]),
        forall|j: int| i < j < tools.len() && is_registrable(#[trigger] tools[j]) ==> tools[j].name@ != tools[i].name@,
    ensures
        registered(tools).contains_key(tools[i].name@),
        registered(tools)[tools[i].name@] == external_view_of(tools[i]),
    decreases tools.len(),
{
    if i < tools.len() - 1 {
        let before = tools.drop_last();
        assert forall|j: int| i < j < before.len() && is_registrable(#[trigger] before[j]) implies before[j].name@
            != before[i].name@ by {
            assert(before[j] == tools[j]);
        }
        lemma_registered_last_wins(before, i);
        assert(before[i] == tools[i]);
    }
}

/// No configured tool ever takes the place of a built-in one.
pub proof fn lemma_builtins_not_shadowed(tools: Seq<Tool>, name: Seq<char>)
    requires
        builtin_kind(name) is Some,
    ensures
        !registered(tools).contains_key(name),
{
    lemma_registered_domain(tools, name);
}

/// Whether a built-in tool has this name.
fn is_builtin_name(name: &str) -> (r: bool)
    ensures
        r == builtin_kind(name@) is Some,
{
    text_eq(name, "calculator") || text_eq(name, "run_shell") || text_eq(name, "current_time")
}

fn find_external(externals: &Vec<(String, ExternalTool)>, name: &str) -> (r: Option<usize>)
    ensures
        match r {
            Some(j) => j < externals@.len() && externals@[j as int].0@ == name@,
            None => !has_name(externals@, name@),
        },
{
    let mut j: usize = 0;
    while j < externals.len()
        invariant
            j <= externals.len(),
            forall|k: int| 0 <= k < j ==> (#[trigger] externals@[k]).0@ != name@,
        decreases externals.len() - j,
    {
        if text_eq(externals[j].0.as_str(), name) {
            return Some(j);
        }
        j = j + 1;
    }
    None
}

/// The last configured tool of a name that is registered: it has an
/// execution, its name is no built-in tool's, and no later tool of that name
/// has an execution.
pub open spec fn is_last_registrable(tools: Seq<Tool>, i: int) -> bool {
    &&& 0 <= i < tools.len()
    &&& is_registrable(tools[i])
    &&& forall|j: int| i < j < tools.len() && is_registrable(#[trigger] tools[j]) ==> tools[j].name@ != tools[i].name@
}

/// What the registry keeps under a registered name is the description, the
/// schema and the execution of the last configured tool of that name that
/// has an execution.
pub proof fn lemma_registered_entry(tools: Seq<Tool>, name: Seq<char>)
    requires
        registered(tools).contains_key(name),
    ensures
        exists|i: int| {
            &&& #[trigger] is_last_registrable(tools, i)
            &&& tools[i].name@ == name
            &&& registered(tools)[name].description == tools[i].description@
            &&& registered(tools)[name].schema == tools[i].schema@
            &&& tools[i].execution matches Some(e) && registered(tools)[name].execution == e@
        },
    decreases tools.len(),
{
    let before = tools.drop_last();
    let n = tools.len() - 1;
    let last = tools[n];
    if is_registrable(last) && last.name@ == name {
        assert(is_last_registrable(tools, n));
    } else {
        assert(registered(tools)[name] == registered(before)[name]);
        assert(registered(before).contains_key(name));
        lemma_registered_entry(before, name);
        let i = choose|i: int| {
            &&& #[trigger] is_last_registrable(before, i)
            &&& before[i].name@ == name
            &&& registered(before)[name].description == before[i].description@
            &&& registered(before)[name].schema == before[i].schema@
            &&& before[i].execution matches Some(e) && registered(before)[name].execution == e@
        };
        assert(before[i] == tools[i]);
        assert forall|j: int| i < j < tools.len() && is_registrable(#[trigger] tools[j]) implies tools[j].name@
            != tools[i].name@ by {
            if j < n {
                assert(before[j] == tools[j]);
            }
        }
        assert(is_last_registrable(tools, i));
    }
}

/// `r` is the registry built from the configuration `config`.
pub open spec fn registry_of(r: ToolRegistry, config: Config) -> bool {
    &&& r.externals_map() == registered(configured_tools(config))
    &&& r.external_count() == registration_order(configured_tools(config)).len()
    &&& forall|k: int|
        0 <= k < r.external_count() ==> #[trigger] r.external_name(k) == registration_order(
            configured_tools(config),
        )[k]
}

/// `d` are the descriptions the registry `r` offers for its external tools,
/// after the three built-in ones.
pub open spec fn external_descriptions_of(d: Seq<ToolDescription>, r: ToolRegistry) -> bool {
    &&& d.len() == 3 + r.external_count()
    &&& forall|k: int|
        0 <= k < r.external_count() ==> {
            let name = r.external_name(k);
            &&& (#[trigger] d[3 + k]).name@ == name
            &&& r.externals_map().contains_key(name)
            &&& d[3 + k].description@ == r.externals_map()[name].description
            &&& d[3 + k].parameters@ == r.externals_map()[name].schema
        }
}

/// Each configured tool offered to the model is described by the last
/// configured tool of its name that has an execution: its name, its
/// description and, as parameters, its schema.
pub proof fn lemma_offered_tool_is_configured(
    config: Config,
    r: ToolRegistry,
    d: Seq<ToolDescription>,
    k: int,
)
    requires
        registry_of(r, config),
        external_descriptions_of(d, r),
        3 <= k < d.len(),
    ensures
        exists|i: int| {
            let t = configured_tools(config)[i];
            &&& #[trigger] is_last_registrable(configured_tools(config), i)
            &&& d[k].name@ == t.name@
            &&& d[k].description@ == t.description@
            &&& d[k].parameters@ == t.schema@
        },
{
    let tools = configured_tools(config);
    let name = r.external_name(k - 3);
    assert(d[3 + (k - 3)] == d[k]);
    lemma_registered_entry(tools, name);
}

} // verus!

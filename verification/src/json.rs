use vstd::prelude::*;

use crate::text::text_eq;

verus! {

/// A JSON document as the library holds it: numbers keep their decimal text,
/// objects keep their members in order.
#[derive(Debug, PartialEq)]
pub enum Json {
    Null,
    Bool(bool),
    Number(String),
    Str(String),
    Array(Vec<Json>),
    Object(Vec<(String, Json)>),
}

/// The mathematical value of a [`Json`] document.
pub enum JsonView {
    Null,
    Bool(bool),
    Number(Seq<char>),
    Str(Seq<char>),
    Array(Seq<JsonView>),
    Object(Seq<(Seq<char>, JsonView)>),
}

/// The view of a document.
pub open spec fn json_view(j: Json) -> JsonView
    decreases j,
{
    match j {
        Json::Null => JsonView::Null,
        Json::Bool(b) => JsonView::Bool(b),
        Json::Number(n) => JsonView::Number(n@),
        Json::Str(s) => JsonView::Str(s@),
        Json::Array(items) => {
            proof {
                broadcast use vstd::std_specs::vec::axiom_vec_decreases_to_view;
            }
            JsonView::Array(items_view(items@))
        },
        Json::Object(members) => {
            proof {
                broadcast use vstd::std_specs::vec::axiom_vec_decreases_to_view;
            }
            JsonView::Object(members_view(members@))
        },
    }
}

/// The views of the items of an array.
pub open spec fn items_view(s: Seq<Json>) -> Seq<JsonView>
    decreases s,
{
    if s.len() == 0 {
        Seq::empty()
    } else {
        items_view(s.subrange(0, s.len() - 1)).push(json_view(s[s.len() - 1]))
    }
}

/// The views of the members of an object.
pub open spec fn members_view(s: Seq<(String, Json)>) -> Seq<(Seq<char>, JsonView)>
    decreases s,
{
    if s.len() == 0 {
        Seq::empty()
    } else {
        members_view(s.subrange(0, s.len() - 1)).push(
            (s[s.len() - 1].0@, json_view(s[s.len() - 1].1)),
        )
    }
}

impl View for Json {
    type V = JsonView;

    open spec fn view(&self) -> JsonView {
        json_view(*self)
    }
}


/// Two item lists whose entries have equal views have equal views.
pub proof fn lemma_items_view_ext(a: Seq<Json>, b: Seq<Json>)
    requires
        a.len() == b.len(),
        forall|k: int| 0 <= k < a.len() ==> json_view(#[trigger] a[k]) == json_view(b[k]),
    ensures
        items_view(a) == items_view(b),
    decreases a.len(),
{
    if a.len() > 0 {
        lemma_items_view_ext(a.subrange(0, a.len() - 1), b.subrange(0, b.len() - 1));
    }
}

/// Two member lists with equal keys and equal value views have equal views.
pub proof fn lemma_members_view_ext(a: Seq<(String, Json)>, b: Seq<(String, Json)>)
    requires
        a.len() == b.len(),
        forall|k: int|
            0 <= k < a.len() ==> (#[trigger] a[k]).0@ == b[k].0@ && json_view(a[k].1) == json_view(
                b[k].1,
            ),
    ensures
        members_view(a) == members_view(b),
    decreases a.len(),
{
    if a.len() > 0 {
        lemma_members_view_ext(a.subrange(0, a.len() - 1), b.subrange(0, b.len() - 1));
    }
}

/// The value of the first member named `key`, if any.
pub open spec fn member_spec(members: Seq<(Seq<char>, JsonView)>, key: Seq<char>) -> Option<JsonView>
    decreases members.len(),
{
    if members.len() == 0 {
        None
    } else if members[0].0 == key {
        Some(members[0].1)
    } else {
        member_spec(members.drop_first(), key)
    }
}

/// The boolean a JSON value holds, if it is one (`Value::as_bool`).
pub open spec fn bool_of(v: Option<JsonView>) -> Option<bool> {
    match v {
        Some(JsonView::Bool(b)) => Some(b),
        _ => None,
    }
}

/// Each entry of `members_view(s)` is the view of the matching entry of `s`.
pub proof fn lemma_members_view_index(s: Seq<(String, Json)>)
    ensures
        members_view(s).len() == s.len(),
        forall|k: int|
            0 <= k < s.len() ==> #[trigger] members_view(s)[k] == (s[k].0@, json_view(s[k].1)),
    decreases s.len(),
{
    if s.len() > 0 {
        lemma_members_view_index(s.subrange(0, s.len() - 1));
    }
}

/// The member found under `key` is the first one of that name.
pub proof fn lemma_member_found(m: Seq<(Seq<char>, JsonView)>, key: Seq<char>, i: int)
    requires
        0 <= i < m.len(),
        m[i].0 == key,
        forall|t: int| 0 <= t < i ==> (#[trigger] m[t]).0 != key,
    ensures
        member_spec(m, key) == Some(m[i].1),
    decreases i,
{
    if i > 0 {
        lemma_member_found(m.drop_first(), key, i - 1);
        assert forall|t: int| 0 <= t < i - 1 implies (#[trigger] m.drop_first()[t]).0 != key by {
            assert(m.drop_first()[t] == m[t + 1]);
        }
    }
}

/// No member is found under a key that no member has.
pub proof fn lemma_member_absent(m: Seq<(Seq<char>, JsonView)>, key: Seq<char>)
    requires
        forall|t: int| 0 <= t < m.len() ==> (#[trigger] m[t]).0 != key,
    ensures
        member_spec(m, key) is None,
    decreases m.len(),
{
    if m.len() > 0 {
        assert forall|t: int| 0 <= t < m.len() - 1 implies (#[trigger] m.drop_first()[t]).0 != key by {
            assert(m.drop_first()[t] == m[t + 1]);
        }
        lemma_member_absent(m.drop_first(), key);
    }
}

/// The value of the first member of `members` named `key`
/// (`Map::get` on the members of a JSON object).
pub fn lookup_member<'a>(members: &'a Vec<(String, Json)>, key: &str) -> (r: Option<&'a Json>)
    ensures
        match r {
            Some(v) => member_spec(members_view(members@), key@) == Some(v@),
            None => member_spec(members_view(members@), key@) is None,
        },
{
    proof {
        lemma_members_view_index(members@);
    }
    let ghost m = members_view(members@);
    let mut i: usize = 0;
    while i < members.len()
        invariant
            m == members_view(members@),
            m.len() == members.len(),
            forall|k: int| 0 <= k < members.len() ==> #[trigger] m[k] == (members@[k].0@, json_view(members@[k].1)),
            i <= members.len(),
            forall|t: int| 0 <= t < i ==> (#[trigger] m[t]).0 != key@,
        decreases members.len() - i,
    {
        if text_eq(members[i].0.as_str(), key) {
            proof {
                lemma_member_found(m, key@, i as int);
            }
            return Some(&members[i].1);
        }
        i = i + 1;
    }
    proof {
        lemma_member_absent(m, key@);
    }
    None
}

/// The boolean `v` holds, if it is one.
pub fn as_bool(v: Option<&Json>) -> (r: Option<bool>)
    ensures
        r == bool_of(
            match v {
                Some(j) => Some(j@),
                None => None,
            },
        ),
{
    match v {
        Some(Json::Bool(b)) => Some(*b),
        _ => None,
    }
}

/// The view of an optional reference to a document.
pub open spec fn opt_view(v: Option<&Json>) -> Option<JsonView> {
    match v {
        Some(j) => Some(j@),
        None => None,
    }
}

/// The member `key` of `v` when `v` is an object that has one (`Value[key]`
/// gives `null` otherwise).
pub open spec fn get_key(v: JsonView, key: Seq<char>) -> Option<JsonView> {
    match v {
        JsonView::Object(m) => member_spec(m, key),
        _ => None,
    }
}

/// The item `i` of `v` when `v` is an array that long (`Value[i]` gives
/// `null` otherwise).
pub open spec fn get_index(v: JsonView, i: int) -> Option<JsonView> {
    match v {
        JsonView::Array(items) => if 0 <= i < items.len() {
            Some(items[i])
        } else {
            None
        },
        _ => None,
    }
}

/// [`get_key`] of a value that may be missing.
pub open spec fn key_of(v: Option<JsonView>, key: Seq<char>) -> Option<JsonView> {
    match v {
        Some(x) => get_key(x, key),
        None => None,
    }
}

/// The text of a value that is a JSON string (`Value::as_str`).
pub open spec fn text_of(v: Option<JsonView>) -> Option<Seq<char>> {
    match v {
        Some(JsonView::Str(s)) => Some(s),
        _ => None,
    }
}

/// The member `key` of `j`, when `j` is an object that has one.
pub fn get<'a>(j: &'a Json, key: &str) -> (r: Option<&'a Json>)
    ensures
        opt_view(r) == get_key(j@, key@),
{
    match j {
        Json::Object(m) => lookup_member(m, key),
        _ => None,
    }
}

/// The item `i` of `j`, when `j` is an array that long.
pub fn at(j: &Json, i: usize) -> (r: Option<&Json>)
    ensures
        opt_view(r) == get_index(j@, i as int),
{
    match j {
        Json::Array(items) => {
            proof {
                lemma_items_view_index(items@);
            }
            if i < items.len() {
                Some(&items[i])
            } else {
                None
            }
        },
        _ => None,
    }
}

/// The member `key` of a value that may be missing.
pub fn get_opt<'a>(j: Option<&'a Json>, key: &str) -> (r: Option<&'a Json>)
    ensures
        opt_view(r) == key_of(opt_view(j), key@),
{
    match j {
        Some(x) => get(x, key),
        None => None,
    }
}

/// The text of a value that is a JSON string.
pub fn as_text(v: Option<&Json>) -> (r: Option<String>)
    ensures
        match r {
            Some(t) => text_of(opt_view(v)) == Some(t@),
            None => text_of(opt_view(v)) is None,
        },
{
    match v {
        Some(Json::Str(s)) => Some(s.clone()),
        _ => None,
    }
}

/// Copies the members of a JSON object.
pub fn duplicate_members(members: &Vec<(String, Json)>) -> (r: Vec<(String, Json)>)
    ensures
        members_view(r@) == members_view(members@),
{
    let mut out: Vec<(String, Json)> = Vec::new();
    let mut i: usize = 0;
    while i < members.len()
        invariant
            i <= members.len(),
            out.len() == i,
            forall|k: int|
                0 <= k < i ==> (#[trigger] out@[k]).0@ == members@[k].0@ && json_view(out@[k].1)
                    == json_view(members@[k].1),
        decreases members.len() - i,
    {
        out.push((members[i].0.clone(), members[i].1.duplicate()));
        i = i + 1;
    }
    proof {
        lemma_members_view_ext(out@, members@);
    }
    out
}

/// Each entry of `items_view(s)` is the view of the matching entry of `s`.
pub proof fn lemma_items_view_index(s: Seq<Json>)
    ensures
        items_view(s).len() == s.len(),
        forall|k: int| 0 <= k < s.len() ==> #[trigger] items_view(s)[k] == json_view(s[k]),
    decreases s.len(),
{
    if s.len() > 0 {
        lemma_items_view_index(s.subrange(0, s.len() - 1));
    }
}

/// The JSON string `s`.
pub fn json_str(s: &str) -> (j: Json)
    ensures
        j@ == JsonView::Str(s@),
{
    Json::Str(s.to_string())
}

/// A member named `key` with value `value`.
pub fn member(key: &str, value: Json) -> (m: (String, Json))
    ensures
        m.0@ == key@,
        m.1 == value,
{
    (key.to_string(), value)
}

impl Clone for Json {
    fn clone(&self) -> (r: Json)
        ensures
            r@ == self@,
    {
        self.duplicate()
    }
}

impl Json {
    /// A deep copy of the document.
    pub fn duplicate(&self) -> (r: Json)
        ensures
            r@ == self@,
        decreases self,
    {
        broadcast use vstd::std_specs::vec::group_vec_axioms;
        match self {
            Json::Null => Json::Null,
            Json::Bool(b) => Json::Bool(*b),
            Json::Number(n) => Json::Number(n.clone()),
            Json::Str(s) => Json::Str(s.clone()),
            Json::Array(items) => {
                let mut out: Vec<Json> = Vec::new();
                let mut i: usize = 0;
                while i < items.len()
                    invariant
                        *self == Json::Array(*items),
                        i <= items.len(),
                        out.len() == i,
                        forall|k: int| 0 <= k < i ==> json_view(#[trigger] out@[k]) == json_view(items@[k]),
                    decreases items.len() - i,
                {
                    proof {
                        assert(decreases_to!(*self => self->Array_0));
                        assert(decreases_to!(*items => items@));
                        assert(decreases_to!(items@ => items@[i as int]));
                        assert(decreases_to!(*self => items@[i as int]));
                    }
                    let c = items[i].duplicate();
                    out.push(c);
                    i = i + 1;
                }
                proof {
                    lemma_items_view_ext(out@, items@);
                }
                Json::Array(out)
            },
            Json::Object(members) => {
                let mut out: Vec<(String, Json)> = Vec::new();
                let mut i: usize = 0;
                while i < members.len()
                    invariant
                        *self == Json::Object(*members),
                        i <= members.len(),
                        out.len() == i,
                        forall|k: int|
                            0 <= k < i ==> (#[trigger] out@[k]).0@ == members@[k].0@ && json_view(
                                out@[k].1,
                            ) == json_view(members@[k].1),
                    decreases members.len() - i,
                {
                    proof {
                        assert(decreases_to!(*self => self->Object_0));
                        assert(decreases_to!(*members => members@));
                        assert(decreases_to!(members@ => members@[i as int]));
                        assert(decreases_to!(members@[i as int] => members@[i as int].1));
                        assert(decreases_to!(*self => members@[i as int].1));
                    }
                    let key = members[i].0.clone();
                    let value = members[i].1.duplicate();
                    out.push((key, value));
                    i = i + 1;
                }
                proof {
                    lemma_members_view_ext(out@, members@);
                }
                Json::Object(out)
            },
        }
    }
}

} // verus!

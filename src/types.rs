//! Conversation records carried by events: roles, messages, tool calls and their results,
//! and the operations of a state patch.
use vstd::prelude::*;

use crate::fields::{
    both, opt_object_member, opt_text_field, opt_text_member, opt_value_field, opt_value_member,
    push_opt_object, push_opt_text, push_opt_value, push_text, push_time, push_value, read_object,
    read_opt_text, read_opt_value, read_text, read_time, read_value, text_field, text_member,
    time_field, time_member, value_field, value_member, object_field, push_member, DecodeError,
    DecodeFault, Read,
};
use crate::json::{
    field_of, find_member, lemma_field_of_concat, lemma_field_of_single, lemma_object_view, members_view, same_text, json_view, Json, JsonValue, Member,
};
use crate::time::{is_rfc3339, Timestamp};

verus! {

broadcast use {lemma_field_of_concat, lemma_field_of_single};

/// The author of a message.
#[derive(Debug, Clone, Copy, PartialEq, Eq, Structural)]
pub enum Role {
    Developer,
    User,
    Assistant,
    System,
    Tool,
}

/// The lower-case name a role has on the wire.
pub open spec fn role_name(r: Role) -> Seq<char> {
    match r {
        Role::Developer => "developer"@,
        Role::User => "user"@,
        Role::Assistant => "assistant"@,
        Role::System => "system"@,
        Role::Tool => "tool"@,
    }
}

/// The role a wire name stands for.
pub open spec fn role_of_name(s: Seq<char>) -> Option<Role> {
    if exists|r: Role| role_name(r) == s {
        Some(choose|r: Role| role_name(r) == s)
    } else {
        None
    }
}

pub proof fn lemma_role_of_own_name(r: Role)
    ensures
        role_of_name(role_name(r)) == Some(r),
{
    reveal_strlit("developer");
    reveal_strlit("user");
    reveal_strlit("assistant");
    reveal_strlit("system");
    reveal_strlit("tool");
    let c = choose|c: Role| role_name(c) == role_name(r);
    if c != r {
        assert(role_name(c)[0] == role_name(r)[0]);
        assert(role_name(c)[1] == role_name(r)[1]);
    }
}

impl Role {
    /// The wire name of the role.
    pub fn as_str(&self) -> (r: &'static str)
        ensures
            r@ == role_name(*self),
    {
        match self {
            Role::Developer => "developer",
            Role::User => "user",
            Role::Assistant => "assistant",
            Role::System => "system",
            Role::Tool => "tool",
        }
    }

    /// The role with the given wire name, if there is one.
    pub fn from_name(name: &str) -> (r: Option<Role>)
        ensures
            r == role_of_name(name@),
    {
        let found = if same_text(name, "developer") {
            Some(Role::Developer)
        } else if same_text(name, "user") {
            Some(Role::User)
        } else if same_text(name, "assistant") {
            Some(Role::Assistant)
        } else if same_text(name, "system") {
            Some(Role::System)
        } else if same_text(name, "tool") {
            Some(Role::Tool)
        } else {
            None
        };
        if let Some(r) = found {
            proof {
                lemma_role_of_own_name(r);
            }
        }
        found
    }
}

/// A member naming a role, required or not; null counts as absent.
pub open spec fn role_field(es: Seq<Member>, key: Seq<char>, required: bool) -> Read {
    match field_of(es, key) {
        Some(Json::Str(s)) => if role_of_name(s) is Some {
            Ok(seq![(key, Json::Str(s))])
        } else {
            Err(DecodeFault::InvalidField(key))
        },
        Some(Json::Null) => if required {
            Err(DecodeFault::InvalidField(key))
        } else {
            Ok(Seq::empty())
        },
        Some(_) => Err(DecodeFault::InvalidField(key)),
        None => if required {
            Err(DecodeFault::MissingField(key))
        } else {
            Ok(Seq::empty())
        },
    }
}

pub open spec fn opt_role_member(key: Seq<char>, o: Option<Role>) -> Seq<Member> {
    match o {
        Some(r) => seq![(key, Json::Str(role_name(r)))],
        None => Seq::empty(),
    }
}

pub fn push_opt_role(out: &mut Vec<(String, JsonValue)>, key: &str, o: Option<Role>)
    ensures
        members_view(final(out)@) == members_view(old(out)@) + opt_role_member(key@, o),
{
    match o {
        Some(r) => push_member(out, key, JsonValue::Str(r.as_str().to_owned())),
        None => {
            assert(members_view(out@) + Seq::<Member>::empty() =~= members_view(out@));
        },
    }
}

pub fn read_role(es: &Vec<(String, JsonValue)>, key: &str, required: bool) -> (r: Result<
    Option<Role>,
    DecodeError,
>)
    ensures
        match r {
            Ok(o) => role_field(members_view(es@), key@, required) == Read::Ok(
                opt_role_member(key@, o),
            ) && (required ==> o is Some),
            Err(e) => role_field(members_view(es@), key@, required) == Read::Err(e@),
        },
{
    match find_member(es, key) {
        Some(i) => match &es[i].1 {
            JsonValue::Str(s) => match Role::from_name(s.as_str()) {
                Some(r) => {
                    proof {
                        lemma_role_of_own_name(r);
                    }
                    Ok(Some(r))
                },
                None => Err(DecodeError::InvalidField(key.to_owned())),
            },
            JsonValue::Null => if required {
                Err(DecodeError::InvalidField(key.to_owned()))
            } else {
                Ok(None)
            },
            _ => Err(DecodeError::InvalidField(key.to_owned())),
        },
        None => if required {
            Err(DecodeError::MissingField(key.to_owned()))
        } else {
            Ok(None)
        },
    }
}

/// A nested record member, required or not; null counts as absent.
pub open spec fn record_field(
    es: Seq<Member>,
    key: Seq<char>,
    read: spec_fn(Seq<Member>) -> Read,
    required: bool,
) -> Read {
    match field_of(es, key) {
        Some(Json::Object(m)) => match read(m) {
            Ok(x) => Ok(seq![(key, Json::Object(x))]),
            Err(e) => Err(e),
        },
        Some(Json::Null) => if required {
            Err(DecodeFault::InvalidField(key))
        } else {
            Ok(Seq::empty())
        },
        Some(_) => Err(DecodeFault::InvalidField(key)),
        None => if required {
            Err(DecodeFault::MissingField(key))
        } else {
            Ok(Seq::empty())
        },
    }
}

/// The records of an array, read one after another; the first failure wins.
pub open spec fn read_items(items: Seq<Json>, key: Seq<char>, read: spec_fn(Seq<Member>) -> Read) -> Result<
    Seq<Json>,
    DecodeFault,
>
    decreases items.len(),
{
    if items.len() == 0 {
        Ok(Seq::empty())
    } else {
        match read_items(items.drop_last(), key, read) {
            Err(e) => Err(e),
            Ok(xs) => match items.last() {
                Json::Object(m) => match read(m) {
                    Ok(x) => Ok(xs.push(Json::Object(x))),
                    Err(e) => Err(e),
                },
                _ => Err(DecodeFault::InvalidField(key)),
            },
        }
    }
}

/// An array of records, required or not; null counts as absent.
pub open spec fn list_field(
    es: Seq<Member>,
    key: Seq<char>,
    read: spec_fn(Seq<Member>) -> Read,
    required: bool,
) -> Read {
    match field_of(es, key) {
        Some(Json::Array(items)) => match read_items(items, key, read) {
            Ok(xs) => Ok(seq![(key, Json::Array(xs))]),
            Err(e) => Err(e),
        },
        Some(Json::Null) => if required {
            Err(DecodeFault::InvalidField(key))
        } else {
            Ok(Seq::empty())
        },
        Some(_) => Err(DecodeFault::InvalidField(key)),
        None => if required {
            Err(DecodeFault::MissingField(key))
        } else {
            Ok(Seq::empty())
        },
    }
}

/// Records that read back as themselves are read back as themselves in an array.
pub proof fn lemma_read_items_back(items: Seq<Json>, key: Seq<char>, read: spec_fn(Seq<Member>) -> Read)
    requires
        forall|i: int|
            0 <= i < items.len() ==> (#[trigger] items[i]) is Object && read(items[i]->Object_0)
                == Read::Ok(items[i]->Object_0),
    ensures
        read_items(items, key, read) == Ok::<Seq<Json>, DecodeFault>(items),
    decreases items.len(),
{
    if items.len() > 0 {
        let init = items.drop_last();
        assert forall|i: int| 0 <= i < init.len() implies (#[trigger] init[i]) is Object && read(
            init[i]->Object_0,
        ) == Read::Ok(init[i]->Object_0) by {
            assert(init[i] == items[i]);
        }
        lemma_read_items_back(init, key, read);
        let last = items[items.len() - 1];
        assert(last is Object && read(last->Object_0) == Read::Ok(last->Object_0));
        assert(init.push(last) =~= items);
        assert(items.last() == last);
        assert(read_items(init, key, read) == Ok::<Seq<Json>, DecodeFault>(init));
        match last {
            Json::Object(m) => {
                assert(read(m) == Read::Ok(m));
                assert(read_items(items, key, read) == Ok::<Seq<Json>, DecodeFault>(init.push(Json::Object(m))));
            },
            _ => {},
        }
    } else {
        assert(items =~= Seq::<Json>::empty());
    }
}

/// A failure among the first records is the failure of the whole array.
pub proof fn lemma_read_items_fail(
    items: Seq<Json>,
    n: int,
    key: Seq<char>,
    read: spec_fn(Seq<Member>) -> Read,
)
    requires
        0 <= n <= items.len(),
        read_items(items.subrange(0, n), key, read) is Err,
    ensures
        read_items(items, key, read) == read_items(items.subrange(0, n), key, read),
    decreases items.len(),
{
    if n == items.len() {
        assert(items.subrange(0, n) =~= items);
    } else {
        let init = items.drop_last();
        assert(init.subrange(0, n) =~= items.subrange(0, n));
        lemma_read_items_fail(init, n, key, read);
    }
}

// ----- function calls -----
/// A function call in the older single-call form.
#[derive(Debug)]
pub struct FunctionCall {
    pub name: String,
    pub arguments: Option<String>,
}

impl FunctionCall {
    pub open spec fn members(self) -> Seq<Member> {
        text_member("name"@, self.name) + opt_text_member("arguments"@, self.arguments)
    }

    pub open spec fn read(es: Seq<Member>) -> Read {
        both(text_field(es, "name"@), opt_text_field(es, "arguments"@))
    }

    pub fn write_members(&self, out: &mut Vec<(String, JsonValue)>)
        ensures
            members_view(final(out)@) == members_view(old(out)@) + self.members(),
    {
        let ghost start = members_view(out@);
        push_text(out, "name", &self.name);
        push_opt_text(out, "arguments", &self.arguments);
        assert(members_view(out@) =~= start + self.members());
    }

    pub fn read_members(es: &Vec<(String, JsonValue)>) -> (r: Result<FunctionCall, DecodeError>)
        ensures
            match r {
                Ok(x) => FunctionCall::read(members_view(es@)) == Read::Ok(x.members()),
                Err(e) => FunctionCall::read(members_view(es@)) == Read::Err(e@),
            },
    {
        let name = read_text(es, "name")?;
        let arguments = read_opt_text(es, "arguments")?;
        Ok(FunctionCall { name, arguments })
    }

    pub proof fn lemma_read_back(self, pre: Seq<Member>)
        requires
            field_of(pre, "name"@) is None,
            field_of(pre, "arguments"@) is None,
        ensures
            FunctionCall::read(pre + self.members()) == Read::Ok(self.members()),
    {
        reveal_strlit("name");
        reveal_strlit("arguments");
        assert("name"@.len() == 4);
        assert("arguments"@.len() == 9);
        assert(pre + self.members() =~= (pre + text_member("name"@, self.name)) + opt_text_member(
            "arguments"@,
            self.arguments,
        ));
    }
}

/// A call of a tool, as the assistant made it.
#[derive(Debug)]
pub struct ToolCall {
    pub id: String,
    pub name: String,
    pub arguments: Option<JsonValue>,
}

impl ToolCall {
    pub open spec fn members(self) -> Seq<Member> {
        text_member("id"@, self.id) + text_member("name"@, self.name) + opt_value_member(
            "arguments"@,
            self.arguments,
        )
    }

    pub open spec fn read(es: Seq<Member>) -> Read {
        both(both(text_field(es, "id"@), text_field(es, "name"@)), opt_value_field(es, "arguments"@))
    }

    pub fn write_members(&self, out: &mut Vec<(String, JsonValue)>)
        ensures
            members_view(final(out)@) == members_view(old(out)@) + self.members(),
    {
        let ghost start = members_view(out@);
        push_text(out, "id", &self.id);
        push_text(out, "name", &self.name);
        push_opt_value(out, "arguments", &self.arguments);
        assert(members_view(out@) =~= start + self.members());
    }

    pub fn read_members(es: &Vec<(String, JsonValue)>) -> (r: Result<ToolCall, DecodeError>)
        ensures
            match r {
                Ok(x) => ToolCall::read(members_view(es@)) == Read::Ok(x.members()),
                Err(e) => ToolCall::read(members_view(es@)) == Read::Err(e@),
            },
    {
        let id = read_text(es, "id")?;
        let name = read_text(es, "name")?;
        let arguments = read_opt_value(es, "arguments");
        Ok(ToolCall { id, name, arguments })
    }

    pub proof fn lemma_read_back(self, pre: Seq<Member>)
        requires
            field_of(pre, "id"@) is None,
            field_of(pre, "name"@) is None,
            field_of(pre, "arguments"@) is None,
        ensures
            ToolCall::read(pre + self.members()) == Read::Ok(self.members()),
    {
        reveal_strlit("id");
        reveal_strlit("name");
        reveal_strlit("arguments");
        assert("id"@.len() == 2);
        assert("name"@.len() == 4);
        assert("arguments"@.len() == 9);
        assert(pre + self.members() =~= ((pre + text_member("id"@, self.id)) + text_member(
            "name"@,
            self.name,
        )) + opt_value_member("arguments"@, self.arguments));
    }
}

/// The result of a tool call.
#[derive(Debug)]
pub struct ToolResult {
    pub tool_call_id: String,
    pub result: JsonValue,
    pub error: Option<String>,
}

impl ToolResult {
    pub open spec fn members(self) -> Seq<Member> {
        text_member("tool_call_id"@, self.tool_call_id) + value_member("result"@, self.result)
            + opt_text_member("error"@, self.error)
    }

    pub open spec fn read(es: Seq<Member>) -> Read {
        both(
            both(text_field(es, "tool_call_id"@), value_field(es, "result"@)),
            opt_text_field(es, "error"@),
        )
    }

    pub fn write_members(&self, out: &mut Vec<(String, JsonValue)>)
        ensures
            members_view(final(out)@) == members_view(old(out)@) + self.members(),
    {
        let ghost start = members_view(out@);
        push_text(out, "tool_call_id", &self.tool_call_id);
        push_value(out, "result", &self.result);
        push_opt_text(out, "error", &self.error);
        assert(members_view(out@) =~= start + self.members());
    }

    pub fn read_members(es: &Vec<(String, JsonValue)>) -> (r: Result<ToolResult, DecodeError>)
        ensures
            match r {
                Ok(x) => ToolResult::read(members_view(es@)) == Read::Ok(x.members()),
                Err(e) => ToolResult::read(members_view(es@)) == Read::Err(e@),
            },
    {
        let tool_call_id = read_text(es, "tool_call_id")?;
        let result = read_value(es, "result")?;
        let error = read_opt_text(es, "error")?;
        Ok(ToolResult { tool_call_id, result, error })
    }

    pub proof fn lemma_read_back(self, pre: Seq<Member>)
        requires
            field_of(pre, "tool_call_id"@) is None,
            field_of(pre, "result"@) is None,
            field_of(pre, "error"@) is None,
        ensures
            ToolResult::read(pre + self.members()) == Read::Ok(self.members()),
    {
        reveal_strlit("tool_call_id");
        reveal_strlit("result");
        reveal_strlit("error");
        assert("tool_call_id"@.len() == 12);
        assert("result"@.len() == 6);
        assert("error"@.len() == 5);
        assert(pre + self.members() =~= ((pre + text_member("tool_call_id"@, self.tool_call_id))
            + value_member("result"@, self.result)) + opt_text_member("error"@, self.error));
    }
}


/// Reads a tool call record.
pub open spec fn tool_call_reader() -> spec_fn(Seq<Member>) -> Read {
    |m: Seq<Member>| ToolCall::read(m)
}

/// Reads a function call record.
pub open spec fn function_call_reader() -> spec_fn(Seq<Member>) -> Read {
    |m: Seq<Member>| FunctionCall::read(m)
}

/// The tool calls of a list, each as the object it is written as.
pub open spec fn tool_calls_view(v: Seq<ToolCall>) -> Seq<Json> {
    Seq::new(v.len(), |i: int| Json::Object(v[i].members()))
}

pub open spec fn opt_tool_calls_member(key: Seq<char>, o: Option<Vec<ToolCall>>) -> Seq<Member> {
    match o {
        Some(v) => seq![(key, Json::Array(tool_calls_view(v@)))],
        None => Seq::empty(),
    }
}

pub open spec fn opt_function_call_member(key: Seq<char>, o: Option<FunctionCall>) -> Seq<Member> {
    match o {
        Some(f) => seq![(key, Json::Object(f.members()))],
        None => Seq::empty(),
    }
}

/// Writes a record as a nested object member.
fn object_of_tool_call(t: &ToolCall) -> (r: JsonValue)
    ensures
        r@ == Json::Object(t.members()),
{
    let mut m: Vec<(String, JsonValue)> = Vec::new();
    assert(members_view(m@) =~= Seq::<Member>::empty());
    t.write_members(&mut m);
    assert(Seq::<Member>::empty() + t.members() =~= t.members());
    proof {
        lemma_object_view(m);
    }
    JsonValue::Object(m)
}

pub fn push_opt_tool_calls(out: &mut Vec<(String, JsonValue)>, key: &str, o: &Option<Vec<ToolCall>>)
    ensures
        members_view(final(out)@) == members_view(old(out)@) + opt_tool_calls_member(key@, *o),
{
    match o {
        Some(v) => {
            let mut items: Vec<JsonValue> = Vec::new();
            let mut i: usize = 0;
            while i < v.len()
                invariant
                    i <= v@.len(),
                    items@.len() == i,
                    forall|k: int| 0 <= k < i ==> json_view(#[trigger] items@[k]) == Json::Object(v@[k].members()),
                decreases v@.len() - i,
            {
                items.push(object_of_tool_call(&v[i]));
                i += 1;
            }
            let a = JsonValue::Array(items);
            assert(json_view(a)->Array_0 =~= tool_calls_view(v@));
            push_member(out, key, a);
        },
        None => {
            assert(members_view(out@) + Seq::<Member>::empty() =~= members_view(out@));
        },
    }
}

pub fn push_opt_function_call(out: &mut Vec<(String, JsonValue)>, key: &str, o: &Option<FunctionCall>)
    ensures
        members_view(final(out)@) == members_view(old(out)@) + opt_function_call_member(key@, *o),
{
    match o {
        Some(f) => {
            let mut m: Vec<(String, JsonValue)> = Vec::new();
            assert(members_view(m@) =~= Seq::<Member>::empty());
            f.write_members(&mut m);
            assert(Seq::<Member>::empty() + f.members() =~= f.members());
            proof {
                lemma_object_view(m);
            }
            push_member(out, key, JsonValue::Object(m));
        },
        None => {
            assert(members_view(out@) + Seq::<Member>::empty() =~= members_view(out@));
        },
    }
}

pub fn read_tool_calls(es: &Vec<(String, JsonValue)>, key: &str) -> (r: Result<
    Option<Vec<ToolCall>>,
    DecodeError,
>)
    ensures
        match r {
            Ok(o) => list_field(members_view(es@), key@, tool_call_reader(), false) == Read::Ok(
                opt_tool_calls_member(key@, o),
            ),
            Err(e) => list_field(members_view(es@), key@, tool_call_reader(), false) == Read::Err(
                e@,
            ),
        },
{
    match find_member(es, key) {
        Some(i) => match &es[i].1 {
            JsonValue::Array(items) => {
                let ghost view = json_view(es@[i as int].1)->Array_0;
                let mut out: Vec<ToolCall> = Vec::new();
                let mut k: usize = 0;
                assert(view.subrange(0, 0) =~= Seq::<Json>::empty());
                assert(tool_calls_view(out@) =~= Seq::<Json>::empty());
                while k < items.len()
                    invariant
                        view == json_view(JsonValue::Array(*items))->Array_0,
                        field_of(members_view(es@), key@) == Some(Json::Array(view)),
                        k <= items@.len(),
                        read_items(view.subrange(0, k as int), key@, tool_call_reader()) == Ok::<
                            Seq<Json>,
                            DecodeFault,
                        >(tool_calls_view(out@)),
                    decreases items@.len() - k,
                {
                    let ghost pre = view.subrange(0, k as int);
                    assert(view.subrange(0, k + 1).drop_last() =~= pre);
                    assert(view.subrange(0, k + 1).last() == json_view(items@[k as int]));
                    match &items[k] {
                        JsonValue::Object(m) => {
                            proof {
                                lemma_object_view(*m);
                            }
                            let t = match ToolCall::read_members(m) {
                                Ok(t) => t,
                                Err(e) => {
                                    proof {
                                        lemma_read_items_fail(view, k + 1, key@, tool_call_reader());
                                    }
                                    return Err(e);
                                },
                            };
                            let ghost before = out@;
                            out.push(t);
                            assert(tool_calls_view(out@) =~= tool_calls_view(before).push(
                                Json::Object(t.members()),
                            ));
                        },
                        _ => {
                            proof {
                                lemma_read_items_fail(view, k + 1, key@, tool_call_reader());
                            }
                            return Err(DecodeError::InvalidField(key.to_owned()));
                        },
                    }
                    k += 1;
                }
                assert(view.subrange(0, k as int) =~= view);
                Ok(Some(out))
            },
            JsonValue::Null => Ok(None),
            _ => Err(DecodeError::InvalidField(key.to_owned())),
        },
        None => Ok(None),
    }
}

pub fn read_function_call(es: &Vec<(String, JsonValue)>, key: &str) -> (r: Result<
    Option<FunctionCall>,
    DecodeError,
>)
    ensures
        match r {
            Ok(o) => record_field(members_view(es@), key@, function_call_reader(), false)
                == Read::Ok(opt_function_call_member(key@, o)),
            Err(e) => record_field(members_view(es@), key@, function_call_reader(), false)
                == Read::Err(e@),
        },
{
    match find_member(es, key) {
        Some(i) => match &es[i].1 {
            JsonValue::Object(m) => {
                proof {
                    lemma_object_view(*m);
                }
                let f = FunctionCall::read_members(m)?;
                Ok(Some(f))
            },
            JsonValue::Null => Ok(None),
            _ => Err(DecodeError::InvalidField(key.to_owned())),
        },
        None => Ok(None),
    }
}

/// A message of the conversation.
#[derive(Debug)]
pub struct Message {
    pub id: String,
    pub role: Role,
    pub content: String,
    pub name: Option<String>,
    pub tool_call_id: Option<String>,
    pub tool_calls: Option<Vec<ToolCall>>,
    pub function_call: Option<FunctionCall>,
    pub metadata: Option<Vec<(String, JsonValue)>>,
    pub created_at: Option<Timestamp>,
}

impl Message {
    pub open spec fn members(self) -> Seq<Member> {
        text_member("id"@, self.id) + opt_role_member("role"@, Some(self.role)) + text_member(
            "content"@,
            self.content,
        ) + opt_text_member("name"@, self.name) + opt_text_member(
            "tool_call_id"@,
            self.tool_call_id,
        ) + opt_tool_calls_member("tool_calls"@, self.tool_calls) + opt_function_call_member(
            "function_call"@,
            self.function_call,
        ) + opt_object_member("metadata"@, self.metadata) + time_member(
            "created_at"@,
            self.created_at,
        )
    }

    pub open spec fn read(es: Seq<Member>) -> Read {
        both(
            both(
                both(
                    both(
                        both(
                            both(
                                both(
                                    both(text_field(es, "id"@), role_field(es, "role"@, true)),
                                    text_field(es, "content"@),
                                ),
                                opt_text_field(es, "name"@),
                            ),
                            opt_text_field(es, "tool_call_id"@),
                        ),
                        list_field(es, "tool_calls"@, tool_call_reader(), false),
                    ),
                    record_field(es, "function_call"@, function_call_reader(), false),
                ),
                object_field(es, "metadata"@, false),
            ),
            time_field(es, "created_at"@),
        )
    }

    pub fn write_members(&self, out: &mut Vec<(String, JsonValue)>)
        ensures
            members_view(final(out)@) == members_view(old(out)@) + self.members(),
    {
        let ghost start = members_view(out@);
        push_text(out, "id", &self.id);
        push_opt_role(out, "role", Some(self.role));
        push_text(out, "content", &self.content);
        push_opt_text(out, "name", &self.name);
        push_opt_text(out, "tool_call_id", &self.tool_call_id);
        push_opt_tool_calls(out, "tool_calls", &self.tool_calls);
        push_opt_function_call(out, "function_call", &self.function_call);
        push_opt_object(out, "metadata", &self.metadata);
        push_time(out, "created_at", &self.created_at);
        assert(members_view(out@) =~= start + self.members());
    }

    pub fn read_members(es: &Vec<(String, JsonValue)>) -> (r: Result<Message, DecodeError>)
        ensures
            match r {
                Ok(x) => Message::read(members_view(es@)) == Read::Ok(x.members()),
                Err(e) => Message::read(members_view(es@)) == Read::Err(e@),
            },
    {
        let id = read_text(es, "id")?;
        let role = read_role(es, "role", true)?;
        let content = read_text(es, "content")?;
        let name = read_opt_text(es, "name")?;
        let tool_call_id = read_opt_text(es, "tool_call_id")?;
        let tool_calls = read_tool_calls(es, "tool_calls")?;
        let function_call = read_function_call(es, "function_call")?;
        let metadata = read_object(es, "metadata", false)?;
        let created_at = read_time(es, "created_at")?;
        match role {
            Some(role) => Ok(
                Message {
                    id,
                    role,
                    content,
                    name,
                    tool_call_id,
                    tool_calls,
                    function_call,
                    metadata,
                    created_at,
                },
            ),
            None => Err(DecodeError::MissingField("role".to_owned())),
        }
    }
}

/// The keys a message is written with.
pub proof fn lemma_message_keys_distinct()
    ensures
        "id"@ != "role"@,
        "id"@ != "content"@,
        "id"@ != "name"@,
        "id"@ != "tool_call_id"@,
        "id"@ != "tool_calls"@,
        "id"@ != "function_call"@,
        "id"@ != "metadata"@,
        "id"@ != "created_at"@,
        "role"@ != "content"@,
        "role"@ != "name"@,
        "role"@ != "tool_call_id"@,
        "role"@ != "tool_calls"@,
        "role"@ != "function_call"@,
        "role"@ != "metadata"@,
        "role"@ != "created_at"@,
        "content"@ != "name"@,
        "content"@ != "tool_call_id"@,
        "content"@ != "tool_calls"@,
        "content"@ != "function_call"@,
        "content"@ != "metadata"@,
        "content"@ != "created_at"@,
        "name"@ != "tool_call_id"@,
        "name"@ != "tool_calls"@,
        "name"@ != "function_call"@,
        "name"@ != "metadata"@,
        "name"@ != "created_at"@,
        "tool_call_id"@ != "tool_calls"@,
        "tool_call_id"@ != "function_call"@,
        "tool_call_id"@ != "metadata"@,
        "tool_call_id"@ != "created_at"@,
        "tool_calls"@ != "function_call"@,
        "tool_calls"@ != "metadata"@,
        "tool_calls"@ != "created_at"@,
        "function_call"@ != "metadata"@,
        "function_call"@ != "created_at"@,
        "metadata"@ != "created_at"@,
{
    reveal_strlit("id");
    reveal_strlit("role");
    reveal_strlit("content");
    reveal_strlit("name");
    reveal_strlit("tool_call_id");
    reveal_strlit("tool_calls");
    reveal_strlit("function_call");
    reveal_strlit("metadata");
    reveal_strlit("created_at");
    assert("id"@.len() == 2);
    assert("role"@.len() == 4);
    assert("content"@.len() == 7);
    assert("name"@.len() == 4);
    assert("tool_call_id"@.len() == 12);
    assert("tool_calls"@.len() == 10);
    assert("function_call"@.len() == 13);
    assert("metadata"@.len() == 8);
    assert("created_at"@.len() == 10);
    assert("role"@[0] != "name"@[0]);
    assert("tool_calls"@[0] != "created_at"@[0]);
}

impl Message {
    /// Whether its timestamp is one that chrono reads.
    pub open spec fn readable(self) -> bool {
        self.created_at matches Some(t) ==> is_rfc3339(t.text())
    }

    /// A message reads back as the members it is written as.
    pub proof fn lemma_read_back(self)
        requires
            self.readable(),
        ensures
            Message::read(self.members()) == Read::Ok(self.members()),
    {
        lemma_message_keys_distinct();
        lemma_role_of_own_name(self.role);
        if let Some(v) = self.tool_calls {
            let items = tool_calls_view(v@);
            assert forall|i: int| 0 <= i < items.len() implies (#[trigger] items[i]) is Object
                && tool_call_reader()(items[i]->Object_0) == Read::Ok(items[i]->Object_0) by {
                v@[i].lemma_read_back(Seq::empty());
                assert(Seq::<Member>::empty() + v@[i].members() =~= v@[i].members());
            }
            lemma_read_items_back(items, "tool_calls"@, tool_call_reader());
        }
        if let Some(f) = self.function_call {
            f.lemma_read_back(Seq::empty());
            assert(Seq::<Member>::empty() + f.members() =~= f.members());
        }
    }
}

// ----- state patches -----
/// The operations of a JSON Patch document.
#[derive(Debug, Clone, Copy, PartialEq, Eq, Structural)]
pub enum PatchOp {
    Add,
    Remove,
    Replace,
    Move,
    Copy,
    Test,
}

/// The name an operation has on the wire.
pub open spec fn op_name(o: PatchOp) -> Seq<char> {
    match o {
        PatchOp::Add => "add"@,
        PatchOp::Remove => "remove"@,
        PatchOp::Replace => "replace"@,
        PatchOp::Move => "move"@,
        PatchOp::Copy => "copy"@,
        PatchOp::Test => "test"@,
    }
}

/// The operation a wire name stands for.
pub open spec fn op_of_name(s: Seq<char>) -> Option<PatchOp> {
    if exists|o: PatchOp| op_name(o) == s {
        Some(choose|o: PatchOp| op_name(o) == s)
    } else {
        None
    }
}

pub proof fn lemma_op_of_own_name(o: PatchOp)
    ensures
        op_of_name(op_name(o)) == Some(o),
{
    reveal_strlit("add");
    reveal_strlit("remove");
    reveal_strlit("replace");
    reveal_strlit("move");
    reveal_strlit("copy");
    reveal_strlit("test");
    let c = choose|c: PatchOp| op_name(c) == op_name(o);
    if c != o {
        assert(op_name(c).len() == op_name(o).len());
        assert(op_name(c)[0] == op_name(o)[0]);
        assert(op_name(c)[2] == op_name(o)[2]);
    }
}

impl PatchOp {
    /// The wire name of the operation.
    pub fn as_str(&self) -> (r: &'static str)
        ensures
            r@ == op_name(*self),
    {
        match self {
            PatchOp::Add => "add",
            PatchOp::Remove => "remove",
            PatchOp::Replace => "replace",
            PatchOp::Move => "move",
            PatchOp::Copy => "copy",
            PatchOp::Test => "test",
        }
    }

    /// The operation with the given wire name, if there is one.
    pub fn from_name(name: &str) -> (r: Option<PatchOp>)
        ensures
            r == op_of_name(name@),
    {
        let found = if same_text(name, "add") {
            Some(PatchOp::Add)
        } else if same_text(name, "remove") {
            Some(PatchOp::Remove)
        } else if same_text(name, "replace") {
            Some(PatchOp::Replace)
        } else if same_text(name, "move") {
            Some(PatchOp::Move)
        } else if same_text(name, "copy") {
            Some(PatchOp::Copy)
        } else if same_text(name, "test") {
            Some(PatchOp::Test)
        } else {
            None
        };
        if let Some(o) = found {
            proof {
                lemma_op_of_own_name(o);
            }
        }
        found
    }
}

/// A required member naming a patch operation.
pub open spec fn op_field(es: Seq<Member>, key: Seq<char>) -> Read {
    match field_of(es, key) {
        Some(Json::Str(s)) => if op_of_name(s) is Some {
            Ok(seq![(key, Json::Str(s))])
        } else {
            Err(DecodeFault::InvalidField(key))
        },
        Some(_) => Err(DecodeFault::InvalidField(key)),
        None => Err(DecodeFault::MissingField(key)),
    }
}

pub fn read_op(es: &Vec<(String, JsonValue)>, key: &str) -> (r: Result<PatchOp, DecodeError>)
    ensures
        match r {
            Ok(o) => op_field(members_view(es@), key@) == Read::Ok(seq![(key@, Json::Str(op_name(o)))]),
            Err(e) => op_field(members_view(es@), key@) == Read::Err(e@),
        },
{
    match find_member(es, key) {
        Some(i) => match &es[i].1 {
            JsonValue::Str(s) => match PatchOp::from_name(s.as_str()) {
                Some(o) => {
                    proof {
                        lemma_op_of_own_name(o);
                    }
                    Ok(o)
                },
                None => Err(DecodeError::InvalidField(key.to_owned())),
            },
            _ => Err(DecodeError::InvalidField(key.to_owned())),
        },
        None => Err(DecodeError::MissingField(key.to_owned())),
    }
}

/// One operation of a state patch: `from` for move and copy, `value` for add, replace and
/// test. Which members an operation needs is left to whoever applies the patch.
#[derive(Debug)]
pub struct PatchOperation {
    pub op: PatchOp,
    pub path: String,
    pub from: Option<String>,
    pub value: Option<JsonValue>,
}

impl PatchOperation {
    pub open spec fn members(self) -> Seq<Member> {
        seq![("op"@, Json::Str(op_name(self.op)))] + text_member("path"@, self.path)
            + opt_text_member("from"@, self.from) + opt_value_member("value"@, self.value)
    }

    pub open spec fn read(es: Seq<Member>) -> Read {
        both(
            both(both(op_field(es, "op"@), text_field(es, "path"@)), opt_text_field(es, "from"@)),
            opt_value_field(es, "value"@),
        )
    }

    pub fn write_members(&self, out: &mut Vec<(String, JsonValue)>)
        ensures
            members_view(final(out)@) == members_view(old(out)@) + self.members(),
    {
        let ghost start = members_view(out@);
        push_member(out, "op", JsonValue::Str(self.op.as_str().to_owned()));
        push_text(out, "path", &self.path);
        push_opt_text(out, "from", &self.from);
        push_opt_value(out, "value", &self.value);
        assert(members_view(out@) =~= start + self.members());
    }

    pub fn read_members(es: &Vec<(String, JsonValue)>) -> (r: Result<PatchOperation, DecodeError>)
        ensures
            match r {
                Ok(x) => PatchOperation::read(members_view(es@)) == Read::Ok(x.members()),
                Err(e) => PatchOperation::read(members_view(es@)) == Read::Err(e@),
            },
    {
        let op = read_op(es, "op")?;
        let path = read_text(es, "path")?;
        let from = read_opt_text(es, "from")?;
        let value = read_opt_value(es, "value");
        Ok(PatchOperation { op, path, from, value })
    }

    pub proof fn lemma_read_back(self, pre: Seq<Member>)
        requires
            field_of(pre, "op"@) is None,
            field_of(pre, "path"@) is None,
            field_of(pre, "from"@) is None,
            field_of(pre, "value"@) is None,
        ensures
            PatchOperation::read(pre + self.members()) == Read::Ok(self.members()),
    {
        reveal_strlit("op");
        reveal_strlit("path");
        reveal_strlit("from");
        reveal_strlit("value");
        assert("op"@.len() == 2);
        assert("path"@.len() == 4);
        assert("from"@.len() == 4);
        assert("value"@.len() == 5);
        assert("path"@[0] != "from"@[0]);
        lemma_op_of_own_name(self.op);
        assert(pre + self.members() =~= (((pre + seq![("op"@, Json::Str(op_name(self.op)))])
            + text_member("path"@, self.path)) + opt_text_member("from"@, self.from))
            + opt_value_member("value"@, self.value));
    }
}


/// The state of a conversation: names and JSON values.
pub type State = Vec<(String, JsonValue)>;

/// Whether a character is a lower-case hexadecimal digit.
pub open spec fn is_lower_hex(c: char) -> bool {
    ('0' <= c && c <= '9') || ('a' <= c && c <= 'f')
}

/// Whether a text is a version 4 UUID written hyphenated in lower case:
/// `xxxxxxxx-xxxx-4xxx-yxxx-xxxxxxxxxxxx`, with `y` one of `8`, `9`, `a`, `b`.
pub open spec fn is_v4_uuid_text(s: Seq<char>) -> bool {
    &&& s.len() == 36
    &&& forall|i: int|
        0 <= i < 36 ==> (if i == 8 || i == 13 || i == 18 || i == 23 {
            s[i] == '-'
        } else {
            is_lower_hex(#[trigger] s[i])
        })
    &&& s[14] == '4'
    &&& (s[19] == '8' || s[19] == '9' || s[19] == 'a' || s[19] == 'b')
}

/// Relies on uuid's `Uuid::new_v4` and its `Display`: random bits with the version set to 4
/// and the variant to RFC 9562's (`new_v4` masks them in), written hyphenated in lower-case
/// hexadecimal (`Display` goes through `LowerHex` of the hyphenated form).
#[verifier::external_body]
fn random_id() -> (r: String)
    ensures
        is_v4_uuid_text(r@),
{
    uuid::Uuid::new_v4().to_string()
}

impl FunctionCall {
    /// A copy of the call.
    pub fn copy(&self) -> (r: FunctionCall)
        ensures
            r.members() == self.members(),
    {
        let arguments = match &self.arguments {
            Some(a) => Some(a.clone()),
            None => None,
        };
        FunctionCall { name: self.name.clone(), arguments }
    }
}

impl ToolCall {
    /// A copy of the call.
    pub fn copy(&self) -> (r: ToolCall)
        ensures
            r.members() == self.members(),
    {
        let arguments = match &self.arguments {
            Some(a) => Some(a.deep_copy()),
            None => None,
        };
        ToolCall { id: self.id.clone(), name: self.name.clone(), arguments }
    }
}

fn copy_opt_text(o: &Option<String>) -> (r: Option<String>)
    ensures
        match (r, *o) {
            (Some(a), Some(b)) => a@ == b@,
            (None, None) => true,
            _ => false,
        },
{
    match o {
        Some(s) => Some(s.clone()),
        None => None,
    }
}

impl Message {
    /// A message from `role` with the given content, id and creation time, and nothing else.
    pub fn with_id_at(role: Role, content: String, id: String, created_at: Timestamp) -> (r: Message)
        ensures
            r.id == id,
            r.role == role,
            r.content == content,
            r.created_at == Some(created_at),
            r.name is None,
            r.tool_call_id is None,
            r.tool_calls is None,
            r.function_call is None,
            r.metadata is None,
    {
        Message {
            id,
            role,
            content,
            name: None,
            tool_call_id: None,
            tool_calls: None,
            function_call: None,
            metadata: None,
            created_at: Some(created_at),
        }
    }

    /// A message from `role` with the given content, a fresh random version 4 UUID as its id
    /// and the current time as its creation time.
    pub fn new(role: Role, content: String) -> (r: Message)
        ensures
            r.role == role,
            r.content == content,
            is_v4_uuid_text(r.id@),
            r.created_at is Some,
            r.name is None,
            r.tool_call_id is None,
            r.tool_calls is None,
            r.function_call is None,
            r.metadata is None,
    {
        Message::with_id_at(role, content, random_id(), Timestamp::now())
    }

    /// A copy of the message.
    pub fn copy(&self) -> (r: Message)
        ensures
            r.members() == self.members(),
            self.readable() ==> r.readable(),
    {
        let tool_calls = match &self.tool_calls {
            Some(v) => {
                let mut out: Vec<ToolCall> = Vec::new();
                let mut i: usize = 0;
                while i < v.len()
                    invariant
                        i <= v@.len(),
                        out@.len() == i,
                        forall|k: int| 0 <= k < i ==> (#[trigger] out@[k]).members() == v@[k].members(),
                    decreases v@.len() - i,
                {
                    out.push(v[i].copy());
                    i += 1;
                }
                assert(tool_calls_view(out@) =~= tool_calls_view(v@));
                Some(out)
            },
            None => None,
        };
        let function_call = match &self.function_call {
            Some(f) => Some(f.copy()),
            None => None,
        };
        let metadata = match &self.metadata {
            Some(m) => Some(crate::fields::copy_members(m)),
            None => None,
        };
        let created_at = match &self.created_at {
            Some(t) => Some(t.copy()),
            None => None,
        };
        let name = copy_opt_text(&self.name);
        let tool_call_id = copy_opt_text(&self.tool_call_id);
        Message {
            id: self.id.clone(),
            role: self.role,
            content: self.content.clone(),
            name,
            tool_call_id,
            tool_calls,
            function_call,
            metadata,
            created_at,
        }
    }
}

} // verus!

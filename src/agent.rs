//! The agent side: what a run is asked with, and the client state kept between runs.
use vstd::prelude::*;
use vstd::string::*;

use crate::error::AgUiError;
use crate::events::{message_reader, messages_view};
use crate::fields::{
    both, copy_members, object_field, opt_object_member, opt_text_field, opt_text_member,
    opt_value_field, opt_value_member, push_member, push_opt_object, push_opt_text, push_opt_value,
    push_text, read_object, read_opt_text, read_opt_value, read_text, text_field, text_member,
    DecodeError, DecodeFault, Read,
};
use crate::json::{
    field_of, find_member, json_text, json_view, lemma_field_of_concat, lemma_field_of_single,
    lemma_object_view, members_view, write_json, writable, Json, JsonValue, Member,
};
use crate::stream::EventStream;
use crate::types::{lemma_read_items_fail, list_field, read_items, Message, State};

verus! {

broadcast use {lemma_field_of_concat, lemma_field_of_single};

/// A tool the agent may call.
#[derive(Debug)]
pub struct Tool {
    pub name: String,
    pub description: String,
    pub parameters: Option<JsonValue>,
}

impl Tool {
    pub open spec fn members(self) -> Seq<Member> {
        text_member("name"@, self.name) + text_member("description"@, self.description)
            + opt_value_member("parameters"@, self.parameters)
    }

    pub open spec fn read(es: Seq<Member>) -> Read {
        both(
            both(text_field(es, "name"@), text_field(es, "description"@)),
            opt_value_field(es, "parameters"@),
        )
    }

    pub fn read_members(es: &Vec<(String, JsonValue)>) -> (r: Result<Tool, DecodeError>)
        ensures
            match r {
                Ok(x) => Tool::read(members_view(es@)) == Read::Ok(x.members()),
                Err(e) => Tool::read(members_view(es@)) == Read::Err(e@),
            },
    {
        let name = read_text(es, "name")?;
        let description = read_text(es, "description")?;
        let parameters = read_opt_value(es, "parameters");
        Ok(Tool { name, description, parameters })
    }

    fn to_json(&self) -> (r: JsonValue)
        ensures
            r@ == Json::Object(self.members()),
    {
        let mut m: Vec<(String, JsonValue)> = Vec::new();
        assert(members_view(m@) =~= Seq::<Member>::empty());
        push_text(&mut m, "name", &self.name);
        push_text(&mut m, "description", &self.description);
        push_opt_value(&mut m, "parameters", &self.parameters);
        assert(members_view(m@) =~= self.members());
        proof {
            lemma_object_view(m);
        }
        JsonValue::Object(m)
    }
}

/// Who and what a run is for.
#[derive(Debug)]
pub struct Context {
    pub user_id: Option<String>,
    pub session_id: Option<String>,
    pub metadata: Option<Vec<(String, JsonValue)>>,
}

impl Context {
    pub open spec fn members(self) -> Seq<Member> {
        opt_text_member("user_id"@, self.user_id) + opt_text_member("session_id"@, self.session_id)
            + opt_object_member("metadata"@, self.metadata)
    }

    pub open spec fn read(es: Seq<Member>) -> Read {
        both(
            both(opt_text_field(es, "user_id"@), opt_text_field(es, "session_id"@)),
            object_field(es, "metadata"@, false),
        )
    }

    pub fn read_members(es: &Vec<(String, JsonValue)>) -> (r: Result<Context, DecodeError>)
        ensures
            match r {
                Ok(x) => Context::read(members_view(es@)) == Read::Ok(x.members()),
                Err(e) => Context::read(members_view(es@)) == Read::Err(e@),
            },
    {
        let user_id = read_opt_text(es, "user_id")?;
        let session_id = read_opt_text(es, "session_id")?;
        let metadata = read_object(es, "metadata", false)?;
        Ok(Context { user_id, session_id, metadata })
    }

    fn to_json(&self) -> (r: JsonValue)
        ensures
            r@ == Json::Object(self.members()),
    {
        let mut m: Vec<(String, JsonValue)> = Vec::new();
        assert(members_view(m@) =~= Seq::<Member>::empty());
        push_opt_text(&mut m, "user_id", &self.user_id);
        push_opt_text(&mut m, "session_id", &self.session_id);
        push_opt_object(&mut m, "metadata", &self.metadata);
        assert(members_view(m@) =~= self.members());
        proof {
            lemma_object_view(m);
        }
        JsonValue::Object(m)
    }
}

pub open spec fn tools_view(v: Seq<Tool>) -> Seq<Json> {
    Seq::new(v.len(), |i: int| Json::Object(v[i].members()))
}

pub open spec fn contexts_view(v: Seq<Context>) -> Seq<Json> {
    Seq::new(v.len(), |i: int| Json::Object(v[i].members()))
}

/// Reads a tool record.
pub open spec fn tool_reader() -> spec_fn(Seq<Member>) -> Read {
    |m: Seq<Member>| Tool::read(m)
}

/// Reads a context record.
pub open spec fn context_reader() -> spec_fn(Seq<Member>) -> Read {
    |m: Seq<Member>| Context::read(m)
}

pub fn read_opt_messages(es: &Vec<(String, JsonValue)>, key: &str) -> (r: Result<
    Option<Vec<Message>>,
    DecodeError,
>)
    ensures
        match r {
            Ok(o) => list_field(members_view(es@), key@, message_reader(), false) == Read::Ok(
                opt_array_member(
                key@,
                match o {
                    Some(v) => Some(messages_view(v@)),
                    None => None,
                },
            ),
            ),
            Err(e) => list_field(members_view(es@), key@, message_reader(), false) == Read::Err(
                e@,
            ),
        },
{
    match find_member(es, key) {
        Some(i) => match &es[i].1 {
            JsonValue::Array(items) => {
                let ghost view = json_view(es@[i as int].1)->Array_0;
                let mut out: Vec<Message> = Vec::new();
                let mut k: usize = 0;
                assert(view.subrange(0, 0) =~= Seq::<Json>::empty());
                assert(messages_view(out@) =~= Seq::<Json>::empty());
                while k < items.len()
                    invariant
                        view == json_view(JsonValue::Array(*items))->Array_0,
                        field_of(members_view(es@), key@) == Some(Json::Array(view)),
                        k <= items@.len(),
                        read_items(view.subrange(0, k as int), key@, message_reader()) == Ok::<
                            Seq<Json>,
                            DecodeFault,
                        >(messages_view(out@)),
                    decreases items@.len() - k,
                {
                    let ghost pre = view.subrange(0, k as int);
                    assert(view.subrange(0, k + 1).drop_last() =~= pre);
                    assert(view.subrange(0, k + 1).last() == json_view(items@[k as int]));
                    match &items[k] {
                        JsonValue::Object(m) => {
                            proof {
                                lemma_object_view(*m);
                            }
                            let t = match Message::read_members(m) {
                                Ok(t) => t,
                                Err(e) => {
                                    proof {
                                        lemma_read_items_fail(view, k + 1, key@, message_reader());
                                    }
                                    return Err(e);
                                },
                            };
                            let ghost before = out@;
                            out.push(t);
                            assert(messages_view(out@) =~= messages_view(before).push(
                                Json::Object(t.members()),
                            ));
                        },
                        _ => {
                            proof {
                                lemma_read_items_fail(view, k + 1, key@, message_reader());
                            }
                            return Err(DecodeError::InvalidField(key.to_owned()));
                        },
                    }
                    k += 1;
                }
                assert(view.subrange(0, k as int) =~= view);
                Ok(Some(out))
            },
            JsonValue::Null => Ok(None),
            _ => Err(DecodeError::InvalidField(key.to_owned())),
        },
        None => Ok(None),
    }
}


pub fn read_opt_tools(es: &Vec<(String, JsonValue)>, key: &str) -> (r: Result<
    Option<Vec<Tool>>,
    DecodeError,
>)
    ensures
        match r {
            Ok(o) => list_field(members_view(es@), key@, tool_reader(), false) == Read::Ok(
                opt_array_member(
                key@,
                match o {
                    Some(v) => Some(tools_view(v@)),
                    None => None,
                },
            ),
            ),
            Err(e) => list_field(members_view(es@), key@, tool_reader(), false) == Read::Err(
                e@,
            ),
        },
{
    match find_member(es, key) {
        Some(i) => match &es[i].1 {
            JsonValue::Array(items) => {
                let ghost view = json_view(es@[i as int].1)->Array_0;
                let mut out: Vec<Tool> = Vec::new();
                let mut k: usize = 0;
                assert(view.subrange(0, 0) =~= Seq::<Json>::empty());
                assert(tools_view(out@) =~= Seq::<Json>::empty());
                while k < items.len()
                    invariant
                        view == json_view(JsonValue::Array(*items))->Array_0,
                        field_of(members_view(es@), key@) == Some(Json::Array(view)),
                        k <= items@.len(),
                        read_items(view.subrange(0, k as int), key@, tool_reader()) == Ok::<
                            Seq<Json>,
                            DecodeFault,
                        >(tools_view(out@)),
                    decreases items@.len() - k,
                {
                    let ghost pre = view.subrange(0, k as int);
                    assert(view.subrange(0, k + 1).drop_last() =~= pre);
                    assert(view.subrange(0, k + 1).last() == json_view(items@[k as int]));
                    match &items[k] {
                        JsonValue::Object(m) => {
                            proof {
                                lemma_object_view(*m);
                            }
                            let t = match Tool::read_members(m) {
                                Ok(t) => t,
                                Err(e) => {
                                    proof {
                                        lemma_read_items_fail(view, k + 1, key@, tool_reader());
                                    }
                                    return Err(e);
                                },
                            };
                            let ghost before = out@;
                            out.push(t);
                            assert(tools_view(out@) =~= tools_view(before).push(
                                Json::Object(t.members()),
                            ));
                        },
                        _ => {
                            proof {
                                lemma_read_items_fail(view, k + 1, key@, tool_reader());
                            }
                            return Err(DecodeError::InvalidField(key.to_owned()));
                        },
                    }
                    k += 1;
                }
                assert(view.subrange(0, k as int) =~= view);
                Ok(Some(out))
            },
            JsonValue::Null => Ok(None),
            _ => Err(DecodeError::InvalidField(key.to_owned())),
        },
        None => Ok(None),
    }
}


pub fn read_opt_contexts(es: &Vec<(String, JsonValue)>, key: &str) -> (r: Result<
    Option<Vec<Context>>,
    DecodeError,
>)
    ensures
        match r {
            Ok(o) => list_field(members_view(es@), key@, context_reader(), false) == Read::Ok(
                opt_array_member(
                key@,
                match o {
                    Some(v) => Some(contexts_view(v@)),
                    None => None,
                },
            ),
            ),
            Err(e) => list_field(members_view(es@), key@, context_reader(), false) == Read::Err(
                e@,
            ),
        },
{
    match find_member(es, key) {
        Some(i) => match &es[i].1 {
            JsonValue::Array(items) => {
                let ghost view = json_view(es@[i as int].1)->Array_0;
                let mut out: Vec<Context> = Vec::new();
                let mut k: usize = 0;
                assert(view.subrange(0, 0) =~= Seq::<Json>::empty());
                assert(contexts_view(out@) =~= Seq::<Json>::empty());
                while k < items.len()
                    invariant
                        view == json_view(JsonValue::Array(*items))->Array_0,
                        field_of(members_view(es@), key@) == Some(Json::Array(view)),
                        k <= items@.len(),
                        read_items(view.subrange(0, k as int), key@, context_reader()) == Ok::<
                            Seq<Json>,
                            DecodeFault,
                        >(contexts_view(out@)),
                    decreases items@.len() - k,
                {
                    let ghost pre = view.subrange(0, k as int);
                    assert(view.subrange(0, k + 1).drop_last() =~= pre);
                    assert(view.subrange(0, k + 1).last() == json_view(items@[k as int]));
                    match &items[k] {
                        JsonValue::Object(m) => {
                            proof {
                                lemma_object_view(*m);
                            }
                            let t = match Context::read_members(m) {
                                Ok(t) => t,
                                Err(e) => {
                                    proof {
                                        lemma_read_items_fail(view, k + 1, key@, context_reader());
                                    }
                                    return Err(e);
                                },
                            };
                            let ghost before = out@;
                            out.push(t);
                            assert(contexts_view(out@) =~= contexts_view(before).push(
                                Json::Object(t.members()),
                            ));
                        },
                        _ => {
                            proof {
                                lemma_read_items_fail(view, k + 1, key@, context_reader());
                            }
                            return Err(DecodeError::InvalidField(key.to_owned()));
                        },
                    }
                    k += 1;
                }
                assert(view.subrange(0, k as int) =~= view);
                Ok(Some(out))
            },
            JsonValue::Null => Ok(None),
            _ => Err(DecodeError::InvalidField(key.to_owned())),
        },
        None => Ok(None),
    }
}


/// What a decoder keeps of a JSON document read as the input of a run.
pub open spec fn input_read(j: Json) -> Read {
    match j {
        Json::Object(es) => RunAgentInput::read(es),
        _ => Err(DecodeFault::NotAnObject),
    }
}

/// A member holding an array, when there is one.
pub open spec fn opt_array_member(key: Seq<char>, o: Option<Seq<Json>>) -> Seq<Member> {
    match o {
        Some(items) => seq![(key, Json::Array(items))],
        None => Seq::empty(),
    }
}

/// What a run of the agent is asked with.
#[derive(Debug)]
pub struct RunAgentInput {
    pub thread_id: String,
    pub run_id: String,
    pub messages: Option<Vec<Message>>,
    pub tools: Option<Vec<Tool>>,
    pub context: Option<Vec<Context>>,
    pub state: Option<State>,
    pub forwarded_props: Option<Vec<(String, JsonValue)>>,
}

impl RunAgentInput {
    /// The members the input is written as.
    pub open spec fn members(self) -> Seq<Member> {
        text_member("thread_id"@, self.thread_id) + text_member("run_id"@, self.run_id)
            + opt_array_member(
            "messages"@,
            match self.messages {
                Some(v) => Some(messages_view(v@)),
                None => None,
            },
        ) + opt_array_member(
            "tools"@,
            match self.tools {
                Some(v) => Some(tools_view(v@)),
                None => None,
            },
        ) + opt_array_member(
            "context"@,
            match self.context {
                Some(v) => Some(contexts_view(v@)),
                None => None,
            },
        ) + opt_object_member("state"@, self.state) + opt_object_member(
            "forwarded_props"@,
            self.forwarded_props,
        )
    }

    pub open spec fn read(es: Seq<Member>) -> Read {
        both(
            both(
                both(
                    both(
                        both(
                            both(text_field(es, "thread_id"@), text_field(es, "run_id"@)),
                            list_field(es, "messages"@, message_reader(), false),
                        ),
                        list_field(es, "tools"@, tool_reader(), false),
                    ),
                    list_field(es, "context"@, context_reader(), false),
                ),
                object_field(es, "state"@, false),
            ),
            object_field(es, "forwarded_props"@, false),
        )
    }

    /// The input a JSON document stands for: an object with `thread_id` and `run_id`, and
    /// optionally `messages`, `tools`, `context`, `state` and `forwarded_props`; null counts
    /// as absent, other members are ignored.
    pub fn from_json(v: &JsonValue) -> (r: Result<RunAgentInput, DecodeError>)
        ensures
            match r {
                Ok(x) => input_read(v@) == Read::Ok(x.members()),
                Err(e) => input_read(v@) == Read::Err(e@),
            },
    {
        match v {
            JsonValue::Object(es) => {
                proof {
                    lemma_object_view(*es);
                }
                let thread_id = read_text(es, "thread_id")?;
                let run_id = read_text(es, "run_id")?;
                let messages = read_opt_messages(es, "messages")?;
                let tools = read_opt_tools(es, "tools")?;
                let context = read_opt_contexts(es, "context")?;
                let state = read_object(es, "state", false)?;
                let forwarded_props = read_object(es, "forwarded_props", false)?;
                Ok(RunAgentInput { thread_id, run_id, messages, tools, context, state, forwarded_props })
            },
            _ => Err(DecodeError::NotAnObject),
        }
    }

    /// An input for the given thread and run, with nothing else set.
    pub fn new(thread_id: String, run_id: String) -> (r: RunAgentInput)
        ensures
            r.thread_id == thread_id,
            r.run_id == run_id,
            r.messages is None,
            r.tools is None,
            r.context is None,
            r.state is None,
            r.forwarded_props is None,
    {
        RunAgentInput {
            thread_id,
            run_id,
            messages: None,
            tools: None,
            context: None,
            state: None,
            forwarded_props: None,
        }
    }

    /// The JSON object the input is written as.
    pub fn to_json(&self) -> (r: JsonValue)
        ensures
            r@ == Json::Object(self.members()),
    {
        let mut m: Vec<(String, JsonValue)> = Vec::new();
        assert(members_view(m@) =~= Seq::<Member>::empty());
        push_text(&mut m, "thread_id", &self.thread_id);
        push_text(&mut m, "run_id", &self.run_id);
        match &self.messages {
            Some(v) => {
                let mut items: Vec<JsonValue> = Vec::new();
                let mut i: usize = 0;
                while i < v.len()
                    invariant
                        i <= v@.len(),
                        items@.len() == i,
                        forall|k: int|
                            0 <= k < i ==> json_view(#[trigger] items@[k]) == Json::Object(
                                v@[k].members(),
                            ),
                    decreases v@.len() - i,
                {
                    let mut o: Vec<(String, JsonValue)> = Vec::new();
                    assert(members_view(o@) =~= Seq::<Member>::empty());
                    v[i].write_members(&mut o);
                    assert(Seq::<Member>::empty() + v@[i as int].members() =~= v@[i as int].members());
                    proof {
                        lemma_object_view(o);
                    }
                    items.push(JsonValue::Object(o));
                    i += 1;
                }
                let a = JsonValue::Array(items);
                assert(json_view(a)->Array_0 =~= messages_view(v@));
                push_member(&mut m, "messages", a);
            },
            None => {
                assert(members_view(m@) + Seq::<Member>::empty() =~= members_view(m@));
            },
        }
        match &self.tools {
            Some(v) => {
                let mut items: Vec<JsonValue> = Vec::new();
                let mut i: usize = 0;
                while i < v.len()
                    invariant
                        i <= v@.len(),
                        items@.len() == i,
                        forall|k: int|
                            0 <= k < i ==> json_view(#[trigger] items@[k]) == Json::Object(
                                v@[k].members(),
                            ),
                    decreases v@.len() - i,
                {
                    items.push(v[i].to_json());
                    i += 1;
                }
                let a = JsonValue::Array(items);
                assert(json_view(a)->Array_0 =~= tools_view(v@));
                push_member(&mut m, "tools", a);
            },
            None => {
                assert(members_view(m@) + Seq::<Member>::empty() =~= members_view(m@));
            },
        }
        match &self.context {
            Some(v) => {
                let mut items: Vec<JsonValue> = Vec::new();
                let mut i: usize = 0;
                while i < v.len()
                    invariant
                        i <= v@.len(),
                        items@.len() == i,
                        forall|k: int|
                            0 <= k < i ==> json_view(#[trigger] items@[k]) == Json::Object(
                                v@[k].members(),
                            ),
                    decreases v@.len() - i,
                {
                    items.push(v[i].to_json());
                    i += 1;
                }
                let a = JsonValue::Array(items);
                assert(json_view(a)->Array_0 =~= contexts_view(v@));
                push_member(&mut m, "context", a);
            },
            None => {
                assert(members_view(m@) + Seq::<Member>::empty() =~= members_view(m@));
            },
        }
        push_opt_object(&mut m, "state", &self.state);
        push_opt_object(&mut m, "forwarded_props", &self.forwarded_props);
        assert(members_view(m@) =~= self.members());
        proof {
            lemma_object_view(m);
        }
        JsonValue::Object(m)
    }

    /// The body of the request that starts a run: the input's compact JSON text. Fails, with
    /// an encoding error, exactly when a number in it is not one that serde_json reads or an
    /// object in it repeats a key.
    pub fn request_body(&self) -> (r: Result<String, AgUiError>)
        ensures
            r is Ok <==> writable(Json::Object(self.members())),
            match r {
                Ok(s) => s@ == json_text(Json::Object(self.members())),
                Err(e) => e matches AgUiError::EncodingError(m) && m@
                    == "a number is not valid JSON or an object repeats a key"@,
            },
    {
        let j = self.to_json();
        match write_json(&j) {
            Some(t) => Ok(t),
            None => Err(
                AgUiError::EncodingError(
                    "a number is not valid JSON or an object repeats a key".to_owned(),
                ),
            ),
        }
    }
}

/// What an agent client offers.
pub trait Agent {
    /// Starts a run of the agent.
    fn run_agent(&self, input: RunAgentInput) -> Result<EventStream, AgUiError>;

    /// The messages kept for the next run.
    fn messages(&self) -> Vec<Message>;

    /// Replaces the messages kept for the next run.
    fn set_messages(&mut self, messages: Vec<Message>);

    /// The state kept for the next run.
    fn state(&self) -> State;

    /// Replaces the state kept for the next run.
    fn set_state(&mut self, state: State);

    /// The agent's id, if set.
    fn agent_id(&self) -> Option<String>;

    /// The thread's id, if set.
    fn thread_id(&self) -> Option<String>;
}

fn copy_messages(v: &Vec<Message>) -> (r: Vec<Message>)
    ensures
        messages_view(r@) == messages_view(v@),
{
    let mut out: Vec<Message> = Vec::new();
    let mut i: usize = 0;
    while i < v.len()
        invariant
            i <= v@.len(),
            out@.len() == i,
            forall|k: int| 0 <= k < i ==> (#[trigger] out@[k]).members() == v@[k].members(),
        decreases v@.len() - i,
    {
        out.push(v[i].copy());
        i += 1;
    }
    assert(messages_view(out@) =~= messages_view(v@));
    out
}

fn copy_opt_text(o: &Option<String>) -> (r: Option<String>)
    ensures
        match (r, *o) {
            (Some(a), Some(b)) => a@ == b@,
            (None, None) => true,
            _ => false,
        },
{
    match o {
        Some(s) => Some(s.clone()),
        None => None,
    }
}

/// An agent client over HTTP: the endpoint, the ids it was given, and the messages and
/// state it sends with the next run. The host performs the request.
#[derive(Debug)]
pub struct WebAgent {
    url: String,
    agent_id: Option<String>,
    thread_id: Option<String>,
    messages: Vec<Message>,
    state: State,
}

impl WebAgent {
    pub closed spec fn spec_url(&self) -> Seq<char> {
        self.url@
    }

    pub closed spec fn spec_agent_id(&self) -> Option<Seq<char>> {
        match self.agent_id {
            Some(s) => Some(s@),
            None => None,
        }
    }

    pub closed spec fn spec_thread_id(&self) -> Option<Seq<char>> {
        match self.thread_id {
            Some(s) => Some(s@),
            None => None,
        }
    }

    /// The kept messages, each as the object it is written as.
    pub closed spec fn spec_messages(&self) -> Seq<Json> {
        messages_view(self.messages@)
    }

    /// The members of the kept state.
    pub closed spec fn spec_state(&self) -> Seq<Member> {
        members_view(self.state@)
    }

    /// A client for the endpoint, with no ids, messages or state.
    pub fn new(url: String) -> (r: WebAgent)
        ensures
            r.spec_url() == url@,
            r.spec_agent_id() is None,
            r.spec_thread_id() is None,
            r.spec_messages() == Seq::<Json>::empty(),
            r.spec_state() == Seq::<Member>::empty(),
    {
        let r = WebAgent {
            url,
            agent_id: None,
            thread_id: None,
            messages: Vec::new(),
            state: Vec::new(),
        };
        assert(r.spec_messages() =~= Seq::<Json>::empty());
        assert(r.spec_state() =~= Seq::<Member>::empty());
        r
    }

    /// The endpoint.
    pub fn url(&self) -> (r: &str)
        ensures
            r@ == self.spec_url(),
    {
        self.url.as_str()
    }

    pub fn set_agent_id(&mut self, agent_id: String)
        ensures
            final(self).spec_agent_id() == Some(agent_id@),
            final(self).spec_thread_id() == old(self).spec_thread_id(),
            final(self).spec_url() == old(self).spec_url(),
            final(self).spec_messages() == old(self).spec_messages(),
            final(self).spec_state() == old(self).spec_state(),
    {
        self.agent_id = Some(agent_id);
    }

    pub fn set_thread_id(&mut self, thread_id: String)
        ensures
            final(self).spec_thread_id() == Some(thread_id@),
            final(self).spec_agent_id() == old(self).spec_agent_id(),
            final(self).spec_url() == old(self).spec_url(),
            final(self).spec_messages() == old(self).spec_messages(),
            final(self).spec_state() == old(self).spec_state(),
    {
        self.thread_id = Some(thread_id);
    }

    pub fn agent_id(&self) -> (r: Option<String>)
        ensures
            match r {
                Some(s) => self.spec_agent_id() == Some(s@),
                None => self.spec_agent_id() is None,
            },
    {
        copy_opt_text(&self.agent_id)
    }

    pub fn thread_id(&self) -> (r: Option<String>)
        ensures
            match r {
                Some(s) => self.spec_thread_id() == Some(s@),
                None => self.spec_thread_id() is None,
            },
    {
        copy_opt_text(&self.thread_id)
    }

    /// A copy of the kept messages.
    pub fn messages(&self) -> (r: Vec<Message>)
        ensures
            messages_view(r@) == self.spec_messages(),
    {
        copy_messages(&self.messages)
    }

    pub fn set_messages(&mut self, messages: Vec<Message>)
        ensures
            final(self).spec_messages() == messages_view(messages@),
            final(self).spec_agent_id() == old(self).spec_agent_id(),
            final(self).spec_thread_id() == old(self).spec_thread_id(),
            final(self).spec_url() == old(self).spec_url(),
            final(self).spec_state() == old(self).spec_state(),
    {
        self.messages = messages;
    }

    /// A copy of the kept state.
    pub fn state(&self) -> (r: State)
        ensures
            members_view(r@) == self.spec_state(),
    {
        copy_members(&self.state)
    }

    pub fn set_state(&mut self, state: State)
        ensures
            final(self).spec_state() == members_view(state@),
            final(self).spec_agent_id() == old(self).spec_agent_id(),
            final(self).spec_thread_id() == old(self).spec_thread_id(),
            final(self).spec_url() == old(self).spec_url(),
            final(self).spec_messages() == old(self).spec_messages(),
    {
        self.state = state;
    }

    /// The input a run is sent with: the kept messages fill in absent messages and the kept
    /// state an absent state, each only when there is something kept.
    pub fn prepare_input(&self, input: RunAgentInput) -> (r: RunAgentInput)
        ensures
            r.thread_id == input.thread_id,
            r.run_id == input.run_id,
            r.tools == input.tools,
            r.context == input.context,
            r.forwarded_props == input.forwarded_props,
            match input.messages {
                Some(v) => r.messages == Some(v),
                None => if self.spec_messages().len() == 0 {
                    r.messages is None
                } else {
                    r.messages matches Some(v) && messages_view(v@) == self.spec_messages()
                },
            },
            match input.state {
                Some(s) => r.state == Some(s),
                None => if self.spec_state().len() == 0 {
                    r.state is None
                } else {
                    r.state matches Some(s) && members_view(s@) == self.spec_state()
                },
            },
    {
        let mut input = input;
        if input.messages.is_none() && self.messages.len() > 0 {
            input.messages = Some(copy_messages(&self.messages));
        }
        if input.state.is_none() && self.state.len() > 0 {
            input.state = Some(copy_members(&self.state));
        }
        input
    }

    /// A run cannot start from here: the request goes through the host's fetch, which the
    /// JavaScript binding `runAgent` performs with `prepare_input` and `request_body`.
    pub fn run_agent(&self, input: RunAgentInput) -> (r: Result<EventStream, AgUiError>)
        ensures
            r matches Err(AgUiError::AgentError(m)) && m@
                == "Use run_agent_js() for async operation in WASM environment"@,
    {
        Err(
            AgUiError::AgentError(
                "Use run_agent_js() for async operation in WASM environment".to_owned(),
            ),
        )
    }
}

impl Agent for WebAgent {
    fn run_agent(&self, input: RunAgentInput) -> Result<EventStream, AgUiError> {
        WebAgent::run_agent(self, input)
    }

    fn messages(&self) -> Vec<Message> {
        WebAgent::messages(self)
    }

    fn set_messages(&mut self, messages: Vec<Message>) {
        WebAgent::set_messages(self, messages)
    }

    fn state(&self) -> State {
        WebAgent::state(self)
    }

    fn set_state(&mut self, state: State) {
        WebAgent::set_state(self, state)
    }

    fn agent_id(&self) -> Option<String> {
        WebAgent::agent_id(self)
    }

    fn thread_id(&self) -> Option<String> {
        WebAgent::thread_id(self)
    }
}

} // verus!

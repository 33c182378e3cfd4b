//! JSON documents: the tree the library reasons about, the value it holds in memory,
//! the compact text it writes and the reader it hands text to.
use vstd::prelude::*;
use vstd::string::*;

verus! {

/// A JSON document as contracts speak of it.
#[verifier::ext_equal]
pub enum Json {
    Null,
    Bool(bool),
    /// The text of a number, as it stands on the wire.
    Number(Seq<char>),
    Str(Seq<char>),
    Array(Seq<Json>),
    /// Members in document order.
    Object(Seq<(Seq<char>, Json)>),
}

/// A JSON document held in memory.
#[derive(Debug)]
pub enum JsonValue {
    Null,
    Bool(bool),
    /// The text of a number; it is checked when the document is written.
    Number(String),
    Str(String),
    Array(Vec<JsonValue>),
    Object(Vec<(String, JsonValue)>),
}

/// One member of an object.
pub type Member = (Seq<char>, Json);

pub open spec fn json_view(v: JsonValue) -> Json
    decreases v,
{
    match v {
        JsonValue::Null => Json::Null,
        JsonValue::Bool(b) => Json::Bool(b),
        JsonValue::Number(n) => Json::Number(n@),
        JsonValue::Str(s) => Json::Str(s@),
        JsonValue::Array(items) => Json::Array(
            Seq::new(
                items@.len(),
                |i: int|
                    if 0 <= i < items@.len() {
                        json_view(items@[i])
                    } else {
                        Json::Null
                    },
            ),
        ),
        JsonValue::Object(es) => Json::Object(
            Seq::new(
                es@.len(),
                |i: int|
                    if 0 <= i < es@.len() {
                        (es@[i].0@, json_view(es@[i].1))
                    } else {
                        (Seq::empty(), Json::Null)
                    },
            ),
        ),
    }
}

impl View for JsonValue {
    type V = Json;

    open spec fn view(&self) -> Json {
        json_view(*self)
    }
}

/// The members of an object held in memory, as contracts speak of them.
pub open spec fn members_view(es: Seq<(String, JsonValue)>) -> Seq<Member> {
    Seq::new(es.len(), |i: int| (es[i].0@, json_view(es[i].1)))
}

pub proof fn lemma_object_view(es: Vec<(String, JsonValue)>)
    ensures
        json_view(JsonValue::Object(es)) == Json::Object(members_view(es@)),
{
    assert(json_view(JsonValue::Object(es))->Object_0 =~= members_view(es@));
}

pub proof fn lemma_members_push(es: Seq<(String, JsonValue)>, m: (String, JsonValue))
    ensures
        members_view(es.push(m)) == members_view(es).push((m.0@, json_view(m.1))),
{
    assert(members_view(es.push(m)) =~= members_view(es).push((m.0@, json_view(m.1))));
}

// ----- reading members -----
/// The value of the first member named `key`.
pub open spec fn field_of(es: Seq<Member>, key: Seq<char>) -> Option<Json>
    decreases es.len(),
{
    if es.len() == 0 {
        None
    } else if es[0].0 == key {
        Some(es[0].1)
    } else {
        field_of(es.subrange(1, es.len() as int), key)
    }
}

pub broadcast proof fn lemma_field_of_concat(a: Seq<Member>, b: Seq<Member>, key: Seq<char>)
    ensures
        #[trigger] field_of(a + b, key) == (if field_of(a, key) is Some {
            field_of(a, key)
        } else {
            field_of(b, key)
        }),
    decreases a.len(),
{
    if a.len() == 0 {
        assert(a + b =~= b);
    } else {
        assert((a + b).subrange(1, (a + b).len() as int) =~= a.subrange(1, a.len() as int) + b);
        lemma_field_of_concat(a.subrange(1, a.len() as int), b, key);
    }
}

pub broadcast proof fn lemma_field_of_single(k: Seq<char>, v: Json, key: Seq<char>)
    ensures
        #[trigger] field_of(seq![(k, v)], key) == (if k == key {
            Some(v)
        } else {
            None::<Json>
        }),
{
    reveal_with_fuel(field_of, 2);
    assert(seq![(k, v)].subrange(1, 1) =~= Seq::<Member>::empty());
}

/// No member is named `key` exactly when looking it up finds nothing.
pub proof fn lemma_field_of_none(es: Seq<Member>, key: Seq<char>)
    ensures
        field_of(es, key) is None <==> forall|i: int| 0 <= i < es.len() ==> (#[trigger] es[i]).0 != key,
    decreases es.len(),
{
    if es.len() > 0 {
        let rest = es.subrange(1, es.len() as int);
        lemma_field_of_none(rest, key);
        if field_of(es, key) is None {
            assert forall|i: int| 0 <= i < es.len() implies (#[trigger] es[i]).0 != key by {
                if i > 0 {
                    assert(es[i] == rest[i - 1]);
                }
            }
        }
        if forall|i: int| 0 <= i < es.len() ==> (#[trigger] es[i]).0 != key {
            assert forall|i: int| 0 <= i < rest.len() implies (#[trigger] rest[i]).0 != key by {
                assert(rest[i] == es[i + 1]);
            }
        }
    }
}

/// Whether two texts hold the same characters, compared through their UTF-8 bytes.
pub fn same_text(a: &str, b: &str) -> (r: bool)
    ensures
        r == (a@ == b@),
{
    broadcast use vstd::utf8::encode_utf8_decode_utf8;

    let x = a.as_bytes();
    let y = b.as_bytes();
    if x.len() != y.len() {
        return false;
    }
    let mut i: usize = 0;
    while i < x.len()
        invariant
            x@ == a.spec_bytes(),
            y@ == b.spec_bytes(),
            x@.len() == y@.len(),
            i <= x@.len(),
            forall|k: int| 0 <= k < i ==> x@[k] == y@[k],
        decreases x@.len() - i,
    {
        if x[i] != y[i] {
            return false;
        }
        i += 1;
    }
    assert(x@ =~= y@);
    assert(a@ == vstd::utf8::decode_utf8(a.spec_bytes()));
    assert(b@ == vstd::utf8::decode_utf8(b.spec_bytes()));
    true
}

/// The index of the first member named `key`.
pub fn find_member(es: &Vec<(String, JsonValue)>, key: &str) -> (r: Option<usize>)
    ensures
        match r {
            Some(i) => i < es@.len() && field_of(members_view(es@), key@) == Some(
                json_view(es@[i as int].1),
            ),
            None => field_of(members_view(es@), key@) is None,
        },
{
    let mut i: usize = 0;
    assert(members_view(es@).subrange(0, es@.len() as int) =~= members_view(es@));
    while i < es.len()
        invariant
            i <= es@.len(),
            field_of(members_view(es@), key@) == field_of(
                members_view(es@).subrange(i as int, es@.len() as int),
                key@,
            ),
        decreases es@.len() - i,
    {
        let ghost rest = members_view(es@).subrange(i as int, es@.len() as int);
        assert(rest.subrange(1, rest.len() as int) =~= members_view(es@).subrange(
            i + 1,
            es@.len() as int,
        ));
        if same_text(es[i].0.as_str(), key) {
            return Some(i);
        }
        i += 1;
    }
    None
}

// ----- writing -----
/// Whether a character is written by serde_json as itself inside a string.
pub open spec fn plain_char(c: char) -> bool {
    c != '"' && c != '\\' && c as u32 >= 0x20
}

/// The text serde_json writes for a string.
pub uninterp spec fn quoted(s: Seq<char>) -> Seq<char>;

/// Relies on serde_json::to_string for a `str`: the string between double quotes with `"`,
/// `\` and every control character below 0x20 escaped (its ESCAPE table), so none of those
/// is left raw. Writing a `str` into memory cannot fail.
#[verifier::external_body]
fn quote(s: &str) -> (r: String)
    ensures
        r@ == quoted(s@),
        forall|i: int| 0 <= i < r@.len() ==> r@[i] as u32 >= 0x20,
        (forall|i: int| 0 <= i < s@.len() ==> plain_char(s@[i])) ==> r@ == seq!['"'] + s@ + seq![
            '"',
        ],
{
    serde_json::to_string(s).unwrap_or_default()
}

/// Whether serde_json reads the text as one JSON number.
pub uninterp spec fn is_json_number(s: Seq<char>) -> bool;

/// Relies on serde_json's `FromStr for Number`: it accepts the text of one JSON number with
/// nothing before or after it (digits, `-`, `+`, `.`, `e`, `E`), so an accepted text holds no
/// line feed or carriage return.
#[verifier::external_body]
fn accepts_number(s: &str) -> (r: bool)
    ensures
        r == is_json_number(s@),
        r ==> single_line(s@),
{
    s.parse::<serde_json::Number>().is_ok()
}

/// Whether a text holds neither a line feed nor a carriage return.
pub open spec fn single_line(s: Seq<char>) -> bool {
    forall|i: int| 0 <= i < s.len() ==> s[i] != '\n' && s[i] != '\r'
}

pub proof fn lemma_single_line_concat(a: Seq<char>, b: Seq<char>)
    requires
        single_line(a),
        single_line(b),
    ensures
        single_line(a + b),
{
    assert forall|i: int| 0 <= i < (a + b).len() implies (a + b)[i] != '\n' && (a + b)[i] != '\r' by {
        if i >= a.len() {
            assert((a + b)[i] == b[i - a.len()]);
        }
    }
}

proof fn lemma_punctuation_is_single_line()
    ensures
        single_line("null"@),
        single_line("true"@),
        single_line("false"@),
        single_line("["@),
        single_line("]"@),
        single_line("{"@),
        single_line("}"@),
        single_line(","@),
        single_line(":"@),
{
    reveal_strlit("null");
    reveal_strlit("true");
    reveal_strlit("false");
    reveal_strlit("[");
    reveal_strlit("]");
    reveal_strlit("{");
    reveal_strlit("}");
    reveal_strlit(",");
    reveal_strlit(":");
}

/// Appends a text, keeping track of line feeds.
fn append_text(out: &mut String, t: &str)
    ensures
        final(out)@ == old(out)@ + t@,
        single_line(old(out)@) && single_line(t@) ==> single_line(final(out)@),
{
    let ghost before = out@;
    out.append(t);
    proof {
        if single_line(before) && single_line(t@) {
            lemma_single_line_concat(before, t@);
        }
    }
}

/// Whether every number in the document is one that serde_json reads and no object in it
/// repeats a key.
pub open spec fn writable(j: Json) -> bool
    decreases j,
{
    match j {
        Json::Number(s) => is_json_number(s),
        Json::Array(items) => forall|i: int| 0 <= i < items.len() ==> writable(#[trigger] items[i]),
        Json::Object(es) => (forall|i: int| 0 <= i < es.len() ==> writable(#[trigger] es[i].1))
            && distinct_keys(es),
        _ => true,
    }
}

/// Whether no two members of an object share a key.
pub open spec fn distinct_keys(es: Seq<Member>) -> bool {
    forall|a: int, b: int| 0 <= a < b < es.len() ==> #[trigger] es[a].0 != #[trigger] es[b].0
}

/// Whether the key of member `i` is used by an earlier member.
fn key_repeats(es: &Vec<(String, JsonValue)>, i: usize) -> (r: bool)
    requires
        i < es@.len(),
    ensures
        r == exists|k: int| 0 <= k < i && (#[trigger] es@[k]).0@ == es@[i as int].0@,
{
    let mut k: usize = 0;
    while k < i
        invariant
            i < es@.len(),
            k <= i,
            forall|j: int| 0 <= j < k ==> (#[trigger] es@[j]).0@ != es@[i as int].0@,
        decreases i - k,
    {
        if same_text(es[k].0.as_str(), es[i].0.as_str()) {
            return true;
        }
        k += 1;
    }
    false
}

/// The compact text of a document: no whitespace between tokens, members in order.
pub open spec fn json_text(j: Json) -> Seq<char>
    decreases j,
{
    match j {
        Json::Null => "null"@,
        Json::Bool(b) => if b {
            "true"@
        } else {
            "false"@
        },
        Json::Number(s) => s,
        Json::Str(s) => quoted(s),
        Json::Array(items) => "["@ + items_text(items) + "]"@,
        Json::Object(es) => "{"@ + members_text(es) + "}"@,
    }
}

pub open spec fn items_text(items: Seq<Json>) -> Seq<char>
    decreases items,
{
    if items.len() == 0 {
        Seq::empty()
    } else if items.len() == 1 {
        json_text(items[0])
    } else {
        items_text(items.subrange(0, items.len() - 1)) + ","@ + json_text(items[items.len() - 1])
    }
}

pub open spec fn members_text(es: Seq<Member>) -> Seq<char>
    decreases es,
{
    if es.len() == 0 {
        Seq::empty()
    } else if es.len() == 1 {
        quoted(es[0].0) + ":"@ + json_text(es[0].1)
    } else {
        members_text(es.subrange(0, es.len() - 1)) + ","@ + quoted(es[es.len() - 1].0) + ":"@
            + json_text(es[es.len() - 1].1)
    }
}

/// Appends the compact text of `v` to `out`; false, with `out` in an unspecified state,
/// when a number in it is not one that serde_json reads or an object repeats a key.
fn write_value(v: &JsonValue, out: &mut String) -> (ok: bool)
    ensures
        ok == writable(v@),
        ok ==> final(out)@ == old(out)@ + json_text(v@),
        ok ==> (single_line(old(out)@) ==> single_line(final(out)@)),
    decreases v,
{
    proof {
        lemma_punctuation_is_single_line();
    }
    match v {
        JsonValue::Null => {
            append_text(out, "null");
            true
        },
        JsonValue::Bool(b) => {
            if *b {
                append_text(out, "true");
            } else {
                append_text(out, "false");
            }
            true
        },
        JsonValue::Number(n) => {
            if !accepts_number(n.as_str()) {
                return false;
            }
            assert(single_line(n@));
            append_text(out, n.as_str());
            true
        },
        JsonValue::Str(s) => {
            let q = quote(s.as_str());
            assert(single_line(q@));
            append_text(out, q.as_str());
            true
        },
        JsonValue::Array(items) => {
            let ghost start = out@;
            let ghost view = v@->Array_0;
            append_text(out, "[");
            let mut i: usize = 0;
            while i < items.len()
                invariant
                    *v == JsonValue::Array(*items),
                    view == json_view(*v)->Array_0,
                    view.len() == items@.len(),
                    forall|k: int| 0 <= k < view.len() ==> view[k] == json_view(#[trigger] items@[k]),
                    i <= items@.len(),
                    forall|k: int| 0 <= k < i ==> writable(#[trigger] view[k]),
                    out@ == start + "["@ + items_text(view.subrange(0, i as int)),
                    single_line(start) ==> single_line(out@),
                decreases items@.len() - i,
            {
                proof {
                    lemma_punctuation_is_single_line();
                    assert(decreases_to!(*v => v->Array_0));
                    assert(decreases_to!(v->Array_0 => v->Array_0@));
                    assert(decreases_to!(v->Array_0@ => v->Array_0@[i as int]));
                    assert(view[i as int] == json_view(items@[i as int]));
                }
                if i > 0 {
                    append_text(out, ",");
                }
                if !write_value(&items[i], out) {
                    return false;
                }
                proof {
                    let pre = view.subrange(0, i as int);
                    let next = view.subrange(0, i + 1);
                    assert(next.subrange(0, i as int) =~= pre);
                    assert(next[i as int] == view[i as int]);
                    if i == 0 {
                        assert(pre =~= Seq::<Json>::empty());
                    }
                }
                i += 1;
            }
            append_text(out, "]");
            assert(view.subrange(0, i as int) =~= view);
            true
        },
        JsonValue::Object(es) => {
            let ghost start = out@;
            let ghost view = v@->Object_0;
            append_text(out, "{");
            let mut i: usize = 0;
            while i < es.len()
                invariant
                    *v == JsonValue::Object(*es),
                    view == json_view(*v)->Object_0,
                    view.len() == es@.len(),
                    forall|k: int|
                        0 <= k < view.len() ==> view[k].0 == (#[trigger] es@[k]).0@ && view[k].1
                            == json_view(es@[k].1),
                    i <= es@.len(),
                    forall|k: int| 0 <= k < i ==> writable(#[trigger] view[k].1),
                    forall|a: int, b: int| 0 <= a < b < i ==> #[trigger] view[a].0 != #[trigger] view[b].0,
                    out@ == start + "{"@ + members_text(view.subrange(0, i as int)),
                    single_line(start) ==> single_line(out@),
                decreases es@.len() - i,
            {
                proof {
                    lemma_punctuation_is_single_line();
                    assert(decreases_to!(*v => v->Object_0));
                    assert(decreases_to!(v->Object_0 => v->Object_0@));
                    assert(decreases_to!(v->Object_0@ => v->Object_0@[i as int]));
                    assert(decreases_to!(v->Object_0@[i as int] => v->Object_0@[i as int].1));
                    assert(view[i as int].0 == es@[i as int].0@);
                }
                if key_repeats(es, i) {
                    proof {
                        let k = choose|k: int| 0 <= k < i && (#[trigger] es@[k]).0@ == es@[i as int].0@;
                        assert(view[k].0 == view[i as int].0);
                        assert(!distinct_keys(view));
                    }
                    return false;
                }
                if i > 0 {
                    append_text(out, ",");
                }
                let q = quote(es[i].0.as_str());
                assert(single_line(q@));
                append_text(out, q.as_str());
                append_text(out, ":");
                if !write_value(&es[i].1, out) {
                    return false;
                }
                proof {
                    let pre = view.subrange(0, i as int);
                    let next = view.subrange(0, i + 1);
                    assert(next.subrange(0, i as int) =~= pre);
                    assert(next[i as int] == view[i as int]);
                    if i == 0 {
                        assert(pre =~= Seq::<Member>::empty());
                    }
                }
                i += 1;
            }
            append_text(out, "}");
            assert(view.subrange(0, i as int) =~= view);
            true
        },
    }
}

/// The compact text of a document, or `None` when serde_json would not read it back as
/// written: a number in it is not one that serde_json reads, or an object repeats a key.
pub fn write_json(v: &JsonValue) -> (r: Option<String>)
    ensures
        r is Some <==> writable(v@),
        r is Some ==> r->0@ == json_text(v@) && single_line(r->0@),
{
    let mut out = String::new();
    assert(single_line(out@));
    if write_value(v, &mut out) {
        Some(out)
    } else {
        None
    }
}

// ----- reading -----
#[verifier::external_type_specification]
#[verifier::external_body]
pub struct ExSerdeValue(serde_json::Value);

/// The document that serde_json reads from the bytes, if they are one JSON document.
pub uninterp spec fn json_read(b: Seq<u8>) -> Option<Json>;

/// Relies on the variants of serde_json's `Value` and on `Display for Number`: turns a
/// serde_json value into the library's own, node for node; a number keeps the text
/// serde_json writes for it, an object its members in document order (the crate is built
/// with `preserve_order`).
#[verifier::external_body]
fn from_serde(v: serde_json::Value) -> JsonValue {
    match v {
        serde_json::Value::Null => JsonValue::Null,
        serde_json::Value::Bool(b) => JsonValue::Bool(b),
        serde_json::Value::Number(n) => JsonValue::Number(n.to_string()),
        serde_json::Value::String(s) => JsonValue::Str(s),
        serde_json::Value::Array(a) => JsonValue::Array(a.into_iter().map(from_serde).collect()),
        serde_json::Value::Object(m) => JsonValue::Object(
            m.into_iter().map(|(k, x)| (k, from_serde(x))).collect(),
        ),
    }
}

/// Relies on serde_json::from_slice into a `Value`: it reads one JSON document from the
/// bytes, or fails; what it reads depends on the bytes alone.
#[verifier::external_body]
fn read_json(b: &[u8]) -> (r: Option<JsonValue>)
    ensures
        r is Some <==> json_read(b@) is Some,
        r is Some ==> r->0@ == json_read(b@)->0,
{
    match serde_json::from_slice::<serde_json::Value>(b) {
        Ok(v) => Some(from_serde(v)),
        Err(_) => None,
    }
}

/// Reads one JSON document from UTF-8 bytes.
pub fn parse_json(b: &[u8]) -> (r: Option<JsonValue>)
    ensures
        r is Some <==> json_read(b@) is Some,
        r is Some ==> r->0@ == json_read(b@)->0,
{
    read_json(b)
}

impl JsonValue {
    /// A copy of the whole document.
    pub fn deep_copy(&self) -> (r: JsonValue)
        ensures
            r@ == self@,
        decreases self,
    {
        match self {
            JsonValue::Null => JsonValue::Null,
            JsonValue::Bool(b) => JsonValue::Bool(*b),
            JsonValue::Number(n) => JsonValue::Number(n.clone()),
            JsonValue::Str(s) => JsonValue::Str(s.clone()),
            JsonValue::Array(items) => {
                let mut out: Vec<JsonValue> = Vec::new();
                let mut i: usize = 0;
                while i < items.len()
                    invariant
                        *self == JsonValue::Array(*items),
                        i <= items@.len(),
                        out@.len() == i,
                        forall|k: int| 0 <= k < i ==> json_view(#[trigger] out@[k]) == json_view(items@[k]),
                    decreases items@.len() - i,
                {
                    proof {
                        assert(decreases_to!(*self => self->Array_0));
                        assert(decreases_to!(self->Array_0 => self->Array_0@));
                        assert(decreases_to!(self->Array_0@ => self->Array_0@[i as int]));
                    }
                    let c = items[i].deep_copy();
                    out.push(c);
                    i += 1;
                }
                let r = JsonValue::Array(out);
                assert(json_view(r)->Array_0 =~= json_view(*self)->Array_0);
                r
            },
            JsonValue::Object(es) => {
                let mut out: Vec<(String, JsonValue)> = Vec::new();
                let mut i: usize = 0;
                while i < es.len()
                    invariant
                        *self == JsonValue::Object(*es),
                        i <= es@.len(),
                        out@.len() == i,
                        forall|k: int|
                            0 <= k < i ==> (#[trigger] out@[k]).0@ == es@[k].0@ && json_view(out@[k].1)
                                == json_view(es@[k].1),
                    decreases es@.len() - i,
                {
                    proof {
                        assert(decreases_to!(*self => self->Object_0));
                        assert(decreases_to!(self->Object_0 => self->Object_0@));
                        assert(decreases_to!(self->Object_0@ => self->Object_0@[i as int]));
                        assert(decreases_to!(self->Object_0@[i as int] => self->Object_0@[i as int].1));
                    }
                    let k = es[i].0.clone();
                    let c = es[i].1.deep_copy();
                    out.push((k, c));
                    i += 1;
                }
                let r = JsonValue::Object(out);
                assert(json_view(r)->Object_0 =~= json_view(*self)->Object_0);
                r
            },
        }
    }
}

} // verus!

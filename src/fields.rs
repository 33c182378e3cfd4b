//! Reading and writing the members of JSON objects: what a decoder accepts for each kind of
//! field, and the members an encoder writes.
use vstd::prelude::*;

use crate::json::{
    find_member, lemma_field_of_concat, lemma_field_of_single, lemma_members_push, lemma_object_view,
    members_view, field_of, Json, JsonValue, Member,
};
use crate::time::{is_rfc3339, Timestamp};

verus! {

broadcast use {lemma_field_of_concat, lemma_field_of_single};

/// Why a JSON document is not an event.
#[derive(Debug)]
pub enum DecodeError {
    /// The text is not one JSON document.
    MalformedJson,
    /// An object was expected.
    NotAnObject,
    /// The `type` member names no kind of event.
    UnknownEventType(String),
    /// A required member is absent.
    MissingField(String),
    /// A member holds a value of the wrong shape or an unknown name.
    InvalidField(String),
}

/// A decoding failure as contracts speak of it.
pub enum DecodeFault {
    MalformedJson,
    NotAnObject,
    UnknownEventType(Seq<char>),
    MissingField(Seq<char>),
    InvalidField(Seq<char>),
}

impl View for DecodeError {
    type V = DecodeFault;

    open spec fn view(&self) -> DecodeFault {
        match self {
            DecodeError::MalformedJson => DecodeFault::MalformedJson,
            DecodeError::NotAnObject => DecodeFault::NotAnObject,
            DecodeError::UnknownEventType(s) => DecodeFault::UnknownEventType(s@),
            DecodeError::MissingField(s) => DecodeFault::MissingField(s@),
            DecodeError::InvalidField(s) => DecodeFault::InvalidField(s@),
        }
    }
}

/// What a decoder keeps of an object: the members it understood, in the order it wrote
/// them, or the first failure.
pub type Read = Result<Seq<Member>, DecodeFault>;

/// The first failure of two reads, or what both kept.
pub open spec fn both(a: Read, b: Read) -> Read {
    match a {
        Err(e) => Err(e),
        Ok(x) => match b {
            Err(e) => Err(e),
            Ok(y) => Ok(x + y),
        },
    }
}

// ----- what a decoder accepts -----
/// A required string member.
pub open spec fn text_field(es: Seq<Member>, key: Seq<char>) -> Read {
    match field_of(es, key) {
        Some(Json::Str(s)) => Ok(seq![(key, Json::Str(s))]),
        Some(_) => Err(DecodeFault::InvalidField(key)),
        None => Err(DecodeFault::MissingField(key)),
    }
}

/// An optional string member; null counts as absent.
pub open spec fn opt_text_field(es: Seq<Member>, key: Seq<char>) -> Read {
    match field_of(es, key) {
        Some(Json::Str(s)) => Ok(seq![(key, Json::Str(s))]),
        Some(Json::Null) => Ok(Seq::empty()),
        Some(_) => Err(DecodeFault::InvalidField(key)),
        None => Ok(Seq::empty()),
    }
}

/// A required member holding any JSON value.
pub open spec fn value_field(es: Seq<Member>, key: Seq<char>) -> Read {
    match field_of(es, key) {
        Some(v) => Ok(seq![(key, v)]),
        None => Err(DecodeFault::MissingField(key)),
    }
}

/// An optional member holding any JSON value; a null that is present is kept.
pub open spec fn opt_value_field(es: Seq<Member>, key: Seq<char>) -> Read {
    match field_of(es, key) {
        Some(v) => Ok(seq![(key, v)]),
        None => Ok(Seq::empty()),
    }
}

/// A member holding an object of any values, required or not; null counts as absent.
pub open spec fn object_field(es: Seq<Member>, key: Seq<char>, required: bool) -> Read {
    match field_of(es, key) {
        Some(Json::Object(m)) => Ok(seq![(key, Json::Object(m))]),
        Some(Json::Null) => if required {
            Err(DecodeFault::InvalidField(key))
        } else {
            Ok(Seq::empty())
        },
        Some(_) => Err(DecodeFault::InvalidField(key)),
        None => if required {
            Err(DecodeFault::MissingField(key))
        } else {
            Ok(Seq::empty())
        },
    }
}

/// An optional RFC 3339 timestamp member; null counts as absent.
pub open spec fn time_field(es: Seq<Member>, key: Seq<char>) -> Read {
    match field_of(es, key) {
        Some(Json::Str(s)) => if is_rfc3339(s) {
            Ok(seq![(key, Json::Str(s))])
        } else {
            Err(DecodeFault::InvalidField(key))
        },
        Some(Json::Null) => Ok(Seq::empty()),
        Some(_) => Err(DecodeFault::InvalidField(key)),
        None => Ok(Seq::empty()),
    }
}

// ----- what an encoder writes -----
pub open spec fn text_member(key: Seq<char>, s: String) -> Seq<Member> {
    seq![(key, Json::Str(s@))]
}

pub open spec fn opt_text_member(key: Seq<char>, o: Option<String>) -> Seq<Member> {
    match o {
        Some(s) => seq![(key, Json::Str(s@))],
        None => Seq::empty(),
    }
}

pub open spec fn value_member(key: Seq<char>, v: JsonValue) -> Seq<Member> {
    seq![(key, v@)]
}

pub open spec fn opt_value_member(key: Seq<char>, o: Option<JsonValue>) -> Seq<Member> {
    match o {
        Some(v) => seq![(key, v@)],
        None => Seq::empty(),
    }
}

pub open spec fn object_member(key: Seq<char>, m: Vec<(String, JsonValue)>) -> Seq<Member> {
    seq![(key, Json::Object(members_view(m@)))]
}

pub open spec fn opt_object_member(key: Seq<char>, o: Option<Vec<(String, JsonValue)>>) -> Seq<
    Member,
> {
    match o {
        Some(m) => object_member(key, m),
        None => Seq::empty(),
    }
}

pub open spec fn time_member(key: Seq<char>, o: Option<Timestamp>) -> Seq<Member> {
    match o {
        Some(t) => seq![(key, Json::Str(t.text()))],
        None => Seq::empty(),
    }
}

/// Appends one member.
pub fn push_member(out: &mut Vec<(String, JsonValue)>, key: &str, v: JsonValue)
    ensures
        members_view(final(out)@) == members_view(old(out)@) + seq![(key@, v@)],
{
    let ghost before = out@;
    let k = key.to_owned();
    let ghost m = (k, v);
    out.push((k, v));
    proof {
        lemma_members_push(before, m);
        assert(members_view(before).push((key@, v@)) =~= members_view(before) + seq![(key@, v@)]);
    }
}

pub fn push_text(out: &mut Vec<(String, JsonValue)>, key: &str, s: &String)
    ensures
        members_view(final(out)@) == members_view(old(out)@) + text_member(key@, *s),
{
    push_member(out, key, JsonValue::Str(s.clone()));
}

pub fn push_opt_text(out: &mut Vec<(String, JsonValue)>, key: &str, o: &Option<String>)
    ensures
        members_view(final(out)@) == members_view(old(out)@) + opt_text_member(key@, *o),
{
    match o {
        Some(s) => push_text(out, key, s),
        None => {
            assert(members_view(out@) + Seq::<Member>::empty() =~= members_view(out@));
        },
    }
}

pub fn push_value(out: &mut Vec<(String, JsonValue)>, key: &str, v: &JsonValue)
    ensures
        members_view(final(out)@) == members_view(old(out)@) + value_member(key@, *v),
{
    push_member(out, key, v.deep_copy());
}

pub fn push_opt_value(out: &mut Vec<(String, JsonValue)>, key: &str, o: &Option<JsonValue>)
    ensures
        members_view(final(out)@) == members_view(old(out)@) + opt_value_member(key@, *o),
{
    match o {
        Some(v) => push_value(out, key, v),
        None => {
            assert(members_view(out@) + Seq::<Member>::empty() =~= members_view(out@));
        },
    }
}

/// A copy of the members of an object.
pub fn copy_members(m: &Vec<(String, JsonValue)>) -> (r: Vec<(String, JsonValue)>)
    ensures
        members_view(r@) == members_view(m@),
{
    let mut r: Vec<(String, JsonValue)> = Vec::new();
    let mut i: usize = 0;
    while i < m.len()
        invariant
            i <= m@.len(),
            members_view(r@) == members_view(m@).subrange(0, i as int),
        decreases m@.len() - i,
    {
        let ghost before = r@;
        r.push((m[i].0.clone(), m[i].1.deep_copy()));
        proof {
            lemma_members_push(before, r@[i as int]);
            assert(members_view(m@).subrange(0, i + 1) =~= members_view(m@).subrange(
                0,
                i as int,
            ).push(members_view(m@)[i as int]));
        }
        i += 1;
    }
    assert(members_view(m@).subrange(0, i as int) =~= members_view(m@));
    r
}

pub fn push_object(out: &mut Vec<(String, JsonValue)>, key: &str, m: &Vec<(String, JsonValue)>)
    ensures
        members_view(final(out)@) == members_view(old(out)@) + object_member(key@, *m),
{
    let c = copy_members(m);
    proof {
        lemma_object_view(c);
    }
    push_member(out, key, JsonValue::Object(c));
}

pub fn push_opt_object(
    out: &mut Vec<(String, JsonValue)>,
    key: &str,
    o: &Option<Vec<(String, JsonValue)>>,
)
    ensures
        members_view(final(out)@) == members_view(old(out)@) + opt_object_member(key@, *o),
{
    match o {
        Some(m) => push_object(out, key, m),
        None => {
            assert(members_view(out@) + Seq::<Member>::empty() =~= members_view(out@));
        },
    }
}

pub fn push_time(out: &mut Vec<(String, JsonValue)>, key: &str, o: &Option<Timestamp>)
    ensures
        members_view(final(out)@) == members_view(old(out)@) + time_member(key@, *o),
{
    match o {
        Some(t) => push_member(out, key, JsonValue::Str(t.as_str().to_owned())),
        None => {
            assert(members_view(out@) + Seq::<Member>::empty() =~= members_view(out@));
        },
    }
}

// ----- reading members in memory -----
pub fn read_text(es: &Vec<(String, JsonValue)>, key: &str) -> (r: Result<String, DecodeError>)
    ensures
        match r {
            Ok(s) => text_field(members_view(es@), key@) == Read::Ok(text_member(key@, s)),
            Err(e) => text_field(members_view(es@), key@) == Read::Err(e@),
        },
{
    match find_member(es, key) {
        Some(i) => match &es[i].1 {
            JsonValue::Str(s) => Ok(s.clone()),
            _ => Err(DecodeError::InvalidField(key.to_owned())),
        },
        None => Err(DecodeError::MissingField(key.to_owned())),
    }
}

pub fn read_opt_text(es: &Vec<(String, JsonValue)>, key: &str) -> (r: Result<
    Option<String>,
    DecodeError,
>)
    ensures
        match r {
            Ok(o) => opt_text_field(members_view(es@), key@) == Read::Ok(opt_text_member(key@, o)),
            Err(e) => opt_text_field(members_view(es@), key@) == Read::Err(e@),
        },
{
    match find_member(es, key) {
        Some(i) => match &es[i].1 {
            JsonValue::Str(s) => Ok(Some(s.clone())),
            JsonValue::Null => Ok(None),
            _ => Err(DecodeError::InvalidField(key.to_owned())),
        },
        None => Ok(None),
    }
}

pub fn read_value(es: &Vec<(String, JsonValue)>, key: &str) -> (r: Result<JsonValue, DecodeError>)
    ensures
        match r {
            Ok(v) => value_field(members_view(es@), key@) == Read::Ok(value_member(key@, v)),
            Err(e) => value_field(members_view(es@), key@) == Read::Err(e@),
        },
{
    match find_member(es, key) {
        Some(i) => Ok(es[i].1.deep_copy()),
        None => Err(DecodeError::MissingField(key.to_owned())),
    }
}

pub fn read_opt_value(es: &Vec<(String, JsonValue)>, key: &str) -> (r: Option<JsonValue>)
    ensures
        opt_value_field(members_view(es@), key@) == Ok::<Seq<Member>, DecodeFault>(
            opt_value_member(key@, r),
        ),
{
    match find_member(es, key) {
        Some(i) => Some(es[i].1.deep_copy()),
        None => None,
    }
}

/// Reads an object member of any values: `Ok(None)` when it is optional and absent or null.
pub fn read_object(es: &Vec<(String, JsonValue)>, key: &str, required: bool) -> (r: Result<
    Option<Vec<(String, JsonValue)>>,
    DecodeError,
>)
    ensures
        match r {
            Ok(o) => object_field(members_view(es@), key@, required) == Read::Ok(
                opt_object_member(key@, o),
            ) && (required ==> o is Some),
            Err(e) => object_field(members_view(es@), key@, required) == Read::Err(e@),
        },
{
    match find_member(es, key) {
        Some(i) => match &es[i].1 {
            JsonValue::Object(m) => {
                let c = copy_members(m);
                proof {
                    lemma_object_view(*m);
                }
                Ok(Some(c))
            },
            JsonValue::Null => if required {
                Err(DecodeError::InvalidField(key.to_owned()))
            } else {
                Ok(None)
            },
            _ => Err(DecodeError::InvalidField(key.to_owned())),
        },
        None => if required {
            Err(DecodeError::MissingField(key.to_owned()))
        } else {
            Ok(None)
        },
    }
}

pub fn read_time(es: &Vec<(String, JsonValue)>, key: &str) -> (r: Result<
    Option<Timestamp>,
    DecodeError,
>)
    ensures
        match r {
            Ok(o) => time_field(members_view(es@), key@) == Read::Ok(time_member(key@, o)),
            Err(e) => time_field(members_view(es@), key@) == Read::Err(e@),
        },
{
    match find_member(es, key) {
        Some(i) => match &es[i].1 {
            JsonValue::Str(s) => match Timestamp::parse(s.as_str()) {
                Some(t) => Ok(Some(t)),
                None => Err(DecodeError::InvalidField(key.to_owned())),
            },
            JsonValue::Null => Ok(None),
            _ => Err(DecodeError::InvalidField(key.to_owned())),
        },
        None => Ok(None),
    }
}

} // verus!

//! Merging into a JSON object: read what is there, or start from an empty object, let
//! the caller change the members it owns, and write the whole back. Which members
//! those are, the merge does not know.

use vstd::prelude::*;

use crate::text::join2;

verus! {

/// A JSON value. Opaque: what is known of one is said by `object_of`.
#[verifier::external_type_specification]
#[verifier::external_body]
pub struct ExValue(serde_json::Value);

/// The members of a JSON object. Opaque: their keys are named by `keys_of`.
#[verifier::external_type_specification]
#[verifier::external_body]
#[verifier::reject_recursive_types(K)]
#[verifier::reject_recursive_types(V)]
pub struct ExMembers<K, V>(serde_json::Map<K, V>);

/// What serde_json reports when a text is not JSON.
#[verifier::external_type_specification]
#[verifier::external_body]
pub struct ExJsonError(serde_json::Error);

/// The keys of an object, in the order in which it keeps them.
pub uninterp spec fn keys_of(m: serde_json::Map<String, serde_json::Value>) -> Seq<Seq<char>>;

/// The members of a value that is an object; none of any other.
pub uninterp spec fn object_of(v: serde_json::Value) -> Option<
    serde_json::Map<String, serde_json::Value>,
>;

/// The value that `serde_json::from_slice` reads from a text; none if it reads none.
pub uninterp spec fn parsed(bytes: Seq<u8>) -> Option<serde_json::Value>;

/// The text that `serde_json::to_vec_pretty` writes for an object; none if it writes none.
pub uninterp spec fn pretty(m: serde_json::Map<String, serde_json::Value>) -> Option<Seq<u8>>;

/// Calls `serde_json::from_slice`. Whether it succeeds, and with which value, depends
/// on the text alone.
#[verifier::external_body]
fn parse(bytes: &Vec<u8>) -> (r: Result<serde_json::Value, serde_json::Error>)
    ensures
        match r {
            Ok(v) => parsed(bytes@) == Some(v),
            Err(_) => parsed(bytes@) is None,
        },
{
    serde_json::from_slice(bytes)
}

/// Calls `serde_json::to_vec_pretty` on the object with these members. What it writes
/// depends on the members alone; and if it can be read again, an object is read, with
/// the same keys in the same order. Nothing is said of whether it can: an object nested
/// too deeply is written but not read.
#[verifier::external_body]
fn write_pretty(m: serde_json::Map<String, serde_json::Value>) -> (r: Result<
    Vec<u8>,
    serde_json::Error,
>)
    ensures
        match r {
            Ok(b) => {
                &&& pretty(m) == Some(b@)
                &&& parsed(b@) matches Some(v) ==> (object_of(v) matches Some(back) && keys_of(back)
                    == keys_of(m))
            },
            Err(_) => pretty(m) is None,
        },
{
    serde_json::to_vec_pretty(&serde_json::Value::Object(m))
}

/// Tells `serde_json::Value::Object` from the other variants, and takes its members out.
#[verifier::external_body]
fn into_object(v: serde_json::Value) -> (r: Option<serde_json::Map<String, serde_json::Value>>)
    ensures
        r == object_of(v),
{
    match v {
        serde_json::Value::Object(m) => Some(m),
        serde_json::Value::Null => None,
        serde_json::Value::Bool(_) => None,
        serde_json::Value::Number(_) => None,
        serde_json::Value::String(_) => None,
        serde_json::Value::Array(_) => None,
    }
}

/// Calls `serde_json::Map::new`: no members.
#[verifier::external_body]
fn no_members() -> (r: serde_json::Map<String, serde_json::Value>)
    ensures
        keys_of(r) == Seq::<Seq<char>>::empty(),
{
    serde_json::Map::new()
}

/// Why a merge came to nothing.
#[derive(Debug)]
pub enum MergeError {
    /// What is there is not JSON.
    Parse(serde_json::Error),
    /// What is there is not a JSON object.
    NotAnObject,
    /// The caller refused, and said why.
    Refused(String),
    /// The result cannot be written.
    Write(serde_json::Error),
}

impl MergeError {
    /// The error in words; `path` is where the object is kept.
    pub open spec fn text(self, path: Seq<char>) -> Seq<char> {
        match self {
            MergeError::Parse(_) => "parsing "@ + path,
            MergeError::NotAnObject => path + " is not a JSON object"@,
            MergeError::Refused(why) => why@,
            MergeError::Write(_) => "writing "@ + path,
        }
    }

    /// The error in words; `path` is where the object is kept.
    pub fn message(&self, path: &str) -> (r: String)
        ensures
            r@ == self.text(path@),
    {
        match self {
            MergeError::Parse(_) => join2("parsing ", path),
            MergeError::NotAnObject => join2(path, " is not a JSON object"),
            MergeError::Refused(why) => why.clone(),
            MergeError::Write(_) => join2("writing ", path),
        }
    }
}

/// Whether `m` is what a merge starts from: what is there, or no members.
pub open spec fn starts_from(
    existing: Option<Vec<u8>>,
    m: serde_json::Map<String, serde_json::Value>,
) -> bool {
    match existing {
        Some(b) => parsed(b@) matches Some(v) && object_of(v) == Some(m),
        None => keys_of(m) == Seq::<Seq<char>>::empty(),
    }
}

/// Hands the members of the object in `existing`, or none, to `mutate`, and returns the
/// text of the object that `mutate` makes of them.
pub fn merge_object<
    F: FnOnce(serde_json::Map<String, serde_json::Value>) -> Result<
        serde_json::Map<String, serde_json::Value>,
        String,
    >,
>(existing: Option<Vec<u8>>, mutate: F) -> (r: Result<Vec<u8>, MergeError>)
    requires
        forall|m: serde_json::Map<String, serde_json::Value>| #[trigger]
            call_requires(mutate, (m,)),
    ensures
        match r {
            Ok(bytes) => exists|
                m: serde_json::Map<String, serde_json::Value>,
                w: serde_json::Map<String, serde_json::Value>,
            |
                #![trigger starts_from(existing, m), pretty(w)]
                {
                    &&& starts_from(existing, m)
                    &&& call_ensures(mutate, (m,), Ok(w))
                    &&& pretty(w) == Some(bytes@)
                    &&& parsed(bytes@) matches Some(v) ==> (object_of(v) matches Some(back)
                        && keys_of(back) == keys_of(w))
                },
            Err(MergeError::Parse(_)) => existing matches Some(b) && parsed(b@) is None,
            Err(MergeError::NotAnObject) => existing matches Some(b) && (parsed(b@) matches Some(v)
                && object_of(v) is None),
            Err(MergeError::Refused(why)) => exists|m: serde_json::Map<String, serde_json::Value>|
                #![trigger starts_from(existing, m)]
                starts_from(existing, m) && call_ensures(mutate, (m,), Err(why)),
            Err(MergeError::Write(_)) => exists|
                m: serde_json::Map<String, serde_json::Value>,
                w: serde_json::Map<String, serde_json::Value>,
            |
                #![trigger starts_from(existing, m), pretty(w)]
                starts_from(existing, m) && call_ensures(mutate, (m,), Ok(w)) && pretty(w) is None,
        },
        existing matches Some(b) && parsed(b@) is None ==> r matches Err(MergeError::Parse(_)),
        existing matches Some(b) && (parsed(b@) matches Some(v) && object_of(v) is None)
            ==> r matches Err(MergeError::NotAnObject),
{
    let ghost before = existing;
    let members = match existing {
        Some(b) => match parse(&b) {
            Ok(v) => match into_object(v) {
                Some(m) => m,
                None => {
                    return Err(MergeError::NotAnObject);
                },
            },
            Err(e) => {
                return Err(MergeError::Parse(e));
            },
        },
        None => no_members(),
    };
    assert(starts_from(before, members));
    match mutate(members) {
        Ok(w) => {
            let ghost made = w;
            match write_pretty(w) {
                Ok(bytes) => {
                    assert(pretty(made) == Some(bytes@));
                    Ok(bytes)
                },
                Err(e) => {
                    assert(pretty(made) is None);
                    Err(MergeError::Write(e))
                },
            }
        },
        Err(why) => Err(MergeError::Refused(why)),
    }
}

} // verus!

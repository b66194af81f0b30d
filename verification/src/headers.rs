//! The headers of a request as a JSON object, to be recorded with a seed.

use vstd::prelude::*;

verus! {

#[verifier::external_type_specification]
#[verifier::external_body]
pub struct ExHttpRequest(actix_web::HttpRequest);

#[verifier::external_type_specification]
#[verifier::external_body]
pub struct ExJsonValue(serde_json::Value);

#[verifier::external_type_specification]
#[verifier::external_body]
#[verifier::reject_recursive_types(K)]
#[verifier::reject_recursive_types(V)]
pub struct ExJsonMap<K, V>(serde_json::Map<K, V>);

/// The values that a request's header map holds under a name, in the order of their list there;
/// none where the request has no header of that name.
pub uninterp spec fn header_values(req: actix_web::HttpRequest, name: Seq<char>) -> Seq<Seq<u8>>;

/// The members of a JSON object: a string by its text, any other value as `None`.
pub uninterp spec fn json_members(
    object: serde_json::Map<String, serde_json::Value>,
) -> Map<Seq<char>, Option<Seq<char>>>;

/// The values of the fields of a name, in their order.
pub open spec fn values_of(fields: Seq<(String, Vec<u8>)>, name: Seq<char>) -> Seq<Seq<u8>>
    decreases fields.len(),
{
    if fields.len() == 0 {
        Seq::empty()
    } else {
        let rest = values_of(fields.drop_last(), name);
        if fields.last().0@ == name {
            rest.push(fields.last().1@)
        } else {
            rest
        }
    }
}

/// The bytes that a header value may hold and still be text.
pub open spec fn is_visible_ascii(b: u8) -> bool {
    32 <= b < 127 || b == 9
}

/// All bytes of a value are visible ASCII.
pub open spec fn is_text(value: Seq<u8>) -> bool {
    forall|i: int| 0 <= i < value.len() ==> is_visible_ascii(#[trigger] value[i])
}

/// A header value as text. One that is no text is recorded as empty.
pub open spec fn header_text(value: Seq<u8>) -> Seq<char> {
    if is_text(value) {
        Seq::new(value.len(), |i: int| value[i] as char)
    } else {
        Seq::empty()
    }
}

/// The members of the object that records a multi-valued header map: for each name that has a
/// value, the text of its last one.
pub open spec fn header_members(values: spec_fn(Seq<char>) -> Seq<Seq<u8>>) -> Map<
    Seq<char>,
    Option<Seq<char>>,
> {
    Map::new(
        |name: Seq<char>| values(name).len() > 0,
        |name: Seq<char>| Some(header_text(values(name).last())),
    )
}

/// Walks the header map of a request (`actix_web::HttpRequest::headers` and the iterator of its
/// result) and copies each name and value out. The values of one name come in their own order,
/// which is all that is claimed: the order of the names varies.
#[verifier::external_body]
fn header_fields(req: &actix_web::HttpRequest) -> (fields: Vec<(String, Vec<u8>)>)
    ensures
        forall|name: Seq<char>| #[trigger]
            values_of(fields@, name) == header_values(*req, name),
{
    req.headers()
        .into_iter()
        .map(|(name, value)| (name.to_string(), value.as_bytes().to_vec()))
        .collect()
}

/// `HeaderValue::to_str` on a value made of the given bytes: the text, if every byte is visible
/// ASCII. Bytes that no header value can hold are no text either.
#[verifier::external_body]
fn visible_text(value: &Vec<u8>) -> (found: Option<String>)
    ensures
        found is Some <==> is_text(value@),
        found is Some ==> found->0@ == header_text(value@),
{
    let header_value = actix_web::http::header::HeaderValue::from_bytes(value).ok()?;
    header_value.to_str().ok().map(|found| found.to_string())
}

/// `serde_json::Map::new`: an object without members.
#[verifier::external_body]
fn new_object() -> (object: serde_json::Map<String, serde_json::Value>)
    ensures
        json_members(object).dom() == Set::<Seq<char>>::empty(),
{
    serde_json::Map::new()
}

/// `serde_json::Map::insert` of a JSON string: the member is set to it, whatever it was before.
#[verifier::external_body]
fn set_text(object: &mut serde_json::Map<String, serde_json::Value>, name: String, member: String)
    ensures
        json_members(*final(object)) == json_members(*old(object)).insert(name@, Some(member@)),
{
    object.insert(name, serde_json::Value::String(member));
}

/// Records header fields, in the order in which they are given, as a JSON object.
pub fn format_header_fields(fields: &Vec<(String, Vec<u8>)>) -> (object: serde_json::Map<
    String,
    serde_json::Value,
>)
    ensures
        json_members(object) == header_members(|name: Seq<char>| values_of(fields@, name)),
{
    let mut object: serde_json::Map<String, serde_json::Value> = new_object();
    let mut i: usize = 0;
    assert(json_members(object) =~= header_members(
        |name: Seq<char>| values_of(fields@.take(0), name),
    ));
    while i < fields.len()
        invariant
            i <= fields.len(),
            json_members(object) == header_members(
                |name: Seq<char>| values_of(fields@.take(i as int), name),
            ),
        decreases fields.len() - i,
    {
        let found: String = match visible_text(&fields[i].1) {
            Some(found) => found,
            None => "".to_owned(),
        };
        proof {
            reveal_strlit("");
            assert(found@ =~= header_text(fields@[i as int].1@));
            assert(fields@.take(i + 1).drop_last() == fields@.take(i as int));
        }
        let ghost before = json_members(object);
        set_text(&mut object, fields[i].0.clone(), found);
        assert(json_members(object) =~= header_members(
            |name: Seq<char>| values_of(fields@.take(i + 1), name),
        ));
        i = i + 1;
    }
    assert(fields@.take(i as int) == fields@);
    object
}

/// Records the headers of a request as a JSON object.
pub fn format_http_headers(req: &actix_web::HttpRequest) -> (object: serde_json::Map<
    String,
    serde_json::Value,
>)
    ensures
        json_members(object) == header_members(|name: Seq<char>| header_values(*req, name)),
{
    let fields: Vec<(String, Vec<u8>)> = header_fields(req);
    let object: serde_json::Map<String, serde_json::Value> = format_header_fields(&fields);
    assert(json_members(object) =~= header_members(|name: Seq<char>| header_values(*req, name)));
    object
}

} // verus!

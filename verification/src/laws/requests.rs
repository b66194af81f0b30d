//! What is recorded of a request.

use crate::headers;
use crate::headers::{format_header_fields, format_http_headers};
use vstd::prelude::*;

verus! {

/// The last value of a name is that of the last field of that name.
proof fn lemma_last_value(fields: Seq<(String, Vec<u8>)>, i: int)
    requires
        0 <= i < fields.len(),
        forall|j: int| i < j < fields.len() ==> (#[trigger] fields[j]).0@ != fields[i].0@,
    ensures
        headers::values_of(fields, fields[i].0@).len() > 0,
        headers::values_of(fields, fields[i].0@).last() == fields[i].1@,
    decreases fields.len(),
{
    if i < fields.len() - 1 {
        let rest = fields.drop_last();
        assert(rest[i] == fields[i]);
        assert forall|j: int| i < j < rest.len() implies (#[trigger] rest[j]).0@ != rest[i].0@ by {
            assert(fields[j].0@ != fields[i].0@);
        }
        assert(fields[fields.len() - 1].0@ != fields[i].0@);
        lemma_last_value(rest, i);
    }
}

/// A name that has a value has a field.
proof fn lemma_has_field(fields: Seq<(String, Vec<u8>)>, name: Seq<char>)
    ensures
        headers::values_of(fields, name).len() > 0 ==> exists|i: int|
            0 <= i < fields.len() && (#[trigger] fields[i]).0@ == name,
    decreases fields.len(),
{
    if fields.len() > 0 {
        let rest = fields.drop_last();
        lemma_has_field(rest, name);
        if headers::values_of(fields, name).len() > 0 {
            if fields[fields.len() - 1].0@ != name {
                let i = choose|i: int| 0 <= i < rest.len() && (#[trigger] rest[i]).0@ == name;
                assert(fields[i].0@ == name);
            }
        }
    }
}

/// The text of a value: each byte becomes a character, if all of them are blanks, tabs or printed
/// ASCII characters; otherwise the text is empty.
proof fn lemma_text(value: Seq<u8>)
    ensures
        (forall|k: int|
            0 <= k < value.len() ==> (32 <= #[trigger] value[k] <= 126 || value[k] == 9))
            ==> headers::header_text(value).len() == value.len() && forall|k: int|
            0 <= k < value.len() ==> #[trigger] headers::header_text(value)[k] as int == value[k],
        (exists|k: int|
            0 <= k < value.len() && !(32 <= #[trigger] value[k] <= 126 || value[k] == 9))
            ==> headers::header_text(value).len() == 0,
{
    if headers::is_text(value) {
        assert(forall|k: int|
            0 <= k < value.len() ==> headers::is_visible_ascii(#[trigger] value[k]));
    }
}

/// The last field of a name is recorded as a string under that name. The string has a character
/// for each byte of the value, with the same code, if all bytes are blanks, tabs or printed ASCII
/// characters; otherwise it is empty.
pub proof fn the_last_value_of_a_name_is_recorded(
    fields: Vec<(String, Vec<u8>)>,
    object: serde_json::Map<String, serde_json::Value>,
    i: int,
)
    requires
        call_ensures(format_header_fields, (&fields,), object),
        0 <= i < fields@.len(),
        forall|j: int| i < j < fields@.len() ==> (#[trigger] fields@[j]).0@ != fields@[i].0@,
    ensures
        headers::json_members(object).contains_key(fields@[i].0@),
        headers::json_members(object)[fields@[i].0@] is Some,
        ({
            let value = fields@[i].1@;
            let recorded = headers::json_members(object)[fields@[i].0@]->0;
            &&& (forall|k: int|
                0 <= k < value.len() ==> (32 <= #[trigger] value[k] <= 126 || value[k] == 9))
                ==> recorded.len() == value.len() && forall|k: int|
                0 <= k < value.len() ==> #[trigger] recorded[k] as int == value[k]
            &&& (exists|k: int|
                0 <= k < value.len() && !(32 <= #[trigger] value[k] <= 126 || value[k] == 9))
                ==> recorded.len() == 0
        }),
{
    lemma_last_value(fields@, i);
    lemma_text(fields@[i].1@);
}

/// Nothing is recorded under a name that has no field.
pub proof fn only_given_names_are_recorded(
    fields: Vec<(String, Vec<u8>)>,
    object: serde_json::Map<String, serde_json::Value>,
    name: Seq<char>,
)
    requires
        call_ensures(format_header_fields, (&fields,), object),
        headers::json_members(object).contains_key(name),
    ensures
        exists|i: int| 0 <= i < fields@.len() && (#[trigger] fields@[i]).0@ == name,
{
    lemma_has_field(fields@, name);
}

/// A header of a request is recorded just when the request has it, by its last value: a character
/// for each byte, if all bytes are blanks, tabs or printed ASCII characters, and otherwise nothing.
pub proof fn headers_of_a_request_are_recorded(
    req: actix_web::HttpRequest,
    object: serde_json::Map<String, serde_json::Value>,
    name: Seq<char>,
)
    requires
        call_ensures(format_http_headers, (&req,), object),
    ensures
        headers::json_members(object).contains_key(name) <==> headers::header_values(
            req,
            name,
        ).len() > 0,
        headers::header_values(req, name).len() > 0 ==> {
            let value = headers::header_values(req, name).last();
            let recorded = headers::json_members(object)[name]->0;
            &&& headers::json_members(object)[name] is Some
            &&& (forall|k: int|
                0 <= k < value.len() ==> (32 <= #[trigger] value[k] <= 126 || value[k] == 9))
                ==> recorded.len() == value.len() && forall|k: int|
                0 <= k < value.len() ==> #[trigger] recorded[k] as int == value[k]
            &&& (exists|k: int|
                0 <= k < value.len() && !(32 <= #[trigger] value[k] <= 126 || value[k] == 9))
                ==> recorded.len() == 0
        },
{
    lemma_text(headers::header_values(req, name).last());
}

} // verus!

//! Helpers shared by the API modules: URL encoding, `deepObject` query
//! parameters, the content types that responses carry, and the error type.

use vstd::prelude::*;

pub mod form_encoding;
pub mod text;
pub mod deep_object;
pub mod content_type;
pub mod error;

pub use self::content_type::ContentType;
pub use self::deep_object::{is_deep_object, JsonValue};
pub use self::error::{Error, ResponseContent};

use self::deep_object::{
    bracketed, deep_object_supported, entries_params, items_params, member_params,
    member_supported, object_params, pairs_view, scalar_text,
};
use self::form_encoding::form_urlencoded;
use self::text::{decimal, push_char, push_decimal};
use vstd::string::StringExecFns;
use vstd::utf8::encode_utf8;

verus! {

/// `url::form_urlencoded::byte_serialize`, collected into a `String`.
/// Claimed: the result is the form-urlencoded serialization of `input`,
/// byte by byte (`form_urlencoded`), as the crate's source computes it.
#[verifier::external_body]
fn form_urlencode_bytes(input: &[u8]) -> (encoded: String)
    ensures
        encoded@ == form_urlencoded(input@),
{
    url::form_urlencoded::byte_serialize(input).collect()
}

/// Encodes `s` for a URL path segment or query value: the UTF-8 bytes of `s`
/// in `application/x-www-form-urlencoded` form.
pub fn urlencode(s: &str) -> (encoded: String)
    ensures
        encoded@ == form_urlencoded(encode_utf8(s@)),
{
    form_urlencode_bytes(s.as_bytes())
}


/// `name[key]` as a `String`.
fn bracketed_name(name: &str, key: &str) -> (s: String)
    ensures
        s@ == bracketed(name@, key@),
{
    let mut s = name.to_owned();
    push_char(&mut s, '[');
    s.append(key);
    push_char(&mut s, ']');
    s
}

/// `name[index]` as a `String`, the index in decimal.
fn indexed_name(name: &str, index: usize) -> (s: String)
    ensures
        s@ == bracketed(name@, decimal(index as nat)),
{
    let mut s = name.to_owned();
    push_char(&mut s, '[');
    push_decimal(&mut s, index);
    push_char(&mut s, ']');
    s
}

/// The compact JSON text of a null, a boolean or a number.
fn scalar_string(v: &JsonValue) -> (text: String)
    requires
        v is Null || v is Bool || v is Number,
    ensures
        text@ == scalar_text(*v),
{
    match v {
        JsonValue::Null => {
            proof {
                reveal_strlit("null");
            }
            "null".to_owned()
        },
        JsonValue::Bool(b) => {
            if *b {
                proof {
                    reveal_strlit("true");
                }
                "true".to_owned()
            } else {
                proof {
                    reveal_strlit("false");
                }
                "false".to_owned()
            }
        },
        JsonValue::Number(text) => text.clone(),
        _ => {
            proof {
                assert(false);
            }
            String::new()
        },
    }
}

/// Lays out the object `value` as `deepObject` query parameters under
/// `prefix`: each string, number, boolean or null member `key` becomes the
/// pair `prefix[key]` and its text, an object member is laid out under
/// `prefix[key]`, and the i-th element of an array member under
/// `prefix[key][i]`, members and elements in order.
pub fn parse_deep_object(prefix: &str, value: &JsonValue) -> (params: Vec<(String, String)>)
    requires
        deep_object_supported(*value),
    ensures
        pairs_view(params@) == object_params(prefix@, *value),
    decreases value,
{
    match value {
        JsonValue::Object(object) => {
            let mut params: Vec<(String, String)> = Vec::new();
            let mut i: usize = 0;
            while i < object.len()
                invariant
                    i <= object@.len(),
                    deep_object_supported(*value),
                    *value == JsonValue::Object(*object),
                    pairs_view(params@) == entries_params(prefix@, object@, i as int),
                decreases object@.len() - i,
            {
                let key = &object[i].0;
                let member = &object[i].1;
                assert(value->Object_0 == *object);
                assert(object@[i as int] == value->Object_0@[i as int]);
                assert(member_supported(object@[i as int].1));
                assert(decreases_to!(*value => value->Object_0));
                assert(decreases_to!(value->Object_0 => value->Object_0[i as int]));
                assert(decreases_to!(value->Object_0[i as int] => value->Object_0[i as int].1));
                let name = bracketed_name(prefix, key.as_str());
                let ghost before = params@;
                match member {
                    JsonValue::Object(_) => {
                        let mut sub = parse_deep_object(name.as_str(), member);
                        params.append(&mut sub);
                        assert(pairs_view(params@) =~= pairs_view(before) + object_params(
                            name@,
                            *member,
                        ));
                        assert(pairs_view(params@) == pairs_view(before) + member_params(
                            name@,
                            *member,
                        ));
                    },
                    JsonValue::Array(array) => {
                        let mut j: usize = 0;
                        while j < array.len()
                            invariant
                                j <= array@.len(),
                                i < object@.len(),
                                *member == object@[i as int].1,
                                *member == JsonValue::Array(*array),
                                member_supported(*member),
                                decreases_to!(*value => *member),
                                name@ == bracketed(prefix@, object@[i as int].0@),
                                pairs_view(params@) == pairs_view(before) + items_params(
                                    name@,
                                    array@,
                                    j as int,
                                ),
                            decreases array@.len() - j,
                        {
                            assert(member->Array_0 == *array);
                            assert(deep_object_supported(member->Array_0@[j as int]));
                            assert(decreases_to!(*member => member->Array_0));
                            assert(decreases_to!(member->Array_0 => member->Array_0[j as int]));
                            let item_name = indexed_name(name.as_str(), j);
                            let ghost mid = params@;
                            let mut sub = parse_deep_object(item_name.as_str(), &array[j]);
                            params.append(&mut sub);
                            assert(pairs_view(params@) =~= pairs_view(mid) + object_params(
                                item_name@,
                                array@[j as int],
                            ));
                            j = j + 1;
                        }
                        assert(pairs_view(params@) == pairs_view(before) + member_params(
                            name@,
                            *member,
                        ));
                    },
                    JsonValue::Str(s) => {
                        params.push((name, s.clone()));
                        assert(pairs_view(params@) =~= pairs_view(before) + member_params(
                            bracketed(prefix@, object@[i as int].0@),
                            *member,
                        ));
                    },
                    _ => {
                        let text = scalar_string(member);
                        params.push((name, text));
                        assert(pairs_view(params@) =~= pairs_view(before) + member_params(
                            bracketed(prefix@, object@[i as int].0@),
                            *member,
                        ));
                    },
                }
                assert(entries_params(prefix@, object@, i + 1) == entries_params(
                    prefix@,
                    object@,
                    i as int,
                ) + member_params(bracketed(prefix@, object@[i as int].0@), object@[i as int].1));
                i = i + 1;
            }
            params
        },
        _ => {
            proof {
                assert(false);
            }
            Vec::new()
        },
    }
}

} // verus!

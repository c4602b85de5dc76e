# clientapi_pmg

Shared helpers of a Proxmox Mail Gateway API client, verified with Verus.

- `src/apis/mod.rs`: `urlencode` (form-urlencoding through the `url` crate)
  and `parse_deep_object` (the `deepObject` query-parameter layout).
- `src/apis/form_encoding.rs`: the form-urlencoded serialization as a
  specification, and its laws (concatenation, alphabet, unreserved
  characters, injectivity).
- `src/apis/deep_object.rs`: the JSON value model, the layout specification,
  the check `is_deep_object`, and the layout's laws.
- `src/apis/content_type.rs`: classification of `Content-Type` values.
- `src/apis/error.rs`: `ResponseContent`, `Error` and its message.
- `src/apis/text.rs`: decimal rendering and `String::push`.
- `app/lib.rs`: conversions from `serde_json`/`reqwest` values, and the error
  type with `Display` and `std::error::Error`.

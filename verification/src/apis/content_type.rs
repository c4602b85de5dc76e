//! The content types that the client tells apart in a response's
//! `Content-Type` header.

use vstd::prelude::*;
use vstd::string::StrSliceExecFns;

verus! {

/// A content type supported by this client.
#[derive(Debug)]
pub enum ContentType {
    Json,
    Text,
    Unsupported(String),
}

/// `pattern` occurs in `s` as a contiguous run.
pub open spec fn contains_infix(s: Seq<char>, pattern: Seq<char>) -> bool {
    exists|i: int|
        0 <= i && i + pattern.len() <= s.len() && #[trigger] s.subrange(i, i + pattern.len())
            == pattern
}

/// A JSON content type: one that starts with `application` and mentions `json`.
pub open spec fn is_json_content_type(s: Seq<char>) -> bool {
    &&& "application"@.is_prefix_of(s)
    &&& contains_infix(s, "json"@)
}

/// A plain-text content type: one that starts with `text/plain`.
pub open spec fn is_text_content_type(s: Seq<char>) -> bool {
    "text/plain"@.is_prefix_of(s)
}

/// The characters of `s`, one by one.
fn chars_of(s: &str) -> (chars: Vec<char>)
    ensures
        chars@ == s@,
{
    let n = s.unicode_len();
    let mut chars: Vec<char> = Vec::new();
    let mut i: usize = 0;
    while i < n
        invariant
            n == s@.len(),
            i <= n,
            chars@ == s@.subrange(0, i as int),
        decreases n - i,
    {
        let c = s.get_char(i);
        chars.push(c);
        i = i + 1;
    }
    chars
}

/// Whether `pattern` occurs in `s` starting at `start`.
fn matches_at(s: &Vec<char>, pattern: &Vec<char>, start: usize) -> (found: bool)
    requires
        start <= s@.len(),
    ensures
        found == (start + pattern@.len() <= s@.len() && s@.subrange(
            start as int,
            start + pattern@.len(),
        ) == pattern@),
{
    if pattern.len() > s.len() - start {
        return false;
    }
    let mut k: usize = 0;
    while k < pattern.len()
        invariant
            start + pattern@.len() <= s@.len(),
            s@.len() == s.len(),
            k <= pattern@.len(),
            forall|m: int| 0 <= m < k ==> s@[start + m] == pattern@[m],
        decreases pattern@.len() - k,
    {
        if s[start + k] != pattern[k] {
            assert(s@.subrange(start as int, start + pattern@.len())[k as int] != pattern@[k as int]);
            return false;
        }
        k = k + 1;
    }
    assert(s@.subrange(start as int, start + pattern@.len()) =~= pattern@);
    true
}

/// Whether `pattern` occurs anywhere in `s`.
fn contains_chars(s: &Vec<char>, pattern: &Vec<char>) -> (found: bool)
    ensures
        found == contains_infix(s@, pattern@),
{
    if pattern.len() > s.len() {
        return false;
    }
    let last = s.len() - pattern.len();
    let mut i: usize = 0;
    loop
        invariant
            last + pattern@.len() == s@.len(),
            i <= last,
            forall|j: int|
                0 <= j < i ==> #[trigger] s@.subrange(j, j + pattern@.len()) != pattern@,
        decreases last - i,
    {
        if matches_at(s, pattern, i) {
            return true;
        }
        if i == last {
            return false;
        }
        i = i + 1;
    }
}

/// A content type is JSON exactly when it starts with `application` and
/// `json` occurs somewhere in it.
pub proof fn law_json_content_type(s: Seq<char>)
    ensures
        is_json_content_type(s) <==> ("application"@.is_prefix_of(s) && exists|i: int|
            0 <= i && i + 4 <= s.len() && #[trigger] s.subrange(i, i + 4) == "json"@),
{
    reveal_strlit("json");
    let p = "json"@;
    assert(p.len() == 4);
    if contains_infix(s, p) {
        let i = choose|i: int| 0 <= i && i + p.len() <= s.len() && #[trigger] s.subrange(i, i + p.len()) == p;
        assert(s.subrange(i, i + 4) == p);
    }
    if exists|i: int| 0 <= i && i + 4 <= s.len() && #[trigger] s.subrange(i, i + 4) == p {
        let i = choose|i: int| 0 <= i && i + 4 <= s.len() && #[trigger] s.subrange(i, i + 4) == p;
        assert(s.subrange(i, i + p.len()) == p);
    }
}

/// A content type is plain text exactly when it starts with `text/plain`,
/// whatever follows.
pub proof fn law_text_content_type(s: Seq<char>)
    ensures
        is_text_content_type(s) <==> "text/plain"@.is_prefix_of(s),
{
}

impl ContentType {
    /// Classifies a `Content-Type` header value: `Json` when it starts with
    /// `application` and contains `json`, else `Text` when it starts with
    /// `text/plain`, else `Unsupported` with the value itself.
    pub fn from(content_type: &str) -> (kind: ContentType)
        ensures
            is_json_content_type(content_type@) ==> kind is Json,
            !is_json_content_type(content_type@) && is_text_content_type(content_type@)
                ==> kind is Text,
            !is_json_content_type(content_type@) && !is_text_content_type(content_type@) ==> (
            kind matches ContentType::Unsupported(value) && value@ == content_type@),
            "application"@.is_prefix_of(content_type@) && (exists|i: int|
                0 <= i && i + 4 <= content_type@.len() && #[trigger] content_type@.subrange(i, i + 4)
                    == "json"@) ==> kind is Json,
            "text/plain"@.is_prefix_of(content_type@) && !("application"@.is_prefix_of(
                content_type@,
            ) && (exists|i: int|
                0 <= i && i + 4 <= content_type@.len() && #[trigger] content_type@.subrange(i, i + 4)
                    == "json"@)) ==> kind is Text,
            kind matches ContentType::Unsupported(value) ==> value@ == content_type@
                && !"text/plain"@.is_prefix_of(content_type@),
    {
        proof {
            law_json_content_type(content_type@);
            law_text_content_type(content_type@);
        }
        let chars = chars_of(content_type);
        let application = chars_of("application");
        let json = chars_of("json");
        let text_plain = chars_of("text/plain");
        if application.len() <= chars.len() && matches_at(&chars, &application, 0)
            && contains_chars(&chars, &json) {
            ContentType::Json
        } else if text_plain.len() <= chars.len() && matches_at(&chars, &text_plain, 0) {
            ContentType::Text
        } else {
            ContentType::Unsupported(content_type.to_owned())
        }
    }
}

} // verus!

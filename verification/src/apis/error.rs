//! The content of an unsuccessful response, and the error that an API call
//! reports.

use vstd::prelude::*;

use super::text::{decimal, push_char, push_decimal};
use vstd::string::StringExecFns;

verus! {

/// What `reqwest::StatusCode::from_u16(code)` followed by `canonical_reason`
/// gives: the reason phrase of the registered status `code`, if any.
pub uninterp spec fn status_canonical_reason(code: u16) -> Option<Seq<char>>;

/// `reqwest::StatusCode::from_u16(code)`, then `StatusCode::canonical_reason`
/// on the status. Claimed: the result is the named reason phrase of `code`,
/// and there is none for a code outside `100..=999`, which `from_u16`
/// rejects.
#[verifier::external_body]
fn canonical_reason(code: u16) -> (reason: Option<String>)
    ensures
        reason matches Some(r) ==> status_canonical_reason(code) == Some(r@),
        reason is None ==> status_canonical_reason(code) is None,
        !(100 <= code && code <= 999) ==> reason is None,
{
    match reqwest::StatusCode::from_u16(code) {
        Ok(status) => match status.canonical_reason() {
            Some(text) => Some(text.to_string()),
            None => None,
        },
        Err(_) => None,
    }
}

/// The text that stands for a status without a reason phrase.
pub open spec fn unknown_status_text() -> Seq<char> {
    "<unknown status code>"@
}

/// How a status code is displayed: the code in decimal, a space, and the
/// reason phrase or the text for an unknown status.
pub open spec fn status_line_text(code: u16, reason: Option<Seq<char>>) -> Seq<char> {
    decimal(code as nat) + seq![' '] + match reason {
        Some(r) => r,
        None => unknown_status_text(),
    }
}

/// A status with a reason phrase `r` is displayed as its code in decimal,
/// a space and `r`, whatever the code.
pub proof fn law_status_line_with_reason(code: u16, r: Seq<char>)
    ensures
        status_line_text(code, Some(r)) == decimal(code as nat) + seq![' '] + r,
{
}

/// A status without a reason phrase is displayed as its code in decimal
/// followed by ` <unknown status code>`.
pub proof fn law_status_line_without_reason(code: u16)
    ensures
        status_line_text(code, None) == decimal(code as nat) + " <unknown status code>"@,
{
    reveal_strlit("<unknown status code>");
    reveal_strlit(" <unknown status code>");
    assert(seq![' '] + "<unknown status code>"@ =~= " <unknown status code>"@);
    assert(decimal(code as nat) + seq![' '] + "<unknown status code>"@ =~= decimal(code as nat) + (
    seq![' '] + "<unknown status code>"@));
}

/// The display of the status `code` whose reason phrase is `reason`.
pub fn status_line(code: u16, reason: Option<&str>) -> (line: String)
    ensures
        line@ == status_line_text(
            code,
            match reason {
                Some(r) => Some(r@),
                None => None,
            },
        ),
        reason matches Some(r) ==> line@ == decimal(code as nat) + seq![' '] + r@,
        reason is None ==> line@ == decimal(code as nat) + " <unknown status code>"@,
{
    proof {
        law_status_line_without_reason(code);
    }
    let mut line = String::new();
    push_decimal(&mut line, code as usize);
    push_char(&mut line, ' ');
    match reason {
        Some(r) => line.append(r),
        None => line.append("<unknown status code>"),
    }
    line
}

/// The display of the status `code`, as `reqwest::StatusCode` shows it.
pub fn status_display(code: u16) -> (line: String)
    ensures
        line@ == status_line_text(code, status_canonical_reason(code)),
        status_canonical_reason(code) matches Some(r) ==> line@ == decimal(code as nat) + seq![' ']
            + r,
        status_canonical_reason(code) is None ==> line@ == decimal(code as nat)
            + " <unknown status code>"@,
{
    proof {
        law_status_line_without_reason(code);
    }
    let reason = canonical_reason(code);
    match reason {
        Some(r) => status_line(code, Some(r.as_str())),
        None => status_line(code, None),
    }
}

/// The content of a response whose status was not a success.
#[derive(Debug, Clone)]
pub struct ResponseContent<T> {
    pub status: u16,
    pub content: String,
    pub entity: Option<T>,
}

/// An error reported by an API call. A transport, decoding or I/O failure
/// is held as the message of the error that the layer raised.
#[derive(Debug)]
pub enum Error<T> {
    Reqwest(String),
    Serde(String),
    Io(String),
    ResponseError(ResponseContent<T>),
}

/// `error in {module}: {detail}`.
pub open spec fn error_text(module: Seq<char>, detail: Seq<char>) -> Seq<char> {
    "error in "@ + module + ": "@ + detail
}

/// `error in {module}: {detail}` as a `String`.
pub fn describe_error(module: &str, detail: &str) -> (text: String)
    ensures
        text@ == error_text(module@, detail@),
{
    let mut text = String::new();
    text.append("error in ");
    text.append(module);
    text.append(": ");
    text.append(detail);
    text
}

/// The message of an error names its layer and then gives the inner
/// error's whole message unchanged, or, for a response, `status code`, the
/// code in decimal and its reason phrase.
pub proof fn law_error_message<T>(e: Error<T>)
    ensures
        e matches Error::Reqwest(m) ==> error_text(e.module_text(), e.detail_text())
            == "error in reqwest: "@ + m@,
        e matches Error::Serde(m) ==> error_text(e.module_text(), e.detail_text())
            == "error in serde: "@ + m@,
        e matches Error::Io(m) ==> error_text(e.module_text(), e.detail_text()) == "error in IO: "@
            + m@,
        e matches Error::ResponseError(rc) ==> (status_canonical_reason(rc.status) matches Some(r)
            ==> error_text(e.module_text(), e.detail_text()) == "error in response: status code "@
            + decimal(rc.status as nat) + seq![' '] + r),
        e matches Error::ResponseError(rc) ==> (status_canonical_reason(rc.status) is None
            ==> error_text(e.module_text(), e.detail_text()) == "error in response: status code "@
            + decimal(rc.status as nat) + " <unknown status code>"@),
{
    reveal_strlit("error in ");
    reveal_strlit(": ");
    reveal_strlit("reqwest");
    reveal_strlit("serde");
    reveal_strlit("IO");
    reveal_strlit("response");
    reveal_strlit("status code ");
    reveal_strlit("error in reqwest: ");
    reveal_strlit("error in serde: ");
    reveal_strlit("error in IO: ");
    reveal_strlit("error in response: status code ");
    match e {
        Error::Reqwest(m) => {
            assert(error_text(e.module_text(), e.detail_text()) =~= "error in reqwest: "@ + m@);
        },
        Error::Serde(m) => {
            assert(error_text(e.module_text(), e.detail_text()) =~= "error in serde: "@ + m@);
        },
        Error::Io(m) => {
            assert(error_text(e.module_text(), e.detail_text()) =~= "error in IO: "@ + m@);
        },
        Error::ResponseError(rc) => {
            law_status_line_without_reason(rc.status);
            let line = status_line_text(rc.status, status_canonical_reason(rc.status));
            assert(error_text(e.module_text(), e.detail_text()) =~= "error in response: status code "@
                + line);
        },
    }
}

impl<T> Error<T> {
    /// The name of the layer that failed.
    pub open spec fn module_text(&self) -> Seq<char> {
        match self {
            Error::Reqwest(_) => "reqwest"@,
            Error::Serde(_) => "serde"@,
            Error::Io(_) => "IO"@,
            Error::ResponseError(_) => "response"@,
        }
    }

    /// What follows the layer's name in the message: the inner error's own
    /// message, or `status code ` and the display of the response's status.
    pub open spec fn detail_text(&self) -> Seq<char> {
        match self {
            Error::Reqwest(message) => message@,
            Error::Serde(message) => message@,
            Error::Io(message) => message@,
            Error::ResponseError(rc) => "status code "@ + status_line_text(
                rc.status,
                status_canonical_reason(rc.status),
            ),
        }
    }

    /// The name of the layer that failed: `reqwest`, `serde`, `IO` or
    /// `response`.
    pub fn module_name(&self) -> (name: &'static str)
        ensures
            name@ == self.module_text(),
    {
        match self {
            Error::Reqwest(_) => "reqwest",
            Error::Serde(_) => "serde",
            Error::Io(_) => "IO",
            Error::ResponseError(_) => "response",
        }
    }

    /// The error's message: `error in {module}: {detail}`.
    pub fn to_string(&self) -> (text: String)
        ensures
            text@ == error_text(self.module_text(), self.detail_text()),
            "error in "@.is_prefix_of(text@),
            self matches Error::Reqwest(m) ==> text@ == "error in reqwest: "@ + m@,
            self matches Error::Serde(m) ==> text@ == "error in serde: "@ + m@,
            self matches Error::Io(m) ==> text@ == "error in IO: "@ + m@,
            self matches Error::ResponseError(rc) ==> (status_canonical_reason(rc.status) matches Some(
                r,
            ) ==> text@ == "error in response: status code "@ + decimal(rc.status as nat) + seq![' ']
                + r),
            self matches Error::ResponseError(rc) ==> (status_canonical_reason(rc.status) is None
                ==> text@ == "error in response: status code "@ + decimal(rc.status as nat)
                + " <unknown status code>"@),
    {
        proof {
            law_error_message(*self);
        }
        let module = self.module_name();
        let text = match self {
            Error::Reqwest(message) => describe_error(module, message.as_str()),
            Error::Serde(message) => describe_error(module, message.as_str()),
            Error::Io(message) => describe_error(module, message.as_str()),
            Error::ResponseError(rc) => {
                let mut detail = String::new();
                detail.append("status code ");
                let status = status_display(rc.status);
                detail.append(status.as_str());
                describe_error(module, detail.as_str())
            },
        };
        assert("error in "@ =~= text@.subrange(0, "error in "@.len() as int));
        text
    }
}

} // verus!

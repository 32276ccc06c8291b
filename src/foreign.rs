//! Outside types that the library carries, and the outside calls it makes.
//! Each item here is trusted: its contract restates what the outside crate
//! documents.

use vstd::prelude::*;

use crate::message::RespMsg;

verus! {

#[verifier::external_type_specification]
#[verifier::external_body]
#[verifier::reject_recursive_types(T)]
pub struct ExReceiver<T>(tokio::sync::mpsc::Receiver<T>);

#[verifier::external_type_specification]
#[verifier::external_body]
#[verifier::reject_recursive_types(T)]
pub struct ExSender<T>(tokio::sync::mpsc::Sender<T>);

#[verifier::external_type_specification]
#[verifier::external_body]
#[verifier::reject_recursive_types(T)]
pub struct ExUnboundedSender<T>(tokio::sync::mpsc::UnboundedSender<T>);

#[verifier::external_type_specification]
#[verifier::external_body]
pub struct ExRuntime(tokio::runtime::Runtime);

#[verifier::external_type_specification]
#[verifier::external_body]
pub struct ExClient(reqwest::Client);

#[verifier::external_type_specification]
#[verifier::external_body]
pub struct ExHyperBody(hyper::Body);

#[verifier::external_type_specification]
#[verifier::external_body]
pub struct ExMethod(reqwest::Method);

#[verifier::external_type_specification]
#[verifier::external_body]
pub struct ExUrl(reqwest::Url);

/// Relies on reqwest's derived `Clone` for `Client`, whose one field is an
/// `Arc`: the copy is a handle on the same shared client.
pub assume_specification[ <reqwest::Client as core::clone::Clone>::clone ](c: &reqwest::Client) -> (r: reqwest::Client)
    ensures
        r == *c,
;

pub open spec fn is_ascii_alnum(c: char) -> bool {
    ('0' <= c && c <= '9') || ('a' <= c && c <= 'z') || ('A' <= c && c <= 'Z')
}

/// A byte that `http::Method` allows in a method token.
pub open spec fn is_method_char(c: char) -> bool {
    is_ascii_alnum(c) || c == '!' || c == '*' || c == '+' || c == '-' || c == '.' || c == '^'
        || c == '_' || c == '`' || c == '|' || c == '~'
}

/// Whether `http::Method::from_bytes` accepts the method token: it is not
/// empty and every character is a method character.
pub open spec fn method_accepted(m: Seq<char>) -> bool {
    m.len() > 0 && forall|i: int| 0 <= i < m.len() ==> is_method_char(#[trigger] m[i])
}

/// A character that `http::HeaderName` allows in a header name.
pub open spec fn is_header_char(c: char) -> bool {
    is_ascii_alnum(c) || c == '!' || c == '"' || c == '#' || c == '$' || c == '%' || c == '&'
        || c == '\'' || c == '*' || c == '+' || c == '-' || c == '.' || c == '^' || c == '_'
        || c == '`' || c == '|' || c == '~'
}

pub open spec fn ascii_lower(c: char) -> char {
    if 'A' <= c && c <= 'Z' {
        ((c as u32) + 32) as char
    } else {
        c
    }
}

/// The canonical form that `http::HeaderName::from_bytes` gives a header
/// name: its characters lower-cased, where it is not empty, at most 65535
/// bytes long and made of header characters; `None` otherwise.
pub open spec fn header_name_of(key: Seq<char>) -> Option<Seq<char>> {
    if 0 < key.len() <= 65535 && forall|i: int| 0 <= i < key.len() ==> is_header_char(#[trigger] key[i]) {
        Some(key.map_values(|c: char| ascii_lower(c)))
    } else {
        None
    }
}

/// Whether `url::Url::parse` accepts the text as an absolute URL.
pub uninterp spec fn url_accepted(s: Seq<char>) -> bool;

/// Relies on `http::Method::from_bytes` (re-exported by reqwest): it accepts
/// exactly the non-empty tokens whose bytes its `METHOD_CHARS` table allows;
/// the error's text is kept.
#[verifier::external_body]
pub(crate) fn parse_method(m: &str) -> (r: Result<reqwest::Method, String>)
    ensures
        r.is_ok() == method_accepted(m@),
        m@.len() == 0 ==> r.is_err(),
{
    reqwest::Method::from_bytes(m.as_bytes()).map_err(|e| e.to_string())
}

/// Relies on `http::HeaderName::from_bytes`: it accepts exactly the names of
/// 1 to `MAX_HEADER_NAME_LEN` bytes that its `HEADER_CHARS` table allows, and
/// `HeaderName::as_str` gives them lower-cased.
#[verifier::external_body]
pub(crate) fn canonical_header_name(key: &str) -> (r: Option<String>)
    ensures
        match r {
            Some(n) => header_name_of(key@) == Some(n@),
            None => header_name_of(key@) is None,
        },
{
    reqwest::header::HeaderName::from_bytes(key.as_bytes()).ok().map(|n| n.as_str().to_string())
}

/// Relies on `url::Url::parse` (re-exported by reqwest); the error's text is
/// kept.
#[verifier::external_body]
pub(crate) fn parse_url(s: &str) -> (r: Result<reqwest::Url, String>)
    ensures
        r.is_ok() == url_accepted(s@),
{
    reqwest::Url::parse(s).map_err(|e| e.to_string())
}

/// Relies on `tokio::sync::mpsc::Receiver::blocking_recv`: the next message,
/// or `None` once every sender is gone. It blocks the calling thread, which
/// must not be one of the runtime's own.
#[verifier::external_body]
pub(crate) fn receive(rx: &mut tokio::sync::mpsc::Receiver<RespMsg>) -> (r: Option<RespMsg>)
{
    rx.blocking_recv()
}

} // verus!

//! The cache-fill side of a client: where a fetch goes, the request it sends,
//! and the reply it waits for before streaming the body.

use vstd::prelude::*;

use crate::foreign::receive;
use crate::message::{RespMsg, Response};
use crate::probe::{is_path, starts_with_slash};
use crate::transaction::{client, concat, opt_str, opt_string, ReqBody, Request};

verus! {

/// The scheme a client without a base URL uses.
pub open spec fn scheme(https: bool) -> Seq<char> {
    if https {
        "https"@
    } else {
        "http"@
    }
}

/// Where a fetch of `url` goes: after the base URL where there is one; for a
/// path, to the scheme and the `host` header; otherwise `url` itself. `None`
/// where a path has no host to go to.
pub open spec fn fetch_target(
    base_url: Option<Seq<char>>,
    https: bool,
    url: Seq<char>,
    host: Option<Seq<char>>,
) -> Option<Seq<char>> {
    match base_url {
        Some(b) => Some(b + url),
        None => if is_path(url) {
            match host {
                Some(h) => Some(scheme(https) + "://"@ + h + url),
                None => None,
            }
        } else {
            Some(url)
        },
    }
}

/// The reply a fetch waits for first: the response where the exchange sent
/// its headers; nothing where it failed, closed, or broke the order.
pub open spec fn head_of(msg: Option<RespMsg>) -> Option<Response> {
    match msg {
        Some(RespMsg::Headers(resp)) => Some(resp),
        _ => None,
    }
}

impl client {
    /// The URL a cache-fill fetch of `bereq_url` goes to.
    pub fn fetch_url(&self, bereq_url: &str, host: Option<&str>) -> (r: Option<String>)
        ensures
            match r {
                Some(s) => fetch_target(opt_string(self.base_url), self.https, bereq_url@, opt_str(host))
                    == Some(s@),
                None => fetch_target(opt_string(self.base_url), self.https, bereq_url@, opt_str(host))
                    is None,
            },
    {
        match &self.base_url {
            Some(b) => Some(concat(b.as_str(), bereq_url)),
            None => {
                if starts_with_slash(bereq_url) {
                    match host {
                        Some(h) => {
                            let scheme = if self.https {
                                "https://"
                            } else {
                                "http://"
                            };
                            proof {
                                reveal_strlit("https://");
                                reveal_strlit("http://");
                                reveal_strlit("https");
                                reveal_strlit("http");
                                reveal_strlit("://");
                                assert("https://"@ =~= "https"@ + "://"@);
                                assert("http://"@ =~= "http"@ + "://"@);
                            }
                            let with_host = concat(scheme, h);
                            Some(concat(with_host.as_str(), bereq_url))
                        },
                        None => None,
                    }
                } else {
                    Some(bereq_url.to_owned())
                }
            },
        }
    }

    /// The streamed request of a cache fill: the host request's method and
    /// headers, sent to `url` with the host's body.
    pub fn fetch_request(&self, method: &str, url: String, headers: Vec<(String, String)>, body: hyper::Body) -> (r:
        Request)
        ensures
            r.method@ == method@,
            r.url == url,
            r.headers == headers,
            r.body == ReqBody::Stream(body),
            !r.buffered,
            r.client == self.client,
    {
        Request {
            method: method.to_owned(),
            url,
            headers,
            body: ReqBody::Stream(body),
            client: self.client.clone(),
            buffered: false,
        }
    }
}

/// Picks the response out of the first reply of a fetch.
pub fn first_reply(msg: Option<RespMsg>) -> (r: Option<Response>)
    ensures
        r == head_of(msg),
{
    match msg {
        Some(RespMsg::Headers(resp)) => Some(resp),
        _ => None,
    }
}

/// Waits for the first reply of a fetch and picks the response out of it.
pub fn await_headers(rx: &mut tokio::sync::mpsc::Receiver<RespMsg>) -> (r: Option<Response>)
    ensures
        exists|m: Option<RespMsg>| r == head_of(m),
{
    let msg = receive(rx);
    first_reply(msg)
}

} // verus!

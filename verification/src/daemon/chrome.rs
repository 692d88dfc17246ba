//! Failures of the browser bridge.
use vstd::prelude::*;

use crate::text::push_str;

verus! {

/// Failure of a browser operation.
#[derive(Debug)]
pub enum ChromeError {
    Http(String),
    Json(String),
    WebSocket(String),
    Cdp(String),
    JsException(String),
    ElementNotFound(String),
    NoPageLoaded,
    InvalidArgument(String),
    Disconnected,
}

/// `prefix` followed by `m`.
fn prefixed(prefix: &str, m: &String) -> (r: String)
    ensures
        r@ == prefix@ + m@,
{
    let mut s = prefix.to_owned();
    push_str(&mut s, m.as_str());
    s
}

impl ChromeError {
    /// The error's message.
    pub open spec fn spec_message(&self) -> Seq<char> {
        match self {
            ChromeError::Http(m) => "http: "@ + m@,
            ChromeError::Json(m) => "json: "@ + m@,
            ChromeError::WebSocket(m) => "websocket: "@ + m@,
            ChromeError::Cdp(m) => "cdp: "@ + m@,
            ChromeError::JsException(m) => "javascript exception: "@ + m@,
            ChromeError::ElementNotFound(m) => "element not found: "@ + m@,
            ChromeError::NoPageLoaded => "no page loaded -- navigate to a page first"@,
            ChromeError::InvalidArgument(m) => "invalid argument: "@ + m@,
            ChromeError::Disconnected => "disconnected"@,
        }
    }

    /// The error's message.
    pub fn message(&self) -> (r: String)
        ensures
            r@ == self.spec_message(),
    {
        match self {
            ChromeError::Http(m) => prefixed("http: ", m),
            ChromeError::Json(m) => prefixed("json: ", m),
            ChromeError::WebSocket(m) => prefixed("websocket: ", m),
            ChromeError::Cdp(m) => prefixed("cdp: ", m),
            ChromeError::JsException(m) => prefixed("javascript exception: ", m),
            ChromeError::ElementNotFound(m) => prefixed("element not found: ", m),
            ChromeError::NoPageLoaded => "no page loaded -- navigate to a page first".to_owned(),
            ChromeError::InvalidArgument(m) => prefixed("invalid argument: ", m),
            ChromeError::Disconnected => "disconnected".to_owned(),
        }
    }
}

} // verus!

//! Requests, responses and failures of the synchronous HTTPS boundary.
//!
//! The host owns the client. Responses are collected before an adapter returns its finite
//! model stream, so what a settled exchange means is decided here; adapters retain ownership of
//! status classification and response parsing.

use crate::text::joined;
use vstd::prelude::*;

verus! {

broadcast use crate::model::group_views;

/// Request method.
#[derive(Clone, Copy, Debug, Eq, PartialEq, Structural)]
pub enum Method {
    /// Ask for a resource.
    Get,
    /// Send a body.
    Post,
}

/// One finite request. Timeouts are milliseconds.
#[derive(Clone, Debug, Eq, PartialEq)]
pub struct Request {
    /// Request method.
    pub method: Method,
    /// Where the request goes.
    pub url: String,
    /// Query parameters, in order.
    pub query: Vec<(String, String)>,
    /// Headers, in order.
    pub headers: Vec<(String, String)>,
    /// Request body.
    pub body: Vec<u8>,
    /// Bound on the whole exchange.
    pub timeout_ms: u64,
    /// Bound on a silence of the server.
    pub stall_timeout_ms: Option<u64>,
}

/// The models of pairs of texts.
pub open spec fn pairs(s: Seq<(String, String)>) -> Seq<(Seq<char>, Seq<char>)> {
    s.map_values(|pair: (String, String)| (pair.0@, pair.1@))
}

/// Model of a [`Request`].
#[verifier::ext_equal]
pub struct HttpRequestModel {
    pub method: Method,
    pub url: Seq<char>,
    pub query: Seq<(Seq<char>, Seq<char>)>,
    pub headers: Seq<(Seq<char>, Seq<char>)>,
    pub body: Seq<u8>,
    pub timeout_ms: u64,
    pub stall_timeout_ms: Option<u64>,
}

impl View for Request {
    type V = HttpRequestModel;

    open spec fn view(&self) -> HttpRequestModel {
        HttpRequestModel {
            method: self.method,
            url: self.url@,
            query: pairs(self.query@),
            headers: pairs(self.headers@),
            body: self.body@,
            timeout_ms: self.timeout_ms,
            stall_timeout_ms: self.stall_timeout_ms,
        }
    }
}

impl HttpRequestModel {
    /// A request with nothing added.
    pub open spec fn plain(method: Method, url: Seq<char>, body: Seq<u8>, timeout_ms: u64) -> Self {
        HttpRequestModel {
            method,
            url,
            query: Seq::empty(),
            headers: Seq::empty(),
            body,
            timeout_ms,
            stall_timeout_ms: None,
        }
    }
}

impl Request {
    /// A request for a resource.
    pub fn get(url: String, timeout_ms: u64) -> (r: Self)
        ensures
            r@ == HttpRequestModel::plain(Method::Get, url@, Seq::empty(), timeout_ms),
    {
        let r = Request {
            method: Method::Get,
            url,
            query: Vec::new(),
            headers: Vec::new(),
            body: Vec::new(),
            timeout_ms,
            stall_timeout_ms: None,
        };
        assert(r@ =~= HttpRequestModel::plain(Method::Get, url@, Seq::empty(), timeout_ms));
        r
    }

    /// A request that sends a body.
    pub fn post(url: String, body: Vec<u8>, timeout_ms: u64) -> (r: Self)
        ensures
            r@ == HttpRequestModel::plain(Method::Post, url@, body@, timeout_ms),
    {
        let r = Request {
            method: Method::Post,
            url,
            query: Vec::new(),
            headers: Vec::new(),
            body,
            timeout_ms,
            stall_timeout_ms: None,
        };
        assert(r@ =~= HttpRequestModel::plain(Method::Post, url@, body@, timeout_ms));
        r
    }

    /// Add one query parameter.
    pub fn query(self, key: String, value: String) -> (r: Self)
        ensures
            r@ == (HttpRequestModel { query: self@.query.push((key@, value@)), ..self@ }),
    {
        let mut request = self;
        request.query.push((key, value));
        assert(request@ =~= HttpRequestModel {
            query: self@.query.push((key@, value@)),
            ..self@
        });
        request
    }

    /// Add one header.
    pub fn header(self, key: String, value: String) -> (r: Self)
        ensures
            r@ == (HttpRequestModel { headers: self@.headers.push((key@, value@)), ..self@ }),
    {
        let mut request = self;
        request.headers.push((key, value));
        assert(request@ =~= HttpRequestModel {
            headers: self@.headers.push((key@, value@)),
            ..self@
        });
        request
    }

    /// Bound a silence of the server.
    pub fn with_stall_timeout(self, timeout_ms: u64) -> (r: Self)
        ensures
            r@ == (HttpRequestModel { stall_timeout_ms: Some(timeout_ms), ..self@ }),
    {
        let mut request = self;
        request.stall_timeout_ms = Some(timeout_ms);
        request
    }
}

/// A collected response.
#[derive(Clone, Debug, Eq, PartialEq)]
pub struct Response {
    /// HTTP status.
    pub status_code: u16,
    /// Response body.
    pub body: Vec<u8>,
}

/// The phase of an exchange whose bound was reached.
#[derive(Clone, Copy, Debug, Eq, PartialEq, Structural)]
pub enum TimeoutPhase {
    /// Waiting for the response to begin.
    RecvResponse,
    /// Waiting for the body.
    RecvBody,
    /// Any other phase.
    Other,
}

/// A failed exchange, with what was received of it.
#[derive(Clone, Debug, Eq, PartialEq)]
pub struct Failure {
    /// Diagnostic.
    pub message: String,
    /// HTTP status, if the response had begun.
    pub status_code: Option<u16>,
    /// Body received so far.
    pub body: Vec<u8>,
    /// Bound that was reached, if one was.
    pub timeout: Option<TimeoutPhase>,
}

/// Model of a [`Failure`].
#[verifier::ext_equal]
pub struct FailureModel {
    pub message: Seq<char>,
    pub status_code: Option<u16>,
    pub body: Seq<u8>,
    pub timeout: Option<TimeoutPhase>,
}

impl View for Failure {
    type V = FailureModel;

    open spec fn view(&self) -> FailureModel {
        FailureModel {
            message: self.message@,
            status_code: self.status_code,
            body: self.body@,
            timeout: self.timeout,
        }
    }
}

impl Failure {
    /// Whether the server was silent for too long.
    pub fn is_stall(&self) -> (r: bool)
        ensures
            r == (self.timeout == Some(TimeoutPhase::RecvResponse) || self.timeout == Some(
                TimeoutPhase::RecvBody,
            )),
    {
        match self.timeout {
            Some(TimeoutPhase::RecvResponse) => true,
            Some(TimeoutPhase::RecvBody) => true,
            _ => false,
        }
    }

    /// An exchange that was cancelled before the response began.
    pub fn cancelled() -> (r: Self)
        ensures
            r@ == (FailureModel {
                message: "HTTP request cancelled"@,
                status_code: None,
                body: Seq::empty(),
                timeout: None,
            }),
    {
        let r = Failure {
            message: "HTTP request cancelled".to_owned(),
            status_code: None,
            body: Vec::new(),
            timeout: None,
        };
        assert(r@.body =~= Seq::<u8>::empty());
        r
    }

    /// An exchange that failed before the response began.
    pub fn unanswered(error: &str, timeout: Option<TimeoutPhase>) -> (r: Self)
        ensures
            r@ == (FailureModel {
                message: "HTTP request failed: "@ + error@,
                status_code: None,
                body: Seq::empty(),
                timeout,
            }),
    {
        let r = Failure {
            message: joined("HTTP request failed: ", error),
            status_code: None,
            body: Vec::new(),
            timeout,
        };
        assert(r@.body =~= Seq::<u8>::empty());
        r
    }
}

/// A response whose body is being received.
#[derive(Debug)]
pub struct Exchange {
    status_code: u16,
    body: Vec<u8>,
}

/// Model of an [`Exchange`].
#[verifier::ext_equal]
pub struct ExchangeModel {
    pub status_code: u16,
    pub body: Seq<u8>,
}

impl View for Exchange {
    type V = ExchangeModel;

    closed spec fn view(&self) -> ExchangeModel {
        ExchangeModel { status_code: self.status_code, body: self.body@ }
    }
}

impl Exchange {
    /// A response that just began.
    pub fn begun(status_code: u16) -> (r: Self)
        ensures
            r@ == (ExchangeModel { status_code, body: Seq::empty() }),
    {
        let r = Exchange { status_code, body: Vec::new() };
        assert(r@.body =~= Seq::<u8>::empty());
        r
    }

    /// Take one chunk of the body.
    pub fn receive(&mut self, chunk: &[u8])
        ensures
            final(self)@ == (ExchangeModel { body: old(self)@.body + chunk@, ..old(self)@ }),
    {
        let ghost before = self@;
        self.body.extend_from_slice(chunk);
        assert(self@ =~= ExchangeModel { body: before.body + chunk@, ..before });
    }

    /// Give up a cancelled exchange.
    pub fn cancel(self) -> (r: Failure)
        ensures
            r@ == (FailureModel {
                message: "HTTP request cancelled"@,
                status_code: Some(self@.status_code),
                body: self@.body,
                timeout: None,
            }),
    {
        Failure {
            message: "HTTP request cancelled".to_owned(),
            status_code: Some(self.status_code),
            body: self.body,
            timeout: None,
        }
    }

    /// Settle an exchange whose body could not be received to its end.
    pub fn broken(self, error: &str, timeout: Option<TimeoutPhase>) -> (r: Failure)
        ensures
            r@ == (FailureModel {
                message: "HTTP response body read failed: "@ + error@,
                status_code: Some(self@.status_code),
                body: self@.body,
                timeout,
            }),
    {
        Failure {
            message: joined("HTTP response body read failed: ", error),
            status_code: Some(self.status_code),
            body: self.body,
            timeout,
        }
    }

    /// Settle an exchange whose body was received. Any status is a response.
    pub fn settle(self, cancelled: bool) -> (r: Result<Response, Failure>)
        ensures
            match r {
                Ok(response) => !cancelled && response.status_code == self@.status_code
                    && response.body@ == self@.body,
                Err(failure) => cancelled && failure@ == (FailureModel {
                    message: "HTTP request cancelled"@,
                    status_code: Some(self@.status_code),
                    body: self@.body,
                    timeout: None,
                }),
            },
    {
        if cancelled {
            return Err(self.cancel());
        }
        Ok(Response { status_code: self.status_code, body: self.body })
    }
}

} // verus!

//! A key-value store as a service under test: where to send its requests,
//! and what its replies mean.
//!
//! The store speaks HTTP. This module does not: it says which request to
//! make, and reads the reply that the caller's HTTP client got for it.

use crate::service::ServiceContext;
use crate::text::{decimal, decimal_string, dotted_quad, same_text};
use vstd::prelude::*;
use vstd::string::*;

verus! {

/// The status that says that the store has no such key.
pub const NOT_FOUND_STATUS: u16 = 404;

/// The method of a request.
#[derive(Clone, Copy, Debug, PartialEq, Eq)]
pub enum HttpMethod {
    Get,
    Post,
}

/// A request to make of the store.
#[derive(Clone, Debug, PartialEq, Eq)]
pub struct HttpRequest {
    pub method: HttpMethod,
    pub url: String,
    /// The content type to declare, where the request has a body.
    pub content_type: Option<String>,
    pub body: Option<String>,
}

/// What came back for a request.
#[derive(Clone, Debug, PartialEq, Eq)]
pub enum HttpReply {
    /// No response came: the request could not be sent or was not answered.
    Unreachable,
    /// A response came, with its status and, where it could be read, its
    /// body.
    Response { status: u16, body: Option<String> },
}

/// Why a request to the store failed.
#[derive(Clone, Copy, Debug, PartialEq, Eq)]
pub enum DatastoreError {
    /// No response came.
    NoResponse,
    /// The response has a status that the request does not expect.
    UnexpectedStatus(u16),
    /// The body of the response could not be read.
    UnreadableBody,
}

/// Whether `status` says that the request succeeded: the statuses from 200
/// to 299 do.
pub open spec fn is_success(status: u16) -> bool {
    200 <= status <= 299
}

/// The address of the store's root: `http://`, the host, a colon and the
/// port in decimal.
pub open spec fn base_url(host: Seq<char>, port: u32) -> Seq<char> {
    "http://"@ + host + ":"@ + decimal(port as nat)
}

/// The address of `key` in the store.
pub open spec fn key_url(host: Seq<char>, port: u32, key: Seq<char>) -> Seq<char> {
    base_url(host, port) + "/"@ + "key"@ + "/"@ + key
}

/// The address that tells whether the store is healthy.
pub open spec fn health_url(host: Seq<char>, port: u32) -> Seq<char> {
    base_url(host, port) + "/"@ + "health"@
}

/// What the reply to the question whether a key exists means: the key
/// exists if the request succeeded, it does not if it was not found, and
/// everything else is an error.
pub open spec fn exists_answer(reply: HttpReply) -> Result<bool, DatastoreError> {
    match reply {
        HttpReply::Unreachable => Err(DatastoreError::NoResponse),
        HttpReply::Response { status, body } => if is_success(status) {
            Ok(true)
        } else if status == NOT_FOUND_STATUS {
            Ok(false)
        } else {
            Err(DatastoreError::UnexpectedStatus(status))
        },
    }
}

/// What the reply to a request for a key's value means: the body of a
/// successful response is the value.
pub open spec fn get_answer(reply: HttpReply) -> Result<String, DatastoreError> {
    match reply {
        HttpReply::Unreachable => Err(DatastoreError::NoResponse),
        HttpReply::Response { status, body } => if !is_success(status) {
            Err(DatastoreError::UnexpectedStatus(status))
        } else {
            match body {
                Some(value) => Ok(value),
                None => Err(DatastoreError::UnreadableBody),
            }
        },
    }
}

/// What the reply to a request to store a value means.
pub open spec fn upsert_answer(reply: HttpReply) -> Result<(), DatastoreError> {
    match reply {
        HttpReply::Unreachable => Err(DatastoreError::NoResponse),
        HttpReply::Response { status, body } => if is_success(status) {
            Ok(())
        } else {
            Err(DatastoreError::UnexpectedStatus(status))
        },
    }
}

/// Whether the reply to a health check says that the store is available: a
/// successful response whose body is `healthy`.
pub open spec fn health_answer(reply: HttpReply) -> bool {
    match reply {
        HttpReply::Response { status, body: Some(text) } => is_success(status) && text@
            == "healthy"@,
        _ => false,
    }
}

/// Whether `status` says that the request succeeded.
pub fn status_is_success(status: u16) -> (b: bool)
    ensures
        b == is_success(status),
{
    200 <= status && status <= 299
}

/// A key-value store that runs as a service of a test's network.
pub struct DatastoreService {
    service_context: ServiceContext,
    port: u32,
}

impl DatastoreService {
    /// The service's handle in its network.
    pub closed spec fn context(self) -> ServiceContext {
        self.service_context
    }

    /// The port on which the store listens.
    pub closed spec fn port(self) -> u32 {
        self.port
    }

    /// The host part of the store's addresses: its address in dotted form.
    pub open spec fn host(self) -> Seq<char> {
        dotted_quad(self.context().ip())
    }

    /// The store's handle is well formed.
    pub open spec fn wf(self) -> bool {
        self.context().wf()
    }

    /// The store behind `service_context`, listening on `port`.
    pub fn new(service_context: ServiceContext, port: u32) -> (s: DatastoreService)
        ensures
            s.context() == service_context,
            s.port() == port,
    {
        DatastoreService { service_context, port }
    }

    /// The store's address in its network, in dotted form.
    pub fn get_ip_address(&self) -> (ip: &str)
        requires
            self.wf(),
        ensures
            ip@ == self.host(),
    {
        self.service_context.get_ip_address()
    }

    /// The identifier of the store among its network's services.
    pub fn get_service_id(&self) -> (id: &str)
        ensures
            id@ == self.context().id(),
    {
        self.service_context.get_service_id()
    }

    /// The port on which the store listens.
    pub fn get_port(&self) -> (p: u32)
        ensures
            p == self.port(),
    {
        self.port
    }

    fn get_base_url(&self) -> (url: String)
        requires
            self.wf(),
        ensures
            url@ == base_url(self.host(), self.port()),
    {
        let mut url = String::from_str("http://");
        url.append(self.get_ip_address());
        url.append(":");
        url.append(decimal_string(self.port).as_str());
        url
    }

    /// The address of `key` in the store.
    pub fn get_url_for_key(&self, key: &str) -> (url: String)
        requires
            self.wf(),
        ensures
            url@ == key_url(self.host(), self.port(), key@),
    {
        let mut url = self.get_base_url();
        url.append("/");
        url.append("key");
        url.append("/");
        url.append(key);
        url
    }

    /// The address that tells whether the store is healthy.
    pub fn get_health_url(&self) -> (url: String)
        requires
            self.wf(),
        ensures
            url@ == health_url(self.host(), self.port()),
    {
        let mut url = self.get_base_url();
        url.append("/");
        url.append("health");
        url
    }

    /// The request that asks whether `key` exists, or for its value.
    pub fn key_request(&self, key: &str) -> (request: HttpRequest)
        requires
            self.wf(),
        ensures
            request.method == HttpMethod::Get,
            request.url@ == key_url(self.host(), self.port(), key@),
            request.content_type is None,
            request.body is None,
    {
        HttpRequest {
            method: HttpMethod::Get,
            url: self.get_url_for_key(key),
            content_type: None,
            body: None,
        }
    }

    /// The request that stores `value` under `key`: it posts the value as
    /// plain text to the key's address.
    pub fn upsert_request(&self, key: &str, value: &str) -> (request: HttpRequest)
        requires
            self.wf(),
        ensures
            request.method == HttpMethod::Post,
            request.url@ == key_url(self.host(), self.port(), key@),
            request.content_type matches Some(t) && t@ == "text/plain"@,
            request.body matches Some(b) && b@ == value@,
    {
        HttpRequest {
            method: HttpMethod::Post,
            url: self.get_url_for_key(key),
            content_type: Some(String::from_str("text/plain")),
            body: Some(String::from_str(value)),
        }
    }

    /// The request that asks the store whether it is healthy.
    pub fn health_request(&self) -> (request: HttpRequest)
        requires
            self.wf(),
        ensures
            request.method == HttpMethod::Get,
            request.url@ == health_url(self.host(), self.port()),
            request.content_type is None,
            request.body is None,
    {
        HttpRequest {
            method: HttpMethod::Get,
            url: self.get_health_url(),
            content_type: None,
            body: None,
        }
    }

    /// Whether the key exists, from the reply to the request for it.
    pub fn key_exists(&self, reply: &HttpReply) -> (r: Result<bool, DatastoreError>)
        ensures
            r == exists_answer(*reply),
    {
        match reply {
            HttpReply::Unreachable => Err(DatastoreError::NoResponse),
            HttpReply::Response { status, body } => {
                if status_is_success(*status) {
                    Ok(true)
                } else if *status == NOT_FOUND_STATUS {
                    Ok(false)
                } else {
                    Err(DatastoreError::UnexpectedStatus(*status))
                }
            },
        }
    }

    /// The key's value, from the reply to the request for it.
    pub fn get(&self, reply: HttpReply) -> (r: Result<String, DatastoreError>)
        ensures
            r == get_answer(reply),
    {
        match reply {
            HttpReply::Unreachable => Err(DatastoreError::NoResponse),
            HttpReply::Response { status, body } => {
                if !status_is_success(status) {
                    Err(DatastoreError::UnexpectedStatus(status))
                } else {
                    match body {
                        Some(value) => Ok(value),
                        None => Err(DatastoreError::UnreadableBody),
                    }
                }
            },
        }
    }

    /// Whether the value was stored, from the reply to the request to store
    /// it.
    pub fn upsert(&self, reply: &HttpReply) -> (r: Result<(), DatastoreError>)
        ensures
            r == upsert_answer(*reply),
    {
        match reply {
            HttpReply::Unreachable => Err(DatastoreError::NoResponse),
            HttpReply::Response { status, body } => {
                if status_is_success(*status) {
                    Ok(())
                } else {
                    Err(DatastoreError::UnexpectedStatus(*status))
                }
            },
        }
    }

    /// Whether the store is available, from the reply to its health check.
    /// A check that got no response, a status that is no success or a body
    /// that could not be read counts as not available.
    pub fn is_available(&self, reply: &HttpReply) -> (b: bool)
        ensures
            b == health_answer(*reply),
    {
        match reply {
            HttpReply::Response { status, body: Some(text) } => status_is_success(*status)
                && same_text(text.as_str(), "healthy"),
            _ => false,
        }
    }
}

} // verus!

//! The client: whether there is a server to talk to, how failures are told
//! apart, and where a task lives on the server.

use crate::clock::{address_path, parse_address};
use crate::text::{
    append_chars, chars_of, contains_text, ends_with, ends_with_text, str_contains, text_of,
};
use vstd::prelude::*;

verus! {

/// The engine's side of a connection. An offline client has no server; an
/// online one knows the path of the server's address.
#[derive(Debug)]
pub struct RustyClient {
    pub base_path: Option<String>,
}

impl DeepView for RustyClient {
    type V = Option<Seq<char>>;

    open spec fn deep_view(&self) -> Option<Seq<char>> {
        self.base_path.deep_view()
    }
}

impl View for RustyClient {
    type V = Option<Seq<char>>;

    open spec fn view(&self) -> Option<Seq<char>> {
        self.deep_view()
    }
}

impl Clone for RustyClient {
    fn clone(&self) -> (r: Self)
        ensures
            r@ == self@,
    {
        RustyClient { base_path: crate::model::clone_opt_text(&self.base_path) }
    }
}

/// The text of the failure of an operation that needs a server when there is
/// none.
pub open spec fn offline() -> Seq<char> {
    "Offline"@
}

/// The client for an address. An empty address gives an offline client. An
/// address that cannot be read gives the reader's complaint. A client that
/// is to check certificates needs at least one trusted root.
pub open spec fn client_for(url: Seq<char>, insecure: bool, trusted_roots: usize) -> Result<
    Option<Seq<char>>,
    Seq<char>,
> {
    if url.len() == 0 {
        Ok(None)
    } else {
        match address_path(url) {
            Err(e) => Err(e),
            Ok(path) => if !insecure && trusted_roots == 0 {
                Err("No valid system certificates found."@)
            } else {
                Ok(Some(path))
            },
        }
    }
}

/// The failure says that the server's version of a resource is not the
/// expected one.
pub open spec fn is_precondition_failure(e: Seq<char>) -> bool {
    contains_text(e, "412"@) || contains_text(e, "PreconditionFailed"@)
}

/// The failure says that the resource does not exist.
pub open spec fn is_not_found(e: Seq<char>) -> bool {
    contains_text(e, "404"@)
}

/// The failure says that the server's certificate was not accepted.
pub open spec fn is_certificate_failure(e: Seq<char>) -> bool {
    contains_text(e, "InvalidCertificate"@)
}

/// Whether a failure says that the server's version is not the expected one.
pub fn precondition_failed(e: &str) -> (r: bool)
    ensures
        r == is_precondition_failure(e@),
{
    str_contains(e, "412") || str_contains(e, "PreconditionFailed")
}

/// Whether a failure says that the resource does not exist.
pub fn not_found(e: &str) -> (r: bool)
    ensures
        r == is_not_found(e@),
{
    str_contains(e, "404")
}

/// Whether a failure says that the server's certificate was not accepted.
pub fn certificate_failed(e: &str) -> (r: bool)
    ensures
        r == is_certificate_failure(e@),
{
    str_contains(e, "InvalidCertificate")
}

/// Where the task known as `uid` lives in a calendar: below the calendar,
/// under its identifier with the ending of a task document.
pub open spec fn resource_href(calendar_href: Seq<char>, uid: Seq<char>) -> Seq<char> {
    if ends_with_text(calendar_href, "/"@) {
        calendar_href + uid + ".ics"@
    } else {
        calendar_href + "/"@ + uid + ".ics"@
    }
}

/// The locator of the task known as `uid` in a calendar.
pub fn task_href(calendar_href: &str, uid: &str) -> (r: String)
    ensures
        r@ == resource_href(calendar_href@, uid@),
{
    let mut out = chars_of(calendar_href);
    if !ends_with(&out, &chars_of("/")) {
        append_chars(&mut out, &chars_of("/"));
    }
    append_chars(&mut out, &chars_of(uid));
    append_chars(&mut out, &chars_of(".ics"));
    text_of(&out)
}

/// Whether a resource is a task document, going by the ending of its
/// locator.
pub open spec fn is_task_document(href: Seq<char>) -> bool {
    ends_with_text(href, ".ics"@)
}

/// Whether a resource is a task document.
pub fn task_document(href: &str) -> (r: bool)
    ensures
        r == is_task_document(href@),
{
    crate::text::str_ends_with(href, ".ics")
}

impl RustyClient {
    /// The client for a server address. `trusted_roots` is the number of
    /// root certificates that the system offers; it matters only where
    /// certificates are checked.
    pub fn new(url: &str, user: &str, pass: &str, insecure: bool, trusted_roots: usize) -> (r:
        Result<RustyClient, String>)
        ensures
            match r {
                Ok(c) => client_for(url@, insecure, trusted_roots) == Ok::<
                    Option<Seq<char>>,
                    Seq<char>,
                >(c@),
                Err(e) => client_for(url@, insecure, trusted_roots) == Err::<
                    Option<Seq<char>>,
                    Seq<char>,
                >(e@),
            },
    {
        if url.is_empty() {
            return Ok(RustyClient { base_path: None });
        }
        match parse_address(url) {
            Err(e) => Err(e),
            Ok(path) => {
                if !insecure && trusted_roots == 0 {
                    Err("No valid system certificates found.".to_owned())
                } else {
                    Ok(RustyClient { base_path: Some(path) })
                }
            },
        }
    }

    /// Whether the client has a server.
    pub fn is_online(&self) -> (r: bool)
        ensures
            r == (self@ is Some),
    {
        self.base_path.is_some()
    }
}

} // verus!

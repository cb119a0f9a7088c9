//! What a request to the server is made of: the address of a resource and
//! the value of the authorization header.

use vstd::prelude::*;
use vstd::string::*;
use vstd::utf8::encode_utf8;
use crate::collector::FetchFailure;

verus! {

/// The resources of the server's control interface that the dashboard reads.
#[derive(Clone, Copy, Debug, PartialEq, Eq, Structural)]
pub enum Resource {
    QueryLog,
    Stats,
    Status,
    FilteringStatus,
}

impl Resource {
    /// The path of the resource below the server's address.
    pub open spec fn path_of(self) -> Seq<char> {
        match self {
            Resource::QueryLog => "/control/querylog"@,
            Resource::Stats => "/control/stats"@,
            Resource::Status => "/control/status"@,
            Resource::FilteringStatus => "/control/filtering/status"@,
        }
    }

    /// Gives the path of the resource.
    pub fn path(self) -> (path: &'static str)
        ensures
            path@ == self.path_of(),
    {
        match self {
            Resource::QueryLog => "/control/querylog",
            Resource::Stats => "/control/stats",
            Resource::Status => "/control/status",
            Resource::FilteringStatus => "/control/filtering/status",
        }
    }
}

/// The address of the server: protocol, host and port.
pub fn server_address(protocol: &str, host: &str, port: &str) -> (address: String)
    ensures
        address@ == protocol@ + "://"@ + host@ + ":"@ + port@,
{
    let mut address = String::from_str(protocol);
    address.append("://");
    address.append(host);
    address.append(":");
    address.append(port);
    address
}

/// The address of a resource of the server at `endpoint`.
pub fn resource_url(endpoint: &str, resource: Resource) -> (url: String)
    ensures
        url@ == endpoint@ + resource.path_of(),
{
    String::from_str(endpoint).concat(resource.path())
}

/// The base64 text of a sequence of bytes, in the standard alphabet and
/// padded.
pub uninterp spec fn base64_text(bytes: Seq<u8>) -> Seq<char>;

/// Calls `base64::encode` on the bytes of `input`. The contract gives the
/// text that comes back a name; it says nothing of what the text holds.
#[verifier::external_body]
fn base64_encode(input: &str) -> (encoded: String)
    ensures
        encoded@ == base64_text(input.spec_bytes()),
{
    base64::encode(input)
}

/// The credentials as the authorization header carries them: user name and
/// password with a colon between them.
pub open spec fn credentials_of(username: Seq<char>, password: Seq<char>) -> Seq<char> {
    username + ":"@ + password
}

/// The header value that is made of the base64 text `encoded`.
pub open spec fn basic_value_of(encoded: Seq<char>) -> Seq<char> {
    "Basic "@ + encoded
}

/// Puts the scheme before the encoded credentials.
pub fn basic_value(encoded: &str) -> (value: String)
    ensures
        value@ == basic_value_of(encoded@),
{
    String::from_str("Basic ").concat(encoded)
}

/// The value of the authorization header for `username` and `password`.
pub fn basic_auth_value(username: &str, password: &str) -> (value: String)
    ensures
        value@ == basic_value_of(
            base64_text(encode_utf8(credentials_of(username@, password@))),
        ),
{
    let mut credentials = String::from_str(username);
    credentials.append(":");
    credentials.append(password);
    let encoded = base64_encode(credentials.as_str());
    basic_value(encoded.as_str())
}

/// What came of a request, as far as the dashboard tells outcomes apart.
#[derive(Clone, Copy, Debug, PartialEq, Eq, Structural)]
pub enum Response {
    /// No response came.
    Unanswered,
    /// A response came with the given status code; `readable` says whether
    /// its payload could be read as what was asked for.
    Answered { status: u16, readable: bool },
}

/// Whether a status code reports success.
pub open spec fn is_success(status: u16) -> bool {
    200 <= status <= 299
}

/// How a request failed, if it did: no response is a failure of transport; a
/// status code that reports no success, or a payload that cannot be read, is
/// a failure of protocol.
pub open spec fn failure_of(response: Response) -> Option<FetchFailure> {
    match response {
        Response::Unanswered => Some(FetchFailure::Transport),
        Response::Answered { status, readable } => if is_success(status) && readable {
            None
        } else {
            Some(FetchFailure::Protocol)
        },
    }
}

/// Tells how a request failed, if it did.
pub fn response_failure(response: Response) -> (failure: Option<FetchFailure>)
    ensures
        failure == failure_of(response),
{
    match response {
        Response::Unanswered => Some(FetchFailure::Transport),
        Response::Answered { status, readable } => if 200 <= status && status <= 299 && readable {
            None
        } else {
            Some(FetchFailure::Protocol)
        },
    }
}

} // verus!

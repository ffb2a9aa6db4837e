//! Requests to the repository host's REST API for managing webhooks, and the
//! reading of its answers.
use vstd::prelude::*;
use crate::text::{decimal, decimal_string};

verus! {

/// The port on which webhook deliveries are received.
pub const PORT: u16 = 8080;

/// Why the REST API refused a webhook request.
#[derive(Clone, Debug, PartialEq, Eq)]
pub enum HookError {
    /// Any other answer; the text is its status.
    Server(String),
    /// Validation failed, or the endpoint has been spammed.
    ValidationError,
}

impl HookError {
    pub open spec fn spec_message(self) -> Seq<char> {
        match self {
            HookError::Server(s) => "Server error: "@ + s@,
            HookError::ValidationError => "Validation failed, or the endpoint has been spammed."@,
        }
    }

    /// A one-line description of the error.
    pub fn message(&self) -> (r: String)
        ensures
            r@ == self.spec_message(),
    {
        match self {
            HookError::Server(s) => {
                let mut m = String::from_str("Server error: ");
                m.append(s.as_str());
                m
            },
            HookError::ValidationError => String::from_str(
                "Validation failed, or the endpoint has been spammed.",
            ),
        }
    }
}

/// The API address of a repository.
pub open spec fn spec_repository_url(owner: Seq<char>, repo: Seq<char>) -> Seq<char> {
    "https://api.github.com/repos/"@ + owner + "/"@ + repo
}

/// The API address of a repository.
pub fn repository_url(owner: &str, repo: &str) -> (r: String)
    ensures
        r@ == spec_repository_url(owner@, repo@),
{
    let mut u = String::from_str("https://api.github.com/repos/");
    u.append(owner);
    u.append("/");
    u.append(repo);
    u
}

/// The API address of a repository's webhooks.
pub fn hooks_url(owner: &str, repo: &str) -> (r: String)
    ensures
        r@ == spec_repository_url(owner@, repo@) + "/hooks"@,
{
    let mut u = repository_url(owner, repo);
    u.append("/hooks");
    u
}

/// The API address of one webhook of a repository.
pub fn hook_url(owner: &str, repo: &str, hook: usize) -> (r: String)
    ensures
        r@ == spec_repository_url(owner@, repo@) + "/hooks/"@ + decimal(hook as nat),
{
    let mut u = repository_url(owner, repo);
    u.append("/hooks/");
    let id = decimal_string(hook);
    u.append(id.as_str());
    u
}

/// The value of the `Authorization` header for an API key.
pub fn authorization(key: &str) -> (r: String)
    ensures
        r@ == "Bearer "@ + key@,
{
    let mut a = String::from_str("Bearer ");
    a.append(key);
    a
}

/// The address to which the host delivers webhooks for this receiver.
pub open spec fn spec_callback_url(ip: Seq<char>) -> Seq<char> {
    "http://"@ + ip + ":"@ + decimal(PORT as nat) + "/receive"@
}

/// The body of the request that creates a webhook delivering issue and
/// pull-request events to the receiver at `ip`.
pub open spec fn spec_hook_request_body(ip: Seq<char>) -> Seq<char> {
    "{\"name\":\"web\",\"active\":true,\"events\":[\"issues\",\"pull_request\"],\"config\":{\"url\":\""@
        + spec_callback_url(ip) + "\",\"content_type\":\"json\",\"insecure_ssl\":\"0\"}}"@
}

/// The body of the request that creates a webhook delivering issue and
/// pull-request events to the receiver at `ip`.
pub fn hook_request_body(ip: &str) -> (r: String)
    ensures
        r@ == spec_hook_request_body(ip@),
{
    let mut b = String::from_str(
        "{\"name\":\"web\",\"active\":true,\"events\":[\"issues\",\"pull_request\"],\"config\":{\"url\":\"",
    );
    b.append("http://");
    b.append(ip);
    b.append(":");
    let port = decimal_string(PORT as usize);
    b.append(port.as_str());
    b.append("/receive");
    b.append("\",\"content_type\":\"json\",\"insecure_ssl\":\"0\"}}");
    proof {
        assert(b@ =~= spec_hook_request_body(ip@));
    }
    b
}

/// Reads the status of the answer to a webhook creation: 201 is success, 422
/// a validation failure, anything else a server error that carries
/// `status_text`, the status as the answer gave it.
pub fn check_hook_created(status: u16, status_text: String) -> (r: Result<(), HookError>)
    ensures
        status == 201 ==> r == Ok::<(), HookError>(()),
        status == 422 ==> r == Err::<(), HookError>(HookError::ValidationError),
        status != 201 && status != 422 ==> r == Err::<(), HookError>(
            HookError::Server(status_text),
        ),
{
    if status == 201 {
        Ok(())
    } else if status == 422 {
        Err(HookError::ValidationError)
    } else {
        Err(HookError::Server(status_text))
    }
}

/// Reads the status of the answer to a webhook removal: 204 is success,
/// anything else a server error that carries `status_text`.
pub fn check_hook_removed(status: u16, status_text: String) -> (r: Result<(), HookError>)
    ensures
        status == 204 ==> r == Ok::<(), HookError>(()),
        status != 204 ==> r == Err::<(), HookError>(HookError::Server(status_text)),
{
    if status == 204 {
        Ok(())
    } else {
        Err(HookError::Server(status_text))
    }
}

} // verus!

use vstd::prelude::*;
use crate::models::Repo;

verus! {

/// The root of the repository-browsing API.
pub const API_ROOT: &'static str = "https://api.github.com";

/// Why a directory listing could not be had.
#[derive(Debug)]
pub enum FetchError {
    /// The request failed on the network.
    Transport(String),
    /// The server answered with a status outside the success range; a transport error too.
    Status(u16),
    /// The body is not a list of entries.
    Decode(String),
}

impl FetchError {
    /// Whether the failure belongs to the transport, not to the body's content.
    pub fn is_transport(&self) -> (r: bool)
        ensures
            r == !(*self is Decode),
    {
        match self {
            FetchError::Decode(_) => false,
            _ => true,
        }
    }
}

/// The listing location of a repository directory:
/// `{root}/repos/{owner}/{name}/contents/{path}`.
pub open spec fn listing_url_spec(root: Seq<char>, repo: Repo) -> Seq<char> {
    root + "/repos/"@ + repo.owner@ + "/"@ + repo.name@ + "/contents/"@ + repo.path@
}

/// Builds the listing location of `repo` under the API root `root`.
pub fn listing_url(root: &str, repo: &Repo) -> (r: String)
    ensures
        r@ == listing_url_spec(root@, *repo),
{
    let mut r = String::from_str(root);
    r.append("/repos/");
    r.append(repo.owner.as_str());
    r.append("/");
    r.append(repo.name.as_str());
    r.append("/contents/");
    r.append(repo.path.as_str());
    r
}

/// A status in the success range.
pub open spec fn is_success(status: u16) -> bool {
    200 <= status <= 299
}

/// Accepts a response status of the listing request: a success status goes on to
/// decoding, any other is a transport error that carries it.
pub fn check_status(status: u16) -> (r: Result<(), FetchError>)
    ensures
        r is Ok <==> is_success(status),
        !is_success(status) ==> r == Err::<(), FetchError>(FetchError::Status(status)),
{
    if 200 <= status && status <= 299 {
        Ok(())
    } else {
        Err(FetchError::Status(status))
    }
}

} // verus!

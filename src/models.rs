use vstd::prelude::*;

verus! {

/// The related locations of one listing entry.
#[derive(Debug)]
pub struct Link {
    pub git: Option<String>,
    pub html: Option<String>,
    pub self_: String,
}

/// One item (file or directory) of a remote directory listing.
#[derive(Debug)]
pub struct Entry {
    pub type_: String,
    pub size: i32,
    pub name: String,
    pub path: String,
    pub sha: String,
    pub url: String,
    pub git_url: Option<String>,
    pub html_url: Option<String>,
    pub download_url: Option<String>,
    pub links: Link,
}

/// One remote directory to scan: `path` inside repository `owner/name`.
#[derive(Debug)]
pub struct Repo {
    pub owner: String,
    pub name: String,
    pub path: String,
    pub tag: String,
}

/// The address of a downstream service.
#[derive(Debug)]
pub struct Host {
    pub host: String,
    pub port: String,
    pub path: Option<String>,
}

/// The configuration of a run: the directories to scan and two downstream services.
#[derive(Debug)]
pub struct Config {
    pub repos: Vec<Repo>,
    pub qdrant: Host,
    pub open_ai: Host,
}

} // verus!

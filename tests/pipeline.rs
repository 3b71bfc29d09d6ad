use docfetch::batch::{Batch, UnitError, UnitState};
use docfetch::listing::{check_status, listing_url, FetchError, API_ROOT};
use docfetch::models::{Entry, Link, Repo};
use docfetch::progress::{ProgressState, FINISHED_LABEL};
use docfetch::run::{Action, Event, Phase, Run};
use docfetch::selection::{select_targets, MARKDOWN_SUFFIX};
use docfetch::text::{ends_with, join_path};

fn entry(name: &str, download_url: Option<&str>) -> Entry {
    Entry {
        type_: "file".to_string(),
        size: 10,
        name: name.to_string(),
        path: format!("docs/{}", name),
        sha: "abc123".to_string(),
        url: format!("https://api.example/contents/docs/{}", name),
        git_url: None,
        html_url: None,
        download_url: download_url.map(|u| u.to_string()),
        links: Link { git: None, html: None, self_: format!("https://api.example/contents/docs/{}", name) },
    }
}

fn repo(owner: &str, name: &str, path: &str) -> Repo {
    Repo { owner: owner.to_string(), name: name.to_string(), path: path.to_string(), tag: "v1".to_string() }
}

/// Runs every unit of a batch to completion, failing the units listed in `failing`,
/// and returns the files that were written as (path, contents).
fn drive(batch: &mut Batch, failing: &[usize]) -> Vec<(String, String)> {
    let mut written = Vec::new();
    for i in 0..batch.len() {
        let url = batch.begin(i).expect("unit is pending");
        if failing.contains(&i) {
            assert!(batch.on_failed(i, UnitError::Transport(format!("network error for {}", url))));
            continue;
        }
        let body = format!("content of {}", url);
        let w = batch.on_fetched(i, body.clone()).expect("unit is in flight");
        assert_eq!(w.contents, body);
        assert!(batch.on_written(i));
        written.push((w.path, w.contents));
    }
    written
}

#[test]
fn suffix_matching() {
    assert!(ends_with("guide.markdown", ".markdown"));
    assert!(ends_with(".markdown", ".markdown"));
    assert!(!ends_with("notes.txt", ".markdown"));
    assert!(!ends_with("markdown", ".markdown"));
    assert!(!ends_with("guide.markdown.bak", ".markdown"));
    assert!(ends_with("anything", ""));
    assert!(ends_with("résumé.markdown", ".markdown"));
}

#[test]
fn path_joining() {
    assert_eq!(join_path("markdown", "guide.markdown"), "markdown/guide.markdown");
    assert_eq!(join_path("", "a"), "/a");
}

#[test]
fn listing_location() {
    let r = repo("octo", "docs-repo", "website/docs");
    assert_eq!(listing_url(API_ROOT, &r), "https://api.github.com/repos/octo/docs-repo/contents/website/docs");
}

#[test]
fn status_check() {
    assert!(check_status(200).is_ok());
    assert!(check_status(299).is_ok());
    assert!(matches!(check_status(404), Err(FetchError::Status(404))));
    assert!(matches!(check_status(500), Err(FetchError::Status(500))));
    assert!(matches!(check_status(199), Err(FetchError::Status(199))));
    assert!(FetchError::Status(404).is_transport());
    assert!(FetchError::Transport("reset".to_string()).is_transport());
    assert!(!FetchError::Decode("not a list".to_string()).is_transport());
}

#[test]
fn selection_keeps_matching_entries_with_location() {
    let entries = vec![
        entry("guide.markdown", Some("https://raw.example/guide.markdown")),
        entry("notes.txt", Some("https://raw.example/notes.txt")),
        entry("draft.markdown", None),
        entry("sub", None),
        entry("api.markdown", Some("https://raw.example/api.markdown")),
    ];
    let targets = select_targets(&entries, MARKDOWN_SUFFIX);
    assert_eq!(targets.len(), 2);
    assert_eq!(targets[0].name, "guide.markdown");
    assert_eq!(targets[0].url, "https://raw.example/guide.markdown");
    assert_eq!(targets[1].name, "api.markdown");
    assert_eq!(targets[1].url, "https://raw.example/api.markdown");
}

#[test]
fn empty_listing() {
    let entries: Vec<Entry> = Vec::new();
    let mut batch = Batch::new(&entries, "markdown".to_string(), MARKDOWN_SUFFIX);
    assert_eq!(batch.len(), 0);
    assert!(batch.is_settled());
    assert!(batch.finish().is_ok());
    assert_eq!(batch.progress().completed(), 0);
    assert_eq!(batch.progress().total(), 0);
}

#[test]
fn success_writes_every_target_verbatim() {
    let entries = vec![
        entry("guide.markdown", Some("https://raw.example/guide.markdown")),
        entry("api.markdown", Some("https://raw.example/api.markdown")),
    ];
    let mut batch = Batch::new(&entries, "markdown".to_string(), MARKDOWN_SUFFIX);
    let written = drive(&mut batch, &[]);
    assert_eq!(
        written,
        vec![
            ("markdown/guide.markdown".to_string(), "content of https://raw.example/guide.markdown".to_string()),
            ("markdown/api.markdown".to_string(), "content of https://raw.example/api.markdown".to_string()),
        ]
    );
    assert!(batch.is_settled());
    assert!(batch.finish().is_ok());
    assert_eq!(batch.progress().last_label(), FINISHED_LABEL);
}

#[test]
fn entries_without_location_write_nothing() {
    let entries = vec![entry("draft.markdown", None), entry("guide.markdown", Some("https://raw.example/g"))];
    let mut batch = Batch::new(&entries, "out".to_string(), MARKDOWN_SUFFIX);
    assert_eq!(batch.len(), 1);
    assert_eq!(batch.target(0).name, "guide.markdown");
    assert_eq!(batch.target(0).url, "https://raw.example/g");
    let written = drive(&mut batch, &[]);
    assert_eq!(written.len(), 1);
    assert_eq!(written[0].0, "out/guide.markdown");
    assert!(batch.finish().is_ok());
}

#[test]
fn unmatched_names_write_nothing() {
    let entries = vec![entry("notes.txt", Some("https://raw.example/n")), entry("guide.markdown", Some("https://raw.example/g"))];
    let mut batch = Batch::new(&entries, "out".to_string(), MARKDOWN_SUFFIX);
    let written = drive(&mut batch, &[]);
    let paths: Vec<&str> = written.iter().map(|w| w.0.as_str()).collect();
    assert_eq!(paths, vec!["out/guide.markdown"]);
    assert!(batch.finish().is_ok());
}

#[test]
fn progress_counts_written_units() {
    let entries = vec![
        entry("a.markdown", Some("https://raw.example/a")),
        entry("b.txt", Some("https://raw.example/b")),
        entry("c.markdown", Some("https://raw.example/c")),
        entry("d.markdown", None),
    ];
    let mut batch = Batch::new(&entries, "out".to_string(), MARKDOWN_SUFFIX);
    assert_eq!(batch.progress().total(), 4);
    assert_eq!(batch.progress().completed(), 0);
    assert_eq!(batch.begin(0), Some("https://raw.example/a".to_string()));
    assert!(batch.on_fetched(0, "A".to_string()).is_some());
    assert_eq!(batch.progress().completed(), 0);
    assert!(batch.on_written(0));
    assert_eq!(batch.progress().completed(), 1);
    assert_eq!(batch.progress().last_label(), "a.markdown");
    assert!(batch.begin(1).is_some());
    assert!(batch.on_fetched(1, "C".to_string()).is_some());
    assert!(batch.on_written(1));
    assert_eq!(batch.progress().completed(), 2);
    assert_eq!(batch.progress().last_label(), "c.markdown");
    assert!(batch.progress().completed() <= batch.progress().total());
    assert!(batch.finish().is_ok());
    assert_eq!(batch.progress().completed(), 2);
}

#[test]
fn out_of_order_events_change_nothing() {
    let entries = vec![entry("a.markdown", Some("https://raw.example/a"))];
    let mut batch = Batch::new(&entries, "out".to_string(), MARKDOWN_SUFFIX);
    assert!(batch.on_fetched(0, "x".to_string()).is_none());
    assert!(!batch.on_written(0));
    assert!(!batch.on_failed(0, UnitError::Filesystem("denied".to_string())));
    assert!(matches!(batch.state(0), UnitState::Pending));
    assert!(batch.begin(0).is_some());
    assert!(batch.begin(0).is_none());
    assert!(!batch.on_written(0));
    assert!(!batch.is_settled());
    assert_eq!(batch.progress().completed(), 0);
}

#[test]
fn one_failure_keeps_sibling_files() {
    let entries = vec![
        entry("one.markdown", Some("https://raw.example/1")),
        entry("two.markdown", Some("https://raw.example/2")),
        entry("three.markdown", Some("https://raw.example/3")),
    ];
    let mut batch = Batch::new(&entries, "out".to_string(), MARKDOWN_SUFFIX);
    let written = drive(&mut batch, &[1]);
    assert_eq!(written.len(), 2);
    assert_eq!(written[0].0, "out/one.markdown");
    assert_eq!(written[1].0, "out/three.markdown");
    assert!(batch.is_settled());
    match batch.finish() {
        Err(UnitError::Transport(m)) => assert_eq!(m, "network error for https://raw.example/2"),
        other => panic!("expected a transport failure, got {:?}", other),
    }
    assert!(matches!(batch.state(0), UnitState::Written));
    assert!(matches!(batch.state(1), UnitState::Failed(_)));
    assert!(matches!(batch.state(2), UnitState::Written));
    assert_eq!(batch.progress().completed(), 2);
    assert_ne!(batch.progress().last_label(), FINISHED_LABEL);
}

#[test]
fn write_failure_fails_the_batch() {
    let entries = vec![entry("a.markdown", Some("https://raw.example/a")), entry("b.markdown", Some("https://raw.example/b"))];
    let mut batch = Batch::new(&entries, "out".to_string(), MARKDOWN_SUFFIX);
    assert!(batch.begin(0).is_some());
    assert!(batch.begin(1).is_some());
    assert!(batch.on_fetched(1, "B".to_string()).is_some());
    assert!(batch.on_failed(1, UnitError::Filesystem("disk full".to_string())));
    assert!(batch.on_failed(0, UnitError::Transport("timeout".to_string())));
    match batch.finish() {
        Err(UnitError::Transport(m)) => assert_eq!(m, "timeout"),
        other => panic!("expected the first unit's failure, got {:?}", other),
    }
}

#[test]
fn listing_of_n_entries_gives_m_files() {
    let entries = vec![
        entry("a.markdown", Some("https://raw.example/a")),
        entry("b.markdown", Some("https://raw.example/b")),
        entry("c.txt", Some("https://raw.example/c")),
        entry("d.markdown", None),
        entry("e.markdown", Some("https://raw.example/e")),
        entry("images", None),
    ];
    let mut batch = Batch::new(&entries, "out".to_string(), MARKDOWN_SUFFIX);
    let written = drive(&mut batch, &[]);
    assert!(batch.finish().is_ok());
    let mut paths: Vec<String> = written.into_iter().map(|w| w.0).collect();
    paths.sort();
    paths.dedup();
    assert_eq!(paths.len(), 3);
    assert_eq!(batch.progress().completed(), 3);
}

#[test]
fn failed_listing_skips_download() {
    let repos = vec![repo("o", "first", "docs"), repo("o", "second", "docs")];
    let (mut run, a) = Run::start(API_ROOT.to_string(), repos);
    match a {
        Action::Fetch(u) => assert_eq!(u, "https://api.github.com/repos/o/first/contents/docs"),
        other => panic!("expected a fetch, got {:?}", other),
    }
    let next = run.step(Event::Listed(Err(FetchError::Status(404))));
    match next {
        Some(Action::Fetch(u)) => assert_eq!(u, "https://api.github.com/repos/o/second/contents/docs"),
        other => panic!("expected the next fetch, got {:?}", other),
    }
    assert_eq!(run.current(), 1);
    assert_eq!(*run.phase(), Phase::Listing);
    let next = run.step(Event::Listed(Ok(vec![entry("a.markdown", Some("https://raw.example/a"))])));
    match next {
        Some(Action::Download(es)) => assert_eq!(es.len(), 1),
        other => panic!("expected a download, got {:?}", other),
    }
    assert!(run.step(Event::Listed(Err(FetchError::Decode("x".to_string())))).is_none());
    assert!(matches!(run.step(Event::Downloaded), Some(Action::Finish)));
    assert_eq!(*run.phase(), Phase::Done);
    assert!(run.step(Event::Downloaded).is_none());
}

#[test]
fn run_without_repositories_finishes_at_once() {
    let (run, a) = Run::start(API_ROOT.to_string(), Vec::new());
    assert!(matches!(a, Action::Finish));
    assert_eq!(*run.phase(), Phase::Done);
}

#[test]
fn progress_state_operations() {
    let mut p = ProgressState::new(3);
    assert_eq!(p.total(), 3);
    assert_eq!(p.completed(), 0);
    assert_eq!(p.last_label(), "");
    p.increment();
    p.set_label("x.markdown".to_string());
    assert_eq!(p.completed(), 1);
    assert_eq!(p.last_label(), "x.markdown");
    p.finish();
    assert_eq!(p.completed(), 1);
    assert_eq!(p.last_label(), "Download complete");
}

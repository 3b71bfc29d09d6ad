//! Discovery and batch download of documentation files from a remote
//! repository-browsing API: the listing is interpreted, matching files are
//! selected, and the per-file download units are driven by a verified state
//! machine that tracks progress and the files it has written.
pub mod batch;
pub mod laws;
pub mod listing;
pub mod models;
pub mod progress;
pub mod run;
pub mod selection;
pub mod text;

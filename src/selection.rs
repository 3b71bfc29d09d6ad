use vstd::prelude::*;
use crate::models::Entry;
use crate::text::{ends_with, has_suffix};

verus! {

/// The suffix of the file names that are downloaded.
pub const MARKDOWN_SUFFIX: &'static str = ".markdown";

/// An entry chosen for download: its file name and where its content is fetched from.
#[derive(Debug)]
pub struct DownloadTarget {
    pub name: String,
    pub url: String,
}

impl View for DownloadTarget {
    type V = (Seq<char>, Seq<char>);

    open spec fn view(&self) -> (Seq<char>, Seq<char>) {
        (self.name@, self.url@)
    }
}

/// An entry is downloaded when its name ends with `suffix` and it has a download location.
pub open spec fn is_target(e: Entry, suffix: Seq<char>) -> bool {
    has_suffix(e.name@, suffix) && e.download_url.is_some()
}

/// The name and download location of an entry that has one.
pub open spec fn target_of(e: Entry) -> (Seq<char>, Seq<char>) {
    (e.name@, e.download_url.unwrap()@)
}

/// The targets of a listing, in listing order.
pub open spec fn targets_of(es: Seq<Entry>, suffix: Seq<char>) -> Seq<(Seq<char>, Seq<char>)>
    decreases es.len(),
{
    if es.len() == 0 {
        seq![]
    } else {
        let rest = targets_of(es.drop_last(), suffix);
        if is_target(es.last(), suffix) {
            rest.push(target_of(es.last()))
        } else {
            rest
        }
    }
}

/// The views of a vector of targets.
pub open spec fn target_views(ts: Seq<DownloadTarget>) -> Seq<(Seq<char>, Seq<char>)> {
    ts.map_values(|t: DownloadTarget| t@)
}

/// Picks, in listing order, the entries whose name ends with `suffix` and that have a
/// download location; the others are passed over without error.
pub fn select_targets(entries: &Vec<Entry>, suffix: &str) -> (r: Vec<DownloadTarget>)
    ensures
        target_views(r@) == targets_of(entries@, suffix@),
{
    let mut out: Vec<DownloadTarget> = Vec::new();
    let mut i: usize = 0;
    while i < entries.len()
        invariant
            i <= entries@.len(),
            target_views(out@) == targets_of(entries@.subrange(0, i as int), suffix@),
        decreases entries@.len() - i,
    {
        let e = &entries[i];
        proof {
            assert(entries@.subrange(0, i + 1).drop_last() =~= entries@.subrange(0, i as int));
            assert(entries@.subrange(0, i + 1).last() == *e);
        }
        if ends_with(e.name.as_str(), suffix) {
            match &e.download_url {
                Some(u) => {
                    let t = DownloadTarget { name: e.name.clone(), url: u.clone() };
                    out.push(t);
                    assert(target_views(out@) =~= targets_of(entries@.subrange(0, i + 1), suffix@));
                },
                None => {},
            }
        }
        i = i + 1;
    }
    assert(entries@.subrange(0, entries@.len() as int) =~= entries@);
    out
}

/// Every target of a listing comes from an entry of it that is a target, so an entry
/// whose name lacks the suffix, or that has no download location, yields none.
pub proof fn lemma_targets_come_from_entries(es: Seq<Entry>, suffix: Seq<char>, k: int)
    requires
        0 <= k < targets_of(es, suffix).len(),
    ensures
        exists|i: int| 0 <= i < es.len() && is_target(#[trigger] es[i], suffix)
            && target_of(es[i]) == targets_of(es, suffix)[k],
    decreases es.len(),
{
    let rest = targets_of(es.drop_last(), suffix);
    if k < rest.len() {
        lemma_targets_come_from_entries(es.drop_last(), suffix, k);
        let i = choose|i: int| 0 <= i < es.drop_last().len() && is_target(#[trigger] es.drop_last()[i], suffix)
            && target_of(es.drop_last()[i]) == rest[k];
        assert(es[i] == es.drop_last()[i]);
    } else {
        assert(es[es.len() - 1] == es.last());
    }
}

/// No two entries of a listing have the same name.
pub open spec fn entry_names_distinct(es: Seq<Entry>) -> bool {
    forall|i: int, j: int|
        0 <= i < es.len() && 0 <= j < es.len() && i != j ==> #[trigger] es[i].name@ != #[trigger] es[j].name@
}

/// No two targets have the same name.
pub open spec fn names_distinct(ts: Seq<(Seq<char>, Seq<char>)>) -> bool {
    forall|i: int, j: int|
        0 <= i < ts.len() && 0 <= j < ts.len() && i != j ==> #[trigger] ts[i].0 != #[trigger] ts[j].0
}

/// Every entry that is a target appears among the targets of its listing.
pub proof fn lemma_entry_targeted(es: Seq<Entry>, suffix: Seq<char>, k: int)
    requires
        0 <= k < es.len(),
        is_target(es[k], suffix),
    ensures
        exists|i: int| 0 <= i < targets_of(es, suffix).len() && #[trigger] targets_of(es, suffix)[i] == target_of(es[k]),
    decreases es.len(),
{
    let rest = targets_of(es.drop_last(), suffix);
    if k == es.len() - 1 {
        assert(es.last() == es[k]);
        assert(targets_of(es, suffix)[rest.len() as int] == target_of(es[k]));
    } else {
        assert(es.drop_last()[k] == es[k]);
        lemma_entry_targeted(es.drop_last(), suffix, k);
        let i = choose|i: int| 0 <= i < rest.len() && #[trigger] rest[i] == target_of(es[k]);
        assert(targets_of(es, suffix)[i] == rest[i]);
    }
}

/// In a listing whose names are distinct, the targets' names are distinct.
pub proof fn lemma_targets_distinct(es: Seq<Entry>, suffix: Seq<char>)
    requires
        entry_names_distinct(es),
    ensures
        names_distinct(targets_of(es, suffix)),
    decreases es.len(),
{
    if es.len() > 0 {
        let d = es.drop_last();
        assert forall|i: int, j: int| 0 <= i < d.len() && 0 <= j < d.len() && i != j implies
            #[trigger] d[i].name@ != #[trigger] d[j].name@ by {
            assert(d[i] == es[i] && d[j] == es[j]);
        }
        lemma_targets_distinct(d, suffix);
        let rest = targets_of(d, suffix);
        if is_target(es.last(), suffix) {
            let t = targets_of(es, suffix);
            assert forall|a: int, b: int| 0 <= a < t.len() && 0 <= b < t.len() && a != b implies
                #[trigger] t[a].0 != #[trigger] t[b].0 by {
                if a == rest.len() || b == rest.len() {
                    let k = if a == rest.len() { b } else { a };
                    lemma_targets_come_from_entries(d, suffix, k);
                    let i = choose|i: int| 0 <= i < d.len() && is_target(#[trigger] d[i], suffix)
                        && target_of(d[i]) == rest[k];
                    assert(d[i] == es[i]);
                    assert(es.last() == es[es.len() - 1]);
                } else {
                    assert(t[a] == rest[a] && t[b] == rest[b]);
                }
            }
        }
    }
}

} // verus!

use vstd::prelude::*;
use crate::batch::{all_written, unit_names_distinct, unit_path, Batch, BatchView};
use crate::models::Entry;
use crate::selection::{
    entry_names_distinct, is_target, lemma_entry_targeted, lemma_targets_come_from_entries,
    lemma_targets_distinct, target_of, targets_of,
};
use crate::text::{has_suffix, lemma_path_in_injective, path_in};

verus! {

/// A file of a batch belongs to a target whose name is the file's name.
proof fn lemma_file_has_target(v: BatchView, name: Seq<char>)
    requires
        crate::batch::view_wf(v),
        v.files.contains_key(path_in(v.dir, name)),
    ensures
        exists|i: int| 0 <= i < v.targets.len() && #[trigger] v.targets[i].0 == name && v.states[i] is Written,
{
    let p = path_in(v.dir, name);
    let i = choose|i: int| 0 <= i < v.states.len() && v.states[i] is Written && p == #[trigger] unit_path(v, i);
    lemma_path_in_injective(v.dir, name, v.targets[i].0);
    assert(v.targets[i].0 == name);
}

/// After a batch over a listing with distinct names has every unit written, each
/// entry whose name ends with the suffix and that has a download location has a file
/// of its name in the directory, holding exactly the content its unit fetched.
pub proof fn lemma_success_writes_every_target(entries: Seq<Entry>, suffix: Seq<char>, b: Batch, k: int)
    requires
        b.wf(),
        b@.targets == targets_of(entries, suffix),
        entry_names_distinct(entries),
        all_written(b@),
        0 <= k < entries.len(),
        is_target(entries[k], suffix),
    ensures
        exists|i: int| 0 <= i < b@.targets.len() && #[trigger] b@.targets[i] == target_of(entries[k])
            && b@.files.contains_key(path_in(b@.dir, entries[k].name@))
            && b@.files[path_in(b@.dir, entries[k].name@)] == b@.states[i]->Written_0,
{
    lemma_entry_targeted(entries, suffix, k);
    lemma_targets_distinct(entries, suffix);
    let i = choose|i: int| 0 <= i < targets_of(entries, suffix).len() && #[trigger] targets_of(entries, suffix)[i] == target_of(entries[k]);
    assert(b@.states[i] is Written);
    assert(unit_path(b@, i) == path_in(b@.dir, entries[k].name@));
}

/// No file of a batch carries the name of an entry that does not end with the suffix.
pub proof fn lemma_unmatched_name_no_file(entries: Seq<Entry>, suffix: Seq<char>, b: Batch, k: int)
    requires
        b.wf(),
        b@.targets == targets_of(entries, suffix),
        0 <= k < entries.len(),
        !has_suffix(entries[k].name@, suffix),
    ensures
        !b@.files.contains_key(path_in(b@.dir, entries[k].name@)),
{
    if b@.files.contains_key(path_in(b@.dir, entries[k].name@)) {
        lemma_file_has_target(b@, entries[k].name@);
        let i = choose|i: int| 0 <= i < b@.targets.len() && #[trigger] b@.targets[i].0 == entries[k].name@ && b@.states[i] is Written;
        lemma_targets_come_from_entries(entries, suffix, i);
    }
}

/// In a listing with distinct names, no file of a batch carries the name of an entry
/// that has no download location.
pub proof fn lemma_no_download_location_no_file(entries: Seq<Entry>, suffix: Seq<char>, b: Batch, k: int)
    requires
        b.wf(),
        b@.targets == targets_of(entries, suffix),
        entry_names_distinct(entries),
        0 <= k < entries.len(),
        entries[k].download_url is None,
    ensures
        !b@.files.contains_key(path_in(b@.dir, entries[k].name@)),
{
    if b@.files.contains_key(path_in(b@.dir, entries[k].name@)) {
        lemma_file_has_target(b@, entries[k].name@);
        let i = choose|i: int| 0 <= i < b@.targets.len() && #[trigger] b@.targets[i].0 == entries[k].name@ && b@.states[i] is Written;
        lemma_targets_come_from_entries(entries, suffix, i);
        let j = choose|j: int| 0 <= j < entries.len() && is_target(#[trigger] entries[j], suffix)
            && target_of(entries[j]) == targets_of(entries, suffix)[i];
        assert(entries[j].name@ == entries[k].name@);
    }
}

/// Whatever the outcome of a batch with distinct names, every unit that wrote its file
/// left it in place, holding what the unit fetched: a failing unit takes no other
/// unit's file away.
pub proof fn lemma_written_files_survive_failure(b: Batch, i: int)
    requires
        b.wf(),
        unit_names_distinct(b@),
        0 <= i < b@.states.len(),
        b@.states[i] is Written,
    ensures
        b@.files.contains_key(unit_path(b@, i)),
        b@.files[unit_path(b@, i)] == b@.states[i]->Written_0,
{
}

/// A listing with distinct names of which `m` entries end with the suffix and have a
/// download location yields, once every unit is written, exactly `m` files.
pub proof fn lemma_file_count(entries: Seq<Entry>, suffix: Seq<char>, b: Batch)
    requires
        b.wf(),
        b@.targets == targets_of(entries, suffix),
        entry_names_distinct(entries),
        all_written(b@),
    ensures
        b@.files.dom().finite(),
        b@.files.dom().len() == targets_of(entries, suffix).len(),
{
    let v = b@;
    lemma_targets_distinct(entries, suffix);
    let n = v.targets.len();
    let paths = Seq::new(n, |i: int| unit_path(v, i));
    assert forall|i: int, j: int| 0 <= i < paths.len() && 0 <= j < paths.len() && i != j implies
        paths[i] != paths[j] by {
        if paths[i] == paths[j] {
            lemma_path_in_injective(v.dir, v.targets[i].0, v.targets[j].0);
        }
    }
    assert(paths.no_duplicates());
    assert forall|p: Seq<char>| v.files.dom().contains(p) <==> #[trigger] paths.to_set().contains(p) by {
        if v.files.contains_key(p) {
            let i = choose|i: int| 0 <= i < v.states.len() && v.states[i] is Written && p == #[trigger] unit_path(v, i);
            assert(paths[i] == p);
        }
        if paths.to_set().contains(p) {
            let i = choose|i: int| 0 <= i < paths.len() && paths[i] == p;
            assert(v.states[i] is Written);
        }
    }
    assert(v.files.dom() =~= paths.to_set());
    paths.unique_seq_to_set();
}

} // verus!

use vstd::prelude::*;
use crate::config::SyncLocation;
use crate::paths::{relative_spec, relative_to_root};
use crate::records::{records_view, FileRecord, FileRecordView};

verus! {

/// The action decided for one linked file.
#[derive(Clone, Copy, PartialEq, Eq, Structural, Debug)]
pub enum Verdict {
    Upload,
    Download,
    DoNothing,
    /// Not decided yet; counted as an error if it reaches execution.
    Undecided,
}

/// A relative path with its occurrence on each side and the action decided for it.
pub struct LinkedFile {
    pub relative_path: String,
    /// Directory part of the relative path, starting with a separator.
    pub relative_directory: String,
    pub local: Option<FileRecord>,
    pub remote: Option<FileRecord>,
    pub verdict: Verdict,
}

pub struct LinkedFileView {
    pub relative_path: Seq<char>,
    pub relative_directory: Seq<char>,
    pub local: Option<FileRecordView>,
    pub remote: Option<FileRecordView>,
    pub verdict: Verdict,
}

pub open spec fn record_option_view(r: Option<FileRecord>) -> Option<FileRecordView> {
    match r {
        Some(x) => Some(x@),
        None => None,
    }
}

impl View for LinkedFile {
    type V = LinkedFileView;

    open spec fn view(&self) -> LinkedFileView {
        LinkedFileView {
            relative_path: self.relative_path@,
            relative_directory: self.relative_directory@,
            local: record_option_view(self.local),
            remote: record_option_view(self.remote),
            verdict: self.verdict,
        }
    }
}

pub open spec fn linked_view(s: Seq<LinkedFile>) -> Seq<LinkedFileView> {
    s.map_values(|e: LinkedFile| e@)
}

fn duplicate_option(r: &Option<FileRecord>) -> (c: Option<FileRecord>)
    ensures
        c == *r,
{
    match r {
        Some(x) => Some(x.duplicate()),
        None => None,
    }
}

impl LinkedFile {
    /// A copy of this entry with its verdict replaced.
    pub fn with_verdict(&self, verdict: Verdict) -> (r: LinkedFile)
        ensures
            r@ == (LinkedFileView { verdict, ..self@ }),
    {
        LinkedFile {
            relative_path: self.relative_path.clone(),
            relative_directory: self.relative_directory.clone(),
            local: duplicate_option(&self.local),
            remote: duplicate_option(&self.remote),
            verdict,
        }
    }
}

/// Whether some record of `s` has relative path `p`.
pub open spec fn has_path(s: Seq<FileRecordView>, p: Seq<char>) -> bool {
    exists|i: int| 0 <= i < s.len() && s[i].relative_path == p
}

/// The entry for a file present on both sides, still undecided.
pub open spec fn both_entry(l: FileRecordView, r: FileRecordView, remote_root: Seq<char>) -> LinkedFileView {
    LinkedFileView {
        relative_path: r.relative_path,
        relative_directory: relative_spec(r.directory, remote_root),
        local: Some(l),
        remote: Some(r),
        verdict: Verdict::Undecided,
    }
}

/// The entry for a file found only on the remote side: it is downloaded.
pub open spec fn remote_only_entry(r: FileRecordView, remote_root: Seq<char>) -> LinkedFileView {
    LinkedFileView {
        relative_path: r.relative_path,
        relative_directory: relative_spec(r.directory, remote_root),
        local: None,
        remote: Some(r),
        verdict: Verdict::Download,
    }
}

/// The entry for a file found only on the local side: it is uploaded.
pub open spec fn local_only_entry(l: FileRecordView, local_root: Seq<char>) -> LinkedFileView {
    LinkedFileView {
        relative_path: l.relative_path,
        relative_directory: relative_spec(l.directory, local_root),
        local: Some(l),
        remote: None,
        verdict: Verdict::Upload,
    }
}

/// One undecided entry per local record sharing the relative path of `r`, in local order.
pub open spec fn pairs_with(r: FileRecordView, local: Seq<FileRecordView>, remote_root: Seq<char>) -> Seq<LinkedFileView>
    decreases local.len(),
{
    if local.len() == 0 {
        Seq::empty()
    } else {
        let prev = pairs_with(r, local.drop_last(), remote_root);
        if local.last().relative_path == r.relative_path {
            prev.push(both_entry(local.last(), r, remote_root))
        } else {
            prev
        }
    }
}

/// Every matching (remote, local) pair, remote order first.
pub open spec fn matched_links(remote: Seq<FileRecordView>, local: Seq<FileRecordView>, remote_root: Seq<char>) -> Seq<LinkedFileView>
    decreases remote.len(),
{
    if remote.len() == 0 {
        Seq::empty()
    } else {
        matched_links(remote.drop_last(), local, remote_root) + pairs_with(remote.last(), local, remote_root)
    }
}

/// A download entry for each remote record that no local record matches.
pub open spec fn remote_only_links(remote: Seq<FileRecordView>, local: Seq<FileRecordView>, remote_root: Seq<char>) -> Seq<LinkedFileView>
    decreases remote.len(),
{
    if remote.len() == 0 {
        Seq::empty()
    } else {
        let prev = remote_only_links(remote.drop_last(), local, remote_root);
        if has_path(local, remote.last().relative_path) {
            prev
        } else {
            prev.push(remote_only_entry(remote.last(), remote_root))
        }
    }
}

/// An upload entry for each local record that no remote record matches.
pub open spec fn local_only_links(local: Seq<FileRecordView>, remote: Seq<FileRecordView>, local_root: Seq<char>) -> Seq<LinkedFileView>
    decreases local.len(),
{
    if local.len() == 0 {
        Seq::empty()
    } else {
        let prev = local_only_links(local.drop_last(), remote, local_root);
        if has_path(remote, local.last().relative_path) {
            prev
        } else {
            prev.push(local_only_entry(local.last(), local_root))
        }
    }
}

/// What the linker produces: matched pairs, then remote-only, then local-only entries.
pub open spec fn link_spec(
    remote: Seq<FileRecordView>,
    local: Seq<FileRecordView>,
    remote_root: Seq<char>,
    local_root: Seq<char>,
) -> Seq<LinkedFileView> {
    matched_links(remote, local, remote_root) + remote_only_links(remote, local, remote_root)
        + local_only_links(local, remote, local_root)
}

/// Whether some record of `records` has relative path `path`.
pub fn contains_path(records: &Vec<FileRecord>, path: &String) -> (r: bool)
    ensures
        r == has_path(records_view(records@), path@),
{
    let mut i: usize = 0;
    while i < records.len()
        invariant
            i <= records@.len(),
            forall|k: int| 0 <= k < i ==> records@[k].relative_path@ != path@,
        decreases records@.len() - i,
    {
        if records[i].relative_path == *path {
            assert(records_view(records@)[i as int].relative_path == path@);
            return true;
        }
        i = i + 1;
    }
    assert forall|k: int| 0 <= k < records_view(records@).len()
        implies records_view(records@)[k].relative_path != path@ by {
        assert(records_view(records@)[k] == records@[k]@);
    }
    false
}

fn linked_entry(record: &FileRecord, root: &String, local: bool, verdict: Verdict) -> (r: LinkedFile)
    ensures
        r@.relative_path == record@.relative_path,
        r@.relative_directory == relative_spec(record@.directory, root@),
        r@.local == (if local { Some(record@) } else { None }),
        r@.remote == (if local { None } else { Some(record@) }),
        r@.verdict == verdict,
{
    LinkedFile {
        relative_path: record.relative_path.clone(),
        relative_directory: relative_to_root(&record.directory, root),
        local: if local { Some(record.duplicate()) } else { None },
        remote: if local { None } else { Some(record.duplicate()) },
        verdict,
    }
}

/// Joins the two trees by relative path (see `link_spec`).
pub fn link_all_files(remote: &Vec<FileRecord>, local: &Vec<FileRecord>, location: &SyncLocation) -> (r: Vec<LinkedFile>)
    ensures
        linked_view(r@) == link_spec(
            records_view(remote@),
            records_view(local@),
            location.remote_path@,
            location.local_path@,
        ),
{
    let ghost rv = records_view(remote@);
    let ghost lv = records_view(local@);
    let ghost rroot = location.remote_path@;
    let ghost lroot = location.local_path@;
    let mut out: Vec<LinkedFile> = Vec::new();
    let mut i: usize = 0;
    while i < remote.len()
        invariant
            i <= remote@.len(),
            rv == records_view(remote@),
            lv == records_view(local@),
            rroot == location.remote_path@,
            linked_view(out@) == matched_links(rv.subrange(0, i as int), lv, rroot),
        decreases remote@.len() - i,
    {
        let ghost base = linked_view(out@);
        let mut j: usize = 0;
        while j < local.len()
            invariant
                i < remote@.len(),
                j <= local@.len(),
                rv == records_view(remote@),
                lv == records_view(local@),
                rroot == location.remote_path@,
                linked_view(out@) == base + pairs_with(rv[i as int], lv.subrange(0, j as int), rroot),
            decreases local@.len() - j,
        {
            let ghost pre = lv.subrange(0, j as int + 1);
            assert(pre.drop_last() =~= lv.subrange(0, j as int));
            assert(pre.last() == local@[j as int]@);
            assert(rv[i as int] == remote@[i as int]@);
            if remote[i].relative_path == local[j].relative_path {
                let e = LinkedFile {
                    relative_path: remote[i].relative_path.clone(),
                    relative_directory: relative_to_root(&remote[i].directory, &location.remote_path),
                    local: Some(local[j].duplicate()),
                    remote: Some(remote[i].duplicate()),
                    verdict: Verdict::Undecided,
                };
                let ghost before = out@;
                let ghost ev = e@;
                out.push(e);
                assert(linked_view(out@) =~= linked_view(before).push(ev));
            }
            assert(linked_view(out@) =~= base + pairs_with(rv[i as int], pre, rroot));
            j = j + 1;
        }
        assert(lv.subrange(0, local@.len() as int) =~= lv);
        let ghost pre = rv.subrange(0, i as int + 1);
        assert(pre.drop_last() =~= rv.subrange(0, i as int));
        assert(pre.last() == rv[i as int]);
        assert(linked_view(out@) =~= matched_links(pre, lv, rroot));
        i = i + 1;
    }
    assert(rv.subrange(0, remote@.len() as int) =~= rv);
    let ghost matched = linked_view(out@);

    let mut i: usize = 0;
    while i < remote.len()
        invariant
            i <= remote@.len(),
            rv == records_view(remote@),
            lv == records_view(local@),
            rroot == location.remote_path@,
            linked_view(out@) == matched + remote_only_links(rv.subrange(0, i as int), lv, rroot),
        decreases remote@.len() - i,
    {
        let ghost pre = rv.subrange(0, i as int + 1);
        assert(pre.drop_last() =~= rv.subrange(0, i as int));
        assert(pre.last() == remote@[i as int]@);
        if !contains_path(local, &remote[i].relative_path) {
            let e = linked_entry(&remote[i], &location.remote_path, false, Verdict::Download);
            let ghost before = out@;
            let ghost ev = e@;
            out.push(e);
            assert(linked_view(out@) =~= linked_view(before).push(ev));
        }
        assert(linked_view(out@) =~= matched + remote_only_links(pre, lv, rroot));
        i = i + 1;
    }
    assert(rv.subrange(0, remote@.len() as int) =~= rv);
    let ghost with_remote = linked_view(out@);

    let mut i: usize = 0;
    while i < local.len()
        invariant
            i <= local@.len(),
            rv == records_view(remote@),
            lv == records_view(local@),
            lroot == location.local_path@,
            linked_view(out@) == with_remote + local_only_links(lv.subrange(0, i as int), rv, lroot),
        decreases local@.len() - i,
    {
        let ghost pre = lv.subrange(0, i as int + 1);
        assert(pre.drop_last() =~= lv.subrange(0, i as int));
        assert(pre.last() == local@[i as int]@);
        if !contains_path(remote, &local[i].relative_path) {
            let e = linked_entry(&local[i], &location.local_path, true, Verdict::Upload);
            let ghost before = out@;
            let ghost ev = e@;
            out.push(e);
            assert(linked_view(out@) =~= linked_view(before).push(ev));
        }
        assert(linked_view(out@) =~= with_remote + local_only_links(pre, rv, lroot));
        i = i + 1;
    }
    assert(lv.subrange(0, local@.len() as int) =~= lv);
    out
}

/// The verdict for a file present on both sides, from its two timestamps
/// (whole seconds): equal times leave it alone, the newer side wins.
pub open spec fn timestamp_verdict(local_time: i64, remote_time: i64) -> Verdict {
    if local_time == remote_time {
        Verdict::DoNothing
    } else if local_time < remote_time {
        Verdict::Download
    } else {
        Verdict::Upload
    }
}

/// The verdict an undecided entry receives from the sides it has.
pub open spec fn decide(local: Option<FileRecordView>, remote: Option<FileRecordView>) -> Verdict {
    match (local, remote) {
        (None, Some(_)) => Verdict::Download,
        (Some(_), None) => Verdict::Upload,
        (Some(l), Some(r)) => timestamp_verdict(l.modified_at, r.modified_at),
        (None, None) => Verdict::Undecided,
    }
}

/// An entry after resolution: a verdict already set is kept.
pub open spec fn resolve_spec(e: LinkedFileView) -> LinkedFileView {
    if e.verdict == Verdict::Undecided {
        LinkedFileView { verdict: decide(e.local, e.remote), ..e }
    } else {
        e
    }
}

/// The verdict for a file whose local copy was modified at `local_time`
/// and its remote copy at `remote_time`.
pub fn compare_timestamps(local_time: i64, remote_time: i64) -> (r: Verdict)
    ensures
        r == timestamp_verdict(local_time, remote_time),
{
    if local_time == remote_time {
        Verdict::DoNothing
    } else if local_time < remote_time {
        Verdict::Download
    } else {
        Verdict::Upload
    }
}

/// Gives each undecided entry its verdict; entries decided already pass through.
pub fn resolve_verdicts(files: Vec<LinkedFile>) -> (r: Vec<LinkedFile>)
    ensures
        linked_view(r@) == linked_view(files@).map_values(|e: LinkedFileView| resolve_spec(e)),
{
    let mut out: Vec<LinkedFile> = Vec::new();
    let mut i: usize = 0;
    while i < files.len()
        invariant
            i <= files@.len(),
            linked_view(out@) == linked_view(files@).subrange(0, i as int).map_values(
                |e: LinkedFileView| resolve_spec(e),
            ),
        decreases files@.len() - i,
    {
        let e = &files[i];
        let verdict = match e.verdict {
            Verdict::Undecided => match (&e.local, &e.remote) {
                (None, Some(_)) => Verdict::Download,
                (Some(_), None) => Verdict::Upload,
                (Some(l), Some(r)) => compare_timestamps(l.modified_at, r.modified_at),
                (None, None) => Verdict::Undecided,
            },
            v => v,
        };
        let resolved = e.with_verdict(verdict);
        let ghost before = out@;
        let ghost rv = resolved@;
        assert(rv == resolve_spec(e@));
        out.push(resolved);
        assert(linked_view(out@) =~= linked_view(before).push(rv));
        assert(linked_view(files@).subrange(0, i as int + 1).map_values(|e: LinkedFileView| resolve_spec(e))
            =~= linked_view(files@).subrange(0, i as int).map_values(|e: LinkedFileView| resolve_spec(e)).push(rv));
        i = i + 1;
    }
    assert(linked_view(files@).subrange(0, files@.len() as int) =~= linked_view(files@));
    out
}

} // verus!

use vstd::prelude::*;
use crate::config::SyncLocation;
use crate::link::{linked_view, LinkedFile, LinkedFileView, Verdict};
use crate::paths::{has_prefix, relative_spec, relative_to_root, under_root};
use crate::records::{records_view, FileRecord, FileRecordView};

verus! {

/// Outcome counters of one run.
#[derive(Clone, Copy, PartialEq, Eq, Structural, Debug)]
pub struct Report {
    pub uploaded: usize,
    pub downloaded: usize,
    pub ignored: usize,
    pub errors: usize,
}

/// The direction of a transfer.
#[derive(Clone, Copy, PartialEq, Eq, Structural, Debug)]
pub enum Direction {
    Upload,
    Download,
}

/// How many entries of `s` carry verdict `v`.
pub open spec fn verdict_count(s: Seq<LinkedFileView>, v: Verdict) -> nat
    decreases s.len(),
{
    if s.len() == 0 {
        0
    } else {
        verdict_count(s.drop_last(), v) + (if s.last().verdict == v { 1nat } else { 0nat })
    }
}

/// How many of `outcomes` are `b`.
pub open spec fn outcome_count(outcomes: Seq<bool>, b: bool) -> nat
    decreases outcomes.len(),
{
    if outcomes.len() == 0 {
        0
    } else {
        outcome_count(outcomes.drop_last(), b) + (if outcomes.last() == b { 1nat } else { 0nat })
    }
}

/// `r` after the outcomes of transfers in `direction`: each success counts
/// as moved, each failure as an error.
pub open spec fn after_outcomes(r: Report, direction: Direction, outcomes: Seq<bool>) -> Report {
    let ok = outcome_count(outcomes, true);
    let failed = outcome_count(outcomes, false);
    match direction {
        Direction::Upload => Report { uploaded: (r.uploaded + ok) as usize, errors: (r.errors + failed) as usize, ..r },
        Direction::Download => Report { downloaded: (r.downloaded + ok) as usize, errors: (r.errors + failed) as usize, ..r },
    }
}

proof fn lemma_outcome_count_bound(outcomes: Seq<bool>)
    ensures
        outcome_count(outcomes, true) + outcome_count(outcomes, false) == outcomes.len(),
    decreases outcomes.len(),
{
    if outcomes.len() > 0 {
        lemma_outcome_count_bound(outcomes.drop_last());
    }
}

proof fn lemma_verdict_count_bound(s: Seq<LinkedFileView>, v: Verdict)
    ensures
        verdict_count(s, v) <= s.len(),
    decreases s.len(),
{
    if s.len() > 0 {
        lemma_verdict_count_bound(s.drop_last(), v);
    }
}

impl Report {
    /// A report with every counter at zero.
    pub fn new() -> (r: Report)
        ensures
            r == (Report { uploaded: 0, downloaded: 0, ignored: 0, errors: 0 }),
    {
        Report { uploaded: 0, downloaded: 0, ignored: 0, errors: 0 }
    }

    /// Counts the outcomes of a pass of transfers in `direction`, in order.
    pub fn record_outcomes(&mut self, direction: Direction, outcomes: &Vec<bool>)
        requires
            old(self).uploaded + outcomes@.len() <= usize::MAX,
            old(self).downloaded + outcomes@.len() <= usize::MAX,
            old(self).errors + outcomes@.len() <= usize::MAX,
        ensures
            *final(self) == after_outcomes(*old(self), direction, outcomes@),
    {
        let ghost start = *self;
        let mut i: usize = 0;
        while i < outcomes.len()
            invariant
                i <= outcomes@.len(),
                start.uploaded + outcomes@.len() <= usize::MAX,
                start.downloaded + outcomes@.len() <= usize::MAX,
                start.errors + outcomes@.len() <= usize::MAX,
                *self == after_outcomes(start, direction, outcomes@.subrange(0, i as int)),
            decreases outcomes@.len() - i,
        {
            let ghost pre = outcomes@.subrange(0, i as int + 1);
            assert(pre.drop_last() =~= outcomes@.subrange(0, i as int));
            proof {
                lemma_outcome_count_bound(outcomes@.subrange(0, i as int));
            }
            if outcomes[i] {
                match direction {
                    Direction::Upload => self.uploaded = self.uploaded + 1,
                    Direction::Download => self.downloaded = self.downloaded + 1,
                }
            } else {
                self.errors = self.errors + 1;
            }
            i = i + 1;
        }
        assert(outcomes@.subrange(0, outcomes@.len() as int) =~= outcomes@);
    }
}

/// The accounting pass over entries that need no transfer: each `DoNothing`
/// entry counts as ignored, each entry still undecided as an error.
pub fn do_nothing(files: &Vec<LinkedFile>, report: &mut Report)
    requires
        old(report).ignored + files@.len() <= usize::MAX,
        old(report).errors + files@.len() <= usize::MAX,
    ensures
        *final(report) == (Report {
            ignored: (old(report).ignored + verdict_count(linked_view(files@), Verdict::DoNothing)) as usize,
            errors: (old(report).errors + verdict_count(linked_view(files@), Verdict::Undecided)) as usize,
            ..*old(report)
        }),
{
    let ghost start = *report;
    let ghost fv = linked_view(files@);
    let mut i: usize = 0;
    while i < files.len()
        invariant
            i <= files@.len(),
            fv == linked_view(files@),
            start.ignored + files@.len() <= usize::MAX,
            start.errors + files@.len() <= usize::MAX,
            *report == (Report {
                ignored: (start.ignored + verdict_count(fv.subrange(0, i as int), Verdict::DoNothing)) as usize,
                errors: (start.errors + verdict_count(fv.subrange(0, i as int), Verdict::Undecided)) as usize,
                ..start
            }),
        decreases files@.len() - i,
    {
        let ghost pre = fv.subrange(0, i as int + 1);
        assert(pre.drop_last() =~= fv.subrange(0, i as int));
        assert(pre.last() == files@[i as int]@);
        proof {
            lemma_verdict_count_bound(fv.subrange(0, i as int), Verdict::DoNothing);
            lemma_verdict_count_bound(fv.subrange(0, i as int), Verdict::Undecided);
        }
        match files[i].verdict {
            Verdict::DoNothing => report.ignored = report.ignored + 1,
            Verdict::Undecided => report.errors = report.errors + 1,
            _ => {},
        }
        i = i + 1;
    }
    assert(fv.subrange(0, files@.len() as int) =~= fv);
}

/// One file to copy: from `source` to `target`, creating `target_directory` first if absent.
pub struct Transfer {
    pub relative_path: String,
    pub source: String,
    pub target_directory: String,
    pub target: String,
}

pub struct TransferView {
    pub relative_path: Seq<char>,
    pub source: Seq<char>,
    pub target_directory: Seq<char>,
    pub target: Seq<char>,
}

impl View for Transfer {
    type V = TransferView;

    open spec fn view(&self) -> TransferView {
        TransferView {
            relative_path: self.relative_path@,
            source: self.source@,
            target_directory: self.target_directory@,
            target: self.target@,
        }
    }
}

pub open spec fn transfer_option_view(t: Option<Transfer>) -> Option<TransferView> {
    match t {
        Some(x) => Some(x@),
        None => None,
    }
}

pub open spec fn plan_view(s: Seq<Option<Transfer>>) -> Seq<Option<TransferView>> {
    s.map_values(|t: Option<Transfer>| transfer_option_view(t))
}

pub open spec fn transfers_view(s: Seq<Transfer>) -> Seq<TransferView> {
    s.map_values(|t: Transfer| t@)
}

/// The copy that moves `e` in `direction`: from the record of the side it
/// leaves to the same relative path under the root of the side it reaches.
/// `None` when the entry lacks the record it is to be copied from.
pub open spec fn transfer_spec(e: LinkedFileView, direction: Direction, target_root: Seq<char>) -> Option<TransferView> {
    let from = match direction {
        Direction::Upload => e.local,
        Direction::Download => e.remote,
    };
    match from {
        None => None,
        Some(rec) => Some(TransferView {
            relative_path: e.relative_path,
            source: rec.full_path,
            target_directory: target_root + e.relative_directory,
            target: target_root + e.relative_path,
        }),
    }
}

/// The verdict that sends an entry in `direction`.
pub open spec fn verdict_of(direction: Direction) -> Verdict {
    match direction {
        Direction::Upload => Verdict::Upload,
        Direction::Download => Verdict::Download,
    }
}

/// One planned copy per entry whose verdict sends it in `direction`, in order.
pub open spec fn plan_spec(s: Seq<LinkedFileView>, direction: Direction, target_root: Seq<char>) -> Seq<Option<TransferView>>
    decreases s.len(),
{
    if s.len() == 0 {
        Seq::empty()
    } else {
        let prev = plan_spec(s.drop_last(), direction, target_root);
        if s.last().verdict == verdict_of(direction) {
            prev.push(transfer_spec(s.last(), direction, target_root))
        } else {
            prev
        }
    }
}

/// The root that a transfer in `direction` writes under.
pub open spec fn target_root(location: SyncLocation, direction: Direction) -> Seq<char> {
    match direction {
        Direction::Upload => location.remote_path@,
        Direction::Download => location.local_path@,
    }
}

fn transfer_for(e: &LinkedFile, direction: Direction, root: &String) -> (r: Option<Transfer>)
    ensures
        transfer_option_view(r) == transfer_spec(e@, direction, root@),
{
    let from = match direction {
        Direction::Upload => &e.local,
        Direction::Download => &e.remote,
    };
    match from {
        None => None,
        Some(rec) => Some(Transfer {
            relative_path: e.relative_path.clone(),
            source: rec.full_path.clone(),
            target_directory: under_root(root, &e.relative_directory),
            target: under_root(root, &e.relative_path),
        }),
    }
}

/// The copies of the upload or download pass, one per entry with that verdict.
pub fn plan_transfers(files: &Vec<LinkedFile>, location: &SyncLocation, direction: Direction) -> (r: Vec<Option<Transfer>>)
    ensures
        plan_view(r@) == plan_spec(linked_view(files@), direction, target_root(*location, direction)),
        r@.len() == verdict_count(linked_view(files@), verdict_of(direction)),
{
    let root = match direction {
        Direction::Upload => &location.remote_path,
        Direction::Download => &location.local_path,
    };
    let ghost fv = linked_view(files@);
    let mut out: Vec<Option<Transfer>> = Vec::new();
    let mut i: usize = 0;
    while i < files.len()
        invariant
            i <= files@.len(),
            fv == linked_view(files@),
            root@ == target_root(*location, direction),
            plan_view(out@) == plan_spec(fv.subrange(0, i as int), direction, root@),
            out@.len() == verdict_count(fv.subrange(0, i as int), verdict_of(direction)),
        decreases files@.len() - i,
    {
        let ghost pre = fv.subrange(0, i as int + 1);
        assert(pre.drop_last() =~= fv.subrange(0, i as int));
        assert(pre.last() == files@[i as int]@);
        let wanted = match direction {
            Direction::Upload => Verdict::Upload,
            Direction::Download => Verdict::Download,
        };
        if files[i].verdict == wanted {
            let t = transfer_for(&files[i], direction, root);
            let ghost before = out@;
            let ghost tv = transfer_option_view(t);
            out.push(t);
            assert(plan_view(out@) =~= plan_view(before).push(tv));
        }
        assert(plan_view(out@) =~= plan_spec(pre, direction, root@));
        i = i + 1;
    }
    assert(fv.subrange(0, files@.len() as int) =~= fv);
    out
}

/// The copy of a local record into the backup tree rooted at `backup_root`.
pub open spec fn backup_spec(r: FileRecordView, backup_root: Seq<char>, local_root: Seq<char>) -> TransferView {
    TransferView {
        relative_path: r.relative_path,
        source: r.full_path,
        target_directory: backup_root + relative_spec(r.directory, local_root),
        target: backup_root + r.relative_path,
    }
}

/// The backup tree's path for the location: `<program folder>/backups/<encoded name>`.
pub open spec fn backup_root_spec(program_folder: Seq<char>, name_encoded: Seq<char>) -> Seq<char> {
    program_folder + seq!['/', 'b', 'a', 'c', 'k', 'u', 'p', 's', '/'] + name_encoded
}

/// The directory that receives the backups of `location`.
pub fn backup_root(program_folder: &String, location: &SyncLocation) -> (r: String)
    ensures
        r@ == backup_root_spec(program_folder@, location.name_encoded@),
{
    proof {
        reveal_strlit("/backups/");
    }
    let mut r = program_folder.clone();
    r.append("/backups/");
    r.append(location.name_encoded.as_str());
    r
}

/// One copy per local record, mirroring its relative path under `backup_root`.
pub fn plan_backup(local: &Vec<FileRecord>, backup_root: &String, location: &SyncLocation) -> (r: Vec<Transfer>)
    ensures
        transfers_view(r@) == records_view(local@).map_values(
            |x: FileRecordView| backup_spec(x, backup_root@, location.local_path@),
        ),
{
    let ghost lv = records_view(local@);
    let mut out: Vec<Transfer> = Vec::new();
    let mut i: usize = 0;
    while i < local.len()
        invariant
            i <= local@.len(),
            lv == records_view(local@),
            transfers_view(out@) == lv.subrange(0, i as int).map_values(
                |x: FileRecordView| backup_spec(x, backup_root@, location.local_path@),
            ),
        decreases local@.len() - i,
    {
        let rec = &local[i];
        let directory = relative_to_root(&rec.directory, &location.local_path);
        let t = Transfer {
            relative_path: rec.relative_path.clone(),
            source: rec.full_path.clone(),
            target_directory: under_root(backup_root, &directory),
            target: under_root(backup_root, &rec.relative_path),
        };
        let ghost before = out@;
        let ghost tv = t@;
        assert(tv == backup_spec(lv[i as int], backup_root@, location.local_path@));
        out.push(t);
        assert(transfers_view(out@) =~= transfers_view(before).push(tv));
        assert(lv.subrange(0, i as int + 1).map_values(
            |x: FileRecordView| backup_spec(x, backup_root@, location.local_path@),
        ) =~= lv.subrange(0, i as int).map_values(
            |x: FileRecordView| backup_spec(x, backup_root@, location.local_path@),
        ).push(tv));
        i = i + 1;
    }
    assert(lv.subrange(0, local@.len() as int) =~= lv);
    out
}

/// One failed transfer among many: the pass still counts every other transfer
/// as moved and exactly one error, whichever transfer failed.
pub proof fn lemma_single_failure(r: Report, direction: Direction, outcomes: Seq<bool>, n: int)
    requires
        0 <= n < outcomes.len(),
        !outcomes[n],
        forall|k: int| 0 <= k < outcomes.len() && k != n ==> outcomes[k],
        r.uploaded + outcomes.len() <= usize::MAX,
        r.downloaded + outcomes.len() <= usize::MAX,
        r.errors + outcomes.len() <= usize::MAX,
    ensures
        outcome_count(outcomes, false) == 1,
        outcome_count(outcomes, true) == outcomes.len() - 1,
        after_outcomes(r, direction, outcomes).errors == r.errors + 1,
        direction == Direction::Upload ==> after_outcomes(r, direction, outcomes).uploaded == r.uploaded
            + outcomes.len() - 1,
        direction == Direction::Download ==> after_outcomes(r, direction, outcomes).downloaded
            == r.downloaded + outcomes.len() - 1,
        direction == Direction::Upload ==> after_outcomes(r, direction, outcomes).downloaded == r.downloaded,
        direction == Direction::Download ==> after_outcomes(r, direction, outcomes).uploaded == r.uploaded,
        after_outcomes(r, direction, outcomes).ignored == r.ignored,
{
    lemma_single_false_count(outcomes, n);
    lemma_outcome_count_bound(outcomes);
}

proof fn lemma_single_false_count(outcomes: Seq<bool>, n: int)
    requires
        0 <= n < outcomes.len(),
        !outcomes[n],
        forall|k: int| 0 <= k < outcomes.len() && k != n ==> outcomes[k],
    ensures
        outcome_count(outcomes, false) == 1,
    decreases outcomes.len(),
{
    let d = outcomes.drop_last();
    if n == outcomes.len() - 1 {
        lemma_all_true_count(d);
    } else {
        lemma_single_false_count(d, n);
    }
}

proof fn lemma_all_true_count(outcomes: Seq<bool>)
    requires
        forall|k: int| 0 <= k < outcomes.len() ==> outcomes[k],
    ensures
        outcome_count(outcomes, false) == 0,
    decreases outcomes.len(),
{
    if outcomes.len() > 0 {
        lemma_all_true_count(outcomes.drop_last());
    }
}

/// A backup reads only the local records and writes only under the backup
/// root: every copy comes from a record's own path, and both its target and
/// the directory made for it lie under `backup_root`.
pub proof fn lemma_backup_writes_under_root(records: Seq<FileRecordView>, backup_root: Seq<char>, local_root: Seq<char>)
    ensures
        ({
            let plan = records.map_values(|x: FileRecordView| backup_spec(x, backup_root, local_root));
            forall|k: int| 0 <= k < plan.len() ==> {
                &&& (#[trigger] plan[k]).source == records[k].full_path
                &&& has_prefix(plan[k].target, backup_root)
                &&& has_prefix(plan[k].target_directory, backup_root)
            }
        }),
{
    let plan = records.map_values(|x: FileRecordView| backup_spec(x, backup_root, local_root));
    assert forall|k: int| 0 <= k < plan.len() implies {
        &&& (#[trigger] plan[k]).source == records[k].full_path
        &&& has_prefix(plan[k].target, backup_root)
        &&& has_prefix(plan[k].target_directory, backup_root)
    } by {
        let r = records[k];
        assert((backup_root + r.relative_path).subrange(0, backup_root.len() as int) =~= backup_root);
        assert((backup_root + relative_spec(r.directory, local_root)).subrange(0, backup_root.len() as int)
            =~= backup_root);
    }
}

proof fn lemma_plan_len(s: Seq<LinkedFileView>, direction: Direction, root: Seq<char>)
    ensures
        plan_spec(s, direction, root).len() == verdict_count(s, verdict_of(direction)),
    decreases s.len(),
{
    if s.len() > 0 {
        lemma_plan_len(s.drop_last(), direction, root);
    }
}

/// A pass over the `M` entries sent in `direction`, where the transfer of
/// exactly one planned copy fails: the pass still counts `M - 1` moved files
/// and exactly one error, and leaves the other counters alone.
pub proof fn lemma_pass_single_failure(
    files: Seq<LinkedFileView>,
    direction: Direction,
    root: Seq<char>,
    r: Report,
    outcomes: Seq<bool>,
    n: int,
)
    requires
        outcomes.len() == plan_spec(files, direction, root).len(),
        0 <= n < outcomes.len(),
        !outcomes[n],
        forall|k: int| 0 <= k < outcomes.len() && k != n ==> outcomes[k],
        r.uploaded + outcomes.len() <= usize::MAX,
        r.downloaded + outcomes.len() <= usize::MAX,
        r.errors + outcomes.len() <= usize::MAX,
    ensures
        ({
            let m = verdict_count(files, verdict_of(direction));
            let after = after_outcomes(r, direction, outcomes);
            &&& after.errors == r.errors + 1
            &&& direction == Direction::Upload ==> after.uploaded == r.uploaded + m - 1 && after.downloaded
                == r.downloaded
            &&& direction == Direction::Download ==> after.downloaded == r.downloaded + m - 1 && after.uploaded
                == r.uploaded
            &&& after.ignored == r.ignored
        }),
{
    lemma_plan_len(files, direction, root);
    lemma_single_failure(r, direction, outcomes, n);
}

} // verus!

use vstd::prelude::*;
use crate::link::{both_entry, local_only_entry, remote_only_entry, has_path, link_spec, local_only_links, matched_links, pairs_with, remote_only_links, resolve_spec, timestamp_verdict, LinkedFileView, Verdict};
use crate::execute::{plan_spec, Direction};
use crate::records::{minute_start, FileRecordView};

verus! {

/// How many records of `s` have relative path `p`.
pub open spec fn record_count(s: Seq<FileRecordView>, p: Seq<char>) -> nat
    decreases s.len(),
{
    if s.len() == 0 {
        0
    } else {
        record_count(s.drop_last(), p) + (if s.last().relative_path == p { 1nat } else { 0nat })
    }
}

/// How many entries of `s` have relative path `p`.
pub open spec fn entry_count(s: Seq<LinkedFileView>, p: Seq<char>) -> nat
    decreases s.len(),
{
    if s.len() == 0 {
        0
    } else {
        entry_count(s.drop_last(), p) + (if s.last().relative_path == p { 1nat } else { 0nat })
    }
}

/// No two records of `s` share a relative path.
pub open spec fn unique_paths(s: Seq<FileRecordView>) -> bool {
    forall|i: int, j: int| 0 <= i < j < s.len() ==> s[i].relative_path != s[j].relative_path
}

proof fn lemma_entry_count_add(a: Seq<LinkedFileView>, b: Seq<LinkedFileView>, p: Seq<char>)
    ensures
        entry_count(a + b, p) == entry_count(a, p) + entry_count(b, p),
    decreases b.len(),
{
    if b.len() == 0 {
        assert(a + b =~= a);
    } else {
        lemma_entry_count_add(a, b.drop_last(), p);
        assert((a + b).drop_last() =~= a + b.drop_last());
    }
}

proof fn lemma_entry_count_push(s: Seq<LinkedFileView>, x: LinkedFileView, p: Seq<char>)
    ensures
        entry_count(s.push(x), p) == entry_count(s, p) + (if x.relative_path == p { 1nat } else { 0nat }),
{
    assert(s.push(x).drop_last() =~= s);
}

proof fn lemma_record_count_has_path(s: Seq<FileRecordView>, p: Seq<char>)
    ensures
        (record_count(s, p) > 0) == has_path(s, p),
    decreases s.len(),
{
    if s.len() > 0 {
        lemma_record_count_has_path(s.drop_last(), p);
        if has_path(s.drop_last(), p) {
            let i = choose|i: int| 0 <= i < s.drop_last().len() && s.drop_last()[i].relative_path == p;
            assert(s[i].relative_path == p);
        }
        if has_path(s, p) && s.last().relative_path != p {
            let i = choose|i: int| 0 <= i < s.len() && s[i].relative_path == p;
            assert(s.drop_last()[i].relative_path == p);
        }
    }
}

proof fn lemma_unique_count(s: Seq<FileRecordView>, p: Seq<char>)
    requires
        unique_paths(s),
    ensures
        record_count(s, p) == (if has_path(s, p) { 1nat } else { 0nat }),
    decreases s.len(),
{
    lemma_record_count_has_path(s, p);
    if s.len() > 0 {
        let d = s.drop_last();
        assert(unique_paths(d)) by {
            assert forall|i: int, j: int| 0 <= i < j < d.len() implies d[i].relative_path != d[j].relative_path by {
                assert(d[i] == s[i] && d[j] == s[j]);
            }
        }
        lemma_unique_count(d, p);
        lemma_record_count_has_path(d, p);
        if s.last().relative_path == p && has_path(d, p) {
            let i = choose|i: int| 0 <= i < d.len() && d[i].relative_path == p;
            assert(s[i].relative_path == s[s.len() - 1].relative_path);
        }
    }
}

proof fn lemma_pairs_with_count(r: FileRecordView, local: Seq<FileRecordView>, root: Seq<char>, p: Seq<char>)
    ensures
        entry_count(pairs_with(r, local, root), p) == (if r.relative_path == p { record_count(local, p) } else { 0 }),
        forall|k: int| 0 <= k < pairs_with(r, local, root).len() ==> {
            let e = #[trigger] pairs_with(r, local, root)[k];
            e.relative_path == r.relative_path && has_path(local, e.relative_path)
                && e.verdict == Verdict::Undecided
        },
    decreases local.len(),
{
    if local.len() > 0 {
        let d = local.drop_last();
        lemma_pairs_with_count(r, d, root, p);
        lemma_entry_count_push(pairs_with(r, d, root), both_entry(local.last(), r, root), p);
        let s = pairs_with(r, local, root);
        assert forall|k: int| 0 <= k < s.len() implies {
            let e = #[trigger] s[k];
            e.relative_path == r.relative_path && has_path(local, e.relative_path) && e.verdict == Verdict::Undecided
        } by {
            if k < pairs_with(r, d, root).len() {
                let e = s[k];
                assert(e == pairs_with(r, d, root)[k]);
                let i = choose|i: int| 0 <= i < d.len() && d[i].relative_path == e.relative_path;
                assert(local[i] == d[i]);
            } else {
                assert(local[local.len() - 1].relative_path == r.relative_path);
            }
        }
    }
}

proof fn lemma_matched_count(remote: Seq<FileRecordView>, local: Seq<FileRecordView>, root: Seq<char>, p: Seq<char>)
    ensures
        entry_count(matched_links(remote, local, root), p) == record_count(remote, p) * record_count(local, p),
        forall|k: int| 0 <= k < matched_links(remote, local, root).len() ==> {
            let e = #[trigger] matched_links(remote, local, root)[k];
            has_path(local, e.relative_path) && has_path(remote, e.relative_path)
                && e.verdict == Verdict::Undecided
        },
    decreases remote.len(),
{
    if remote.len() == 0 {
        assert(0 * record_count(local, p) == 0);
    } else {
        let d = remote.drop_last();
        lemma_matched_count(d, local, root, p);
        lemma_pairs_with_count(remote.last(), local, root, p);
        lemma_entry_count_add(matched_links(d, local, root), pairs_with(remote.last(), local, root), p);
        assert(record_count(remote, p) * record_count(local, p) == record_count(d, p) * record_count(local, p)
            + (if remote.last().relative_path == p { record_count(local, p) } else { 0 })) by (nonlinear_arith)
            requires
                record_count(remote, p) == record_count(d, p) + (if remote.last().relative_path == p { 1nat } else { 0nat }),
        ;
        let s = matched_links(remote, local, root);
        let a = matched_links(d, local, root);
        assert forall|k: int| 0 <= k < s.len() implies {
            let e = #[trigger] s[k];
            has_path(local, e.relative_path) && has_path(remote, e.relative_path) && e.verdict == Verdict::Undecided
        } by {
            if k < a.len() {
                assert(s[k] == a[k]);
                let i = choose|i: int| 0 <= i < d.len() && d[i].relative_path == s[k].relative_path;
                assert(remote[i] == d[i]);
            } else {
                assert(s[k] == pairs_with(remote.last(), local, root)[k - a.len()]);
                assert(remote[remote.len() - 1] == remote.last());
            }
        }
    }
}

proof fn lemma_remote_only_count(remote: Seq<FileRecordView>, local: Seq<FileRecordView>, root: Seq<char>, p: Seq<char>)
    ensures
        entry_count(remote_only_links(remote, local, root), p) == (if has_path(local, p) { 0 } else { record_count(remote, p) }),
        forall|k: int| 0 <= k < remote_only_links(remote, local, root).len() ==> {
            let e = #[trigger] remote_only_links(remote, local, root)[k];
            !has_path(local, e.relative_path) && e.verdict == Verdict::Download && e.local is None
                && e.remote is Some
        },
    decreases remote.len(),
{
    if remote.len() > 0 {
        let d = remote.drop_last();
        lemma_remote_only_count(d, local, root, p);
        lemma_entry_count_push(remote_only_links(d, local, root), remote_only_entry(remote.last(), root), p);
        if remote.last().relative_path == p && has_path(local, p) {
            assert(has_path(local, remote.last().relative_path));
        }
        let s = remote_only_links(remote, local, root);
        let a = remote_only_links(d, local, root);
        assert forall|k: int| 0 <= k < s.len() implies {
            let e = #[trigger] s[k];
            !has_path(local, e.relative_path) && e.verdict == Verdict::Download && e.local is None
                && e.remote is Some
        } by {
            if k < a.len() {
                assert(s[k] == a[k]);
            }
        }
    }
}

proof fn lemma_local_only_count(local: Seq<FileRecordView>, remote: Seq<FileRecordView>, root: Seq<char>, p: Seq<char>)
    ensures
        entry_count(local_only_links(local, remote, root), p) == (if has_path(remote, p) { 0 } else { record_count(local, p) }),
        forall|k: int| 0 <= k < local_only_links(local, remote, root).len() ==> {
            let e = #[trigger] local_only_links(local, remote, root)[k];
            !has_path(remote, e.relative_path) && e.verdict == Verdict::Upload && e.local is Some
                && e.remote is None
        },
    decreases local.len(),
{
    if local.len() > 0 {
        let d = local.drop_last();
        lemma_local_only_count(d, remote, root, p);
        lemma_entry_count_push(local_only_links(d, remote, root), local_only_entry(local.last(), root), p);
        if local.last().relative_path == p && has_path(remote, p) {
            assert(has_path(remote, local.last().relative_path));
        }
        let s = local_only_links(local, remote, root);
        let a = local_only_links(d, remote, root);
        assert forall|k: int| 0 <= k < s.len() implies {
            let e = #[trigger] s[k];
            !has_path(remote, e.relative_path) && e.verdict == Verdict::Upload && e.local is Some
                && e.remote is None
        } by {
            if k < a.len() {
                assert(s[k] == a[k]);
            }
        }
    }
}

/// Linking two trees, each free of repeated relative paths: a path found on
/// one side only gets exactly one entry, preset to `Download` when it is
/// remote-only and to `Upload` when it is local-only; a path found on both
/// sides gets exactly one entry, left undecided with both records; a path
/// found on neither side gets none.
pub proof fn lemma_link_paths(
    remote: Seq<FileRecordView>,
    local: Seq<FileRecordView>,
    remote_root: Seq<char>,
    local_root: Seq<char>,
    p: Seq<char>,
)
    requires
        unique_paths(remote),
        unique_paths(local),
    ensures
        ({
            let links = link_spec(remote, local, remote_root, local_root);
            &&& entry_count(links, p) == (if has_path(remote, p) || has_path(local, p) { 1nat } else { 0nat })
            &&& (has_path(remote, p) && !has_path(local, p)) ==> forall|k: int|
                0 <= k < links.len() && #[trigger] links[k].relative_path == p ==> links[k].verdict
                    == Verdict::Download && links[k].local is None && links[k].remote is Some
            &&& (has_path(local, p) && !has_path(remote, p)) ==> forall|k: int|
                0 <= k < links.len() && #[trigger] links[k].relative_path == p ==> links[k].verdict
                    == Verdict::Upload && links[k].local is Some && links[k].remote is None
            &&& (has_path(local, p) && has_path(remote, p)) ==> forall|k: int|
                0 <= k < links.len() && #[trigger] links[k].relative_path == p ==> links[k].verdict
                    == Verdict::Undecided && links[k].local is Some && links[k].remote is Some
        }),
{
    let m = matched_links(remote, local, remote_root);
    let ro = remote_only_links(remote, local, remote_root);
    let lo = local_only_links(local, remote, local_root);
    let links = link_spec(remote, local, remote_root, local_root);
    lemma_matched_count(remote, local, remote_root, p);
    lemma_remote_only_count(remote, local, remote_root, p);
    lemma_local_only_count(local, remote, local_root, p);
    lemma_entry_count_add(m, ro, p);
    lemma_entry_count_add(m + ro, lo, p);
    lemma_unique_count(remote, p);
    lemma_unique_count(local, p);
    assert forall|k: int| 0 <= k < links.len() && #[trigger] links[k].relative_path == p implies {
        &&& (has_path(remote, p) && !has_path(local, p)) ==> links[k].verdict == Verdict::Download
            && links[k].local is None && links[k].remote is Some
        &&& (has_path(local, p) && !has_path(remote, p)) ==> links[k].verdict == Verdict::Upload
            && links[k].local is Some && links[k].remote is None
        &&& (has_path(local, p) && has_path(remote, p)) ==> links[k].verdict == Verdict::Undecided
            && links[k].local is Some && links[k].remote is Some
    } by {
        if k < m.len() {
            assert(links[k] == m[k]);
            let e = m[k];
            let i = choose|i: int| 0 <= i < local.len() && local[i].relative_path == e.relative_path;
            let j = choose|j: int| 0 <= j < remote.len() && remote[j].relative_path == e.relative_path;
            lemma_matched_entry_sides(remote, local, remote_root, k);
        } else if k < m.len() + ro.len() {
            assert(links[k] == ro[k - m.len()]);
        } else {
            assert(links[k] == lo[k - m.len() - ro.len()]);
        }
    }
}

proof fn lemma_pairs_with_sides(r: FileRecordView, local: Seq<FileRecordView>, root: Seq<char>, k: int)
    requires
        0 <= k < pairs_with(r, local, root).len(),
    ensures
        pairs_with(r, local, root)[k].local is Some,
        pairs_with(r, local, root)[k].remote is Some,
    decreases local.len(),
{
    let d = local.drop_last();
    if k < pairs_with(r, d, root).len() {
        lemma_pairs_with_sides(r, d, root, k);
    }
}

proof fn lemma_matched_entry_sides(remote: Seq<FileRecordView>, local: Seq<FileRecordView>, root: Seq<char>, k: int)
    requires
        0 <= k < matched_links(remote, local, root).len(),
    ensures
        matched_links(remote, local, root)[k].local is Some,
        matched_links(remote, local, root)[k].remote is Some,
    decreases remote.len(),
{
    let d = remote.drop_last();
    let a = matched_links(d, local, root);
    if k < a.len() {
        lemma_matched_entry_sides(d, local, root, k);
    } else {
        lemma_pairs_with_sides(remote.last(), local, root, k - a.len());
    }
}

/// A file present on both sides is resolved by its timestamps alone: equal
/// times leave it alone, a newer local copy is uploaded, a newer remote copy
/// is downloaded.
pub proof fn lemma_matched_verdict(e: LinkedFileView)
    requires
        e.local is Some,
        e.remote is Some,
        e.verdict == Verdict::Undecided,
    ensures
        ({
            let l = e.local.unwrap().modified_at;
            let r = e.remote.unwrap().modified_at;
            let v = resolve_spec(e).verdict;
            &&& l == r ==> v == Verdict::DoNothing
            &&& l > r ==> v == Verdict::Upload
            &&& l < r ==> v == Verdict::Download
        }),
{
}

/// Resolving never leaves a linked entry with a side undecided, and keeps
/// every verdict that was already set.
pub proof fn lemma_resolve_decides(e: LinkedFileView)
    requires
        e.local is Some || e.remote is Some,
    ensures
        resolve_spec(e).verdict != Verdict::Undecided,
        e.verdict != Verdict::Undecided ==> resolve_spec(e) == e,
{
}

/// Local times inside one minute are recorded alike, so they meet a remote
/// time with the same verdict; a remote copy stamped at that minute (the
/// precision of a listing) is left alone on every later run.
pub proof fn lemma_minute_stable(t1: int, t2: int, remote_time: i64)
    requires
        t1 / 60 == t2 / 60,
        i64::MIN <= minute_start(t1) <= i64::MAX,
    ensures
        minute_start(t1) == minute_start(t2),
        minute_start(minute_start(t1)) == minute_start(t1),
        timestamp_verdict(minute_start(t1) as i64, remote_time) == timestamp_verdict(minute_start(t2) as i64, remote_time),
        remote_time == minute_start(t1) ==> timestamp_verdict(minute_start(t2) as i64, remote_time)
            == Verdict::DoNothing,
{
    assert(minute_start(t1) == (t1 / 60) * 60) by {
        vstd::arithmetic::div_mod::lemma_fundamental_div_mod(t1, 60);
    }
    assert(minute_start(t2) == (t2 / 60) * 60) by {
        vstd::arithmetic::div_mod::lemma_fundamental_div_mod(t2, 60);
    }
    assert(((t1 / 60) * 60) % 60 == 0) by {
        vstd::arithmetic::div_mod::lemma_mod_multiples_basic(t1 / 60, 60);
    }
}

proof fn lemma_pairs_with_members(r: FileRecordView, local: Seq<FileRecordView>, root: Seq<char>, k: int)
    requires
        0 <= k < pairs_with(r, local, root).len(),
    ensures
        exists|j: int| 0 <= j < local.len() && local[j].relative_path == r.relative_path
            && pairs_with(r, local, root)[k] == both_entry(local[j], r, root),
    decreases local.len(),
{
    let d = local.drop_last();
    if k < pairs_with(r, d, root).len() {
        lemma_pairs_with_members(r, d, root, k);
        let j = choose|j: int| 0 <= j < d.len() && d[j].relative_path == r.relative_path
            && pairs_with(r, d, root)[k] == both_entry(d[j], r, root);
        assert(local[j] == d[j]);
    } else {
        assert(local[local.len() - 1] == local.last());
    }
}

proof fn lemma_matched_members(remote: Seq<FileRecordView>, local: Seq<FileRecordView>, root: Seq<char>, k: int)
    requires
        0 <= k < matched_links(remote, local, root).len(),
    ensures
        exists|i: int, j: int| 0 <= i < remote.len() && 0 <= j < local.len()
            && local[j].relative_path == remote[i].relative_path
            && matched_links(remote, local, root)[k] == both_entry(local[j], remote[i], root),
    decreases remote.len(),
{
    let d = remote.drop_last();
    let a = matched_links(d, local, root);
    if k < a.len() {
        lemma_matched_members(d, local, root, k);
        let (i, j) = choose|i: int, j: int| 0 <= i < d.len() && 0 <= j < local.len()
            && local[j].relative_path == d[i].relative_path && a[k] == both_entry(local[j], d[i], root);
        assert(remote[i] == d[i]);
        assert(matched_links(remote, local, root)[k] == a[k]);
    } else {
        lemma_pairs_with_members(remote.last(), local, root, k - a.len());
        assert(remote[remote.len() - 1] == remote.last());
    }
}

proof fn lemma_remote_only_empty(remote: Seq<FileRecordView>, local: Seq<FileRecordView>, root: Seq<char>)
    requires
        forall|i: int| 0 <= i < remote.len() ==> has_path(local, #[trigger] remote[i].relative_path),
    ensures
        remote_only_links(remote, local, root).len() == 0,
    decreases remote.len(),
{
    if remote.len() > 0 {
        let d = remote.drop_last();
        assert forall|i: int| 0 <= i < d.len() implies has_path(local, #[trigger] d[i].relative_path) by {
            assert(d[i] == remote[i]);
        }
        lemma_remote_only_empty(d, local, root);
        assert(has_path(local, remote[remote.len() - 1].relative_path));
    }
}

proof fn lemma_local_only_empty(local: Seq<FileRecordView>, remote: Seq<FileRecordView>, root: Seq<char>)
    requires
        forall|j: int| 0 <= j < local.len() ==> has_path(remote, #[trigger] local[j].relative_path),
    ensures
        local_only_links(local, remote, root).len() == 0,
    decreases local.len(),
{
    if local.len() > 0 {
        let d = local.drop_last();
        assert forall|j: int| 0 <= j < d.len() implies has_path(remote, #[trigger] d[j].relative_path) by {
            assert(d[j] == local[j]);
        }
        lemma_local_only_empty(d, remote, root);
        assert(has_path(remote, local[local.len() - 1].relative_path));
    }
}

proof fn lemma_plan_empty(s: Seq<LinkedFileView>, direction: Direction, root: Seq<char>)
    requires
        forall|k: int| 0 <= k < s.len() ==> (#[trigger] s[k]).verdict == Verdict::DoNothing,
    ensures
        plan_spec(s, direction, root).len() == 0,
    decreases s.len(),
{
    if s.len() > 0 {
        let d = s.drop_last();
        assert forall|k: int| 0 <= k < d.len() implies (#[trigger] d[k]).verdict == Verdict::DoNothing by {
            assert(d[k] == s[k]);
        }
        lemma_plan_empty(d, direction, root);
        assert(s[s.len() - 1].verdict == Verdict::DoNothing);
    }
}

/// Two trees that hold the same relative paths with the same times, each path
/// once per side (as after a complete run): every linked entry resolves to
/// `DoNothing`, so neither the upload nor the download pass has a file to move.
pub proof fn lemma_synced_trees_need_no_transfer(
    remote: Seq<FileRecordView>,
    local: Seq<FileRecordView>,
    remote_root: Seq<char>,
    local_root: Seq<char>,
)
    requires
        unique_paths(remote),
        unique_paths(local),
        forall|i: int| 0 <= i < remote.len() ==> exists|j: int| 0 <= j < local.len()
            && #[trigger] local[j].relative_path == #[trigger] remote[i].relative_path
            && local[j].modified_at == remote[i].modified_at,
        forall|j: int| 0 <= j < local.len() ==> has_path(remote, #[trigger] local[j].relative_path),
    ensures
        ({
            let resolved = link_spec(remote, local, remote_root, local_root).map_values(
                |e: LinkedFileView| resolve_spec(e),
            );
            &&& forall|k: int| 0 <= k < resolved.len() ==> (#[trigger] resolved[k]).verdict == Verdict::DoNothing
            &&& plan_spec(resolved, Direction::Upload, remote_root).len() == 0
            &&& plan_spec(resolved, Direction::Download, local_root).len() == 0
        }),
{
    let m = matched_links(remote, local, remote_root);
    assert forall|i: int| 0 <= i < remote.len() implies has_path(local, #[trigger] remote[i].relative_path) by {
        let j = choose|j: int| 0 <= j < local.len() && #[trigger] local[j].relative_path == remote[i].relative_path
            && local[j].modified_at == remote[i].modified_at;
    }
    lemma_remote_only_empty(remote, local, remote_root);
    lemma_local_only_empty(local, remote, local_root);
    let links = link_spec(remote, local, remote_root, local_root);
    assert(links =~= m);
    let resolved = links.map_values(|e: LinkedFileView| resolve_spec(e));
    assert forall|k: int| 0 <= k < resolved.len() implies (#[trigger] resolved[k]).verdict == Verdict::DoNothing by {
        lemma_matched_members(remote, local, remote_root, k);
        let (i, j) = choose|i: int, j: int| 0 <= i < remote.len() && 0 <= j < local.len()
            && local[j].relative_path == remote[i].relative_path && m[k] == both_entry(local[j], remote[i], remote_root);
        let j2 = choose|j2: int| 0 <= j2 < local.len() && #[trigger] local[j2].relative_path == remote[i].relative_path
            && local[j2].modified_at == remote[i].modified_at;
        if j != j2 {
            if j < j2 {
                assert(local[j].relative_path != local[j2].relative_path);
            } else {
                assert(local[j2].relative_path != local[j].relative_path);
            }
        }
    }
    lemma_plan_empty(resolved, Direction::Upload, remote_root);
    lemma_plan_empty(resolved, Direction::Download, local_root);
}

} // verus!

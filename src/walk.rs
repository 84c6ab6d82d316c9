use vstd::prelude::*;
use crate::paths::{join_path, join_spec, relative_spec, relative_to_root};
use crate::records::{minute_start, records_view, truncate_to_minute, FileRecord, FileRecordView};

verus! {

/// What a directory listing says an entry is.
#[derive(Clone, Copy, PartialEq, Eq, Structural, Debug)]
pub enum EntryKind {
    Directory,
    File,
    /// Symbolic links, devices and anything else: never synchronized.
    Other,
}

/// One entry of a directory listing, on either side.
pub struct ListingEntry {
    pub name: String,
    pub kind: EntryKind,
    /// Last modification in seconds since the Unix epoch; `None` when it could not be read.
    pub modified_at: Option<i64>,
}

pub struct ListingEntryView {
    pub name: Seq<char>,
    pub kind: EntryKind,
    pub modified_at: Option<i64>,
}

impl View for ListingEntry {
    type V = ListingEntryView;

    open spec fn view(&self) -> ListingEntryView {
        ListingEntryView { name: self.name@, kind: self.kind, modified_at: self.modified_at }
    }
}

pub open spec fn entries_view(s: Seq<ListingEntry>) -> Seq<ListingEntryView> {
    s.map_values(|e: ListingEntry| e@)
}

pub open spec fn strings_view(s: Seq<String>) -> Seq<Seq<char>> {
    s.map_values(|x: String| x@)
}

/// The timestamp recorded for an entry: its own, or the start of its minute
/// when the walk keeps minute precision; `None` when there is none to record.
pub open spec fn recorded_time(e: ListingEntryView, minute_precision: bool) -> Option<i64> {
    match e.modified_at {
        None => None,
        Some(t) => if !minute_precision {
            Some(t)
        } else if minute_start(t as int) >= i64::MIN {
            Some(minute_start(t as int) as i64)
        } else {
            None
        },
    }
}

/// The record made for entry `e` of directory `dir` under `root`.
pub open spec fn record_spec(e: ListingEntryView, dir: Seq<char>, root: Seq<char>, t: i64) -> FileRecordView {
    FileRecordView {
        directory: dir,
        full_path: join_spec(dir, e.name),
        relative_path: relative_spec(join_spec(dir, e.name), root),
        modified_at: t,
    }
}

/// The records that a listing of `dir` contributes: one per regular file whose
/// time could be read, in listing order.
pub open spec fn listing_records(
    entries: Seq<ListingEntryView>,
    dir: Seq<char>,
    root: Seq<char>,
    minute_precision: bool,
) -> Seq<FileRecordView>
    decreases entries.len(),
{
    if entries.len() == 0 {
        Seq::empty()
    } else {
        let prev = listing_records(entries.drop_last(), dir, root, minute_precision);
        let e = entries.last();
        if e.kind == EntryKind::File && recorded_time(e, minute_precision).is_some() {
            prev.push(record_spec(e, dir, root, recorded_time(e, minute_precision).unwrap()))
        } else {
            prev
        }
    }
}

/// The subdirectories that a listing of `dir` adds to the work list, in listing order.
pub open spec fn listing_subdirectories(entries: Seq<ListingEntryView>, dir: Seq<char>) -> Seq<Seq<char>>
    decreases entries.len(),
{
    if entries.len() == 0 {
        Seq::empty()
    } else {
        let prev = listing_subdirectories(entries.drop_last(), dir);
        let e = entries.last();
        if e.kind == EntryKind::Directory {
            prev.push(join_spec(dir, e.name))
        } else {
            prev
        }
    }
}

/// A breadth-first walk over one side's tree. The caller lists `current`,
/// hands the entries to `record_listing` (or nothing, when the listing failed)
/// and calls `advance` until it returns `false`.
pub struct TreeWalk {
    pub root: String,
    /// The directory to list next.
    pub current: String,
    /// Every directory found so far; those from index `next` on are still to be listed.
    pub pending: Vec<String>,
    pub next: usize,
    pub records: Vec<FileRecord>,
    /// Whether timestamps are truncated to whole minutes (the local side).
    pub minute_precision: bool,
}

impl TreeWalk {
    pub open spec fn wf(&self) -> bool {
        self.next <= self.pending.len()
    }

    /// A walk that starts at `root`, with nothing found yet.
    pub fn new(root: String, minute_precision: bool) -> (r: TreeWalk)
        ensures
            r.wf(),
            r.root == root,
            r.current == root,
            r.pending@.len() == 0,
            r.next == 0,
            r.records@.len() == 0,
            r.minute_precision == minute_precision,
    {
        let current = root.clone();
        TreeWalk { root, current, pending: Vec::new(), next: 0, records: Vec::new(), minute_precision }
    }

    /// Takes in the listing of `current`: regular files become records,
    /// directories join the work list, other entries are skipped.
    pub fn record_listing(&mut self, entries: &Vec<ListingEntry>)
        ensures
            final(self).root == old(self).root,
            final(self).current == old(self).current,
            final(self).next == old(self).next,
            final(self).minute_precision == old(self).minute_precision,
            records_view(final(self).records@) == records_view(old(self).records@) + listing_records(
                entries_view(entries@),
                old(self).current@,
                old(self).root@,
                old(self).minute_precision,
            ),
            strings_view(final(self).pending@) == strings_view(old(self).pending@)
                + listing_subdirectories(entries_view(entries@), old(self).current@),
            old(self).wf() ==> final(self).wf(),
    {
        let ghost old_records = records_view(self.records@);
        let ghost old_pending = strings_view(self.pending@);
        let ghost ev = entries_view(entries@);
        let mut i: usize = 0;
        while i < entries.len()
            invariant
                i <= entries@.len(),
                ev == entries_view(entries@),
                self.root == old(self).root,
                self.current == old(self).current,
                self.next == old(self).next,
                self.minute_precision == old(self).minute_precision,
                old(self).next <= old(self).pending@.len() ==> self.next <= self.pending@.len(),
                self.pending@.len() >= old(self).pending@.len(),
                records_view(self.records@) == old_records + listing_records(
                    ev.subrange(0, i as int),
                    self.current@,
                    self.root@,
                    self.minute_precision,
                ),
                strings_view(self.pending@) == old_pending + listing_subdirectories(
                    ev.subrange(0, i as int),
                    self.current@,
                ),
            decreases entries@.len() - i,
        {
            let entry = &entries[i];
            let ghost prefix = ev.subrange(0, i as int + 1);
            assert(prefix.drop_last() =~= ev.subrange(0, i as int));
            assert(prefix.last() == entry@);
            match entry.kind {
                EntryKind::Directory => {
                    let path = join_path(&self.current, entry.name.as_str());
                    let ghost before = self.pending@;
                    let ghost path_view = path@;
                    self.pending.push(path);
                    assert(strings_view(self.pending@) =~= strings_view(before).push(path_view));
                    assert(strings_view(self.pending@) =~= old_pending + listing_subdirectories(
                        prefix,
                        self.current@,
                    ));
                    assert(records_view(self.records@) =~= old_records + listing_records(
                        prefix,
                        self.current@,
                        self.root@,
                        self.minute_precision,
                    ));
                },
                EntryKind::File => {
                    let time = match entry.modified_at {
                        None => None,
                        Some(t) => if self.minute_precision {
                            truncate_to_minute(t)
                        } else {
                            Some(t)
                        },
                    };
                    assert(time == recorded_time(entry@, self.minute_precision));
                    match time {
                        Some(t) => {
                            let full_path = join_path(&self.current, entry.name.as_str());
                            let relative_path = relative_to_root(&full_path, &self.root);
                            let record = FileRecord {
                                directory: self.current.clone(),
                                full_path,
                                relative_path,
                                modified_at: t,
                            };
                            let ghost before = self.records@;
                            let ghost record_view = record@;
                            assert(record_view == record_spec(entry@, self.current@, self.root@, t));
                            self.records.push(record);
                            assert(records_view(self.records@) =~= records_view(before).push(record_view));
                        },
                        None => {},
                    }
                    assert(records_view(self.records@) =~= old_records + listing_records(
                        prefix,
                        self.current@,
                        self.root@,
                        self.minute_precision,
                    ));
                    assert(strings_view(self.pending@) =~= old_pending + listing_subdirectories(
                        prefix,
                        self.current@,
                    ));
                },
                EntryKind::Other => {
                    assert(records_view(self.records@) =~= old_records + listing_records(
                        prefix,
                        self.current@,
                        self.root@,
                        self.minute_precision,
                    ));
                    assert(strings_view(self.pending@) =~= old_pending + listing_subdirectories(
                        prefix,
                        self.current@,
                    ));
                },
            }
            i = i + 1;
        }
        assert(ev.subrange(0, entries@.len() as int) =~= ev);
    }

    /// Moves to the next directory of the work list; `false` when none is left.
    pub fn advance(&mut self) -> (r: bool)
        requires
            old(self).wf(),
        ensures
            final(self).wf(),
            r == (old(self).next < old(self).pending@.len()),
            final(self).root == old(self).root,
            final(self).pending == old(self).pending,
            final(self).records == old(self).records,
            final(self).minute_precision == old(self).minute_precision,
            r ==> final(self).current == old(self).pending@[old(self).next as int]
                && final(self).next == old(self).next + 1,
            !r ==> final(self).current == old(self).current && final(self).next == old(self).next,
    {
        if self.next < self.pending.len() {
            self.current = self.pending[self.next].clone();
            self.next = self.next + 1;
            true
        } else {
            false
        }
    }

    /// The records found so far.
    pub fn into_records(self) -> (r: Vec<FileRecord>)
        ensures
            r == self.records,
    {
        self.records
    }
}

/// Whether two listings differ at most in times that fall in the same minute.
pub open spec fn same_up_to_minute(a: Seq<ListingEntryView>, b: Seq<ListingEntryView>) -> bool {
    &&& a.len() == b.len()
    &&& forall|k: int| 0 <= k < a.len() ==> {
        &&& (#[trigger] a[k]).name == b[k].name
        &&& a[k].kind == b[k].kind
        &&& (a[k].modified_at is None <==> b[k].modified_at is None)
        &&& a[k].modified_at is Some ==> minute_start(a[k].modified_at.unwrap() as int) == minute_start(
            b[k].modified_at.unwrap() as int,
        )
    }
}

/// With minute precision, listings whose times differ only within their
/// minutes give the same records and the same work list, so a walk over two
/// such trees ends with the same records.
pub proof fn lemma_minute_listings_alike(
    a: Seq<ListingEntryView>,
    b: Seq<ListingEntryView>,
    dir: Seq<char>,
    root: Seq<char>,
)
    requires
        same_up_to_minute(a, b),
    ensures
        listing_records(a, dir, root, true) == listing_records(b, dir, root, true),
        listing_subdirectories(a, dir) == listing_subdirectories(b, dir),
    decreases a.len(),
{
    if a.len() > 0 {
        let (da, db) = (a.drop_last(), b.drop_last());
        assert forall|k: int| 0 <= k < da.len() implies {
            &&& (#[trigger] da[k]).name == db[k].name
            &&& da[k].kind == db[k].kind
            &&& (da[k].modified_at is None <==> db[k].modified_at is None)
            &&& da[k].modified_at is Some ==> minute_start(da[k].modified_at.unwrap() as int) == minute_start(
                db[k].modified_at.unwrap() as int,
            )
        } by {
            assert(da[k] == a[k] && db[k] == b[k]);
        }
        lemma_minute_listings_alike(da, db, dir, root);
        assert(a.last() == a[a.len() - 1] && b.last() == b[b.len() - 1]);
    }
}

/// A time recorded with minute precision is a whole minute, at most the file's
/// own time and less than a minute before it.
pub proof fn lemma_recorded_minute(e: ListingEntryView)
    requires
        recorded_time(e, true) is Some,
    ensures
        ({
            let r = recorded_time(e, true).unwrap() as int;
            let t = e.modified_at.unwrap() as int;
            &&& r % 60 == 0
            &&& r <= t < r + 60
        }),
{
    let t = e.modified_at.unwrap() as int;
    assert(minute_start(t) % 60 == 0) by {
        vstd::arithmetic::div_mod::lemma_fundamental_div_mod(t, 60);
        vstd::arithmetic::div_mod::lemma_mod_multiples_basic(t / 60, 60);
    }
}

} // verus!

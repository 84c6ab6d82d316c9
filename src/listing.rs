use vstd::prelude::*;
use crate::walk::{entries_view, EntryKind, ListingEntry, ListingEntryView};

verus! {

/// Relies on suppaftp's `list::File::from_str`, which reads one line of a
/// directory listing in POSIX, DOS, MLSD or MLST form. It reads year-less
/// POSIX dates against the current clock, so little is promised of the result:
/// a parsed entry always carries a time. chrono's `From<SystemTime>` turns the
/// modification time into Unix seconds.
#[verifier::external_body]
fn parse_listing_line(line: &str) -> (r: Option<ListingEntry>)
    ensures
        r is Some ==> r.unwrap().modified_at is Some,
{
    match <suppaftp::list::File as std::str::FromStr>::from_str(line) {
        Ok(f) => Some(ListingEntry {
            name: f.name().to_string(),
            kind: match f.file_type() {
                suppaftp::list::FileType::Directory => EntryKind::Directory,
                suppaftp::list::FileType::File => EntryKind::File,
                suppaftp::list::FileType::Symlink(_) => EntryKind::Other,
            },
            modified_at: Some(chrono::DateTime::<chrono::Utc>::from(f.modified()).timestamp()),
        }),
        Err(_) => None,
    }
}

pub open spec fn entry_option_view(e: Option<ListingEntry>) -> Option<ListingEntryView> {
    match e {
        Some(x) => Some(x@),
        None => None,
    }
}

pub open spec fn parsed_view(s: Seq<Option<ListingEntry>>) -> Seq<Option<ListingEntryView>> {
    s.map_values(|e: Option<ListingEntry>| entry_option_view(e))
}

/// The `Some` values of `s`, in order.
pub open spec fn somes(s: Seq<Option<ListingEntryView>>) -> Seq<ListingEntryView>
    decreases s.len(),
{
    if s.len() == 0 {
        Seq::empty()
    } else {
        let prev = somes(s.drop_last());
        match s.last() {
            Some(e) => prev.push(e),
            None => prev,
        }
    }
}

/// The lines that parsed, in listing order; the ones that did not are dropped.
pub fn keep_parsed(parsed: Vec<Option<ListingEntry>>) -> (r: Vec<ListingEntry>)
    ensures
        entries_view(r@) == somes(parsed_view(parsed@)),
        forall|k: int| 0 <= k < r@.len() ==> exists|i: int| 0 <= i < parsed@.len() && parsed@[i] == Some(#[trigger] r@[k]),
{
    let ghost pv = parsed_view(parsed@);
    let ghost orig = parsed@;
    let mut parsed = parsed;
    let n = parsed.len();
    // Popping from the back reverses the items; popping from `rest` then yields them in order.
    let mut rest: Vec<Option<ListingEntry>> = Vec::new();
    while parsed.len() > 0
        invariant
            parsed@.len() + rest@.len() == orig.len(),
            forall|k: int| 0 <= k < parsed@.len() ==> parsed@[k] == orig[k],
            forall|k: int| 0 <= k < rest@.len() ==> rest@[k] == orig[orig.len() - 1 - k],
        decreases parsed@.len(),
    {
        let x = parsed.pop().unwrap();
        rest.push(x);
    }
    let mut out: Vec<ListingEntry> = Vec::new();
    let mut i: usize = 0;
    while i < n
        invariant
            n == orig.len(),
            i <= n,
            rest@.len() == n - i,
            pv == parsed_view(orig),
            forall|k: int| 0 <= k < rest@.len() ==> rest@[k] == orig[n - 1 - k],
            entries_view(out@) == somes(pv.subrange(0, i as int)),
            forall|k: int| 0 <= k < out@.len() ==> exists|j: int| 0 <= j < orig.len() && orig[j] == Some(#[trigger] out@[k]),
        decreases n - i,
    {
        let x = rest.pop().unwrap();
        assert(x == orig[i as int]);
        let ghost pre = pv.subrange(0, i as int + 1);
        assert(pre.drop_last() =~= pv.subrange(0, i as int));
        assert(pre.last() == entry_option_view(x));
        match x {
            Some(e) => {
                let ghost before = out@;
                let ghost ev = e@;
                out.push(e);
                assert(entries_view(out@) =~= entries_view(before).push(ev));
                assert forall|k: int| 0 <= k < out@.len() implies exists|j: int| 0 <= j < orig.len() && orig[j] == Some(#[trigger] out@[k]) by {
                    if k == out@.len() - 1 {
                        assert(orig[i as int] == Some(out@[k]));
                    } else {
                        assert(out@[k] == before[k]);
                    }
                }
            },
            None => {},
        }
        i = i + 1;
    }
    assert(pv.subrange(0, n as int) =~= pv);
    out
}

/// The entries of a remote directory listing: each line goes to the parser
/// as it is, and the lines that parse are kept in order (see `keep_parsed`).
/// Every kept entry carries a time.
pub fn parse_listing(lines: &Vec<String>) -> (r: Vec<ListingEntry>)
    ensures
        r@.len() <= lines@.len(),
        forall|k: int| 0 <= k < r@.len() ==> (#[trigger] r@[k]).modified_at is Some,
{
    let mut parsed: Vec<Option<ListingEntry>> = Vec::new();
    let mut i: usize = 0;
    while i < lines.len()
        invariant
            i <= lines@.len(),
            parsed@.len() == i,
            forall|k: int| 0 <= k < parsed@.len() ==> (#[trigger] parsed@[k]) is Some ==> parsed@[k].unwrap().modified_at is Some,
        decreases lines@.len() - i,
    {
        parsed.push(parse_listing_line(lines[i].as_str()));
        i = i + 1;
    }
    let ghost pv = parsed_view(parsed@);
    proof {
        lemma_somes_len(pv);
    }
    let r = keep_parsed(parsed);
    assert(r@.len() == entries_view(r@).len());
    r
}

proof fn lemma_somes_len(s: Seq<Option<ListingEntryView>>)
    ensures
        somes(s).len() <= s.len(),
    decreases s.len(),
{
    if s.len() > 0 {
        lemma_somes_len(s.drop_last());
    }
}

} // verus!

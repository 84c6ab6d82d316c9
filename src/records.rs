use vstd::prelude::*;

verus! {

/// Seconds in one minute: local timestamps are kept at this resolution.
pub const SECONDS_PER_MINUTE: i64 = 60;

/// One regular file found under a synchronization root, on either side.
pub struct FileRecord {
    /// Absolute directory holding the file, on its own side.
    pub directory: String,
    /// Absolute path of the file, on its own side.
    pub full_path: String,
    /// Path below the root, starting with a separator: the key that joins both sides.
    pub relative_path: String,
    /// Last modification, in whole seconds since the Unix epoch.
    pub modified_at: i64,
}

pub struct FileRecordView {
    pub directory: Seq<char>,
    pub full_path: Seq<char>,
    pub relative_path: Seq<char>,
    pub modified_at: i64,
}

impl View for FileRecord {
    type V = FileRecordView;

    open spec fn view(&self) -> FileRecordView {
        FileRecordView {
            directory: self.directory@,
            full_path: self.full_path@,
            relative_path: self.relative_path@,
            modified_at: self.modified_at,
        }
    }
}

impl FileRecord {
    /// An identical copy of this record.
    pub fn duplicate(&self) -> (r: FileRecord)
        ensures
            r == *self,
    {
        FileRecord {
            directory: self.directory.clone(),
            full_path: self.full_path.clone(),
            relative_path: self.relative_path.clone(),
            modified_at: self.modified_at,
        }
    }
}

/// The views of a sequence of records.
pub open spec fn records_view(s: Seq<FileRecord>) -> Seq<FileRecordView> {
    s.map_values(|r: FileRecord| r@)
}

/// The start of the minute holding second `t` (rounding towards the past).
pub open spec fn minute_start(t: int) -> int {
    t - t % 60
}

/// `t` truncated to its whole minute; `None` when that minute starts before
/// the earliest representable second.
pub fn truncate_to_minute(t: i64) -> (r: Option<i64>)
    ensures
        r.is_some() <==> minute_start(t as int) >= i64::MIN,
        r.is_some() ==> r.unwrap() as int == minute_start(t as int),
{
    let rem = t % SECONDS_PER_MINUTE;
    if rem >= 0 {
        assert(rem as int == (t as int) % 60);
        Some(t - rem)
    } else {
        assert(rem + 60 == (t as int) % 60);
        if t < i64::MIN + 60 + rem {
            None
        } else {
            Some(t - (rem + 60))
        }
    }
}

} // verus!

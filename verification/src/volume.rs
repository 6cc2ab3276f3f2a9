//! Volumes and their descriptors: drive-letter parsing, the per-volume
//! record filled in as a traversal completes, strategy choice, and the
//! ordering of discovered volumes.

use vstd::prelude::*;
use crate::errors::UffsError;
use crate::format::push_char;
use crate::walker::WalkStrategy;
use vstd::string::StrSliceExecFns;
use vstd::string::StringExecFns;

verus! {

/// Storage class of a volume.
#[derive(Clone, Copy, PartialEq, Eq, Structural, Debug)]
pub enum MediumKind {
    Ssd,
    Hdd,
    Unknown,
}

impl MediumKind {
    /// The report label of this medium kind.
    pub fn label(&self) -> (r: String)
        ensures
            (*self is Ssd ==> r@ == "SSD"@) && (*self is Hdd ==> r@ == "HDD"@) && (*self
                is Unknown ==> r@ == "Unknown"@),
    {
        match self {
            MediumKind::Ssd => String::from_str("SSD"),
            MediumKind::Hdd => String::from_str("HDD"),
            MediumKind::Unknown => String::from_str("Unknown"),
        }
    }
}

/// One volume as discovery and traversal describe it: the root path, the
/// medium kind and capacity found at discovery, and the counts and elapsed
/// time filled in once its traversal completes.
pub struct DriveInfo {
    pub root_path: String,
    pub drive_type: MediumKind,
    pub size_bytes: u64,
    pub num_files: u64,
    pub num_dirs: u64,
    pub time_ns: u64,
    pub strategy: WalkStrategy,
}

impl DriveInfo {
    /// A descriptor with every field as given.
    pub fn new(
        root_path: String,
        drive_type: MediumKind,
        size_bytes: u64,
        num_files: u64,
        num_dirs: u64,
        time_ns: u64,
        strategy: WalkStrategy,
    ) -> (r: DriveInfo)
        ensures
            r.root_path@ == root_path@,
            r.drive_type == drive_type,
            r.size_bytes == size_bytes,
            r.num_files == num_files,
            r.num_dirs == num_dirs,
            r.time_ns == time_ns,
            r.strategy == strategy,
    {
        DriveInfo { root_path, drive_type, size_bytes, num_files, num_dirs, time_ns, strategy }
    }
}

/// Whether `c` is an ASCII letter.
pub open spec fn is_ascii_letter(c: char) -> bool {
    (65 <= c as u32 <= 90) || (97 <= c as u32 <= 122)
}

/// Whether the path starts with a drive prefix: a letter followed by a
/// colon.
pub open spec fn has_drive_prefix(path: Seq<char>) -> bool {
    path.len() >= 2 && is_ascii_letter(path[0]) && path[1] == ':'
}

/// The drive letter of a path with a drive prefix, as text: `C:\x` gives
/// `C`. `None` for any other path.
pub fn get_drive_letter(path: &String) -> (r: Option<String>)
    ensures
        has_drive_prefix(path@) ==> (r matches Some(l) && l@ == seq![path@[0]]),
        !has_drive_prefix(path@) ==> r is None,
{
    let len = path.as_str().unicode_len();
    if len < 2 {
        return None;
    }
    let c0 = path.as_str().get_char(0);
    let c1 = path.as_str().get_char(1);
    let v0 = c0 as u32;
    let letter = (65 <= v0 && v0 <= 90) || (97 <= v0 && v0 <= 122);
    if letter && c1 == ':' {
        let mut s = String::new();
        push_char(&mut s, c0);
        proof {
            assert(s@ =~= seq![path@[0]]);
        }
        Some(s)
    } else {
        None
    }
}

/// The volume key of a path with a drive prefix: the letter, the colon
/// and a backslash, as in `C:\`. `None` for any other path.
pub fn drive_key(path: &String) -> (r: Option<String>)
    ensures
        has_drive_prefix(path@) ==> (r matches Some(k) && k@ == seq![path@[0], ':', '\\']),
        !has_drive_prefix(path@) ==> r is None,
{
    let len = path.as_str().unicode_len();
    if len < 2 {
        return None;
    }
    let c0 = path.as_str().get_char(0);
    let c1 = path.as_str().get_char(1);
    let v0 = c0 as u32;
    let letter = (65 <= v0 && v0 <= 90) || (97 <= v0 && v0 <= 122);
    if letter && c1 == ':' {
        let mut s = String::new();
        push_char(&mut s, c0);
        push_char(&mut s, ':');
        push_char(&mut s, '\\');
        proof {
            assert(s@ =~= seq![path@[0], ':', '\\']);
        }
        Some(s)
    } else {
        None
    }
}

/// The root of a path: its drive prefix if it has one, a lone `/` if it
/// starts from a root separator, otherwise nothing.
pub fn get_root_path(path: &String) -> (r: String)
    ensures
        has_drive_prefix(path@) ==> r@ == path@.take(2),
        (!has_drive_prefix(path@) && path@.len() >= 1 && (path@[0] == '/' || path@[0] == '\\'))
            ==> r@ == "/"@,
        (!has_drive_prefix(path@) && !(path@.len() >= 1 && (path@[0] == '/' || path@[0] == '\\')))
            ==> r@ == Seq::<char>::empty(),
{
    let len = path.as_str().unicode_len();
    if len >= 2 {
        let c0 = path.as_str().get_char(0);
        let c1 = path.as_str().get_char(1);
        let v0 = c0 as u32;
        let letter = (65 <= v0 && v0 <= 90) || (97 <= v0 && v0 <= 122);
        if letter && c1 == ':' {
            let mut s = String::new();
            push_char(&mut s, c0);
            push_char(&mut s, c1);
            proof {
                assert(s@ =~= path@.take(2));
            }
            return s;
        }
    }
    if len >= 1 {
        let c0 = path.as_str().get_char(0);
        if c0 == '/' || c0 == '\\' {
            return String::from_str("/");
        }
    }
    String::new()
}

/// One volume as discovery reports it: where it is mounted, what medium
/// it is, and how large it is.
#[derive(Clone)]
pub struct DiskRecord {
    pub path: String,
    pub drive_type: MediumKind,
    pub size_bytes: u64,
}

/// Whether some record's path reads `key`.
pub open spec fn has_record(records: Seq<DiskRecord>, key: Seq<char>) -> bool {
    exists|i: int| 0 <= i < records.len() && records[i].path@ == key
}

/// The first record whose path reads `key`.
pub open spec fn record_at(records: Seq<DiskRecord>, key: Seq<char>) -> int {
    choose|i: int| 0 <= i < records.len() && records[i].path@ == key
}

/// Find the discovery record for one volume key: the medium kind and the
/// capacity of the first record whose path reads `key`, `None` when no
/// record does.
pub fn lookup_disk_record(records: &Vec<DiskRecord>, key: &String) -> (r: Option<(
    MediumKind,
    u64,
)>)
    ensures
        has_record(records@, key@) ==> (r matches Some(p) && (exists|i: int|
            0 <= i < records@.len() && records@[i].path@ == key@ && p.0 == records@[i].drive_type
                && p.1 == records@[i].size_bytes)),
        !has_record(records@, key@) ==> r is None,
{
    let n = records.len();
    let mut i: usize = 0;
    while i < n
        invariant
            i <= n,
            n == records@.len(),
            forall|j: int| 0 <= j < i ==> (#[trigger] records@[j].path)@ != key@,
        decreases n - i,
    {
        if records[i].path.eq(key) {
            return Some((records[i].drive_type, records[i].size_bytes));
        }
        i = i + 1;
    }
    None
}

/// Pick the traversal strategy for one volume from its medium kind and
/// the entry counts a first pass estimated: a small solid-state volume
/// takes the admission-controlled strategy, a large one or a rotating
/// disk the sequential baseline, an unknown medium the admission-
/// controlled default. A volume with nothing in it is refused.
pub fn select_algorithm(drive_info: &DriveInfo) -> (r: Result<WalkStrategy, UffsError>)
    ensures
        (drive_info.num_files == 0 && drive_info.num_dirs == 0) ==> (r matches Err(e) && e
            == UffsError::EmptyDriveInfo),
        !(drive_info.num_files == 0 && drive_info.num_dirs == 0) ==> (r matches Ok(s) && s == (
        match drive_info.drive_type {
            MediumKind::Ssd => if drive_info.num_files < 2000000 {
                WalkStrategy::BoundedConcurrent
            } else {
                WalkStrategy::UnboundedSequential
            },
            MediumKind::Hdd => WalkStrategy::UnboundedSequential,
            MediumKind::Unknown => WalkStrategy::BoundedConcurrent,
        })),
{
    if drive_info.num_files == 0 && drive_info.num_dirs == 0 {
        return Err(UffsError::EmptyDriveInfo);
    }
    match drive_info.drive_type {
        MediumKind::Ssd => {
            if drive_info.num_files < 2000000 {
                Ok(WalkStrategy::BoundedConcurrent)
            } else {
                Ok(WalkStrategy::UnboundedSequential)
            }
        },
        MediumKind::Hdd => Ok(WalkStrategy::UnboundedSequential),
        MediumKind::Unknown => Ok(WalkStrategy::BoundedConcurrent),
    }
}

} // verus!

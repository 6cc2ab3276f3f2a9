//! Classification of one directory's raw enumeration: wide-path helpers,
//! the per-entry file/subdirectory decision, and the benign-error rule
//! that turns an inaccessible directory into an empty contribution.
//!
//! A raw entry is what one step of a native batched enumeration hands
//! back: a UTF-16 name and an attribute word. The enumeration itself
//! happens outside this crate; everything that decides what the entries
//! mean is here.

use vstd::prelude::*;
use crate::errors::UffsError;
use crate::format::push_char;

verus! {

/// OS error code: the file cannot be found.
pub const ERROR_FILE_NOT_FOUND: u32 = 2;

/// OS error code: the path cannot be found.
pub const ERROR_PATH_NOT_FOUND: u32 = 3;

/// OS error code: access is denied.
pub const ERROR_ACCESS_DENIED: u32 = 5;

/// OS error code: an enumeration has no further entries.
pub const ERROR_NO_MORE_FILES: u32 = 18;

/// Attribute bit marking a directory entry.
pub const FILE_ATTRIBUTE_DIRECTORY: u32 = 16;

/// The errors that degrade one directory to an empty contribution rather
/// than failing it.
pub open spec fn is_benign_find_error(error: u32) -> bool {
    error == ERROR_ACCESS_DENIED || error == ERROR_PATH_NOT_FOUND || error == ERROR_FILE_NOT_FOUND
}

/// A search pattern for one directory: the path with `*` and a NUL
/// appended.
pub fn add_wildcard(path_wide: &Vec<u16>) -> (r: Vec<u16>)
    ensures
        r@ == path_wide@ + seq![42u16, 0u16],
{
    let mut search_path_wide: Vec<u16> = Vec::new();
    search_path_wide.extend_from_slice(path_wide.as_slice());
    search_path_wide.push(42u16);
    search_path_wide.push(0u16);
    proof {
        assert(search_path_wide@ =~= path_wide@ + seq![42u16, 0u16]);
        assert(forall|i: int|
            0 <= i < path_wide@.len() ==> #[trigger] search_path_wide@[i] == path_wide@[i]);
    }
    search_path_wide
}

/// The wide path of an entry inside a directory: directory, backslash,
/// name, backslash.
pub fn create_full_path(directory: &[u16], file_name: &[u16]) -> (r: Vec<u16>)
    ensures
        r@ == directory@ + seq![92u16] + file_name@ + seq![92u16],
{
    let mut full_path: Vec<u16> = Vec::new();
    full_path.extend_from_slice(directory);
    full_path.push(92u16);
    full_path.extend_from_slice(file_name);
    full_path.push(92u16);
    proof {
        assert(full_path@ =~= directory@ + seq![92u16] + file_name@ + seq![92u16]);
    }
    full_path
}

/// What one raw enumeration entry turned out to be.
pub enum EntryClass {
    /// The `.` or `..` pseudo-entry; ignored.
    Skipped,
    /// A subdirectory: counted and queued for its own expansion.
    Subdirectory,
    /// A plain file: counted.
    PlainFile,
}

/// The name of the current-directory pseudo-entry, `.` in UTF-16.
pub open spec fn dot_name() -> Seq<u16> {
    seq![46u16]
}

/// The name of the parent-directory pseudo-entry, `..` in UTF-16.
pub open spec fn dot_dot_name() -> Seq<u16> {
    seq![46u16, 46u16]
}

/// How one entry is classified: the two pseudo-entries are skipped, the
/// directory attribute bit decides between subdirectory and plain file.
pub open spec fn spec_classify(name: Seq<u16>, attributes: u32) -> EntryClass {
    if name == dot_name() || name == dot_dot_name() {
        EntryClass::Skipped
    } else if attributes & FILE_ATTRIBUTE_DIRECTORY != 0 {
        EntryClass::Subdirectory
    } else {
        EntryClass::PlainFile
    }
}

/// Classify one raw entry as `spec_classify` says.
pub fn classify_entry(name: &[u16], attributes: u32) -> (r: EntryClass)
    ensures
        r == spec_classify(name@, attributes),
{
    let n = name.len();
    let is_dot = n == 1 && name[0] == 46u16;
    let is_dot_dot = n == 2 && name[0] == 46u16 && name[1] == 46u16;
    proof {
        if is_dot {
            assert(name@ =~= dot_name());
        }
        if is_dot_dot {
            assert(name@ =~= dot_dot_name());
        }
        if name@ == dot_name() {
            assert(name@.len() == 1 && name@[0] == 46u16);
        }
        if name@ == dot_dot_name() {
            assert(name@.len() == 2 && name@[0] == 46u16 && name@[1] == 46u16);
        }
    }
    if is_dot || is_dot_dot {
        EntryClass::Skipped
    } else if attributes & FILE_ATTRIBUTE_DIRECTORY != 0 {
        EntryClass::Subdirectory
    } else {
        EntryClass::PlainFile
    }
}

/// One entry of a raw directory enumeration.
pub struct RawEntry {
    /// The entry's name, in UTF-16 without a terminator.
    pub name: Vec<u16>,
    /// The entry's attribute word.
    pub attributes: u32,
}

/// How many of the entries are plain files.
pub open spec fn files_in(entries: Seq<RawEntry>) -> nat
    decreases entries,
{
    if entries.len() == 0 {
        0
    } else {
        (if spec_classify(entries[0].name@, entries[0].attributes) is PlainFile {
            1nat
        } else {
            0nat
        }) + files_in(entries.drop_first())
    }
}

/// How many of the entries are subdirectories.
pub open spec fn dirs_in(entries: Seq<RawEntry>) -> nat
    decreases entries,
{
    if entries.len() == 0 {
        0
    } else {
        (if spec_classify(entries[0].name@, entries[0].attributes) is Subdirectory {
            1nat
        } else {
            0nat
        }) + dirs_in(entries.drop_first())
    }
}

/// The full wide paths of the subdirectory entries, in enumeration order.
pub open spec fn dir_paths_in(directory: Seq<u16>, entries: Seq<RawEntry>) -> Seq<Seq<u16>>
    decreases entries,
{
    if entries.len() == 0 {
        Seq::<Seq<u16>>::empty()
    } else {
        let rest = dir_paths_in(directory, entries.drop_first());
        if spec_classify(entries[0].name@, entries[0].attributes) is Subdirectory {
            seq![directory + seq![92u16] + entries[0].name@ + seq![92u16]] + rest
        } else {
            rest
        }
    }
}

/// Digest one directory's raw enumeration: count its plain files, count
/// its subdirectories, and build each subdirectory's full wide path for
/// the frontier. The `.` and `..` pseudo-entries contribute nothing.
pub fn scan_entries(start_path_wide: &Vec<u16>, entries: &Vec<RawEntry>) -> (r: (
    u64,
    u64,
    Vec<Vec<u16>>,
))
    requires
        entries@.len() <= u64::MAX,
    ensures
        r.0 == files_in(entries@),
        r.1 == dirs_in(entries@),
        r.2.deep_view() == dir_paths_in(start_path_wide@, entries@),
{
    let mut num_files: u64 = 0;
    let mut num_dirs: u64 = 0;
    let mut new_dirs_paths: Vec<Vec<u16>> = Vec::new();
    let n = entries.len();
    let mut i: usize = 0;
    while i < n
        invariant
            i <= n,
            n == entries@.len(),
            n <= u64::MAX,
            num_files == files_in(entries@.take(i as int)),
            num_dirs == dirs_in(entries@.take(i as int)),
            new_dirs_paths.deep_view() == dir_paths_in(
                start_path_wide@,
                entries@.take(i as int),
            ),
            num_files <= i,
            num_dirs <= i,
        decreases n - i,
    {
        proof {
            lemma_scan_take_step(start_path_wide@, entries@, i as int);
        }
        let entry = &entries[i];
        match classify_entry(entry.name.as_slice(), entry.attributes) {
            EntryClass::Skipped => {},
            EntryClass::Subdirectory => {
                num_dirs = num_dirs + 1;
                let new_path = create_full_path(
                    start_path_wide.as_slice(),
                    entry.name.as_slice(),
                );
                let ghost prev = new_dirs_paths.deep_view();
                let ghost p = new_path@;
                new_dirs_paths.push(new_path);
                proof {
                    assert(new_dirs_paths.deep_view() =~~= prev + seq![p]);
                }
            },
            EntryClass::PlainFile => {
                num_files = num_files + 1;
            },
        }
        i = i + 1;
    }
    proof {
        assert(entries@.take(n as int) =~= entries@);
    }
    (num_files, num_dirs, new_dirs_paths)
}

/// Extending a scanned prefix by one entry adds exactly that entry's
/// contribution.
proof fn lemma_scan_take_step(directory: Seq<u16>, entries: Seq<RawEntry>, i: int)
    requires
        0 <= i < entries.len(),
    ensures
        files_in(entries.take(i + 1)) == files_in(entries.take(i)) + (
        if spec_classify(entries[i].name@, entries[i].attributes) is PlainFile {
            1nat
        } else {
            0nat
        }),
        dirs_in(entries.take(i + 1)) == dirs_in(entries.take(i)) + (
        if spec_classify(entries[i].name@, entries[i].attributes) is Subdirectory {
            1nat
        } else {
            0nat
        }),
        dir_paths_in(directory, entries.take(i + 1)) == dir_paths_in(directory, entries.take(i)) + (
        if spec_classify(entries[i].name@, entries[i].attributes) is Subdirectory {
            seq![directory + seq![92u16] + entries[i].name@ + seq![92u16]]
        } else {
            Seq::<Seq<u16>>::empty()
        }),
    decreases i,
{
    if i == 0 {
        assert(entries.take(1).drop_first() =~= Seq::<RawEntry>::empty());
        assert(entries.take(0) =~= Seq::<RawEntry>::empty());
        assert(entries.take(1)[0] == entries[0]);
        assert(dir_paths_in(directory, entries.take(1)) =~= dir_paths_in(
            directory,
            entries.take(0),
        ) + (if spec_classify(entries[0].name@, entries[0].attributes) is Subdirectory {
            seq![directory + seq![92u16] + entries[0].name@ + seq![92u16]]
        } else {
            Seq::<Seq<u16>>::empty()
        }));
    } else {
        lemma_scan_take_step(directory, entries.drop_first(), i - 1);
        assert(entries.take(i + 1).drop_first() =~= entries.drop_first().take(i));
        assert(entries.take(i).drop_first() =~= entries.drop_first().take(i - 1));
        assert(entries.drop_first()[i - 1] == entries[i]);
        assert(entries.take(i + 1)[0] == entries[0]);
        assert(entries.take(i)[0] == entries[0]);
        assert(dir_paths_in(directory, entries.take(i + 1)) =~= dir_paths_in(
            directory,
            entries.take(i),
        ) + (if spec_classify(entries[i].name@, entries[i].attributes) is Subdirectory {
            seq![directory + seq![92u16] + entries[i].name@ + seq![92u16]]
        } else {
            Seq::<Seq<u16>>::empty()
        }));
    }
}

/// The empty contribution a benignly failing directory makes.
pub open spec fn empty_contribution(r: (u64, u64, Seq<Seq<u16>>)) -> bool {
    r.0 == 0 && r.1 == 0 && r.2.len() == 0
}

/// Decide what a failed enumeration means for one directory: a benign
/// code (access denied, path or file not found) degrades the directory to
/// an empty contribution and resets the caller's accumulators; any other
/// code is a hard error carrying the code, and the accumulators stay.
pub fn handle_find_error(
    error: u32,
    num_files: &mut u64,
    num_dirs: &mut u64,
    new_dirs_paths: &mut Vec<Vec<u16>>,
) -> (r: Result<(u64, u64, Vec<Vec<u16>>), UffsError>)
    ensures
        is_benign_find_error(error) ==> (r matches Ok(c)
            && empty_contribution((c.0, c.1, c.2.deep_view()))
            && *final(num_files) == 0
            && *final(num_dirs) == 0
            && final(new_dirs_paths)@.len() == 0),
        !is_benign_find_error(error) ==> (r matches Err(e)
            && e == UffsError::Io(error)
            && *final(num_files) == *old(num_files)
            && *final(num_dirs) == *old(num_dirs)
            && final(new_dirs_paths)@ == old(new_dirs_paths)@),
{
    if error == ERROR_ACCESS_DENIED || error == ERROR_PATH_NOT_FOUND || error
        == ERROR_FILE_NOT_FOUND {
        *num_files = 0;
        *num_dirs = 0;
        new_dirs_paths.clear();
        Ok((0u64, 0u64, Vec::new()))
    } else {
        Err(UffsError::Io(error))
    }
}

/// The same rule for an enumerator that keeps no accumulators: benign
/// codes succeed with nothing to add, others are hard errors.
pub fn handle_find_error_for_reader(error: u32) -> (r: Result<(), UffsError>)
    ensures
        is_benign_find_error(error) ==> r is Ok,
        !is_benign_find_error(error) ==> (r matches Err(e) && e == UffsError::Io(error)),
{
    if error == ERROR_ACCESS_DENIED || error == ERROR_PATH_NOT_FOUND || error
        == ERROR_FILE_NOT_FOUND {
        Ok(())
    } else {
        Err(UffsError::Io(error))
    }
}

/// The state of one counting traversal over wide paths: pending
/// directories and the two counts. One step pops a pending path, the
/// enumeration happens outside this crate, and `merge_scan` folds what
/// `scan_entries` made of it back in.
pub struct CountState {
    pub pending: Vec<Vec<u16>>,
    pub num_files: u64,
    pub num_dirs: u64,
}

impl CountState {
    /// A traversal about to start: the root alone is pending and nothing
    /// is counted.
    pub fn seeded(root_path_wide: Vec<u16>) -> (r: CountState)
        ensures
            r.pending.deep_view() =~= seq![root_path_wide@],
            r.num_files == 0,
            r.num_dirs == 0,
    {
        let ghost rv = root_path_wide@;
        let mut pending: Vec<Vec<u16>> = Vec::new();
        pending.push(root_path_wide);
        proof {
            assert(pending.deep_view() =~~= seq![rv]);
        }
        CountState { pending, num_files: 0, num_dirs: 0 }
    }

    /// Take one pending directory, newest first; `None` exactly when the
    /// traversal is complete.
    pub fn pop(&mut self) -> (r: Option<Vec<u16>>)
        ensures
            final(self).num_files == old(self).num_files,
            final(self).num_dirs == old(self).num_dirs,
            old(self).pending@.len() == 0 ==> r is None && final(self).pending.deep_view()
                == old(self).pending.deep_view(),
            old(self).pending@.len() > 0 ==> (r matches Some(p) && p@ == old(
                self,
            ).pending.deep_view().last() && final(self).pending.deep_view() == old(
                self,
            ).pending.deep_view().drop_last()),
    {
        let r = self.pending.pop();
        proof {
            if old(self).pending@.len() > 0 {
                assert(final(self).pending.deep_view() =~~= old(
                    self,
                ).pending.deep_view().drop_last());
            }
        }
        r
    }

    /// Fold one popped directory's digest back in: its file and directory
    /// counts are added — saturating rather than wrapping — and its
    /// subdirectories become pending.
    pub fn merge_scan(&mut self, new_num_files: u64, new_num_dirs: u64, new_paths: Vec<Vec<u16>>)
        ensures
            final(self).num_files == sat_add(old(self).num_files, new_num_files),
            final(self).num_dirs == sat_add(old(self).num_dirs, new_num_dirs),
            final(self).pending.deep_view() == old(self).pending.deep_view()
                + new_paths.deep_view(),
    {
        self.num_files = if self.num_files > u64::MAX - new_num_files {
            u64::MAX
        } else {
            self.num_files + new_num_files
        };
        self.num_dirs = if self.num_dirs > u64::MAX - new_num_dirs {
            u64::MAX
        } else {
            self.num_dirs + new_num_dirs
        };
        let ghost pre = self.pending.deep_view();
        let ghost add = new_paths.deep_view();
        let mut rest = new_paths;
        let n = rest.len();
        let mut i: usize = 0;
        while i < n
            invariant
                i <= n,
                n == add.len(),
                rest@.len() + i == n,
                rest.deep_view() == add.skip(i as int),
                self.pending.deep_view() == pre + add.take(i as int),
                self.num_files == sat_add(old(self).num_files, new_num_files),
                self.num_dirs == sat_add(old(self).num_dirs, new_num_dirs),
            decreases n - i,
        {
            let ghost before = self.pending.deep_view();
            let ghost rest_pre = rest@;
            let ghost rest_pre_deep = rest.deep_view();
            let p = rest.remove(0);
            proof {
                assert(rest_pre[0] == p);
                assert(rest_pre_deep[0] == p.deep_view());
                assert(p@ =~= p.deep_view());
                assert(p@ == add[i as int]);
                assert(rest@ =~= rest_pre.drop_first());
                assert forall|k: int| 0 <= k < rest@.len() implies #[trigger] rest.deep_view()[k]
                    == add.skip(i as int + 1)[k] by {
                    assert(rest@[k] == rest_pre[k + 1]);
                    assert(rest.deep_view()[k] == rest@[k].deep_view());
                    assert(rest_pre_deep[k + 1] == rest_pre[k + 1].deep_view());
                    assert(rest_pre_deep[k + 1] == add.skip(i as int)[k + 1]);
                    assert(add.skip(i as int)[k + 1] == add.skip(i as int + 1)[k]);
                }
                assert(rest.deep_view() =~= add.skip(i as int + 1));
            }
            let ghost pv = p@;
            self.pending.push(p);
            proof {
                assert(self.pending.deep_view() =~~= before.push(pv));
                assert(pre + add.take(i as int + 1) =~= (pre + add.take(i as int)).push(
                    add[i as int],
                ));
            }
            i = i + 1;
        }
        proof {
            assert(add.take(n as int) =~= add);
        }
    }
}

/// A 64-bit count grown by another, clipped at the maximum.
pub open spec fn sat_add(a: u64, b: u64) -> u64 {
    if a + b > u64::MAX {
        u64::MAX
    } else {
        (a + b) as u64
    }
}

/// A UTF-16 unit that is a scalar value of its own: anything outside the
/// surrogate range.
pub open spec fn is_scalar_unit(u: u16) -> bool {
    !(0xD800 <= u <= 0xDFFF)
}

/// The characters read unit-by-unit from UTF-16 data, surrogate units
/// skipped.
pub open spec fn decoded_units(s: Seq<u16>) -> Seq<char>
    decreases s,
{
    if s.len() == 0 {
        Seq::<char>::empty()
    } else {
        let rest = decoded_units(s.drop_first());
        if is_scalar_unit(s[0]) {
            seq![((s[0] as u32) as char)] + rest
        } else {
            rest
        }
    }
}

/// Relies on char::from_u32: `Some` exactly when the value is a scalar
/// value, and the character has that value.
#[verifier::external_body]
fn char_from_u32(c: u32) -> (r: Option<char>)
    ensures
        r is Some <==> !(0xD800 <= c <= 0xDFFF || c > 0x10FFFF),
        r matches Some(ch) ==> ch == (c as char),
{
    char::from_u32(c)
}

/// Read UTF-16 data unit by unit into text, skipping surrogate units.
pub fn u16_to_string(vec: &[u16]) -> (r: String)
    ensures
        r@ == decoded_units(vec@),
{
    let mut result = String::new();
    let n = vec.len();
    let mut i: usize = 0;
    while i < n
        invariant
            i <= n,
            n == vec@.len(),
            result@ == decoded_units(vec@.take(i as int)),
        decreases n - i,
    {
        proof {
            lemma_decoded_take_step(vec@, i as int);
        }
        let c = vec[i];
        match char_from_u32(c as u32) {
            Some(ch) => {
                push_char(&mut result, ch);
            },
            None => {},
        }
        i = i + 1;
    }
    proof {
        assert(vec@.take(n as int) =~= vec@);
    }
    result
}

proof fn lemma_decoded_take_step(s: Seq<u16>, i: int)
    requires
        0 <= i < s.len(),
    ensures
        decoded_units(s.take(i + 1)) == decoded_units(s.take(i)) + (if is_scalar_unit(s[i]) {
            seq![((s[i] as u32) as char)]
        } else {
            Seq::<char>::empty()
        }),
    decreases i,
{
    if i == 0 {
        assert(s.take(1).drop_first() =~= Seq::<u16>::empty());
        assert(s.take(0) =~= Seq::<u16>::empty());
        assert(s.take(1)[0] == s[0]);
        assert(decoded_units(s.take(1)) =~= decoded_units(s.take(0)) + (if is_scalar_unit(s[0]) {
            seq![((s[0] as u32) as char)]
        } else {
            Seq::<char>::empty()
        }));
    } else {
        lemma_decoded_take_step(s.drop_first(), i - 1);
        assert(s.take(i + 1).drop_first() =~= s.drop_first().take(i));
        assert(s.take(i).drop_first() =~= s.drop_first().take(i - 1));
        assert(s.drop_first()[i - 1] == s[i]);
        assert(s.take(i + 1)[0] == s[0]);
        assert(s.take(i)[0] == s[0]);
        assert(decoded_units(s.take(i + 1)) =~= decoded_units(s.take(i)) + (if is_scalar_unit(
            s[i],
        ) {
            seq![((s[i] as u32) as char)]
        } else {
            Seq::<char>::empty()
        }));
    }
}

} // verus!

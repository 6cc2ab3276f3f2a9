//! The per-run report: volumes ordered by root path, best-effort totals,
//! and the text of each table row.

use vstd::prelude::*;
use vstd::multiset::Multiset;
use crate::format::fixed3;
use crate::format::format_seconds;
use crate::format::format_size;
use crate::format::format_duration;
use crate::format::grouped_digits;
use crate::format::left_align;
use crate::format::left_aligned;
use crate::format::repeat_char;
use crate::format::repeated;
use crate::format::right_align;
use crate::format::right_aligned;
use crate::format::second_thousandths;
use crate::format::spec_format_duration;
use crate::format::spec_format_size;
use crate::volume::DriveInfo;
use crate::volume::MediumKind;
use vstd::string::StrSliceExecFns;
use vstd::string::StringExecFns;

verus! {

/// Character-by-character lexicographic order on text.
pub open spec fn lex_le(a: Seq<char>, b: Seq<char>) -> bool
    decreases a,
{
    if a.len() == 0 {
        true
    } else if b.len() == 0 {
        false
    } else if (a[0] as u32) < (b[0] as u32) {
        true
    } else if (a[0] as u32) > (b[0] as u32) {
        false
    } else {
        lex_le(a.drop_first(), b.drop_first())
    }
}

/// Any two texts compare one way or the other.
pub proof fn lemma_lex_le_total(a: Seq<char>, b: Seq<char>)
    ensures
        lex_le(a, b) || lex_le(b, a),
    decreases a,
{
    if a.len() != 0 && b.len() != 0 && (a[0] as u32) == (b[0] as u32) {
        lemma_lex_le_total(a.drop_first(), b.drop_first());
    }
}

/// The order chains.
pub proof fn lemma_lex_le_trans(a: Seq<char>, b: Seq<char>, c: Seq<char>)
    requires
        lex_le(a, b),
        lex_le(b, c),
    ensures
        lex_le(a, c),
    decreases a,
{
    if a.len() != 0 && b.len() != 0 && c.len() != 0 && (a[0] as u32) == (b[0] as u32) && (b[0]
        as u32) == (c[0] as u32) {
        lemma_lex_le_trans(a.drop_first(), b.drop_first(), c.drop_first());
    }
}

/// Decide `lex_le` on two strings.
pub fn str_le(a: &str, b: &str) -> (r: bool)
    ensures
        r == lex_le(a@, b@),
    decreases a@.len(),
{
    let la = a.unicode_len();
    if la == 0 {
        return true;
    }
    let lb = b.unicode_len();
    if lb == 0 {
        return false;
    }
    let ca = a.get_char(0);
    let cb = b.get_char(0);
    if (ca as u32) < (cb as u32) {
        true
    } else if (ca as u32) > (cb as u32) {
        false
    } else {
        proof {
            assert(a@.subrange(1, a@.len() as int) =~= a@.drop_first());
            assert(b@.subrange(1, b@.len() as int) =~= b@.drop_first());
        }
        str_le(a.substring_char(1, la), b.substring_char(1, lb))
    }
}

/// The volumes stand in root-path order.
pub open spec fn sorted_by_root(s: Seq<DriveInfo>) -> bool {
    forall|i: int, j: int|
        0 <= i < j < s.len() ==> lex_le(#[trigger] s[i].root_path@, #[trigger] s[j].root_path@)
}

/// Put one descriptor where it belongs in an ordered run of descriptors.
fn insert_sorted(drives: &mut Vec<DriveInfo>, x: DriveInfo)
    requires
        sorted_by_root(old(drives)@),
    ensures
        sorted_by_root(final(drives)@),
        final(drives)@.to_multiset() == old(drives)@.to_multiset().insert(x),
        final(drives)@.len() == old(drives)@.len() + 1,
{
    broadcast use vstd::seq_lib::group_to_multiset_ensures;

    let n = drives.len();
    let mut k: usize = 0;
    while k < n && !str_le(x.root_path.as_str(), drives[k].root_path.as_str())
        invariant
            k <= n,
            n == drives@.len(),
            forall|j: int| 0 <= j < k ==> lex_le((#[trigger] drives@[j].root_path)@, x.root_path@),
        decreases n - k,
    {
        proof {
            lemma_lex_le_total(x.root_path@, drives@[k as int].root_path@);
        }
        k = k + 1;
    }
    let ghost pre = drives@;
    let ghost xk = k as int;
    drives.insert(k, x);
    proof {
        let post = drives@;
        assert(post.remove(xk) =~= pre);
        assert(post.to_multiset().remove(x) =~= pre.to_multiset());
        assert(post.to_multiset().count(x) >= 1) by {
            assert(post[xk] == x);
            assert(post.contains(x));
        };
        assert(post.to_multiset() =~= pre.to_multiset().insert(x));
        assert forall|i: int, j: int| 0 <= i < j < post.len() implies lex_le(
            #[trigger] post[i].root_path@,
            #[trigger] post[j].root_path@,
        ) by {
            if j < xk {
                assert(post[i] == pre[i] && post[j] == pre[j]);
            } else if i > xk {
                assert(post[i] == pre[i - 1] && post[j] == pre[j - 1]);
            } else if i < xk && j == xk {
                assert(post[i] == pre[i] && post[j] == x);
            } else if i == xk && j > xk {
                assert(post[i] == x && post[j] == pre[j - 1]);
                if j - 1 > xk {
                    lemma_lex_le_trans(x.root_path@, pre[xk].root_path@, pre[j - 1].root_path@);
                }
            } else if i < xk && j > xk {
                assert(post[i] == pre[i] && post[j] == pre[j - 1]);
            }
        }
    }
}

/// Order discovered volumes by root path, keeping exactly the given
/// descriptors.
pub fn sort_drives_by_root_path(drives: Vec<DriveInfo>) -> (r: Vec<DriveInfo>)
    ensures
        sorted_by_root(r@),
        r@.to_multiset() == drives@.to_multiset(),
        r@.len() == drives@.len(),
{
    broadcast use vstd::seq_lib::group_to_multiset_ensures;

    let mut rest = drives;
    let mut out: Vec<DriveInfo> = Vec::new();
    proof {
        assert(out@.to_multiset() =~= Multiset::<DriveInfo>::empty());
    }
    while rest.len() > 0
        invariant
            sorted_by_root(out@),
            out@.to_multiset().add(rest@.to_multiset()) == drives@.to_multiset(),
            out@.len() + rest@.len() == drives@.len(),
        decreases rest@.len(),
    {
        let ghost rest0 = rest@;
        let x = rest.pop().unwrap();
        proof {
            assert(rest@.push(x) =~= rest0);
            vstd::seq_lib::to_multiset_build::<DriveInfo>(rest@, x);
        }
        insert_sorted(&mut out, x);
        proof {
            assert(out@.to_multiset().add(rest@.to_multiset()) =~= drives@.to_multiset());
        }
    }
    proof {
        assert(rest@.to_multiset() =~= Multiset::<DriveInfo>::empty());
        assert(out@.to_multiset() =~= drives@.to_multiset());
    }
    out
}

/// A total clipped to what a 64-bit count can hold.
pub open spec fn sat_cap(n: nat) -> u64 {
    if n > u64::MAX {
        u64::MAX
    } else {
        n as u64
    }
}

/// Files found on all volumes together.
pub open spec fn sum_files(s: Seq<DriveInfo>) -> nat
    decreases s,
{
    if s.len() == 0 {
        0
    } else {
        s[0].num_files as nat + sum_files(s.drop_first())
    }
}

/// Directories found on all volumes together.
pub open spec fn sum_dirs(s: Seq<DriveInfo>) -> nat
    decreases s,
{
    if s.len() == 0 {
        0
    } else {
        s[0].num_dirs as nat + sum_dirs(s.drop_first())
    }
}

/// Capacity of all volumes together, in bytes.
pub open spec fn sum_sizes(s: Seq<DriveInfo>) -> nat
    decreases s,
{
    if s.len() == 0 {
        0
    } else {
        s[0].size_bytes as nat + sum_sizes(s.drop_first())
    }
}

proof fn lemma_sums_take_step(s: Seq<DriveInfo>, i: int)
    requires
        0 <= i < s.len(),
    ensures
        sum_files(s.take(i + 1)) == sum_files(s.take(i)) + s[i].num_files,
        sum_dirs(s.take(i + 1)) == sum_dirs(s.take(i)) + s[i].num_dirs,
        sum_sizes(s.take(i + 1)) == sum_sizes(s.take(i)) + s[i].size_bytes,
    decreases i,
{
    if i == 0 {
        assert(s.take(1).drop_first() =~= Seq::<DriveInfo>::empty());
        assert(s.take(0) =~= Seq::<DriveInfo>::empty());
        assert(s.take(1)[0] == s[0]);
    } else {
        lemma_sums_take_step(s.drop_first(), i - 1);
        assert(s.take(i + 1).drop_first() =~= s.drop_first().take(i));
        assert(s.take(i).drop_first() =~= s.drop_first().take(i - 1));
        assert(s.drop_first()[i - 1] == s[i]);
        assert(s.take(i + 1)[0] == s[0]);
        assert(s.take(i)[0] == s[0]);
    }
}

/// Sum the per-volume file and directory counts and capacities into the
/// report's totals. A total that a 64-bit count cannot hold saturates at
/// its maximum rather than wrapping.
pub fn aggregate_totals(drives: &Vec<DriveInfo>) -> (r: (u64, u64, u64))
    ensures
        r.0 == sat_cap(sum_files(drives@)),
        r.1 == sat_cap(sum_dirs(drives@)),
        r.2 == sat_cap(sum_sizes(drives@)),
{
    let mut total_files: u64 = 0;
    let mut total_dirs: u64 = 0;
    let mut total_size: u64 = 0;
    let n = drives.len();
    let mut i: usize = 0;
    while i < n
        invariant
            i <= n,
            n == drives@.len(),
            total_files == sat_cap(sum_files(drives@.take(i as int))),
            total_dirs == sat_cap(sum_dirs(drives@.take(i as int))),
            total_size == sat_cap(sum_sizes(drives@.take(i as int))),
        decreases n - i,
    {
        proof {
            lemma_sums_take_step(drives@, i as int);
        }
        let d = &drives[i];
        total_files = if total_files > u64::MAX - d.num_files {
            u64::MAX
        } else {
            total_files + d.num_files
        };
        total_dirs = if total_dirs > u64::MAX - d.num_dirs {
            u64::MAX
        } else {
            total_dirs + d.num_dirs
        };
        total_size = if total_size > u64::MAX - d.size_bytes {
            u64::MAX
        } else {
            total_size + d.size_bytes
        };
        i = i + 1;
    }
    proof {
        assert(drives@.take(n as int) =~= drives@);
    }
    (total_files, total_dirs, total_size)
}

/// The report label of a medium kind.
pub open spec fn label_of(k: MediumKind) -> Seq<char> {
    match k {
        MediumKind::Ssd => "SSD"@,
        MediumKind::Hdd => "HDD"@,
        MediumKind::Unknown => "Unknown"@,
    }
}

/// The longest root path among the volumes.
pub open spec fn max_path_len(s: Seq<DriveInfo>) -> nat
    decreases s,
{
    if s.len() == 0 {
        0
    } else {
        let rest = max_path_len(s.drop_first());
        if s[0].root_path@.len() >= rest {
            s[0].root_path@.len()
        } else {
            rest
        }
    }
}

/// The path column's width: the longest root path plus two.
pub open spec fn spec_path_width(s: Seq<DriveInfo>) -> nat {
    if max_path_len(s) > usize::MAX - 2 {
        usize::MAX as nat
    } else {
        max_path_len(s) + 2
    }
}

/// Width of the separator lines: every column and the blanks between.
pub open spec fn spec_separator_width(path_width: nat) -> nat {
    if path_width > usize::MAX - 75 {
        usize::MAX as nat
    } else {
        path_width + 75
    }
}

/// One volume's row of the report: path, medium label, capacity, file and
/// directory counts, elapsed seconds, and the elapsed time in unit
/// buckets, each in its column.
pub open spec fn spec_row_text(d: DriveInfo, path_width: nat) -> Seq<char> {
    left_aligned(d.root_path@, path_width) + " "@ + left_aligned(label_of(d.drive_type), 12)
        + " "@ + right_aligned(spec_format_size(d.size_bytes as nat), 15) + " "@ + right_aligned(
        grouped_digits(d.num_files as nat),
        12,
    ) + " "@ + right_aligned(grouped_digits(d.num_dirs as nat), 12) + " "@ + right_aligned(
        fixed3(second_thousandths(d.time_ns as nat)),
        10,
    ) + " "@ + right_aligned(spec_format_duration(d.time_ns as nat), 8)
}

/// The totals row: the label `Total`, an empty medium column, and the
/// summed capacity and counts with the run's wall-clock time.
pub open spec fn spec_totals_text(
    total_files: u64,
    total_dirs: u64,
    total_size: u64,
    total_ns: u64,
    path_width: nat,
) -> Seq<char> {
    left_aligned("Total"@, path_width) + " "@ + left_aligned(""@, 12) + " "@ + right_aligned(
        spec_format_size(total_size as nat),
        15,
    ) + " "@ + right_aligned(grouped_digits(total_files as nat), 12) + " "@ + right_aligned(
        grouped_digits(total_dirs as nat),
        12,
    ) + " "@ + right_aligned(fixed3(second_thousandths(total_ns as nat)), 10) + " "@
        + right_aligned(spec_format_duration(total_ns as nat), 8)
}

/// The header row naming each column.
pub open spec fn spec_header_text(path_width: nat) -> Seq<char> {
    left_aligned("Path"@, path_width) + " "@ + left_aligned("Type"@, 12) + " "@ + right_aligned(
        "Size (GB / TB)"@,
        15,
    ) + " "@ + right_aligned("Files"@, 12) + " "@ + right_aligned("Dirs"@, 12) + " "@
        + right_aligned("Time (s)"@, 10) + " "@ + right_aligned("Time"@, 8)
}

/// The path column's width for these volumes.
pub fn path_width(drives: &Vec<DriveInfo>) -> (r: usize)
    ensures
        r == spec_path_width(drives@),
{
    let mut longest: usize = 0;
    let n = drives.len();
    let mut i: usize = 0;
    while i < n
        invariant
            i <= n,
            n == drives@.len(),
            longest == max_path_len(drives@.take(i as int)),
        decreases n - i,
    {
        proof {
            lemma_max_path_take_step(drives@, i as int);
        }
        let len = drives[i].root_path.as_str().unicode_len();
        if len > longest {
            longest = len;
        }
        i = i + 1;
    }
    proof {
        assert(drives@.take(n as int) =~= drives@);
    }
    if longest > usize::MAX - 2 {
        usize::MAX
    } else {
        longest + 2
    }
}

proof fn lemma_max_path_take_step(s: Seq<DriveInfo>, i: int)
    requires
        0 <= i < s.len(),
    ensures
        max_path_len(s.take(i + 1)) == if s[i].root_path@.len() >= max_path_len(s.take(i)) {
            s[i].root_path@.len()
        } else {
            max_path_len(s.take(i))
        },
    decreases i,
{
    if i == 0 {
        assert(s.take(1).drop_first() =~= Seq::<DriveInfo>::empty());
        assert(s.take(0) =~= Seq::<DriveInfo>::empty());
        assert(s.take(1)[0] == s[0]);
    } else {
        lemma_max_path_take_step(s.drop_first(), i - 1);
        assert(s.take(i + 1).drop_first() =~= s.drop_first().take(i));
        assert(s.take(i).drop_first() =~= s.drop_first().take(i - 1));
        assert(s.drop_first()[i - 1] == s[i]);
        assert(s.take(i + 1)[0] == s[0]);
        assert(s.take(i)[0] == s[0]);
    }
}

/// Render one volume's report row.
pub fn row_text(d: &DriveInfo, width: usize) -> (r: String)
    ensures
        r@ == spec_row_text(*d, width as nat),
{
    let mut out = left_align(d.root_path.clone(), width);
    out.append(" ");
    let t = left_align(d.drive_type.label(), 12);
    out.append(t.as_str());
    out.append(" ");
    let sz = right_align(format_size(d.size_bytes), 15);
    out.append(sz.as_str());
    out.append(" ");
    let f = format_number_u64(d.num_files, 12);
    out.append(f.as_str());
    out.append(" ");
    let dd = format_number_u64(d.num_dirs, 12);
    out.append(dd.as_str());
    out.append(" ");
    let secs = right_align(format_seconds(d.time_ns), 10);
    out.append(secs.as_str());
    out.append(" ");
    let t2 = right_align(format_duration(d.time_ns), 8);
    out.append(t2.as_str());
    out
}

/// A 64-bit count with thousands separators, right aligned.
fn format_number_u64(n: u64, width: usize) -> (r: String)
    ensures
        r@ == right_aligned(grouped_digits(n as nat), width as nat),
{
    let digits = crate::format::u64_grouped(n);
    right_align(digits, width)
}

/// Render the totals row.
pub fn totals_text(
    total_files: u64,
    total_dirs: u64,
    total_size: u64,
    total_ns: u64,
    width: usize,
) -> (r: String)
    ensures
        r@ == spec_totals_text(total_files, total_dirs, total_size, total_ns, width as nat),
{
    proof {
        reveal_strlit("");
        assert(""@ =~= Seq::<char>::empty());
    }
    let mut out = left_align(String::from_str("Total"), width);
    out.append(" ");
    let t = left_align(String::new(), 12);
    out.append(t.as_str());
    out.append(" ");
    let sz = right_align(format_size(total_size), 15);
    out.append(sz.as_str());
    out.append(" ");
    let f = format_number_u64(total_files, 12);
    out.append(f.as_str());
    out.append(" ");
    let dd = format_number_u64(total_dirs, 12);
    out.append(dd.as_str());
    out.append(" ");
    let secs = right_align(format_seconds(total_ns), 10);
    out.append(secs.as_str());
    out.append(" ");
    let t2 = right_align(format_duration(total_ns), 8);
    out.append(t2.as_str());
    out
}

/// Render the header row.
pub fn header_text(width: usize) -> (r: String)
    ensures
        r@ == spec_header_text(width as nat),
{
    let mut out = left_align(String::from_str("Path"), width);
    out.append(" ");
    let t = left_align(String::from_str("Type"), 12);
    out.append(t.as_str());
    out.append(" ");
    let sz = right_align(String::from_str("Size (GB / TB)"), 15);
    out.append(sz.as_str());
    out.append(" ");
    let f = right_align(String::from_str("Files"), 12);
    out.append(f.as_str());
    out.append(" ");
    let dd = right_align(String::from_str("Dirs"), 12);
    out.append(dd.as_str());
    out.append(" ");
    let secs = right_align(String::from_str("Time (s)"), 10);
    out.append(secs.as_str());
    out.append(" ");
    let t2 = right_align(String::from_str("Time"), 8);
    out.append(t2.as_str());
    out
}

/// The whole report: header, separator, one row per volume, separator,
/// totals. The totals are the saturating sums of the rows; the elapsed
/// time of the totals row is the run's wall-clock makespan, as handed in.
pub fn report_lines(drives: &Vec<DriveInfo>, total_elapsed_ns: u64) -> (r: Vec<String>)
    ensures
        r@.len() == drives@.len() + 4,
        r.deep_view()[0] == spec_header_text(spec_path_width(drives@)),
        r.deep_view()[1] == repeated(
            '-',
            spec_separator_width(spec_path_width(drives@)),
        ),
        forall|i: int|
            0 <= i < drives@.len() ==> r.deep_view()[2 + i] == spec_row_text(
                #[trigger] drives@[i],
                spec_path_width(drives@),
            ),
        r.deep_view()[drives@.len() as int + 2] == repeated(
            '-',
            spec_separator_width(spec_path_width(drives@)),
        ),
        r.deep_view()[drives@.len() as int + 3] == spec_totals_text(
            sat_cap(sum_files(drives@)),
            sat_cap(sum_dirs(drives@)),
            sat_cap(sum_sizes(drives@)),
            total_elapsed_ns,
            spec_path_width(drives@),
        ),
{
    let width = path_width(drives);
    let sep_width: usize = if width > usize::MAX - 75 {
        usize::MAX
    } else {
        width + 75
    };
    let mut out: Vec<String> = Vec::new();
    out.push(header_text(width));
    out.push(repeat_char('-', sep_width));
    let n = drives.len();
    let mut i: usize = 0;
    while i < n
        invariant
            i <= n,
            n == drives@.len(),
            width == spec_path_width(drives@),
            sep_width == spec_separator_width(spec_path_width(drives@)),
            out@.len() == i + 2,
            out.deep_view()[0] == spec_header_text(spec_path_width(drives@)),
            out.deep_view()[1] == repeated('-', spec_separator_width(spec_path_width(drives@))),
            forall|j: int|
                0 <= j < i ==> out.deep_view()[2 + j] == spec_row_text(
                    #[trigger] drives@[j],
                    spec_path_width(drives@),
                ),
        decreases n - i,
    {
        out.push(row_text(&drives[i], width));
        i = i + 1;
    }
    out.push(repeat_char('-', sep_width));
    let totals = aggregate_totals(drives);
    out.push(totals_text(totals.0, totals.1, totals.2, total_elapsed_ns, width));
    out
}

} // verus!

use uffs::errors::UffsError;
use uffs::report::aggregate_totals;
use uffs::report::report_lines;
use uffs::report::row_text;
use uffs::report::sort_drives_by_root_path;
use uffs::report::str_le;
use uffs::sizer::set_threads_count;
use uffs::sizer::size_threads;
use uffs::volume::DiskRecord;
use uffs::volume::DriveInfo;
use uffs::volume::MediumKind;
use uffs::volume::drive_key;
use uffs::volume::get_drive_letter;
use uffs::volume::get_root_path;
use uffs::volume::lookup_disk_record;
use uffs::volume::select_algorithm;
use uffs::walker::WalkStrategy;

fn drive(root: &str, kind: MediumKind, size: u64, files: u64, dirs: u64, ns: u64) -> DriveInfo {
    DriveInfo::new(String::from(root), kind, size, files, dirs, ns, WalkStrategy::BulkSyscall)
}

#[test]
fn worker_threads_from_cores() {
    // 24 cores: one tenth set aside leaves 22 workers, 44 blocking threads.
    assert_eq!(size_threads(24), (22, 44));
    // A host reporting zero cores is sized as four.
    assert_eq!(size_threads(0), (4, 8));
    assert_eq!(size_threads(10), (9, 18));
    let (w, b) = set_threads_count();
    assert!(w >= 1);
    assert_eq!(b, 2 * w);
}

#[test]
fn drive_letter_parsing() {
    assert_eq!(get_drive_letter(&String::from("C:\\Users")), Some(String::from("C")));
    assert_eq!(get_drive_letter(&String::from("d:")), Some(String::from("d")));
    assert_eq!(get_drive_letter(&String::from("\\\\server\\share")), None);
    assert_eq!(get_drive_letter(&String::from("x")), None);
    assert_eq!(drive_key(&String::from("C:\\Users")), Some(String::from("C:\\")));
    assert_eq!(drive_key(&String::from("relative\\path")), None);
}

#[test]
fn root_of_a_path() {
    assert_eq!(get_root_path(&String::from("C:\\Users\\a")), "C:");
    assert_eq!(get_root_path(&String::from("/home/a")), "/");
    assert_eq!(get_root_path(&String::from("\\windows")), "/");
    assert_eq!(get_root_path(&String::from("relative")), "");
}

#[test]
fn disk_record_lookup() {
    let records = vec![
        DiskRecord { path: String::from("C:\\"), drive_type: MediumKind::Ssd, size_bytes: 10 },
        DiskRecord { path: String::from("D:\\"), drive_type: MediumKind::Hdd, size_bytes: 20 },
    ];
    let hit = lookup_disk_record(&records, &String::from("D:\\"));
    assert_eq!(hit, Some((MediumKind::Hdd, 20)));
    assert_eq!(lookup_disk_record(&records, &String::from("E:\\")), None);
}

#[test]
fn strategy_choice() {
    let empty = drive("C:\\", MediumKind::Ssd, 1, 0, 0, 0);
    assert!(matches!(select_algorithm(&empty), Err(UffsError::EmptyDriveInfo)));
    let small_ssd = drive("C:\\", MediumKind::Ssd, 1, 100, 5, 0);
    assert!(matches!(select_algorithm(&small_ssd), Ok(WalkStrategy::BoundedConcurrent)));
    let big_ssd = drive("C:\\", MediumKind::Ssd, 1, 3_000_000, 5, 0);
    assert!(matches!(select_algorithm(&big_ssd), Ok(WalkStrategy::UnboundedSequential)));
    let hdd = drive("D:\\", MediumKind::Hdd, 1, 100, 5, 0);
    assert!(matches!(select_algorithm(&hdd), Ok(WalkStrategy::UnboundedSequential)));
    let unknown = drive("E:\\", MediumKind::Unknown, 1, 100, 5, 0);
    assert!(matches!(select_algorithm(&unknown), Ok(WalkStrategy::BoundedConcurrent)));
}

#[test]
fn drives_sort_by_root_path() {
    let drives = vec![
        drive("M:\\", MediumKind::Hdd, 1, 0, 0, 0),
        drive("C:\\", MediumKind::Ssd, 1, 0, 0, 0),
        drive("F:\\", MediumKind::Ssd, 1, 0, 0, 0),
    ];
    let sorted = sort_drives_by_root_path(drives);
    let roots: Vec<&str> = sorted.iter().map(|d| d.root_path.as_str()).collect();
    assert_eq!(roots, vec!["C:\\", "F:\\", "M:\\"]);
    assert!(str_le("C:\\", "D:\\"));
    assert!(!str_le("D:\\", "C:\\"));
    assert!(str_le("", "C:\\"));
}

#[test]
fn totals_sum_the_volumes() {
    let drives = vec![
        drive("C:\\", MediumKind::Ssd, 100, 11, 2, 0),
        drive("D:\\", MediumKind::Hdd, 200, 22, 3, 0),
    ];
    assert_eq!(aggregate_totals(&drives), (33, 5, 300));
}

#[test]
fn totals_saturate_rather_than_wrap() {
    let drives = vec![
        drive("C:\\", MediumKind::Ssd, u64::MAX, u64::MAX, 1, 0),
        drive("D:\\", MediumKind::Hdd, 10, 10, 1, 0),
    ];
    let (files, dirs, size) = aggregate_totals(&drives);
    assert_eq!(files, u64::MAX);
    assert_eq!(dirs, 2);
    assert_eq!(size, u64::MAX);
}

#[test]
fn report_row_renders_each_column() {
    let d = drive("C:\\", MediumKind::Ssd, 1932735217664, 1234567, 89, 1_500_000_000);
    let row = row_text(&d, 5);
    let expected = format!(
        "{:<5} {:<12} {:>15} {:>12} {:>12} {:>10} {:>8}",
        "C:\\", "SSD", "1.80 TB", "1,234,567", "89", "1.500", "  1 s  500 ms",
    );
    assert_eq!(row, expected);
}

#[test]
fn report_has_header_rows_and_totals() {
    let drives = vec![
        drive("C:\\", MediumKind::Ssd, 100, 1, 1, 0),
        drive("D:\\", MediumKind::Hdd, 200, 2, 2, 0),
    ];
    let lines = report_lines(&drives, 2_000_000_000);
    assert_eq!(lines.len(), 6);
    assert!(lines[0].starts_with("Path"));
    assert!(lines[1].chars().all(|c| c == '-'));
    assert!(lines[2].starts_with("C:\\"));
    assert!(lines[3].starts_with("D:\\"));
    assert!(lines[4].chars().all(|c| c == '-'));
    assert!(lines[5].starts_with("Total"));
    assert!(lines[5].contains("2.000"));
}

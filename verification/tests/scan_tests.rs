use uffs::errors::UffsError;
use uffs::scan::CountState;
use uffs::scan::EntryClass;
use uffs::scan::RawEntry;
use uffs::scan::add_wildcard;
use uffs::scan::classify_entry;
use uffs::scan::create_full_path;
use uffs::scan::handle_find_error;
use uffs::scan::handle_find_error_for_reader;
use uffs::scan::scan_entries;
use uffs::scan::u16_to_string;

fn wide(s: &str) -> Vec<u16> {
    s.chars().map(|c| c as u16).collect()
}

#[test]
fn wildcard_appends_star_and_nul() {
    let p = wide("C:\\x");
    let w = add_wildcard(&p);
    assert_eq!(w, vec![67, 58, 92, 120, 42, 0]);
}

#[test]
fn full_path_joins_with_backslashes() {
    let p = create_full_path(&wide("C:"), &wide("ab"));
    assert_eq!(u16_to_string(&p), "C:\\ab\\");
}

#[test]
fn classification_of_entries() {
    assert!(matches!(classify_entry(&wide("."), 16), EntryClass::Skipped));
    assert!(matches!(classify_entry(&wide(".."), 16), EntryClass::Skipped));
    assert!(matches!(classify_entry(&wide("sub"), 16), EntryClass::Subdirectory));
    assert!(matches!(classify_entry(&wide("a.txt"), 32), EntryClass::PlainFile));
    // A file named with a lone dot-dot-dot is no pseudo-entry.
    assert!(matches!(classify_entry(&wide("..."), 0), EntryClass::PlainFile));
}

#[test]
fn scanning_counts_and_queues() {
    let dir = wide("D:");
    let entries = vec![
        RawEntry { name: wide("."), attributes: 16 },
        RawEntry { name: wide(".."), attributes: 16 },
        RawEntry { name: wide("a.txt"), attributes: 32 },
        RawEntry { name: wide("sub"), attributes: 16 },
        RawEntry { name: wide("b.txt"), attributes: 0 },
        RawEntry { name: wide("sub2"), attributes: 17 },
    ];
    let (files, dirs, paths) = scan_entries(&dir, &entries);
    assert_eq!(files, 2);
    assert_eq!(dirs, 2);
    assert_eq!(paths.len(), 2);
    assert_eq!(u16_to_string(&paths[0]), "D:\\sub\\");
    assert_eq!(u16_to_string(&paths[1]), "D:\\sub2\\");
}

#[test]
fn benign_errors_empty_the_contribution() {
    for code in [2u32, 3, 5] {
        let mut nf = 7u64;
        let mut nd = 9u64;
        let mut paths = vec![wide("x")];
        let r = handle_find_error(code, &mut nf, &mut nd, &mut paths);
        let (a, b, c) = r.unwrap();
        assert_eq!((a, b, c.len()), (0, 0, 0));
        assert_eq!((nf, nd, paths.len()), (0, 0, 0));
    }
}

#[test]
fn hard_errors_carry_their_code() {
    let mut nf = 7u64;
    let mut nd = 9u64;
    let mut paths = vec![wide("x")];
    let r = handle_find_error(1920, &mut nf, &mut nd, &mut paths);
    assert!(matches!(r, Err(UffsError::Io(1920))));
    assert_eq!((nf, nd, paths.len()), (7, 9, 1));
    assert!(handle_find_error_for_reader(5).is_ok());
    assert!(matches!(handle_find_error_for_reader(6), Err(UffsError::Io(6))));
}

#[test]
fn utf16_units_decode_and_surrogates_drop() {
    assert_eq!(u16_to_string(&[72, 105]), "Hi");
    assert_eq!(u16_to_string(&[72, 0xD800, 105]), "Hi");
    assert_eq!(u16_to_string(&[]), "");
}

#[test]
fn counting_traversal_drains_to_completion() {
    // Root holds one file and one subdirectory; the subdirectory holds
    // two files.
    let mut state = CountState::seeded(wide("R:"));
    let mut popped = 0;
    while let Some(path) = state.pop() {
        popped += 1;
        let entries = if u16_to_string(&path) == "R:" {
            vec![
                RawEntry { name: wide("f"), attributes: 0 },
                RawEntry { name: wide("s"), attributes: 16 },
            ]
        } else {
            vec![
                RawEntry { name: wide("g"), attributes: 0 },
                RawEntry { name: wide("h"), attributes: 0 },
            ]
        };
        let (nf, nd, paths) = scan_entries(&path, &entries);
        state.merge_scan(nf, nd, paths);
    }
    assert_eq!(popped, 2);
    assert_eq!(state.num_files, 3);
    assert_eq!(state.num_dirs, 1);
}

#[test]
fn error_messages() {
    assert_eq!(UffsError::Io(5).message(), "IO error: os error 5");
    assert_eq!(UffsError::EmptyDriveInfo.message(), "Drive information is empty.");
    assert_eq!(UffsError::DriveLetterNotFound.message(), "Drive letter not found.");
    assert_eq!(UffsError::DirectoryReadError.message(), "Failed to read directory entries.");
    assert_eq!(
        UffsError::ConfigError(String::from("bad depth")).message(),
        "Configuration error: bad depth"
    );
    assert_eq!(
        UffsError::CustomError { message: String::from("boom"), data: 3 }.message(),
        "Custom error with data: boom, data: 3"
    );
}

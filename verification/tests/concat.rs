use fsconcat::filesystem_walker::{
    FileSystemEntryError, FileSystemWalker, FsDirectory, FsNode, RootSnapshot,
};
use fsconcat::run;
use fsconcat::rust_file_concatenator::{extension_matches, RustFileConcatenator};

fn file(path: &str, content: &str) -> FsNode {
    FsNode::File {
        path: path.as_bytes().to_vec(),
        content: Some(content.as_bytes().to_vec()),
    }
}

fn sample_tree() -> FsDirectory {
    FsDirectory {
        path: b"dir".to_vec(),
        children: Some(vec![
            file("dir/a.rs", "fn a(){}"),
            FsNode::Directory(FsDirectory {
                path: b"dir/sub".to_vec(),
                children: Some(vec![file("dir/sub/b.rs", "fn b(){}")]),
            }),
            file("dir/readme.txt", "notes"),
        ]),
    }
}

fn sample_expected() -> Vec<u8> {
    let mut expected = Vec::new();
    expected.extend_from_slice(b"// Start of file: dir/a.rs\n");
    expected.extend_from_slice(b"fn a(){}");
    expected.extend_from_slice(b"// End of file: dir/a.rs\n");
    expected.extend_from_slice(b"// Start of file: dir/sub/b.rs\n");
    expected.extend_from_slice(b"fn b(){}");
    expected.extend_from_slice(b"// End of file: dir/sub/b.rs\n");
    expected
}

#[test]
fn concatenates_matching_files_in_preorder() {
    let result = run(&RootSnapshot::Root(sample_tree()), b"output.rs".to_vec(), 3);
    assert_eq!(result, Ok(sample_expected()));
}

#[test]
fn progress_counter_counts_files_and_directories() {
    let mut concatenator = RustFileConcatenator::new(b"output.rs".to_vec(), 3);
    concatenator.open_output_file().unwrap();
    let mut walker = FileSystemWalker::new(concatenator);
    walker.walk_directory(&sample_tree()).unwrap();
    // a.rs, the sub directory itself, b.rs and readme.txt: four entries.
    assert_eq!(walker.processor.num_files_processed, 4);
}

#[test]
fn empty_directory_gives_empty_output_and_zero_count() {
    let tree = FsDirectory { path: b"dir".to_vec(), children: Some(vec![]) };
    let result = run(&RootSnapshot::Root(tree), b"output.rs".to_vec(), 0);
    assert_eq!(result, Ok(Vec::new()));

    let tree = FsDirectory { path: b"dir".to_vec(), children: Some(vec![]) };
    let mut concatenator = RustFileConcatenator::new(b"output.rs".to_vec(), 0);
    concatenator.open_output_file().unwrap();
    let mut walker = FileSystemWalker::new(concatenator);
    walker.walk_directory(&tree).unwrap();
    assert_eq!(walker.processor.num_files_processed, 0);
}

#[test]
fn unreadable_subdirectory_aborts_and_keeps_earlier_output() {
    let tree = FsDirectory {
        path: b"dir".to_vec(),
        children: Some(vec![
            file("dir/a.rs", "fn a(){}"),
            FsNode::Directory(FsDirectory { path: b"dir/bad".to_vec(), children: None }),
            file("dir/c.rs", "fn c(){}"),
        ]),
    };
    let mut concatenator = RustFileConcatenator::new(b"output.rs".to_vec(), 3);
    concatenator.open_output_file().unwrap();
    let mut walker = FileSystemWalker::new(concatenator);
    let result = walker.walk_directory(&tree);
    assert_eq!(result, Err(FileSystemEntryError::IoError));

    let mut expected = Vec::new();
    expected.extend_from_slice(b"// Start of file: dir/a.rs\n");
    expected.extend_from_slice(b"fn a(){}");
    expected.extend_from_slice(b"// End of file: dir/a.rs\n");
    assert_eq!(walker.processor.output_file, Some(expected));
}

#[test]
fn unreadable_matching_file_aborts() {
    let tree = FsDirectory {
        path: b"dir".to_vec(),
        children: Some(vec![FsNode::File { path: b"dir/a.rs".to_vec(), content: None }]),
    };
    let result = run(&RootSnapshot::Root(tree), b"output.rs".to_vec(), 1);
    assert_eq!(result, Err(FileSystemEntryError::IoError));
}

#[test]
fn unreadable_non_matching_file_is_harmless() {
    let tree = FsDirectory {
        path: b"dir".to_vec(),
        children: Some(vec![FsNode::File { path: b"dir/a.txt".to_vec(), content: None }]),
    };
    let result = run(&RootSnapshot::Root(tree), b"output.rs".to_vec(), 1);
    assert_eq!(result, Ok(Vec::new()));
}

#[test]
fn skipped_entries_produce_nothing_and_do_not_count() {
    let tree = FsDirectory {
        path: b"dir".to_vec(),
        children: Some(vec![
            FsNode::Other { path: b"dir/link".to_vec() },
            file("dir/a.rs", "fn a(){}"),
        ]),
    };
    let mut concatenator = RustFileConcatenator::new(b"output.rs".to_vec(), 1);
    concatenator.open_output_file().unwrap();
    let mut walker = FileSystemWalker::new(concatenator);
    walker.walk_directory(&tree).unwrap();
    assert_eq!(walker.processor.num_files_processed, 1);
}

#[test]
fn missing_root_fails_with_not_found() {
    let result = run(&RootSnapshot::Missing, b"output.rs".to_vec(), 0);
    assert_eq!(result, Err(FileSystemEntryError::NotFound));
}

#[test]
fn file_root_fails_with_not_a_directory() {
    let result = run(&RootSnapshot::NotDirectory, b"output.rs".to_vec(), 0);
    assert_eq!(result, Err(FileSystemEntryError::NotADirectory));
}

#[test]
fn opening_output_twice_fails_with_already_exists() {
    let mut concatenator = RustFileConcatenator::new(b"output.rs".to_vec(), 0);
    assert!(concatenator.open_output_file().is_ok());
    assert_eq!(concatenator.open_output_file(), Err(FileSystemEntryError::AlreadyExists));
    // After closing, the output can be opened again.
    concatenator.close_output_file().unwrap();
    assert!(concatenator.open_output_file().is_ok());
}

#[test]
fn rerun_on_unchanged_tree_is_byte_identical() {
    let first = run(&RootSnapshot::Root(sample_tree()), b"output.rs".to_vec(), 3);
    let second = run(&RootSnapshot::Root(sample_tree()), b"output.rs".to_vec(), 3);
    assert_eq!(first, second);
    assert_eq!(first, Ok(sample_expected()));
}

#[test]
fn extension_matching_is_exact_and_case_sensitive() {
    let rs = b"rs".to_vec();
    assert!(extension_matches(&b"a.rs".to_vec(), &rs));
    assert!(extension_matches(&b"dir/x.rs".to_vec(), &rs));
    assert!(extension_matches(&b"a.txt.rs".to_vec(), &rs));
    assert!(!extension_matches(&b"a.RS".to_vec(), &rs));
    assert!(!extension_matches(&b"a.txt".to_vec(), &rs));
    assert!(!extension_matches(&b"a.rs.txt".to_vec(), &rs));
    assert!(!extension_matches(&b".rs".to_vec(), &rs));
    assert!(!extension_matches(&b"dir.rs/a".to_vec(), &rs));
    assert!(!extension_matches(&b"noext".to_vec(), &rs));
    assert!(!extension_matches(&b"".to_vec(), &rs));
    assert!(extension_matches(&b"a.".to_vec(), &b"".to_vec()));
}

#[test]
fn progress_message_before_any_entry_reports_zero() {
    let concatenator = RustFileConcatenator::new(b"output.rs".to_vec(), 5);
    let message = concatenator.progress_message();
    assert_eq!(message, b"Processed 0 of 5 files in 0s".to_vec());
}

#[test]
fn progress_message_reports_counter_and_total() {
    let mut concatenator = RustFileConcatenator::new(b"output.rs".to_vec(), 7);
    concatenator.open_output_file().unwrap();
    let mut walker = FileSystemWalker::new(concatenator);
    walker.walk_directory(&sample_tree()).unwrap();
    let message = walker.processor.progress_message();
    let text = String::from_utf8(message).unwrap();
    assert!(text.starts_with("Processed 4 of 7 files in "), "{}", text);
}

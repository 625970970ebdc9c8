use file_cmp::{
    chunk_size_or_default, compare_dirs, compare_files, overall_status, status, Entry, FileDiff,
    Node,
};

/// The bytes of the sample file at that path.
fn sample(path: &str) -> Vec<u8> {
    let text = match path {
        "tests/testfiles/test.txt" => "test",
        "tests/testfiles/west.txt" => "west",
        "tests/testfiles/text.txt" => "text",
        "tests/testfiles/testing.txt" => "testing",
        other => panic!("no sample file {}", other),
    };
    text.as_bytes().to_vec()
}

fn file(name: &str, content: &str) -> Entry<Vec<u8>> {
    Entry { name: name.to_string(), node: Node::File(content.as_bytes().to_vec()) }
}

fn dir(name: &str, entries: Vec<Entry<Vec<u8>>>) -> Entry<Vec<u8>> {
    Entry { name: name.to_string(), node: Node::Dir(entries) }
}

fn labels(entries: &Vec<(String, FileDiff)>) -> Vec<&'static str> {
    entries.iter().map(|entry| entry.1.as_desc()).collect()
}

// --- File comparison ---

#[test]
fn test_file_equal() {
    let a = sample("tests/testfiles/test.txt");
    let b = sample("tests/testfiles/test.txt");
    let diff = compare_files(&a, &b, false, chunk_size_or_default(None));
    assert_eq!(diff, FileDiff::Equal);
    assert_eq!(status(&diff), 0);
}

#[test]
fn test_file_different() {
    let a = sample("tests/testfiles/test.txt");
    let b = sample("tests/testfiles/west.txt");
    let diff = compare_files(&a, &b, false, chunk_size_or_default(None));
    assert_eq!(diff, FileDiff::Different(0));
    assert_eq!(status(&diff), 1);
}

#[test]
fn test_file_different_middle() {
    let a = sample("tests/testfiles/test.txt");
    let b = sample("tests/testfiles/text.txt");
    let diff = compare_files(&a, &b, false, chunk_size_or_default(None));
    assert_eq!(diff, FileDiff::Different(2));
    assert_eq!(status(&diff), 1);
}

// --- Output for programs ---

#[test]
fn test_machine_readable_equal() {
    let a = sample("tests/testfiles/test.txt");
    let b = sample("tests/testfiles/test.txt");
    let diff = compare_files(&a, &b, false, chunk_size_or_default(None));
    assert_eq!(diff.as_number(), "-1");
    assert_eq!(status(&diff), 0);
}

#[test]
fn test_machine_readable_different() {
    let a = sample("tests/testfiles/test.txt");
    let b = sample("tests/testfiles/text.txt");
    let diff = compare_files(&a, &b, false, chunk_size_or_default(None));
    assert_eq!(diff.as_number(), "2");
    assert_eq!(status(&diff), 1);
}

// --- Quick mode ---

#[test]
fn test_quick_mode_different_sizes() {
    let a = sample("tests/testfiles/test.txt");
    let b = sample("tests/testfiles/testing.txt");
    let diff = compare_files(&a, &b, true, chunk_size_or_default(None));
    assert_eq!(diff.as_number(), "0");
    assert_eq!(status(&diff), 1);
}

#[test]
fn test_quick_mode_equal() {
    let a = sample("tests/testfiles/test.txt");
    let b = sample("tests/testfiles/test.txt");
    let diff = compare_files(&a, &b, true, chunk_size_or_default(None));
    assert_eq!(diff, FileDiff::Equal);
    assert_eq!(status(&diff), 0);
}

// --- Chunk size ---

#[test]
fn test_chunk_size_small() {
    let a = sample("tests/testfiles/test.txt");
    let b = sample("tests/testfiles/test.txt");
    let chunk_size = chunk_size_or_default(Some("64"));
    assert_eq!(chunk_size, 64);
    let diff = compare_files(&a, &b, false, chunk_size);
    assert_eq!(status(&diff), 0);
}

#[test]
fn test_chunk_size_with_suffix() {
    let a = sample("tests/testfiles/test.txt");
    let b = sample("tests/testfiles/test.txt");
    let chunk_size = chunk_size_or_default(Some("1k"));
    assert_eq!(chunk_size, 1024);
    let diff = compare_files(&a, &b, false, chunk_size);
    assert_eq!(status(&diff), 0);
}

// --- Directory comparison ---

#[test]
fn test_directory_comparison() {
    let dir1 = vec![
        file("same.txt", "content"),
        file("diff.txt", "content1"),
        file("left_only.txt", "left"),
    ];
    let dir2 = vec![
        file("same.txt", "content"),
        file("diff.txt", "content2"),
        file("right_only.txt", "right"),
    ];

    let entries = compare_dirs(&dir1, &dir2, false, chunk_size_or_default(None));
    assert_eq!(overall_status(&entries), 1);
    let seen = labels(&entries);
    assert!(seen.contains(&"equal"));
    assert!(seen.contains(&"diff"));
    assert!(seen.contains(&"left only"));
    assert!(seen.contains(&"right only"));

    assert_eq!(entries.len(), 4);
    assert!(entries.contains(&("same.txt".to_string(), FileDiff::Equal)));
    assert!(entries.contains(&("diff.txt".to_string(), FileDiff::Different(7))));
    assert!(entries.contains(&("left_only.txt".to_string(), FileDiff::LeftOnly)));
    assert!(entries.contains(&("right_only.txt".to_string(), FileDiff::RightOnly)));
}

#[test]
fn test_directory_all_equal() {
    let dir1 = vec![file("file.txt", "content")];
    let dir2 = vec![file("file.txt", "content")];

    let entries = compare_dirs(&dir1, &dir2, false, chunk_size_or_default(None));
    assert_eq!(overall_status(&entries), 0);
    assert!(labels(&entries).contains(&"equal"));
    assert_eq!(entries, vec![("file.txt".to_string(), FileDiff::Equal)]);
}

#[test]
fn test_directory_machine_readable() {
    let dir1 = vec![file("same.txt", "content")];
    let dir2 = vec![file("same.txt", "content")];

    let entries = compare_dirs(&dir1, &dir2, false, chunk_size_or_default(None));
    assert_eq!(overall_status(&entries), 0);
    assert_eq!(entries.len(), 1);
    assert_eq!(entries[0].1.as_number(), "-1");
    assert!(!entries[0].1.as_number().contains("("));
}

// --- Edge cases ---

#[test]
fn test_empty_directory() {
    let dir1: Vec<Entry<Vec<u8>>> = Vec::new();
    let dir2: Vec<Entry<Vec<u8>>> = Vec::new();

    let entries = compare_dirs(&dir1, &dir2, false, chunk_size_or_default(None));
    assert!(entries.is_empty());
    assert_eq!(overall_status(&entries), 0);
}

#[test]
fn test_nested_directories() {
    let dir1 = vec![dir("subdir", vec![file("file.txt", "content")])];
    let dir2 = vec![dir("subdir", vec![file("file.txt", "content")])];

    let entries = compare_dirs(&dir1, &dir2, false, chunk_size_or_default(None));
    assert_eq!(overall_status(&entries), 0);
    assert!(labels(&entries).contains(&"equal"));
    assert_eq!(entries, vec![("subdir/file.txt".to_string(), FileDiff::Equal)]);
}

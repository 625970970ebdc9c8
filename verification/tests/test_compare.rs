use file_cmp::compare_files;
use file_cmp::FileDiff::{Different, Equal};

/// The bytes of the sample file of that name.
fn p(name: &str) -> Vec<u8> {
    let text = match name {
        "test.txt" => "test",
        "west.txt" => "west",
        "tesx.txt" => "tesx",
        "text.txt" => "text",
        "testing.txt" => "testing",
        "emptyfile.txt" => "",
        other => panic!("no sample file {}", other),
    };
    text.as_bytes().to_vec()
}

#[test]
fn test_compare_files_equal() {
    // Test when files are equal
    let res = compare_files(&p("test.txt"), &p("test.txt"), false, 4096);
    assert_eq!(res, Equal);
}

#[test]
fn test_compare_files_differ_beginning() {
    // Test when files differ at the beginning
    let res = compare_files(&p("west.txt"), &p("test.txt"), false, 4096);
    assert_eq!(res, Different(0));
    let res = compare_files(&p("test.txt"), &p("west.txt"), false, 4096);
    assert_eq!(res, Different(0));
}

#[test]
fn test_compare_files_differ_end() {
    // Test when files differ at the end
    let res = compare_files(&p("test.txt"), &p("tesx.txt"), false, 4096);
    assert_eq!(res, Different(3));
    let res = compare_files(&p("tesx.txt"), &p("test.txt"), false, 4096);
    assert_eq!(res, Different(3));
}

#[test]
fn test_compare_files_middle() {
    // Test when files differ in the middle
    let res = compare_files(&p("test.txt"), &p("text.txt"), false, 4096);
    assert_eq!(res, Different(2));
    let res = compare_files(&p("text.txt"), &p("test.txt"), false, 4096);
    assert_eq!(res, Different(2));
}

#[test]
fn test_compare_files_one_shorter() {
    // Test when file1 is shorter than file2
    let res = compare_files(&p("testing.txt"), &p("test.txt"), false, 4096);
    assert_eq!(res, Different(4));
    let res = compare_files(&p("test.txt"), &p("testing.txt"), false, 4096);
    assert_eq!(res, Different(4));
}

#[test]
fn test_compare_files_one_emtpy() {
    // Test when file1 is empty
    let res = compare_files(&p("emptyfile.txt"), &p("test.txt"), false, 4096);
    assert_eq!(res, Different(0));
    let res = compare_files(&p("test.txt"), &p("emptyfile.txt"), false, 4096);
    assert_eq!(res, Different(0));
}

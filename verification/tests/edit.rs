use rivia_file::FileError;
use rivia_file::extract;
use rivia_file::extract_all;
use rivia_file::insert_lines;
use rivia_file::replace_all;
use rivia_file::replace_all_ne;

fn strings(items: &[&str]) -> Vec<String> {
    let mut out = Vec::new();
    for item in items {
        out.push(item.to_string());
    }
    out
}

#[test]
fn test_extract() {
    let data = "Not my favorite movie: 'Citizen Kane' (1941).";
    assert_eq!(extract(data, r"'([^']+)'\s+\((\d{4})\)").unwrap(), "Citizen Kane");
}

#[test]
fn test_extract_all() {
    let data = "Not my favorite movie: 'Citizen Kane' (1941)\nAnother not great movie: 'Zoolander' (2001)\n";
    assert_eq!(
        extract_all(data, r"'[^']+'\s+\(\d{4}\)").unwrap(),
        vec!["'Citizen Kane' (1941)", "'Zoolander' (2001)"]
    );
}

#[test]
fn test_insert_lines_error_cases() {
    // file exists and regex is invalid
    let f_lines = strings(&["foo"]);
    assert_eq!(
        insert_lines(&f_lines, &strings(&["foo"]), r"[", 0).unwrap_err(),
        FileError::InvalidPattern
    );

    // offset out of range
    assert_eq!(
        insert_lines(&f_lines, &strings(&["foo"]), r"", -2).unwrap_err(),
        FileError::InsertLocationNotFound
    );
}

#[test]
fn test_insert_lines_multi_before() {
    let f_lines = strings(&["foo3"]);
    assert_eq!(
        insert_lines(&f_lines, &strings(&["foo1", "foo2"]), r"foo3", 0).unwrap(),
        vec!["foo1".to_string(), "foo2".to_string(), "foo3".to_string()]
    );
}

#[test]
fn test_insert_lines_multi_before_neg() {
    let f_lines = strings(&["foo3", "foo4"]);
    assert_eq!(
        insert_lines(&f_lines, &strings(&["foo1", "foo2"]), r"foo4", -1).unwrap(),
        vec!["foo1".to_string(), "foo2".to_string(), "foo3".to_string(), "foo4".to_string()]
    );
}

#[test]
fn test_insert_lines_multi_after() {
    let f_lines = strings(&["foo3"]);
    assert_eq!(
        insert_lines(&f_lines, &strings(&["foo1", "foo2"]), r"foo3", 1).unwrap(),
        vec!["foo3".to_string(), "foo1".to_string(), "foo2".to_string()]
    );
}

#[test]
fn test_insert_lines_single_offset() {
    // Seed the lines
    let f_lines = strings(&["foo3"]);

    // Insert before with offset = 0
    let f_lines = insert_lines(&f_lines, &strings(&["foo2"]), r"foo3", 0).unwrap();
    assert_eq!(f_lines, vec!["foo2".to_string(), "foo3".to_string()]);

    // Insert after with offset = 1
    let f_lines = insert_lines(&f_lines, &strings(&["foo4"]), r"foo3", 1).unwrap();
    assert_eq!(f_lines, vec!["foo2".to_string(), "foo3".to_string(), "foo4".to_string()]);

    // Insert before negative with offset = -1
    let f_lines = insert_lines(&f_lines, &strings(&["foo1"]), r"foo3", -1).unwrap();
    assert_eq!(
        f_lines,
        vec!["foo1".to_string(), "foo2".to_string(), "foo3".to_string(), "foo4".to_string()]
    );
}

#[test]
fn test_replace() {
    let data = "foo1\nfoo2\nfoo3\n";
    assert_eq!(replace_all(data, r"foo2", "blah").unwrap(), Some("foo1\nblah\nfoo3\n".to_string()));
}

#[test]
fn extract_reports_invalid_pattern() {
    assert_eq!(extract("foo", r"["), Err(FileError::InvalidPattern));
    assert_eq!(extract_all("foo", r"("), Err(FileError::InvalidPattern));
    assert_eq!(replace_all("foo", r"[", "x"), Err(FileError::InvalidPattern));
    assert_eq!(replace_all_ne("foo", r"[", "x"), Err(FileError::InvalidPattern));
}

#[test]
fn extract_fails_without_match_or_group() {
    // no match at all
    assert_eq!(extract("foo", r"(bar)"), Err(FileError::ExtractionFailed));
    // a match but the pattern defines no group 1
    assert_eq!(extract("foo", r"foo"), Err(FileError::ExtractionFailed));
    // a match whose group 1 did not participate
    assert_eq!(extract("b", r"(a)|b"), Err(FileError::ExtractionFailed));
}

#[test]
fn extract_all_zero_matches_is_empty() {
    let values = extract_all("foo1\nfoo2\n", r"bar").unwrap();
    assert_eq!(values.len(), 0);
}

#[test]
fn extract_all_keeps_participating_groups_only() {
    // with subgroups: each match contributes group 0 and its participating groups
    assert_eq!(extract_all("1x", r"(\d)|(x)").unwrap(), vec!["1", "1", "x", "x"]);
    // named groups participate like positional ones
    assert_eq!(
        extract_all("Springsteen, Bruce", r"(?P<last>[^,\s]+),\s+(?P<first>\S+)").unwrap(),
        vec!["Springsteen, Bruce", "Springsteen", "Bruce"]
    );
}

#[test]
fn insert_lines_below_zero_fails() {
    let f_lines = strings(&["foo3", "foo4"]);
    assert_eq!(
        insert_lines(&f_lines, &strings(&["foo1"]), r"foo3", -1).unwrap_err(),
        FileError::InsertLocationNotFound
    );
    // the anchor must exist at all
    assert_eq!(
        insert_lines(&f_lines, &strings(&["foo1"]), r"foo9", 0).unwrap_err(),
        FileError::InsertLocationNotFound
    );
}

#[test]
fn insert_lines_past_end_appends() {
    let f_lines = strings(&["a", "b"]);
    assert_eq!(
        insert_lines(&f_lines, &strings(&["x"]), r"a", 5).unwrap(),
        vec!["a".to_string(), "b".to_string(), "x".to_string()]
    );
}

#[test]
fn replace_all_expands_group_references() {
    let data = "Springsteen, Bruce";
    assert_eq!(
        replace_all(data, r"(?P<last>[^,\s]+),\s+(?P<first>\S+)", "${first}_${last}").unwrap(),
        Some("Bruce_Springsteen".to_string())
    );
    // positional references work the same way
    assert_eq!(
        replace_all(data, r"([^,\s]+),\s+(\S+)", "${2}_${1}").unwrap(),
        Some("Bruce_Springsteen".to_string())
    );
}

#[test]
fn replace_all_ne_keeps_value_verbatim() {
    let data = "foo1\nfoo2\n";
    assert_eq!(replace_all_ne(data, r"foo2", "$1").unwrap(), Some("foo1\n$1\n".to_string()));
}

#[test]
fn replace_all_zero_matches_writes_nothing() {
    assert_eq!(replace_all("foo1\nfoo2\n", r"bar", "baz").unwrap(), None);
    assert_eq!(replace_all_ne("foo1\nfoo2\n", r"bar", "baz").unwrap(), None);
}

#[test]
fn empty_content_cases() {
    // nothing to match in empty content
    assert_eq!(extract("", r"(foo)"), Err(FileError::ExtractionFailed));
    assert_eq!(extract_all("", r"foo").unwrap().len(), 0);
    assert_eq!(replace_all("", r"foo", "bar").unwrap(), None);
    // no line of an empty file can anchor an insertion
    let empty: Vec<String> = Vec::new();
    assert_eq!(
        insert_lines(&empty, &strings(&["foo"]), r"foo", 0).unwrap_err(),
        FileError::InsertLocationNotFound
    );
}

#[test]
fn replace_all_is_idempotent_once_settled() {
    let data = "Springsteen, Bruce";
    let once = replace_all(data, r"(?P<last>[^,\s]+),\s+(?P<first>\S+)", "${first}_${last}")
        .unwrap()
        .unwrap();
    assert_eq!(once, "Bruce_Springsteen");
    // the pattern no longer matches, so a second application changes nothing
    let twice = replace_all(&once, r"(?P<last>[^,\s]+),\s+(?P<first>\S+)", "${first}_${last}")
        .unwrap();
    assert_eq!(twice, None);
}

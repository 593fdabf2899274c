use viewd::cursor::{ImportError, PathCursor};

fn bytes_of(s: &str) -> Vec<u8> {
    s.as_bytes().to_vec()
}

fn get_paths() -> Vec<Vec<u8>> {
    vec![
        bytes_of("./foo/bar.txt"),
        bytes_of("./bim/bam.txt"),
        bytes_of("./bar/foo.txt"),
    ]
}

#[test]
fn test_cursor_next() {
    let p = get_paths();
    let mut v = PathCursor::new(p);
    assert_eq!(v.next(), Some(bytes_of("./foo/bar.txt")));
    assert_eq!(v.next(), Some(bytes_of("./bim/bam.txt")));
    assert_eq!(v.next(), Some(bytes_of("./bar/foo.txt")));
    assert_eq!(v.next(), Some(bytes_of("./foo/bar.txt")));
    assert_eq!(v.next(), Some(bytes_of("./bim/bam.txt")));
}

#[test]
fn test_cursor_prev() {
    let p = get_paths();
    let mut v = PathCursor::new(p);
    assert_eq!(v.prev(), Some(bytes_of("./bar/foo.txt")));
    assert_eq!(v.prev(), Some(bytes_of("./bim/bam.txt")));
    assert_eq!(v.prev(), Some(bytes_of("./foo/bar.txt")));
    assert_eq!(v.prev(), Some(bytes_of("./bar/foo.txt")));
}

#[test]
fn import_sorts_by_file_name() {
    // File names decide the order; bam < bar < foo.
    let cursor = PathCursor::import_files(get_paths()).expect("import");
    let mut c = cursor;
    assert_eq!(c.next(), Some(bytes_of("./bim/bam.txt")));
    assert_eq!(c.next(), Some(bytes_of("./foo/bar.txt")));
    assert_eq!(c.next(), Some(bytes_of("./bar/foo.txt")));
    // Wrap: the round starts over.
    assert_eq!(c.next(), Some(bytes_of("./bim/bam.txt")));
}

#[test]
fn import_example_sort_order() {
    // Bare names sort the same way: bam.txt, bar.txt, foo.txt.
    let entries = vec![bytes_of("bar.txt"), bytes_of("bam.txt"), bytes_of("foo.txt")];
    let mut c = PathCursor::import_files(entries).expect("import");
    assert_eq!(c.next(), Some(bytes_of("bam.txt")));
    assert_eq!(c.next(), Some(bytes_of("bar.txt")));
    assert_eq!(c.next(), Some(bytes_of("foo.txt")));
    assert_eq!(c.next(), Some(bytes_of("bam.txt")));
}

#[test]
fn sort_ties_break_on_full_path() {
    // Equal file names: the whole path decides, deterministically.
    let entries = vec![bytes_of("b/x.png"), bytes_of("a/x.png")];
    let mut c = PathCursor::import_files(entries).expect("import");
    assert_eq!(c.next(), Some(bytes_of("a/x.png")));
    assert_eq!(c.next(), Some(bytes_of("b/x.png")));
}

#[test]
fn import_discards_unresolvable_names() {
    let entries = vec![
        bytes_of("dir/"),
        bytes_of(".."),
        bytes_of("a/.."),
        bytes_of("ok.png"),
    ];
    let mut c = PathCursor::import_files(entries).expect("import");
    assert_eq!(c.len, 1);
    assert_eq!(c.next(), Some(bytes_of("ok.png")));
}

#[test]
fn import_empty_fails() {
    assert_eq!(
        PathCursor::import_files(Vec::new()).err(),
        Some(ImportError::Empty)
    );
    // Entries exist but none has a resolvable name.
    let entries = vec![bytes_of("x/"), bytes_of("..")];
    assert_eq!(PathCursor::import_files(entries).err(), Some(ImportError::Empty));
}

#[test]
fn removal_shrinks_length() {
    let mut v = PathCursor::new(get_paths());
    assert_eq!(v.len, 3);
    // Nothing selected yet: removal is a no-op.
    assert_eq!(v.remove(), None);
    assert_eq!(v.len, 3);
    // Select the second item, then remove it.
    v.next();
    let removed = v.next().expect("second item");
    assert_eq!(removed, bytes_of("./bim/bam.txt"));
    assert_eq!(v.remove(), Some(bytes_of("./bim/bam.txt")));
    assert_eq!(v.len, 2);
    // A full traversal never yields the removed item again.
    let mut seen = Vec::new();
    for _ in 0..4 {
        seen.push(v.next().expect("non-empty"));
    }
    assert!(!seen.contains(&bytes_of("./bim/bam.txt")));
}

#[test]
fn remove_until_empty_then_noop() {
    let mut v = PathCursor::new(vec![bytes_of("only.png")]);
    v.next();
    assert_eq!(v.remove(), Some(bytes_of("only.png")));
    assert_eq!(v.len, 0);
    assert_eq!(v.next(), None);
    assert_eq!(v.prev(), None);
    // Removing from an empty cursor returns nothing and does not panic.
    assert_eq!(v.remove(), None);
}

#[test]
fn cursor_wrap_full_round() {
    // Advancing N times from an unset cursor visits each item exactly once;
    // the next advance repeats the first item.
    let mut v = PathCursor::new(get_paths());
    let mut seen = Vec::new();
    for _ in 0..3 {
        seen.push(v.next().expect("non-empty"));
    }
    let mut sorted = seen.clone();
    sorted.sort();
    sorted.dedup();
    assert_eq!(sorted.len(), 3);
    assert_eq!(v.next(), Some(seen[0].clone()));
}

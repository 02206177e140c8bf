//! Rendering directory listings and history lines.

use well::functions::list_commits::{format_commits, CommitRecord};
use well::functions::list_files::{describe_entry, format_listing, rwx, EntryMeta};

#[test]
fn permission_bits_render_as_triads() {
    assert_eq!(rwx(0o755), "rwxr-xr-x");
    assert_eq!(rwx(0o644), "rw-r--r--");
    assert_eq!(rwx(0o000), "---------");
    assert_eq!(rwx(0o7777), "rwxrwxrwx");
}

#[test]
fn entry_rows_align() {
    let e = EntryMeta {
        is_dir: false,
        is_symlink: false,
        mode: 0o644,
        nlink: 1,
        size: 42,
        mtime_secs: 7,
        name: "a.txt".to_string(),
    };
    assert_eq!(describe_entry(&e), "-rw-r--r--    1       42B        7 a.txt");
    let d = EntryMeta {
        is_dir: true,
        is_symlink: false,
        mode: 0o755,
        nlink: 12345,
        size: 4096,
        mtime_secs: 123456789,
        name: "src".to_string(),
    };
    assert_eq!(describe_entry(&d), "drwxr-xr-x 12345     4096B 123456789 src");
}

#[test]
fn listings_join_rows_with_line_breaks() {
    let entries = vec![
        EntryMeta {
            is_dir: false,
            is_symlink: false,
            mode: 0o644,
            nlink: 1,
            size: 1,
            mtime_secs: 1,
            name: "a".to_string(),
        },
        EntryMeta {
            is_dir: true,
            is_symlink: false,
            mode: 0o700,
            nlink: 2,
            size: 0,
            mtime_secs: 2,
            name: "b".to_string(),
        },
    ];
    let text = format_listing(&entries);
    assert_eq!(text, "-rw-r--r--    1        1B        1 a\ndrwx------    2        0B        2 b\n");
    assert_eq!(format_listing(&vec![]), "");
}

#[test]
fn commit_rows_render() {
    // The RFC 3339 date goes through chrono; the rest of the row is
    // rendered here.
    let records = vec![CommitRecord {
        seconds: 1234567890,
        hash: "abc123".to_string(),
        summary: "Initial commit".to_string(),
        author: "Ada".to_string(),
    }];
    assert_eq!(
        format_commits(&records),
        "[2009-02-13T23:31:30+00:00] [abc123] | Initial commit {Ada}\n"
    );
    // Out-of-range seconds render as an empty date, not a crash.
    let odd = vec![CommitRecord {
        seconds: i64::MIN,
        hash: "h".to_string(),
        summary: "s".to_string(),
        author: "a".to_string(),
    }];
    assert_eq!(format_commits(&odd), "[] [h] | s {a}\n");
}

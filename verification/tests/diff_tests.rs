//! The diff engine: hunk headers, counting, coloring, segmentation, and
//! splitting.

use workmux::dashboard::diff::{
    apply_basic_diff_colors, count_diff_stats, count_hunk_stats, extract_file_list,
    map_file_offsets, parse_diff_into_hunks, parse_file_list, parse_hunk_header, DiffHunk,
    FileEntry,
};
use workmux::strip_ansi_escapes;

#[test]
fn test_parse_hunk_header() {
    assert_eq!(parse_hunk_header("@@ -10,5 +12,7 @@"), Some((10, 12)));
    assert_eq!(parse_hunk_header("@@ -1,3 +1,4 @@ fn main()"), Some((1, 1)));
    assert_eq!(parse_hunk_header("invalid"), None);
}

#[test]
fn test_count_hunk_stats() {
    let hunk = "@@ -1,3 +1,4 @@\n context\n+added\n-removed\n context";
    let (added, removed) = count_hunk_stats(hunk);
    assert_eq!(added, 1);
    assert_eq!(removed, 1);
}

#[test]
fn test_count_diff_stats() {
    let diff = "diff --git a/file.rs b/file.rs\n--- a/file.rs\n+++ b/file.rs\n+new line\n-old line\n context";
    let (added, removed) = count_diff_stats(diff);
    assert_eq!(added, 1);
    assert_eq!(removed, 1);
}

#[test]
fn test_apply_basic_diff_colors() {
    let input = "+added\n-removed\n@@header@@\n context";
    let colored = apply_basic_diff_colors(input);
    assert!(colored.contains("\x1b[32m+added\x1b[0m"));
    assert!(colored.contains("\x1b[31m-removed\x1b[0m"));
    assert!(colored.contains("\x1b[36m@@header@@\x1b[0m"));
    assert!(colored.contains(" context"));
}

fn plain_hunk(file_header: &str, hunk_body: &str) -> DiffHunk {
    let (added, removed) = count_hunk_stats(hunk_body);
    DiffHunk {
        file_header: file_header.to_string(),
        hunk_body: hunk_body.to_string(),
        filename: "test.rs".to_string(),
        lines_added: added,
        lines_removed: removed,
    }
}

#[test]
fn test_diff_hunk_split_no_context_gap() {
    let hunk = plain_hunk("diff --git a/test.rs b/test.rs", "@@ -1,3 +1,4 @@\n+line1\n+line2\n+line3");
    assert!(hunk.split().is_none());
}

#[test]
fn test_diff_hunk_split_with_context_gap() {
    let hunk = plain_hunk("diff --git a/test.rs b/test.rs", "@@ -1,5 +1,6 @@\n+added1\n context\n+added2");
    let result = hunk.split();
    assert!(result.is_some());
    let hunks = result.unwrap();
    assert_eq!(hunks.len(), 2);
}

#[test]
fn split_recomputes_sub_hunk_headers() {
    let hunk = plain_hunk("diff --git a/test.rs b/test.rs", "@@ -1,5 +1,6 @@\n+a\n ctx\n+b\n");
    let subs = hunk.split().unwrap();
    assert_eq!(subs.len(), 2);
    assert_eq!(subs[0].hunk_body, "@@ -1,1 +1,2 @@\n+a\n ctx");
    assert_eq!(subs[1].hunk_body, "@@ -1,2 +2,3 @@\n ctx\n+b\n");
    assert_eq!(subs[0].lines_added, 1);
    assert_eq!(subs[1].lines_added, 1);
}

#[test]
fn split_is_idempotent_on_its_sub_hunks() {
    let hunk = plain_hunk(
        "diff --git a/test.rs b/test.rs",
        "@@ -1,9 +1,11 @@\n+a\n ctx\n+b\n ctx2\n more\n+c",
    );
    let subs = hunk.split().unwrap();
    assert!(subs.len() >= 2);
    for sub in subs {
        assert!(sub.split().is_none(), "a sub-hunk split again");
    }
}

#[test]
fn parse_diff_into_hunks_segments_files_and_hunks() {
    let diff = "diff --git a/one.rs b/one.rs\n--- a/one.rs\n+++ b/one.rs\n@@ -1,2 +1,3 @@\n+x\n ctx\ndiff --git a/two.rs b/two.rs\n--- a/two.rs\n+++ b/two.rs\n@@ -5,1 +5,1 @@\n-y\n+z";
    let hunks = parse_diff_into_hunks(diff);
    assert_eq!(hunks.len(), 2);
    assert_eq!(hunks[0].filename, "one.rs");
    assert_eq!(hunks[0].lines_added, 1);
    assert_eq!(hunks[0].lines_removed, 0);
    assert!(hunks[0].file_header.starts_with("diff --git a/one.rs"));
    assert!(hunks[0].hunk_body.starts_with("@@ -1,2 +1,3 @@"));
    assert_eq!(hunks[1].filename, "two.rs");
    assert_eq!(hunks[1].lines_added, 1);
    assert_eq!(hunks[1].lines_removed, 1);
}

#[test]
fn stats_total_equals_sum_over_hunks() {
    let diff = "diff --git a/one.rs b/one.rs\n--- a/one.rs\n+++ b/one.rs\n@@ -1,2 +1,3 @@\n+x\n ctx\n@@ -9,2 +10,1 @@\n-gone\n kept\ndiff --git a/two.rs b/two.rs\n@@ -5,1 +5,1 @@\n-y\n+z";
    let (added, removed) = count_diff_stats(diff);
    let hunks = parse_diff_into_hunks(diff);
    let sum_added: usize = hunks.iter().map(|h| h.lines_added).sum();
    let sum_removed: usize = hunks.iter().map(|h| h.lines_removed).sum();
    assert_eq!(added, sum_added);
    assert_eq!(removed, sum_removed);
}

#[test]
fn fallback_rendering_keeps_hunk_structure() {
    let diff = "diff --git a/one.rs b/one.rs\n--- a/one.rs\n+++ b/one.rs\n@@ -1,2 +1,3 @@\n+x\n ctx";
    let rendered = apply_basic_diff_colors(diff);
    let raw_hunks = parse_diff_into_hunks(diff);
    let rendered_hunks = parse_diff_into_hunks(&rendered);
    assert_eq!(raw_hunks.len(), rendered_hunks.len());
    for (raw, colored) in raw_hunks.iter().zip(rendered_hunks.iter()) {
        assert_eq!(strip_ansi_escapes(&colored.hunk_body), raw.hunk_body);
        assert_eq!(strip_ansi_escapes(&colored.file_header), raw.file_header);
        assert_eq!(colored.lines_added, raw.lines_added);
        assert_eq!(colored.lines_removed, raw.lines_removed);
    }
}

#[test]
fn strip_ansi_escapes_removes_csi_sequences() {
    assert_eq!(strip_ansi_escapes("\x1b[32mgreen\x1b[0m"), "green");
    assert_eq!(strip_ansi_escapes("plain"), "plain");
}

#[test]
fn file_list_merges_numstat_and_summary() {
    let output = "3\t1\tsrc/a.rs\n10\t0\tnew.rs\n-\t-\timage.bin\n create mode 100644 new.rs\n delete mode 100644 gone.rs\n";
    let files = parse_file_list(output);
    assert_eq!(files.len(), 3);
    assert_eq!(files[0].filename, "src/a.rs");
    assert_eq!(files[0].lines_added, 3);
    assert_eq!(files[0].lines_removed, 1);
    assert!(!files[0].is_new);
    assert_eq!(files[1].filename, "new.rs");
    assert_eq!(files[1].lines_added, 10);
    assert!(files[1].is_new);
    assert_eq!(files[2].filename, "image.bin");
    assert_eq!(files[2].lines_added, 0);
}

fn stats_hunk(filename: &str, lines_added: usize, lines_removed: usize) -> DiffHunk {
    DiffHunk {
        file_header: String::new(),
        hunk_body: String::new(),
        filename: filename.to_string(),
        lines_added,
        lines_removed,
    }
}

#[test]
fn test_extract_file_list() {
    let hunks = vec![
        stats_hunk("file1.rs", 5, 2),
        stats_hunk("file1.rs", 3, 1),
        stats_hunk("file2.rs", 10, 0),
    ];
    let files = extract_file_list(&hunks);
    assert_eq!(files.len(), 2);
    assert_eq!(files[0].filename, "file1.rs");
    assert_eq!(files[0].lines_added, 8);
    assert_eq!(files[0].lines_removed, 3);
    assert_eq!(files[1].filename, "file2.rs");
    assert_eq!(files[1].lines_added, 10);
}

#[test]
fn test_map_file_offsets() {
    let mut files = vec![
        FileEntry {
            filename: "src/main.rs".to_string(),
            lines_added: 5,
            lines_removed: 2,
            is_new: false,
            start_line: 0,
        },
        FileEntry {
            filename: "src/lib.rs".to_string(),
            lines_added: 3,
            lines_removed: 1,
            is_new: false,
            start_line: 0,
        },
    ];

    let parsed_lines = vec![
        "diff --git a/src/main.rs b/src/main.rs".to_string(),
        "+added line".to_string(),
        "-removed line".to_string(),
        "diff --git a/src/lib.rs b/src/lib.rs".to_string(),
        "+another add".to_string(),
    ];

    map_file_offsets(&mut files, &parsed_lines);

    assert_eq!(files[0].start_line, 0);
    assert_eq!(files[1].start_line, 3);
}

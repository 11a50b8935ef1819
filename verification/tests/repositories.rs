use gitom::db::git::blob::{blob_spec, blob_text, read_blob_limited, read_readme, ReadmeStep};
use gitom::db::git::commits::{
    commit_info, commit_info_at, commit_oid, commits_for_tree, list_commits, relative_time,
    relative_time_at, short_name, PageStep, RawCommit, TouchProbe, TreeLog, TreeWalk,
};
use gitom::db::git::diff::{diff_to_files, DeltaStatus, DiffEvent};
use gitom::db::git::refs::{list_branches, list_tags, RawBranch, RawTag};
use gitom::db::git::tree::{list_tree, RawTreeEntry};
use gitom::db::models::{Webhook, WebhookRow};
use gitom::db::queries::{events_column, page_offset, rows_to_webhooks};
use gitom::error::AppError;
use gitom::templates::{filter_filesize, filter_short_sha, filter_truncate};

fn entry(name: Option<&str>, is_tree: bool, size: Option<u64>) -> RawTreeEntry {
    RawTreeEntry {
        name: name.map(|n| n.to_string()),
        is_tree,
        size,
        sha: "0123456789".to_string(),
    }
}

#[test]
fn directories_are_listed_first_and_names_in_order() {
    let raw = vec![
        entry(Some("b.rs"), false, Some(3)),
        entry(Some("Z"), true, Some(9)),
        entry(Some("a.rs"), false, None),
        entry(Some("src"), true, None),
        entry(None, false, Some(1)),
        entry(Some("B"), false, Some(2)),
    ];
    let list = list_tree("dir", &raw);
    let names: Vec<&str> = list.iter().map(|e| e.name.as_str()).collect();
    assert_eq!(names, vec!["Z", "src", "", "B", "a.rs", "b.rs"]);
    let kinds: Vec<&str> = list.iter().map(|e| e.kind.as_str()).collect();
    assert_eq!(kinds, vec!["tree", "tree", "blob", "blob", "blob", "blob"]);
    assert_eq!(list[0].path, "dir/Z");
    assert_eq!(list[0].size, None);
    assert_eq!(list[5].size, Some(3));
    assert_eq!(list[5].message, None);
    assert_eq!(list[5].sha.as_deref(), Some("0123456789"));
    assert_eq!(list_tree("", &raw)[0].path, "Z");
    assert_eq!(list_tree("", &[]).len(), 0);
}

#[test]
fn entries_of_one_name_keep_their_order() {
    let raw = vec![
        entry(Some("x"), false, Some(1)),
        entry(Some("x"), false, Some(2)),
        entry(Some("a"), false, Some(3)),
        entry(Some("x"), false, Some(4)),
    ];
    let sizes: Vec<Option<u64>> = list_tree("", &raw).iter().map(|e| e.size).collect();
    assert_eq!(sizes, vec![Some(3), Some(1), Some(2), Some(4)]);
}

#[test]
fn blobs_over_the_limit_are_not_shown() {
    assert_eq!(blob_spec("main", "src/a.rs"), "main:src/a.rs");
    assert_eq!(read_blob_limited(3, b"abc", false, 3), (b"abc".to_vec(), false));
    assert_eq!(read_blob_limited(4, b"abcd", false, 3), (Vec::new(), true));
    assert_eq!(read_blob_limited(1, &[0], true, 3), (vec![0], true));
}

#[test]
fn text_of_a_blob_has_replacement_characters() {
    assert_eq!(blob_text(&[b'a', 0xff, b'b'], false), Some("a\u{fffd}b".to_string()));
    assert_eq!(blob_text(b"abc", true), None);
}

#[test]
fn first_readable_readme_is_found() {
    assert!(matches!(read_readme(0, None), ReadmeStep::Read(n) if n == "README.md"));
    assert!(matches!(read_readme(1, None), ReadmeStep::Read(n) if n == "README.rst"));
    assert!(matches!(read_readme(2, Some((vec![1], true))), ReadmeStep::Read(n) if n == "README.txt"));
    assert!(matches!(read_readme(3, None), ReadmeStep::Read(n) if n == "README"));
    assert!(matches!(read_readme(4, None), ReadmeStep::Absent));
    let found = read_readme(4, Some((vec![b'h', b'i', 0xff], false)));
    assert!(matches!(found, ReadmeStep::Found(t) if t == "hi\u{fffd}"));
}

#[test]
fn ages_are_told_in_the_largest_unit() {
    let now = 1_700_000_000;
    let cases = [
        (0, "just now"),
        (59, "just now"),
        (60, "1 minutes ago"),
        (3599, "59 minutes ago"),
        (3600, "1 hours ago"),
        (86399, "23 hours ago"),
        (86400, "1 days ago"),
        (1_000_000, "11 days ago"),
    ];
    for (age, text) in cases {
        assert_eq!(relative_time_at(now - age, now), text);
    }
    assert_eq!(relative_time_at(now + 1000, now), "just now");
    assert_eq!(relative_time(i64::MAX), "just now");
    assert!(relative_time(0).ends_with(" days ago"));
}

#[test]
fn commits_are_shown_with_their_subject() {
    let raw = RawCommit {
        sha: "0123456789abcdef0123456789abcdef01234567".to_string(),
        message: Some("Fix it\r\n\r\nAll of it\n".to_string()),
        author: None,
        email: None,
        seconds: 1000,
    };
    let c = commit_info_at(raw.clone(), 1120);
    assert_eq!(c.short_sha, "01234567");
    assert_eq!(c.subject, "Fix it");
    assert_eq!(c.message, "Fix it\r\n\r\nAll of it\n");
    assert_eq!(c.author, "Unknown");
    assert_eq!(c.email, "");
    assert_eq!(c.timestamp, 1000);
    assert_eq!(c.time_human, "2 minutes ago");
    let c = commit_info(RawCommit { message: None, author: Some("A".to_string()), ..raw });
    assert_eq!(c.subject, "");
    assert_eq!(c.author, "A");
    assert!(c.time_human.ends_with(" days ago"));
}

#[test]
fn short_names_end_at_a_character() {
    assert_eq!(short_name("0123456789"), "01234567");
    assert_eq!(short_name("0123"), "0123");
    assert_eq!(short_name("0123456\u{e9}"), "0123456\u{e9}");
    assert_eq!(short_name("\u{e9}\u{e9}\u{e9}\u{e9}\u{e9}"), "\u{e9}\u{e9}\u{e9}\u{e9}");
}

fn page_of(page: u32, per_page: u32, history: usize) -> Vec<usize> {
    let mut p = list_commits(page, per_page);
    let mut out = Vec::new();
    for i in 0..history {
        match p.on_commit() {
            PageStep::Skip => {}
            PageStep::Take => out.push(i),
            PageStep::Stop => break,
        }
    }
    out
}

#[test]
fn each_commit_is_on_one_page() {
    assert_eq!(page_of(1, 3, 8), vec![0, 1, 2]);
    assert_eq!(page_of(2, 3, 8), vec![3, 4, 5]);
    assert_eq!(page_of(3, 3, 8), vec![6, 7]);
    assert_eq!(page_of(4, 3, 8), Vec::<usize>::new());
    assert_eq!(page_of(1, 0, 8), Vec::<usize>::new());
    assert_eq!(page_of(u32::MAX, u32::MAX, 8), Vec::<usize>::new());
}

#[test]
fn commits_that_touched_a_path_are_taken() {
    assert_eq!(commits_for_tree("", 1), TreeLog::Latest(1));
    assert_eq!(commits_for_tree("src", 1), TreeLog::Walk);
    let mut w = TreeWalk::new(2);
    assert!(w.wants_more());
    assert!(!w.on_commit(TouchProbe::Child(0)));
    assert!(w.on_commit(TouchProbe::Child(3)));
    assert!(!w.on_commit(TouchProbe::Root(false)));
    assert!(w.wants_more());
    assert!(w.on_commit(TouchProbe::Root(true)));
    assert!(!w.wants_more());
}

#[test]
fn object_names_are_hexadecimal() {
    let sha = "0123456789abcdef0123456789ABCDEF01234567";
    let bytes = commit_oid(sha).unwrap();
    assert_eq!(bytes.len(), 20);
    assert_eq!(&bytes[..4], &[0x01, 0x23, 0x45, 0x67]);
    let mut short = vec![0; 20];
    short[0] = 0xab;
    short[1] = 0xc0;
    assert_eq!(commit_oid("aBc").unwrap(), short);
    assert!(commit_oid(&"0".repeat(40)).is_ok());
    assert!(matches!(commit_oid(&"0".repeat(41)), Err(AppError::Internal(_))));
    assert!(matches!(commit_oid("\u{e9}"), Err(AppError::Internal(_))));
    assert!(matches!(commit_oid("not hexadecimal"), Err(AppError::Internal(_))));
    assert!(matches!(commit_oid(""), Err(AppError::Internal(_))));
}

fn event(hunk: Option<&str>, origin: char, content: &str) -> DiffEvent {
    DiffEvent {
        status: DeltaStatus::Other,
        old_path: Some("a".to_string()),
        new_path: Some("b".to_string()),
        old_is_binary: false,
        new_is_binary: false,
        hunk_header: hunk.map(|h| h.as_bytes().to_vec()),
        origin,
        content: content.as_bytes().to_vec(),
    }
}

#[test]
fn patch_becomes_files_with_hunks_and_lines() {
    let mut added = event(None, 'F', "");
    added.status = DeltaStatus::Added;
    added.old_path = None;
    added.new_is_binary = true;
    let events = vec![
        event(None, '+', "before any file"),
        event(None, 'F', "header"),
        event(None, '+', "before any hunk"),
        event(Some("@@ -1 +1 @@"), 'H', ""),
        event(None, '+', "new\n"),
        event(None, '-', "old\n"),
        event(None, ' ', "same\n"),
        event(None, '=', "no newline"),
        added,
        event(Some("@@ one @@"), 'H', ""),
        event(Some("@@ two @@"), '+', "a line with its hunk"),
    ];
    let files = diff_to_files(&events);
    assert_eq!(files.len(), 2);
    assert_eq!(files[0].status, "modified");
    assert_eq!(files[0].old_path, "a");
    assert_eq!(files[0].new_path, "b");
    assert!(!files[0].is_binary);
    assert_eq!(files[0].hunks.len(), 1);
    assert_eq!(files[0].hunks[0].header, "@@ -1 +1 @@");
    let lines: Vec<(char, &str)> =
        files[0].hunks[0].lines.iter().map(|l| (l.origin, l.content.as_str())).collect();
    assert_eq!(lines, vec![('+', "new\n"), ('-', "old\n"), (' ', "same\n")]);
    assert_eq!(files[1].status, "added");
    assert_eq!(files[1].old_path, "");
    assert!(files[1].is_binary);
    assert_eq!(files[1].hunks.len(), 2);
    assert_eq!(files[1].hunks[1].lines.len(), 0);
}

#[test]
fn what_happened_to_a_file_is_told_in_a_word() {
    for (status, text) in [
        (DeltaStatus::Added, "added"),
        (DeltaStatus::Deleted, "deleted"),
        (DeltaStatus::Renamed, "renamed"),
        (DeltaStatus::Other, "modified"),
    ] {
        let mut e = event(None, 'F', "");
        e.status = status;
        assert_eq!(diff_to_files(&[e])[0].status, text);
    }
}

#[test]
fn head_is_the_branch_at_its_commit() {
    let raw = vec![
        RawBranch { name: Some("main".to_string()), target: Some("aa".to_string()) },
        RawBranch { name: None, target: None },
        RawBranch { name: Some("dev".to_string()), target: Some("bb".to_string()) },
    ];
    let list = list_branches(Some("bb".to_string()), raw.clone());
    let heads: Vec<bool> = list.iter().map(|b| b.is_head).collect();
    assert_eq!(heads, vec![false, false, true]);
    assert_eq!(list[0].name, "main");
    assert_eq!(list[1].name, "");
    assert_eq!(list[1].sha, "");
    assert!(list_branches(None, raw).iter().all(|b| !b.is_head));
}

#[test]
fn tags_are_shown_at_their_commit() {
    let raw = vec![
        RawTag {
            name: b"refs/tags/v1".to_vec(),
            oid: "tagobject".to_string(),
            commit: Some("commit".to_string()),
            message: Some("first".to_string()),
        },
        RawTag {
            name: b"refs/tags/refs/tags/odd\xff".to_vec(),
            oid: "tree".to_string(),
            commit: None,
            message: None,
        },
    ];
    let list = list_tags(raw);
    assert_eq!(list[0].name, "v1");
    assert_eq!(list[0].sha, "commit");
    assert_eq!(list[0].message.as_deref(), Some("first"));
    assert_eq!(list[1].name, "odd\u{fffd}");
    assert_eq!(list[1].sha, "tree");
    assert_eq!(list[1].message, None);
}

#[test]
fn events_survive_storage() {
    let events = vec!["push".to_string(), "a \"quoted\" one".to_string()];
    let column = events_column(&events);
    assert_eq!(column, "[\"push\",\"a \\\"quoted\\\" one\"]");
    let row = WebhookRow {
        id: 1,
        repo_id: 2,
        url: "https://example.org/".to_string(),
        secret: Some("s".to_string()),
        events: column,
        is_active: true,
    };
    let hooks = rows_to_webhooks(vec![row.clone()]);
    assert_eq!(hooks.len(), 1);
    assert_eq!(hooks[0].events, events);
    assert_eq!(hooks[0].url, "https://example.org/");
    assert_eq!(events_column(&[]), "[]");
    let broken = Webhook::from(WebhookRow { events: "{}".to_string(), ..row });
    assert_eq!(broken.events, Vec::<String>::new());
}

#[test]
fn pages_of_rows_are_counted_from_one() {
    assert_eq!(page_offset(1, 20), 0);
    assert_eq!(page_offset(3, 20), 40);
    assert_eq!(page_offset(0, 20), -20);
}

#[test]
fn long_texts_are_cut() {
    assert_eq!(filter_truncate("hello", Some(5)), "hello");
    assert_eq!(filter_truncate("hello", Some(4)), "hell\u{2026}");
    assert_eq!(filter_truncate("\u{e9}\u{e9}\u{e9}", Some(2)), "\u{e9}\u{e9}\u{2026}");
    assert_eq!(filter_truncate("x", Some(0)), "\u{2026}");
    let long = "y".repeat(73);
    assert_eq!(filter_truncate(&long, None), format!("{}\u{2026}", "y".repeat(72)));
    assert_eq!(filter_short_sha("0123456789"), "01234567");
    assert_eq!(filter_short_sha("0123"), "0123");
}

fn size_by_floats(n: i64) -> String {
    let b = n.max(0) as f64;
    if b < 1024.0 {
        format!("{} B", b as u64)
    } else if b < 1024.0 * 1024.0 {
        format!("{:.1} KB", b / 1024.0)
    } else if b < 1024.0 * 1024.0 * 1024.0 {
        format!("{:.1} MB", b / (1024.0 * 1024.0))
    } else {
        format!("{:.1} GB", b / (1024.0 * 1024.0 * 1024.0))
    }
}

#[test]
fn sizes_are_rounded_as_floats_are_printed() {
    assert_eq!(filter_filesize(None), "0 B");
    assert_eq!(filter_filesize(Some(-5)), "0 B");
    assert_eq!(filter_filesize(Some(1023)), "1023 B");
    assert_eq!(filter_filesize(Some(1536)), "1.5 KB");
    assert_eq!(filter_filesize(Some(1_048_575)), "1024.0 KB");
    assert_eq!(filter_filesize(Some(5_242_880)), "5.0 MB");
    assert_eq!(filter_filesize(Some(i64::MAX)), "8589934592.0 GB");
    for n in 0..200_000 {
        assert_eq!(filter_filesize(Some(n)), size_by_floats(n), "{n}");
    }
    let mut n: i64 = 1;
    while n < i64::MAX / 3 {
        for d in [-3, -1, 0, 1, 2, 51, 52, 256, 512] {
            let m = n + d;
            assert_eq!(filter_filesize(Some(m)), size_by_floats(m), "{m}");
        }
        n = n * 3 / 2 + 1;
    }
}

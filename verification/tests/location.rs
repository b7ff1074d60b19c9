use git_term::git::{
    git_statuses, path_and_info, relative_git_dir, Directory, PathAndInfo, QueryOutcome, Status,
    Statuses,
};
use git_term::paths::{chars_of, is_blank, relative_to, trim};

fn ok(stdout: &str) -> QueryOutcome {
    QueryOutcome::Exited { success: true, stdout: stdout.as_bytes().to_vec() }
}

fn failed(stdout: &str) -> QueryOutcome {
    QueryOutcome::Exited { success: false, stdout: stdout.as_bytes().to_vec() }
}

#[test]
fn trim_removes_white_space_at_both_ends() {
    assert_eq!(trim("/repo\n"), "/repo");
    assert_eq!(trim("/repo"), "/repo");
    assert_eq!(trim("  /repo \r\n"), "/repo");
    assert_eq!(trim("\t/my repo\n"), "/my repo");
    assert_eq!(trim(""), "");
    assert_eq!(trim(" \n\t "), "");
    assert_eq!(trim("a"), "a");
    assert_eq!(trim(" a b  c "), "a b  c");
}

#[test]
fn trim_agrees_with_the_standard_library() {
    let samples = [
        "\u{a0}/r\u{3000}",
        "\u{2003}x\u{2028}",
        "\u{85}y\u{1680}",
        "\u{200b}z\u{200b}",
        "\u{feff}/repo\n",
        "/caf\u{e9}\n",
        "\u{b}\u{c}/r\u{202f}\u{205f}",
    ];
    for sample in samples {
        assert_eq!(trim(sample), sample.trim());
    }
}

#[test]
fn is_blank_agrees_with_the_standard_library() {
    let mut code: u32 = 0;
    while code < 0x3100 {
        if let Some(c) = char::from_u32(code) {
            assert_eq!(is_blank(c), c.is_whitespace(), "U+{:04X}", code);
        }
        code += 1;
    }
    assert!(!is_blank('\u{feff}'));
    assert!(!is_blank('\u{1f600}'));
}

#[test]
fn chars_of_lists_the_characters() {
    assert_eq!(chars_of(""), Vec::<char>::new());
    assert_eq!(chars_of("a/\u{e9}"), vec!['a', '/', '\u{e9}']);
}

#[test]
fn relative_to_a_directory_above() {
    assert_eq!(relative_to("/repo/src", "/repo"), Some("src"));
    assert_eq!(relative_to("/repo/src/lib", "/repo"), Some("src/lib"));
    assert_eq!(relative_to("/repo", "/repo"), Some(""));
    assert_eq!(relative_to("/repo/", "/repo"), Some(""));
    assert_eq!(relative_to("/repo/src", "/repo/"), Some("src"));
    assert_eq!(relative_to("/home/me", "/"), Some("home/me"));
    assert_eq!(relative_to("/", "/"), Some(""));
    assert_eq!(relative_to("/repo//src", "/repo"), Some("src"));
    assert_eq!(relative_to("/d\u{e9}p\u{f4}t/src", "/d\u{e9}p\u{f4}t"), Some("src"));
}

#[test]
fn relative_to_a_directory_elsewhere() {
    assert_eq!(relative_to("/repo2/src", "/repo"), None);
    assert_eq!(relative_to("/repository", "/repo"), None);
    assert_eq!(relative_to("/other/src", "/repo"), None);
    assert_eq!(relative_to("/rep", "/repo"), None);
    assert_eq!(relative_to("/repo", "/repo/src"), None);
    assert_eq!(relative_to("/repo/src", ""), None);
    assert_eq!(relative_to("", ""), None);
    assert_eq!(relative_to("", "/repo"), None);
    assert_eq!(relative_to("/Repo/src", "/repo"), None);
}

#[test]
fn directory_below_the_root() {
    let dir = relative_git_dir(Some("/repo/src"), &ok("/repo"));
    assert_eq!(dir, Some(Directory::new("src")));
    let dir = relative_git_dir(Some("/repo/src"), &ok("/repo\n")).unwrap();
    assert_eq!(dir.as_str(), "src");
    assert_eq!(dir.to_string(), "src");
}

#[test]
fn directory_at_the_root_is_empty() {
    let dir = relative_git_dir(Some("/repo"), &ok("/repo\n")).unwrap();
    assert_eq!(dir.as_str(), "");
}

#[test]
fn no_directory_without_a_usable_root() {
    assert_eq!(relative_git_dir(Some("/repo/src"), &QueryOutcome::NotRun), None);
    assert_eq!(relative_git_dir(Some("/repo/src"), &failed("/repo\n")), None);
    assert_eq!(relative_git_dir(Some("/repo/src"), &failed("")), None);
    assert_eq!(relative_git_dir(Some("/repo/src"), &ok("")), None);
    assert_eq!(relative_git_dir(Some("/repo/src"), &ok("\n")), None);
    assert_eq!(relative_git_dir(Some("/repo/src"), &ok("/elsewhere\n")), None);
    assert_eq!(relative_git_dir(None, &ok("/repo\n")), None);
    let not_text = QueryOutcome::Exited { success: true, stdout: vec![b'/', 0xff, b'\n'] };
    assert_eq!(relative_git_dir(Some("/repo/src"), &not_text), None);
}

#[test]
fn report_is_the_output_read_as_utf8() {
    assert_eq!(ok("A  x\n").report(), Some("A  x\n"));
    assert_eq!(ok("").report(), Some(""));
    assert_eq!(ok("/d\u{e9}p\u{f4}t\n").report(), Some("/d\u{e9}p\u{f4}t\n"));
    assert_eq!(failed("A  x\n").report(), None);
    assert_eq!(QueryOutcome::NotRun.report(), None);
    let cut_short = QueryOutcome::Exited { success: true, stdout: vec![b'A', 0xc3] };
    assert_eq!(cut_short.report(), None);
    let overlong = QueryOutcome::Exited { success: true, stdout: vec![0xc0, 0x80] };
    assert_eq!(overlong.report(), None);
    let surrogate = QueryOutcome::Exited { success: true, stdout: vec![0xed, 0xa0, 0x80] };
    assert_eq!(surrogate.report(), None);
}

#[test]
fn statuses_of_a_query() {
    assert_eq!(
        git_statuses(&ok("?? newfile.txt\n M tracked.txt\n")),
        Some(Statuses::from_kinds(&[Status::Modified, Status::Untracked]))
    );
    assert_eq!(git_statuses(&ok("")), Some(Statuses::new()));
    assert_eq!(git_statuses(&failed("?? newfile.txt\n")), None);
    assert_eq!(git_statuses(&QueryOutcome::NotRun), None);
    let not_text = QueryOutcome::Exited { success: true, stdout: vec![b'M', b' ', 0x80] };
    assert_eq!(git_statuses(&not_text), None);
}

#[test]
fn clean_repository_below_the_root() {
    let state = path_and_info(Some("/repo/src"), &ok("/repo"), &ok(""));
    assert_eq!(state, PathAndInfo::Git(Directory::new("src"), Statuses::new()));
    match state {
        PathAndInfo::Git(dir, statuses) => {
            assert_eq!(dir.as_str(), "src");
            assert!(statuses.is_empty());
            assert_eq!(statuses.to_string(), "");
        },
        PathAndInfo::Fallback => panic!("inside a repository"),
    }
}

#[test]
fn both_findings_make_a_repository() {
    let state = path_and_info(Some("/repo"), &ok("/repo\n"), &ok("AM x\n"));
    assert_eq!(
        state,
        PathAndInfo::Git(
            Directory::new(""),
            Statuses::from_kinds(&[Status::Added, Status::Modified])
        )
    );
}

#[test]
fn root_found_but_status_failed_is_fallback() {
    let root = ok("/repo\n");
    assert_eq!(path_and_info(Some("/repo/src"), &root, &QueryOutcome::NotRun), PathAndInfo::Fallback);
    assert_eq!(path_and_info(Some("/repo/src"), &root, &failed(" M x\n")), PathAndInfo::Fallback);
    let not_text = QueryOutcome::Exited { success: true, stdout: vec![0xff] };
    assert_eq!(path_and_info(Some("/repo/src"), &root, &not_text), PathAndInfo::Fallback);
}

#[test]
fn status_found_but_root_failed_is_fallback() {
    let status = ok(" M x\n");
    assert_eq!(
        path_and_info(Some("/repo/src"), &QueryOutcome::NotRun, &status),
        PathAndInfo::Fallback
    );
    assert_eq!(path_and_info(Some("/repo/src"), &failed("/repo\n"), &status), PathAndInfo::Fallback);
    assert_eq!(path_and_info(Some("/repo/src"), &ok("/other\n"), &status), PathAndInfo::Fallback);
    assert_eq!(path_and_info(None, &ok("/repo\n"), &status), PathAndInfo::Fallback);
}

#[test]
fn failed_root_query_is_fallback_whatever_the_status_query_gave() {
    let root = failed("");
    let outcomes = [
        ok(""),
        ok("?? newfile.txt\n M tracked.txt\n"),
        failed(""),
        failed("A  x\n"),
        QueryOutcome::NotRun,
        QueryOutcome::Exited { success: true, stdout: vec![0xfe] },
    ];
    for status in outcomes.iter() {
        assert_eq!(path_and_info(Some("/repo/src"), &root, status), PathAndInfo::Fallback);
    }
}

#[test]
fn from_parts_keeps_both_or_nothing() {
    let dir = || Some(Directory::new("src"));
    let statuses = Some(Statuses::from_kinds(&[Status::Deleted]));
    assert_eq!(
        PathAndInfo::from_parts(dir(), statuses),
        PathAndInfo::Git(Directory::new("src"), Statuses::from_kinds(&[Status::Deleted]))
    );
    assert_eq!(PathAndInfo::from_parts(dir(), None), PathAndInfo::Fallback);
    assert_eq!(PathAndInfo::from_parts(None, statuses), PathAndInfo::Fallback);
    assert_eq!(PathAndInfo::from_parts(None, None), PathAndInfo::Fallback);
}

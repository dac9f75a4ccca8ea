//! Paths of the system, and the text that stands for them.

use gitbatch::git::command::trace_line;
use gitbatch::git::{GitOutput, GitRunner, RepositorySnapshot};
use gitbatch::mode::Mode;
use gitbatch::native::{path_bytes_of, path_text_of, show, system_path, with_slashes};
use gitbatch::paths::{child_of, file_name_of, is_path_before, is_same_path, parent_of};
use gitbatch::quick::{Printed, RepoOutcome};
use gitbatch::tui::worktree::default_worktree_path;
use gitbatch::AppError;

/// A path that is not UTF-8.
const LATIN: &[u8] = b"/work/caf\xe9";

#[test]
fn a_path_is_had_back_from_its_text() {
    for bytes in [
        b"".as_slice(),
        b"/work/repo",
        "/wörk/名前/🦀".as_bytes(),
        LATIN,
        b"/\xff\xfe/\xc3",
        b"\xc3\xa9\xc3",
        b"\xe2\x82",
        b"\xed\xa0\x80",
        b"\xc0\xaf",
        b"\xf4\x90\x80\x80",
        b"\x80\xbf",
    ] {
        let text = path_text_of(bytes);
        assert_eq!(path_bytes_of(&text), bytes, "{text:?}");
        assert_eq!(std::str::from_utf8(bytes).is_ok(), !text.contains('\0'));
    }
}

#[test]
fn a_path_that_is_utf8_stands_as_its_text() {
    for text in ["/work/repo", "/wörk/名前/🦀", "a b\n"] {
        assert_eq!(path_text_of(text.as_bytes()), text);
        assert_eq!(path_bytes_of(text), text.as_bytes());
        assert_eq!(show(text), text);
    }
    assert_eq!(path_text_of(LATIN), "/work/caf\0\u{e9}");
}

#[test]
fn different_paths_have_different_texts() {
    let latin = path_text_of(LATIN);
    assert!(!is_same_path(&latin, &path_text_of(b"/work/caf\xe8")));
    assert!(!is_same_path(&latin, &path_text_of("/work/café".as_bytes())));
    assert!(!is_same_path(&latin, &show(&latin)));
    assert!(is_same_path(&latin, &path_text_of(b"/work//caf\xe9/")));
}

#[test]
fn a_path_that_is_not_utf8_has_its_parts() {
    let latin = path_text_of(LATIN);
    let name = file_name_of(&latin);
    assert_eq!(path_bytes_of(&name.unwrap_or_default()), b"caf\xe9");
    assert_eq!(parent_of(&latin), Some("/work".to_string()));
    let inner = child_of(&latin, "config.yml");
    assert_eq!(path_bytes_of(&inner), b"/work/caf\xe9/config.yml");
}

#[test]
fn names_come_in_the_order_of_their_bytes() {
    let before = |a: &[u8], b: &[u8]| is_path_before(&path_text_of(a), &path_text_of(b));
    let ordered: [&[u8]; 6] = [
        b"a",
        b"a\x80",
        "aé".as_bytes(),
        b"a\xc3\xff",
        "a名".as_bytes(),
        b"a\xff",
    ];
    for (i, a) in ordered.iter().enumerate() {
        for (j, b) in ordered.iter().enumerate() {
            assert_eq!(before(a, b), i < j, "{a:?} {b:?}");
        }
    }
}

#[test]
fn a_path_is_shown_with_replacement_characters() {
    let latin = path_text_of(LATIN);
    assert_eq!(show(&latin), "/work/caf\u{fffd}");
    assert_eq!(
        AppError::NotRepository(latin.clone()).message(),
        "path does not look like a git repository: /work/caf\u{fffd}"
    );
    let empty = || {
        Ok(GitOutput {
            code: Some(0),
            stdout: String::new(),
            stderr: String::new(),
        })
    };
    match RepositorySnapshot::load(&latin, true, empty(), empty()) {
        Ok(s) => {
            assert_eq!(s.name, "caf\u{fffd}");
            assert_eq!(path_bytes_of(&s.path), LATIN);
        }
        Err(e) => panic!("{}", e.message()),
    }
}

#[test]
fn git_runs_in_the_path_itself_and_is_told_of_others_as_they_are_shown() {
    let latin = path_text_of(LATIN);
    let runner = GitRunner::default();
    let command = runner.worktree_remove(&latin, &latin);
    assert_eq!(path_bytes_of(&command.dir), LATIN);
    assert_eq!(command.display(), "git worktree remove /work/caf\u{fffd}");
    assert_eq!(
        trace_line(7, &command, Some(0), "ok"),
        "[7] cwd=/work/caf\u{fffd} code=0 cmd=git worktree remove /work/caf\u{fffd} output=ok"
    );
    let dest = default_worktree_path(&latin, "fix");
    assert_eq!(dest, "/work/caf\u{fffd}.fix");
    let inside = default_worktree_path(&child_of(&latin, "repo"), "fix");
    assert_eq!(path_bytes_of(&inside), b"/work/caf\xe9/repo.fix");
}

#[test]
fn a_batch_tells_paths_as_they_are_shown() {
    let batch = gitbatch::quick::run(
        vec![RepoOutcome {
            directory: path_text_of(LATIN),
            result: Ok("done".into()),
        }],
        Mode::Fetch,
        gitbatch::error::Timeout::new(1, 0),
    );
    assert!(matches!(
        &batch.lines[0],
        Printed::Output(line) if line.starts_with("/work/caf\u{fffd}: ")
    ));
}

#[test]
fn backslashes_become_slashes_where_they_stand_between_parts() {
    let path = with_slashes("C:\\work\\repo", true);
    assert_eq!(path, "C:/work/repo");
    assert_eq!(file_name_of(&path), Some("repo".to_string()));
    assert_eq!(parent_of(&path), Some("C:/work".to_string()));
    assert_eq!(with_slashes("/work/a\\b", false), "/work/a\\b");
    let system = system_path(b"/work/a\\b");
    let here = std::path::Path::new("/work/a\\b");
    assert_eq!(
        file_name_of(&system),
        here.file_name().map(|n| n.to_string_lossy().into_owned())
    );
}

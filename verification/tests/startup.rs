//! Configuration, discovery and quick mode.

use gitbatch::cli::Cli;
use gitbatch::config::{
    config_dir_path, config_file_in, config_file_path, load_or_create_config, migrate_config,
    requested_directories, requested_directories_in, AppConfig, ConfigLoad, FileConfig, Probe,
};
use gitbatch::discovery::{
    discover_repositories, is_git_repository, walk_once, Candidate, Discovery, Entry, Marker,
};
use gitbatch::error::Timeout;
use gitbatch::mode::Mode;
use gitbatch::quick::{report_outcomes, run, Printed, RepoOutcome};
use gitbatch::tui::worktree::default_worktree_path;
use gitbatch::AppError;

fn no_options() -> Cli {
    Cli {
        directories: Vec::new(),
        mode: None,
        recursive_depth: None,
        quick: false,
        trace: false,
    }
}

fn found(path: &str) -> Probe {
    Probe {
        path: path.to_string(),
        exists: true,
        canonical: Some(format!("/real{path}")),
    }
}

#[test]
fn default_config_path_ends_with_gitbatch_config() {
    let path = config_file_path().unwrap();
    assert!(std::path::Path::new(&path).ends_with("gitbatch/config.yml"));
}

#[test]
fn the_config_file_lies_in_the_config_directory() {
    let dir = config_dir_path().unwrap();
    assert_eq!(config_file_path().unwrap(), format!("{dir}/config.yml"));
    assert_eq!(
        config_file_in(Some("/home/ann/.config")).unwrap(),
        "/home/ann/.config/gitbatch/config.yml"
    );
    match config_file_in(None) {
        Err(e) => assert_eq!(
            e.message(),
            "configuration error: could not determine user config directory"
        ),
        Ok(p) => panic!("{p}"),
    }
}

#[test]
fn a_missing_file_is_written_with_defaults() {
    match load_or_create_config(None) {
        ConfigLoad::Ready { config, write } => {
            assert!(write);
            assert_eq!(config.mode, Some(Mode::Pull));
            assert_eq!(config.recursion, Some(1));
            assert_eq!(config.quick, Some(false));
            assert_eq!(config.auto_stash, Some(false));
            assert!(config.paths.is_none());
        }
        ConfigLoad::Parse => panic!("there is nothing to parse"),
    }
    assert!(matches!(
        load_or_create_config(Some(" \n")),
        ConfigLoad::Ready { write: false, .. }
    ));
    assert!(matches!(
        load_or_create_config(Some("mode: pull\n")),
        ConfigLoad::Parse
    ));
}

#[test]
fn fetch_mode_is_migrated_to_pull() {
    let parsed = FileConfig {
        mode: Some(Mode::Fetch),
        paths: None,
        quick: None,
        recursion: Some(2),
        trace: None,
        auto_stash: Some(true),
    };
    match migrate_config(parsed) {
        ConfigLoad::Ready { config, write } => {
            assert!(write);
            assert_eq!(config.mode, Some(Mode::Pull));
            assert_eq!(config.recursion, Some(2));
            assert_eq!(config.auto_stash, Some(true));
        }
        ConfigLoad::Parse => panic!("expected a configuration"),
    }
    let kept = FileConfig {
        mode: Some(Mode::Push),
        ..FileConfig::default()
    };
    assert!(matches!(
        migrate_config(kept),
        ConfigLoad::Ready { write: false, config } if config.mode == Some(Mode::Push)
    ));
}

#[test]
fn directories_come_from_the_first_that_names_some() {
    let file = FileConfig {
        paths: Some(vec!["~/projects".into(), "/srv".into(), "~".into(), "~x".into()]),
        ..FileConfig::default()
    };
    assert_eq!(
        requested_directories_in(&no_options(), &file, "/cwd", Some("/home/ann")),
        vec!["/home/ann/projects", "/srv", "/home/ann", "~x"]
    );
    let empty = FileConfig {
        paths: Some(Vec::new()),
        ..FileConfig::default()
    };
    assert_eq!(
        requested_directories_in(&no_options(), &empty, "/cwd", None),
        vec!["/cwd"]
    );
    let cli = Cli {
        directories: vec!["~/given".into()],
        ..no_options()
    };
    assert_eq!(requested_directories(&cli, &file, "/cwd"), vec!["~/given"]);
}

#[test]
fn the_command_line_outranks_the_file() {
    let file = FileConfig {
        mode: Some(Mode::Merge),
        paths: None,
        quick: Some(true),
        recursion: Some(3),
        trace: Some(true),
        auto_stash: Some(true),
    };
    let cli = Cli {
        mode: Some(Mode::Push),
        recursive_depth: Some(0),
        ..no_options()
    };
    let probes = vec![
        found("/a"),
        Probe {
            path: "/gone".into(),
            exists: false,
            canonical: None,
        },
        Probe {
            path: "/odd".into(),
            exists: true,
            canonical: None,
        },
    ];
    match AppConfig::load(&cli, &file, &probes, "/c.yml".into()) {
        Ok(c) => {
            assert_eq!(c.directories, vec!["/real/a", "/odd"]);
            assert_eq!(c.mode, Mode::Push);
            assert_eq!(c.depth, 0);
            assert!(c.quick && c.trace && c.auto_stash);
            assert_eq!(c.config_path, "/c.yml");
            assert_eq!(c.runner(Some("/cwd")).trace_log, Some("/cwd/gitbatch.log".into()));
            assert_eq!(c.runner(None).trace_log, None);
            assert_eq!(c.runner(None).timeout.secs(), 90);
        }
        Err(e) => panic!("{}", e.message()),
    }
    match AppConfig::load(&no_options(), &FileConfig::default(), &vec![found("/a")], "/c".into()) {
        Ok(mut c) => {
            assert_eq!((c.mode, c.depth), (Mode::Pull, 1));
            assert!(!c.quick && !c.trace && !c.auto_stash);
            c.mode = Mode::Fetch;
            assert_eq!(c.tui_mode(), Mode::Pull);
        }
        Err(e) => panic!("{}", e.message()),
    }
}

#[test]
fn no_directory_is_an_error() {
    match AppConfig::load(&no_options(), &FileConfig::default(), &Vec::new(), "/c".into()) {
        Err(e) => assert_eq!(
            e.message(),
            "configuration error: no valid directories remain after configuration merge"
        ),
        Ok(_) => panic!("expected an error"),
    }
}

fn place(path: &str, marker: Marker) -> Candidate {
    Candidate {
        path: path.to_string(),
        canonical: None,
        marker,
    }
}

fn entry(path: &str, marker: Marker) -> Entry {
    Entry {
        name: path.rsplit('/').next().unwrap_or("").to_string(),
        is_dir: true,
        place: place(path, marker),
    }
}

fn searched(d: &Discovery) -> Vec<String> {
    d.directories().cloned().unwrap_or_default()
}

#[test]
fn depth_zero_behaves_like_immediate_children() {
    let mut d = discover_repositories(&vec![place("/root", Marker::Missing)], 0).unwrap();
    assert_eq!(searched(&d), vec!["/root"]);
    d.advance(&vec![entry("/root/repo-a", Marker::Directory)]);
    assert!(d.directories().is_none());
    assert_eq!(d.finish().unwrap(), vec!["/root/repo-a"]);
}

#[test]
fn falls_back_to_root_when_no_child_repo_exists() {
    let mut d = discover_repositories(&vec![place("/root", Marker::Directory)], 1).unwrap();
    d.advance(&vec![entry("/root/.git", Marker::Missing)]);
    assert_eq!(d.finish().unwrap(), vec!["/root"]);
}

#[test]
fn includes_explicit_root_alongside_child_repositories() {
    let mut d = discover_repositories(&vec![place("/root", Marker::Directory)], 1).unwrap();
    d.advance(&vec![
        entry("/root/child", Marker::Directory),
        entry("/root/.git", Marker::Missing),
    ]);
    assert_eq!(d.finish().unwrap(), vec!["/root", "/root/child"]);
}

#[test]
fn recognizes_linked_worktree_gitdir_marker_file() {
    let marker = || {
        Marker::File(Some(
            "gitdir: /example/repo/.git/worktrees/linked-worktree\n".to_string(),
        ))
    };
    assert!(is_git_repository(&marker()));
    let mut d = discover_repositories(&vec![place("/root", Marker::Missing)], 1).unwrap();
    d.advance(&vec![entry("/root/linked-worktree", marker())]);
    assert_eq!(d.finish().unwrap(), vec!["/root/linked-worktree"]);
}

#[test]
fn rejects_malformed_git_marker_file() {
    assert!(!is_git_repository(&Marker::File(Some(
        "this is not a gitdir marker\n".to_string()
    ))));
    assert!(!is_git_repository(&Marker::File(None)));
    assert!(!is_git_repository(&Marker::Other));
}

#[test]
fn a_search_goes_level_by_level_and_not_into_repositories() {
    let mut d = discover_repositories(&vec![place("/r", Marker::Missing)], 2).unwrap();
    d.advance(&vec![
        entry("/r/b", Marker::Directory),
        entry("/r/x", Marker::Missing),
    ]);
    assert_eq!(searched(&d), vec!["/r/x"]);
    d.advance(&vec![
        entry("/r/x/c", Marker::Directory),
        entry("/r/b/", Marker::Directory),
        entry("/r/a", Marker::Directory),
    ]);
    assert!(d.directories().is_none());
    assert_eq!(d.finish().unwrap(), vec!["/r/a", "/r/b", "/r/x/c"]);
    let mut file = entry("/r/file", Marker::Directory);
    file.is_dir = false;
    let (next, repositories) = walk_once(&vec![file]);
    assert!(next.is_empty() && repositories.is_empty());
}

#[test]
fn a_deeper_search_finds_no_less() {
    let walk = |depth: usize| {
        let mut d = discover_repositories(&vec![place("/r", Marker::Missing)], depth).unwrap();
        d.advance(&vec![
            entry("/r/b", Marker::Directory),
            entry("/r/x", Marker::Missing),
        ]);
        d.advance(&vec![entry("/r/x/c", Marker::Directory)]);
        d.finish().unwrap()
    };
    assert_eq!(walk(1), vec!["/r/b"]);
    assert_eq!(walk(2), vec!["/r/b", "/r/x/c"]);
    assert_eq!(walk(3), vec!["/r/b", "/r/x/c"]);
}

#[test]
fn nothing_found_is_an_error() {
    assert!(matches!(
        discover_repositories(&Vec::new(), 1),
        Err(AppError::NoRepositoriesFound)
    ));
    let mut d = discover_repositories(&vec![place("/r", Marker::Missing)], 1).unwrap();
    d.advance(&Vec::new());
    assert!(matches!(d.finish(), Err(AppError::NoRepositoriesFound)));
}

fn outcome(directory: &str, ok: bool) -> RepoOutcome {
    RepoOutcome {
        directory: directory.to_string(),
        result: if ok {
            Ok("one\ntwo".to_string())
        } else {
            Err(AppError::NotRepository(directory.to_string()))
        },
    }
}

fn texts(lines: &[Printed]) -> Vec<String> {
    lines
        .iter()
        .map(|l| match l {
            Printed::Output(t) => format!("out {t}"),
            Printed::Failure(t) => format!("err {t}"),
        })
        .collect()
}

#[test]
fn a_batch_fails_when_any_repository_fails() {
    let batch = run(vec![outcome("/a", false)], Mode::Pull, Timeout::from_secs(1));
    match batch.result {
        Err(AppError::BatchFailures { failed, total }) => {
            assert_eq!(failed, 1);
            assert_eq!(total, 1);
        }
        other => panic!("expected batch failure, got {other:?}"),
    }
    let fine = run(vec![outcome("/a", true)], Mode::Pull, Timeout::from_secs(1));
    assert!(fine.result.is_ok());
    assert_eq!(texts(&fine.lines)[1], "out 1 repositories finished in: 1s");
}

#[test]
fn a_batch_prints_the_same_in_whatever_order_it_ran() {
    let forth = report_outcomes(
        vec![outcome("/b", true), outcome("/a", false)],
        Mode::Merge,
        "2s",
    );
    let back = report_outcomes(
        vec![outcome("/a", false), outcome("/b", true)],
        Mode::Merge,
        "2s",
    );
    assert_eq!(
        texts(&forth.lines),
        vec![
            "err could not perform merge on /a: path does not look like a git repository: /a",
            "out /b: one | two",
            "out 2 repositories finished in: 2s",
        ]
    );
    assert_eq!(texts(&forth.lines), texts(&back.lines));
    let quiet = RepoOutcome {
        directory: "/c".into(),
        result: Ok(" ".into()),
    };
    assert_eq!(
        texts(&report_outcomes(vec![quiet], Mode::Pull, "0s").lines)[0],
        "out /c: successful"
    );
}

#[test]
fn a_new_worktree_lies_beside_its_repository() {
    assert_eq!(
        default_worktree_path("/work/myproject", "feature/auth"),
        "/work/myproject.feature-auth"
    );
}

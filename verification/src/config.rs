//! The configuration: what the file and the command line say, put together.

use vstd::prelude::*;
use vstd::string::*;

use crate::chars::{
    begins_with, blank, cat2, copy_texts, is_blank, lemma_texts_push, opt_text, same_text,
    starts_with, texts,
};
use crate::cli::Cli;
use crate::error::{AppError, Fault, Result, Timeout};
use crate::git::command::{report, Report};
use crate::git::runner::GitRunner;
use crate::mode::Mode;
use crate::native::system_path;
use crate::order::views_of;
use crate::paths::{child, child_of};

verus! {

// ── Where the file is ────────────────────────────────────────────────────────

/// The directories of the user.
#[derive(Debug)]
pub struct UserDirs {
    /// Where programs keep their configuration.
    pub config: String,
    pub home: String,
}

/// The directories of the user, as the system has them: that of the configuration, and home.
///
/// Calls `directories::BaseDirs::new`, and `config_dir` and `home_dir` of what it gives. It gives
/// nothing where the home directory is unknown, and neither does this function. What the call gives
/// depends on the environment, so nothing is claimed of it.
#[verifier::external_body]
fn base_dirs() -> (r: Option<(Vec<u8>, Vec<u8>)>)
{
    let dirs = directories::BaseDirs::new()?;
    let config = dirs.config_dir().as_os_str().as_encoded_bytes().to_vec();
    let home = dirs.home_dir().as_os_str().as_encoded_bytes().to_vec();
    Some((config, home))
}

/// The directories of the user, where they are known.
fn user_dirs() -> (r: Option<UserDirs>)
{
    match base_dirs() {
        Some((config, home)) => Some(
            UserDirs {
                config: system_path(config.as_slice()),
                home: system_path(home.as_slice()),
            },
        ),
        None => None,
    }
}

/// The directory of the configuration file, where `base` is that of the user's configuration.
pub open spec fn config_dir_of(base: Option<Seq<char>>) -> Report {
    match base {
        Some(b) => Ok(child(b, "gitbatch"@)),
        None => Err(Fault::Config("could not determine user config directory"@)),
    }
}

/// The configuration file, where `base` is the directory of the user's configuration.
pub open spec fn config_file_of(base: Option<Seq<char>>) -> Report {
    match config_dir_of(base) {
        Ok(dir) => Ok(child(dir, "config.yml"@)),
        Err(e) => Err(e),
    }
}

/// The view of a text that may be there.
pub open spec fn opt_str_view(o: Option<&str>) -> Option<Seq<char>> {
    match o {
        Some(s) => Some(s@),
        None => None,
    }
}

/// The directory of the configuration file, where `base` is that of the user's configuration.
pub fn config_dir_in(base: Option<&str>) -> (r: Result<String>)
    ensures
        report(r) == config_dir_of(opt_str_view(base)),
{
    match base {
        Some(b) => Ok(child_of(b, "gitbatch")),
        None => Err(AppError::Config("could not determine user config directory".to_owned())),
    }
}

/// The configuration file, where `base` is the directory of the user's configuration.
pub fn config_file_in(base: Option<&str>) -> (r: Result<String>)
    ensures
        report(r) == config_file_of(opt_str_view(base)),
{
    match config_dir_in(base) {
        Ok(dir) => Ok(child_of(dir.as_str(), "config.yml")),
        Err(e) => Err(e),
    }
}

/// The directory of the configuration file: `gitbatch` in the directory of the user's
/// configuration, wherever that is.
pub fn config_dir_path() -> (r: Result<String>)
    ensures
        exists|base: Option<Seq<char>>| report(r) == #[trigger] config_dir_of(base),
{
    match user_dirs() {
        Some(dirs) => config_dir_in(Some(dirs.config.as_str())),
        None => config_dir_in(None),
    }
}

/// The configuration file: `gitbatch/config.yml` in the directory of the user's configuration,
/// wherever that is.
pub fn config_file_path() -> (r: Result<String>)
    ensures
        exists|base: Option<Seq<char>>| report(r) == #[trigger] config_file_of(base),
{
    match user_dirs() {
        Some(dirs) => config_file_in(Some(dirs.config.as_str())),
        None => config_file_in(None),
    }
}

// ── What it says ─────────────────────────────────────────────────────────────

/// What the configuration file says.
#[derive(Debug)]
pub struct FileConfig {
    pub mode: Option<Mode>,
    pub paths: Option<Vec<String>>,
    pub quick: Option<bool>,
    pub recursion: Option<usize>,
    pub trace: Option<bool>,
    pub auto_stash: Option<bool>,
}

/// What the file says, with its texts as sequences of characters.
#[verifier::ext_equal]
pub struct FileModel {
    pub mode: Option<Mode>,
    pub paths: Option<Seq<Seq<char>>>,
    pub quick: Option<bool>,
    pub recursion: Option<usize>,
    pub trace: Option<bool>,
    pub auto_stash: Option<bool>,
}

/// The view of a list that may be there.
pub open spec fn opt_texts(o: Option<Vec<String>>) -> Option<Seq<Seq<char>>> {
    match o {
        Some(v) => Some(texts(v@)),
        None => None,
    }
}

impl View for FileConfig {
    type V = FileModel;

    open spec fn view(&self) -> FileModel {
        FileModel {
            mode: self.mode,
            paths: opt_texts(self.paths),
            quick: self.quick,
            recursion: self.recursion,
            trace: self.trace,
            auto_stash: self.auto_stash,
        }
    }
}

/// A file that says nothing.
pub open spec fn says_nothing() -> FileModel {
    FileModel {
        mode: None,
        paths: None,
        quick: None,
        recursion: None,
        trace: None,
        auto_stash: None,
    }
}

/// The file that is written where there is none.
pub open spec fn first_file() -> FileModel {
    FileModel {
        mode: Some(Mode::Pull),
        paths: None,
        quick: Some(false),
        recursion: Some(1),
        trace: Some(false),
        auto_stash: Some(false),
    }
}

impl Default for FileConfig {
    fn default() -> (r: Self)
        ensures
            r@ == says_nothing(),
    {
        FileConfig {
            mode: None,
            paths: None,
            quick: None,
            recursion: None,
            trace: None,
            auto_stash: None,
        }
    }
}

/// What to do with the configuration file.
#[derive(Debug)]
pub enum ConfigLoad {
    /// Take `config`, and write it to the file where `write` says so.
    Ready { config: FileConfig, write: bool },
    /// Parse the file.
    Parse,
}

/// What is to be done with the file that holds `raw`; nothing where there is no file: that is then
/// written with the defaults. A blank file says nothing.
pub fn load_or_create_config(raw: Option<&str>) -> (r: ConfigLoad)
    ensures
        match (raw, r) {
            (None, ConfigLoad::Ready { config, write }) => config@ == first_file() && write,
            (Some(text), ConfigLoad::Ready { config, write }) => {
                &&& blank(text@)
                &&& config@ == says_nothing()
                &&& !write
            },
            (None, ConfigLoad::Parse) => false,
            (Some(text), ConfigLoad::Parse) => !blank(text@),
        },
{
    match raw {
        None => ConfigLoad::Ready {
            config: FileConfig {
                mode: Some(Mode::Pull),
                paths: None,
                quick: Some(false),
                recursion: Some(1),
                trace: Some(false),
                auto_stash: Some(false),
            },
            write: true,
        },
        Some(text) => if is_blank(text) {
            ConfigLoad::Ready { config: FileConfig::default(), write: false }
        } else {
            ConfigLoad::Parse
        },
    }
}

/// The mode of a file in which fetching was still a batch mode becomes pulling.
pub open spec fn migrated(file: FileModel) -> FileModel {
    if file.mode == Some(Mode::Fetch) {
        FileModel { mode: Some(Mode::Pull), ..file }
    } else {
        file
    }
}

/// What is to be done with a file that was parsed. Fetch is no longer a batch mode (the startup
/// fetch covers it): old files are migrated to the new default, and written anew.
pub fn migrate_config(parsed: FileConfig) -> (r: ConfigLoad)
    ensures
        match r {
            ConfigLoad::Ready { config, write } => {
                &&& config@ == migrated(parsed@)
                &&& write == (parsed@.mode == Some(Mode::Fetch))
            },
            ConfigLoad::Parse => false,
        },
{
    let fetch = matches!(parsed.mode, Some(Mode::Fetch));
    let config = FileConfig {
        mode: if fetch {
            Some(Mode::Pull)
        } else {
            parsed.mode
        },
        paths: parsed.paths,
        quick: parsed.quick,
        recursion: parsed.recursion,
        trace: parsed.trace,
        auto_stash: parsed.auto_stash,
    };
    ConfigLoad::Ready { config, write: fetch }
}

/// A migrated file has no mode that is not a batch mode, and migrating it again changes nothing.
pub proof fn lemma_migrated_once(file: FileModel)
    ensures
        migrated(file).mode != Some(Mode::Fetch),
        migrated(migrated(file)) == migrated(file),
        file.mode != Some(Mode::Fetch) ==> migrated(file) == file,
        migrated(file) == (FileModel { mode: migrated(file).mode, ..file }),
{
}

// ── What is asked for ────────────────────────────────────────────────────────

/// A path of the file, in which a leading `~` stands for the home directory.
pub open spec fn at_home(path: Seq<char>, home: Option<Seq<char>>) -> Seq<char> {
    match home {
        Some(h) => if path == "~"@ || begins_with(path, "~/"@) {
            h + path.skip(1)
        } else {
            path
        },
        None => path,
    }
}

/// The directories to scan: those of the command line, or else those of the file, or else the
/// current one.
pub open spec fn requested(
    given: Seq<Seq<char>>,
    file: FileModel,
    current_dir: Seq<char>,
    home: Option<Seq<char>>,
) -> Seq<Seq<char>> {
    if given.len() > 0 {
        given
    } else {
        match file.paths {
            Some(paths) => if paths.len() > 0 {
                paths.map_values(|p: Seq<char>| at_home(p, home))
            } else {
                seq![current_dir]
            },
            None => seq![current_dir],
        }
    }
}

/// A path of the file, in which a leading `~` stands for the home directory.
fn expand_home(path: &str, home: Option<&str>) -> (r: String)
    ensures
        r@ == at_home(path@, opt_str_view(home)),
{
    match home {
        Some(h) => {
            proof {
                reveal_strlit("~");
                reveal_strlit("~/");
            }
            if same_text(path, "~") || starts_with(path, "~/") {
                let n = path.unicode_len();
                let rest = path.substring_char(1, n);
                proof {
                    assert(rest@ =~= path@.skip(1));
                }
                cat2(h, rest)
            } else {
                path.to_owned()
            }
        },
        None => path.to_owned(),
    }
}

/// The directories to scan, where `home` is the home directory.
pub fn requested_directories_in(
    cli: &Cli,
    file: &FileConfig,
    current_dir: &str,
    home: Option<&str>,
) -> (r: Vec<String>)
    ensures
        texts(r@) == requested(
            texts(cli.directories@),
            file@,
            current_dir@,
            opt_str_view(home),
        ),
        r@.len() > 0,
{
    if cli.directories.len() > 0 {
        return copy_texts(&cli.directories);
    }
    let mut out: Vec<String> = Vec::new();
    if let Some(paths) = &file.paths {
        if paths.len() > 0 {
            for i in 0..paths.len()
                invariant
                    out@.len() == i,
                    forall|j: int|
                        0 <= j < i ==> (#[trigger] out@[j])@ == at_home(
                            paths@[j]@,
                            opt_str_view(home),
                        ),
            {
                out.push(expand_home(paths[i].as_str(), home));
            }
            proof {
                assert(texts(out@) =~= texts(paths@).map_values(
                    |p: Seq<char>| at_home(p, opt_str_view(home)),
                ));
            }
            return out;
        }
    }
    out.push(current_dir.to_owned());
    proof {
        assert(texts(out@) =~= seq![current_dir@]);
    }
    out
}

/// The directories to scan: those of the command line, or else those of the file, or else the
/// current one. A leading `~` in a path of the file stands for the home directory, wherever that
/// is.
pub fn requested_directories(cli: &Cli, file: &FileConfig, current_dir: &str) -> (r: Vec<String>)
    ensures
        exists|home: Option<Seq<char>>|
            texts(r@) == #[trigger] requested(texts(cli.directories@), file@, current_dir@, home),
        cli.directories@.len() > 0 ==> texts(r@) == texts(cli.directories@),
{
    match user_dirs() {
        Some(dirs) => requested_directories_in(cli, file, current_dir, Some(dirs.home.as_str())),
        None => requested_directories_in(cli, file, current_dir, None),
    }
}

/// What became of a directory that was asked for.
#[derive(Debug)]
pub struct Probe {
    pub path: String,
    pub exists: bool,
    /// Its canonical path, where that could be found out.
    pub canonical: Option<String>,
}

/// A probe with its texts as sequences of characters.
pub struct ProbeModel {
    pub path: Seq<char>,
    pub exists: bool,
    pub canonical: Option<Seq<char>>,
}

impl View for Probe {
    type V = ProbeModel;

    open spec fn view(&self) -> ProbeModel {
        ProbeModel {
            path: self.path@,
            exists: self.exists,
            canonical: opt_text(self.canonical),
        }
    }
}

impl ProbeModel {
    /// The canonical path, or else the path as it was given.
    pub open spec fn normalized(self) -> Seq<char> {
        match self.canonical {
            Some(p) => p,
            None => self.path,
        }
    }
}

/// The directories that exist.
pub open spec fn existing(probes: Seq<ProbeModel>) -> Seq<Seq<char>>
    decreases probes.len(),
{
    if probes.len() == 0 {
        Seq::empty()
    } else if probes.last().exists {
        existing(probes.drop_last()).push(probes.last().normalized())
    } else {
        existing(probes.drop_last())
    }
}

/// The first of the two that is there, or else `otherwise`.
pub open spec fn first_of<T>(a: Option<T>, b: Option<T>, otherwise: T) -> T {
    match a {
        Some(x) => x,
        None => match b {
            Some(y) => y,
            None => otherwise,
        },
    }
}

/// The configuration of the program.
#[derive(Debug)]
pub struct AppConfig {
    pub directories: Vec<String>,
    pub depth: usize,
    pub quick: bool,
    pub mode: Mode,
    pub trace: bool,
    /// Stash a dirty tree before pull/merge/rebase and restore it afterwards.
    pub auto_stash: bool,
    pub config_path: String,
}

impl AppConfig {
    /// Puts together what the command line and the file say, where `probes` tells of the directories
    /// that they ask for. The command line outranks the file.
    pub fn load(cli: &Cli, file: &FileConfig, probes: &Vec<Probe>, config_path: String) -> (r:
        Result<Self>)
        ensures
            match r {
                Ok(c) => {
                    &&& texts(c.directories@) == existing(views_of(probes@))
                    &&& c.directories@.len() > 0
                    &&& c.depth == first_of(cli.recursive_depth, file.recursion, 1)
                    &&& c.quick == (cli.quick || file.quick == Some(true))
                    &&& c.mode == first_of(cli.mode, file.mode, Mode::Pull)
                    &&& c.trace == (cli.trace || file.trace == Some(true))
                    &&& c.auto_stash == (file.auto_stash == Some(true))
                    &&& c.config_path == config_path
                },
                Err(e) => {
                    &&& existing(views_of(probes@)).len() == 0
                    &&& e@ == Fault::Config(
                        "no valid directories remain after configuration merge"@,
                    )
                },
            },
    {
        let ghost all = views_of(probes@);
        let mut directories: Vec<String> = Vec::new();
        proof {
            assert(texts(directories@) =~= existing(all.take(0)));
        }
        for i in 0..probes.len()
            invariant
                all == views_of(probes@),
                texts(directories@) == existing(all.take(i as int)),
        {
            proof {
                assert(all.take(i + 1).drop_last() =~= all.take(i as int));
                assert(all.take(i + 1).last() == probes@[i as int]@);
            }
            if probes[i].exists {
                let path = match &probes[i].canonical {
                    Some(p) => p.clone(),
                    None => probes[i].path.clone(),
                };
                proof {
                    lemma_texts_push(directories@, path);
                }
                directories.push(path);
            }
        }
        proof {
            assert(all.take(probes@.len() as int) =~= all);
            assert(texts(directories@).len() == directories@.len());
        }
        if directories.len() == 0 {
            return Err(
                AppError::Config(
                    "no valid directories remain after configuration merge".to_owned(),
                ),
            );
        }
        let depth: usize = match cli.recursive_depth {
            Some(n) => n,
            None => match file.recursion {
                Some(n) => n,
                None => 1,
            },
        };
        let mode = match cli.mode {
            Some(m) => m,
            None => match file.mode {
                Some(m) => m,
                None => Mode::default(),
            },
        };
        Ok(
            AppConfig {
                directories,
                depth,
                quick: cli.quick || matches!(file.quick, Some(true)),
                mode,
                trace: cli.trace || matches!(file.trace, Some(true)),
                auto_stash: matches!(file.auto_stash, Some(true)),
                config_path,
            },
        )
    }

    /// The mode that the user interface starts in. Fetch is no batch mode there: the startup fetch
    /// covers it.
    pub fn tui_mode(&self) -> (r: Mode)
        ensures
            r == (if self.mode == Mode::Fetch {
                Mode::Pull
            } else {
                self.mode
            }),
    {
        match self.mode {
            Mode::Fetch => Mode::Pull,
            other => other,
        }
    }

    /// Runs git with a limit of ninety seconds, and writes a trace to `gitbatch.log` in the current
    /// directory where that is asked for and the directory is known.
    pub fn runner(&self, current_dir: Option<&str>) -> (r: GitRunner)
        ensures
            r.timeout@ == (90u64, 0u32),
            opt_text(r.trace_log) == (match (self.trace, opt_str_view(current_dir)) {
                (true, Some(dir)) => Some(child(dir, "gitbatch.log"@)),
                _ => None,
            }),
    {
        let trace_log = if self.trace {
            match current_dir {
                Some(dir) => Some(child_of(dir, "gitbatch.log")),
                None => None,
            }
        } else {
            None
        };
        GitRunner::with_trace(Timeout::from_secs(90), trace_log)
    }
}

} // verus!

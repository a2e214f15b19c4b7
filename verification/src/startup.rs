//! How a session begins and ends: the command line, the startup project, the
//! GPU features asked for, and when the program may go.

use vstd::prelude::*;

use crate::diagnostics::DiagnosticsView;
use crate::path::FilePath;
use crate::show::{ShowFile, ShowView};
use crate::state::{recent, SharedState, ShowMode, StateView};
use crate::text::{
    chars_of, join, join_of, same, same_ignoring_case, same_text_ignoring_case, slice_opt, text_opt,
    texts,
};

verus! {

/// Whether quitting now would lose work.
pub fn quit_needs_confirmation(dirty: bool, active_cues: bool) -> (b: bool)
    ensures
        b == (dirty || active_cues),
{
    dirty || active_cues
}

/// Why a peer may not shut the program down, if it may not: first that cues
/// run, then that work is unsaved.
pub open spec fn rejection(dirty: bool, active: bool) -> Option<Seq<char>> {
    if active {
        Some("cues are active; stop playback before shutting down"@)
    } else if dirty {
        Some("the project has unsaved changes; save or discard them before shutting down"@)
    } else {
        None
    }
}

pub fn shutdown_rejection(dirty: bool, active: bool) -> (r: Option<&'static str>)
    ensures
        slice_opt(r) == rejection(dirty, active),
{
    if active {
        Some("cues are active; stop playback before shutting down")
    } else if dirty {
        Some("the project has unsaved changes; save or discard them before shutting down")
    } else {
        None
    }
}

/// A peer can shut the program down exactly where the operator could quit
/// without being asked.
pub proof fn shutdown_needs_an_idle_clean_project(dirty: bool, active: bool)
    ensures
        rejection(dirty, active) is None <==> !(dirty || active),
{
}

/// How the program is called.
pub const CLI_USAGE: &'static str =
    "Usage: cuepool [--show-mode] [--zero-copy | --no-zero-copy] [--project <path> | <path>]\n       cuepool --version";

/// What the command line asks for.
#[derive(Debug, PartialEq, Eq)]
pub struct CliOptions {
    pub project: Option<String>,
    pub zero_copy: Option<bool>,
    /// Start locked in Show mode.
    pub show_mode: bool,
}

pub struct CliView {
    pub project: Option<Seq<char>>,
    pub zero_copy: Option<bool>,
    pub show_mode: bool,
}

impl View for CliOptions {
    type V = CliView;

    open spec fn view(&self) -> CliView {
        CliView {
            project: text_opt(self.project),
            zero_copy: self.zero_copy,
            show_mode: self.show_mode,
        }
    }
}

/// What the arguments from position `i` on make of the options read so far:
/// the options, or what is wrong.
pub open spec fn cli_from(args: Seq<Seq<char>>, i: int, o: CliView) -> Result<CliView, Seq<char>>
    decreases args.len() - i,
{
    if i < 0 || i >= args.len() {
        Ok(o)
    } else {
        let arg = args[i];
        if arg == "--show-mode"@ {
            cli_from(args, i + 1, CliView { show_mode: true, ..o })
        } else if arg == "--zero-copy"@ || arg == "--no-zero-copy"@ {
            if o.zero_copy is Some {
                Err("Only one of --zero-copy and --no-zero-copy may be provided. "@ + CLI_USAGE@)
            } else {
                cli_from(args, i + 1, CliView { zero_copy: Some(arg == "--zero-copy"@), ..o })
            }
        } else if arg == "--project"@ {
            if i + 1 >= args.len() {
                Err("Missing path after --project. "@ + CLI_USAGE@)
            } else if o.project is Some {
                Err("Only one project path may be provided. "@ + CLI_USAGE@)
            } else {
                cli_from(args, i + 2, CliView { project: Some(args[i + 1]), ..o })
            }
        } else if arg.len() > 0 && arg[0] == '-' {
            Err("Unknown option '"@ + arg + "'. "@ + CLI_USAGE@)
        } else if o.project is Some {
            Err("Only one project path may be provided. "@ + CLI_USAGE@)
        } else {
            cli_from(args, i + 1, CliView { project: Some(arg), ..o })
        }
    }
}

/// What the command line, without the program's name, asks for.
pub open spec fn cli_of(args: Seq<Seq<char>>) -> Result<CliView, Seq<char>> {
    cli_from(args, 0, CliView { project: None, zero_copy: None, show_mode: false })
}

fn with_usage(what: &str) -> (r: String)
    ensures
        r@ == what@ + CLI_USAGE@,
{
    let mut r: String = what.to_owned();
    r.append(CLI_USAGE);
    r
}

fn starts_with_dash(s: &str) -> (b: bool)
    ensures
        b == (s@.len() > 0 && s@[0] == '-'),
{
    let v: Vec<char> = chars_of(s);
    v.len() > 0 && v[0] == '-'
}

/// Read the command line, given without the program's name.
pub fn parse_cli(args: &Vec<String>) -> (r: Result<CliOptions, String>)
    ensures
        match (r, cli_of(texts(args@))) {
            (Ok(o), Ok(p)) => o@ == p,
            (Err(e), Err(f)) => e@ == f,
            _ => false,
        },
{
    let ghost all = texts(args@);
    let mut project: Option<String> = None;
    let mut zero_copy: Option<bool> = None;
    let mut show_mode: bool = false;
    let mut i: usize = 0;
    let n: usize = args.len();
    while i < n
        invariant
            n == args@.len(),
            i <= n,
            all == texts(args@),
            cli_of(all) == cli_from(
                all,
                i as int,
                CliView { project: text_opt(project), zero_copy, show_mode },
            ),
        decreases n - i,
    {
        let arg: &str = args[i].as_str();
        assert(all[i as int] == arg@);
        if same(arg, "--show-mode") {
            show_mode = true;
            i = i + 1;
        } else if same(arg, "--zero-copy") || same(arg, "--no-zero-copy") {
            if zero_copy.is_some() {
                return Err(
                    with_usage("Only one of --zero-copy and --no-zero-copy may be provided. "),
                );
            }
            zero_copy = Some(same(arg, "--zero-copy"));
            i = i + 1;
        } else if same(arg, "--project") {
            if i + 1 >= n {
                return Err(with_usage("Missing path after --project. "));
            }
            if project.is_some() {
                return Err(with_usage("Only one project path may be provided. "));
            }
            let path: String = args[i + 1].as_str().to_owned();
            assert(all[i + 1] == path@);
            project = Some(path);
            i = i + 2;
        } else if starts_with_dash(arg) {
            let mut e: String = "Unknown option '".to_owned();
            e.append(arg);
            e.append("'. ");
            e.append(CLI_USAGE);
            return Err(e);
        } else {
            if project.is_some() {
                return Err(with_usage("Only one project path may be provided. "));
            }
            project = Some(arg.to_owned());
            i = i + 1;
        }
    }
    Ok(CliOptions { project, zero_copy, show_mode })
}

/// Asking twice to start locked is asking once.
pub proof fn repeating_show_mode_changes_nothing(args: Seq<Seq<char>>)
    ensures
        cli_of(seq!["--show-mode"@, "--show-mode"@] + args) == cli_of(seq!["--show-mode"@] + args),
{
    let once = seq!["--show-mode"@] + args;
    let twice = seq!["--show-mode"@, "--show-mode"@] + args;
    let start = CliView { project: None, zero_copy: None, show_mode: false };
    let locked = CliView { project: None, zero_copy: None, show_mode: true };
    assert(cli_from(once, 0, start) == cli_from(once, 1, locked));
    assert(cli_from(twice, 0, start) == cli_from(twice, 1, locked));
    assert(cli_from(twice, 1, locked) == cli_from(twice, 2, locked));
    assert(twice.skip(2) =~= args);
    assert(once.skip(1) =~= args);
    lemma_cli_shift(twice, once, 2, 1, locked);
}

/// What follows decides, not where it stands.
proof fn lemma_cli_shift(a: Seq<Seq<char>>, b: Seq<Seq<char>>, i: int, j: int, o: CliView)
    requires
        0 <= i <= a.len(),
        0 <= j <= b.len(),
        a.skip(i) == b.skip(j),
    ensures
        cli_from(a, i, o) == cli_from(b, j, o),
    decreases a.len() - i,
{
    assert(a.skip(i).len() == a.len() - i);
    assert(b.skip(j).len() == b.len() - j);
    if i < a.len() {
        assert(a[i] == a.skip(i)[0]);
        assert(b[j] == b.skip(j)[0]);
        assert(a.skip(i + 1) =~= a.skip(i).skip(1));
        assert(b.skip(j + 1) =~= b.skip(j).skip(1));
        let arg = a[i];
        if arg == "--show-mode"@ {
            lemma_cli_shift(a, b, i + 1, j + 1, CliView { show_mode: true, ..o });
        } else if arg == "--zero-copy"@ || arg == "--no-zero-copy"@ {
            lemma_cli_shift(
                a,
                b,
                i + 1,
                j + 1,
                CliView { zero_copy: Some(arg == "--zero-copy"@), ..o },
            );
        } else if arg == "--project"@ {
            if i + 1 < a.len() {
                assert(a[i + 1] == a.skip(i)[1]);
                assert(b[j + 1] == b.skip(j)[1]);
                assert(a.skip(i + 2) =~= a.skip(i).skip(2));
                assert(b.skip(j + 2) =~= b.skip(j).skip(2));
                lemma_cli_shift(a, b, i + 2, j + 2, CliView { project: Some(a[i + 1]), ..o });
            }
        } else {
            lemma_cli_shift(a, b, i + 1, j + 1, CliView { project: Some(arg), ..o });
        }
    }
}

/// Whether the program is only asked for its version.
pub fn version_requested(args: &Vec<String>) -> (b: bool)
    ensures
        b == (texts(args@) == seq!["--version"@]),
{
    if args.len() != 1 {
        assert(texts(args@).len() != 1);
        return false;
    }
    let b: bool = same(args[0].as_str(), "--version");
    proof {
        assert(texts(args@)[0] == args@[0]@);
        if b {
            assert(texts(args@) =~= seq!["--version"@]);
        }
    }
    b
}

/// Whether an extension, of a file name that has one, is that of a project.
pub open spec fn project_extension(extension: Option<Seq<char>>) -> bool {
    extension is Some && same_ignoring_case(extension->0, "qproj"@)
}

pub fn is_project_extension(extension: Option<&str>) -> (b: bool)
    ensures
        b == project_extension(slice_opt(extension)),
{
    match extension {
        Some(e) => same_text_ignoring_case(e, "qproj"),
        None => false,
    }
}

/// The project the command line names: the path itself where it is absolute,
/// else the path from the working directory. It must be named as a project
/// and be an existing file. `extension` and `is_file` are those of that path.
pub fn resolve_cli_project_path(
    path: FilePath,
    absolute: bool,
    joined: FilePath,
    extension: Option<&str>,
    is_file: bool,
) -> (r: Result<FilePath, String>)
    ensures
        ({
            let resolved = if absolute {
                path
            } else {
                joined
            };
            let head = "Cannot open CLI project '"@ + resolved.text@;
            match r {
                Ok(p) => p == resolved && project_extension(slice_opt(extension)) && is_file,
                Err(e) => if !project_extension(slice_opt(extension)) {
                    e@ == head + "': expected a .qproj file"@
                } else {
                    !is_file && e@ == head + "': path is not an existing file"@
                },
            }
        }),
{
    let resolved: FilePath = if absolute {
        path
    } else {
        joined
    };
    let named: bool = is_project_extension(extension);
    if named && is_file {
        return Ok(resolved);
    }
    let mut e: String = "Cannot open CLI project '".to_owned();
    e.append(resolved.text.as_str());
    if !named {
        e.append("': expected a .qproj file");
    } else {
        e.append("': path is not an existing file");
    }
    Err(e)
}

/// Whether video frames stay on the GPU.
#[derive(Clone, Copy, PartialEq, Eq, Structural, Debug)]
pub enum ZeroCopyPreference {
    Auto,
    Enabled,
    Disabled,
}

/// The command line decides over the environment.
pub fn resolve_zero_copy_preference(
    cli_override: Option<bool>,
    env_fallback: ZeroCopyPreference,
) -> (r: ZeroCopyPreference)
    ensures
        r == (match cli_override {
            Some(true) => ZeroCopyPreference::Enabled,
            Some(false) => ZeroCopyPreference::Disabled,
            None => env_fallback,
        }),
{
    match cli_override {
        Some(true) => ZeroCopyPreference::Enabled,
        Some(false) => ZeroCopyPreference::Disabled,
        None => env_fallback,
    }
}

/// Whether the DX12 backend is tried first: on Windows, and wherever frames
/// are to stay on the GPU.
pub fn prefer_dx12_backend(windows: bool, zero_copy_enabled: bool) -> (b: bool)
    ensures
        b == (windows || zero_copy_enabled),
{
    windows || zero_copy_enabled
}

/// `list` as it is where it holds `x`, else with `x` at the end.
pub open spec fn with_once(list: Seq<u128>, x: u128) -> Seq<u128> {
    if list.contains(x) {
        list
    } else {
        list.push(x)
    }
}

/// The sets of optional GPU features to ask for, in this order, none twice:
/// both accelerations, either one, none.
pub open spec fn feature_candidates(zero_copy: u128, hap: u128) -> Seq<u128> {
    with_once(
        with_once(with_once(seq![zero_copy | hap], zero_copy), hap),
        0,
    )
}

fn add_once(list: &mut Vec<u128>, x: u128)
    ensures
        final(list)@ == with_once(old(list)@, x),
{
    let mut i: usize = 0;
    while i < list.len()
        invariant
            list@ == old(list)@,
            i <= list@.len(),
            forall|j: int| 0 <= j < i ==> list@[j] != x,
        decreases list@.len() - i,
    {
        if list[i] == x {
            assert(list@.contains(x));
            return;
        }
        i = i + 1;
    }
    list.push(x);
}

pub fn optional_feature_candidates(zero_copy: u128, hap: u128) -> (r: Vec<u128>)
    ensures
        r@ == feature_candidates(zero_copy, hap),
{
    let mut r: Vec<u128> = Vec::new();
    r.push(zero_copy | hap);
    assert(r@ =~= seq![zero_copy | hap]);
    add_once(&mut r, zero_copy);
    add_once(&mut r, hap);
    add_once(&mut r, 0);
    r
}

/// The first set asked for holds every optional feature, the empty set is
/// asked for, and no set twice.
pub proof fn feature_candidates_end_in_none(zero_copy: u128, hap: u128)
    ensures
        feature_candidates(zero_copy, hap)[0] == zero_copy | hap,
        feature_candidates(zero_copy, hap).contains(0),
        feature_candidates(zero_copy, hap).no_duplicates(),
{
    let a = seq![zero_copy | hap];
    let b = with_once(a, zero_copy);
    let c = with_once(b, hap);
    let d = with_once(c, 0);
    if !c.contains(0) {
        assert(d[c.len() as int] == 0);
    }
}

/// Whether `set` holds every feature of `part`.
pub open spec fn holds(set: u128, part: u128) -> bool {
    set & part == part
}

/// Whether the features for frames on the GPU were granted, or none was
/// needed.
pub fn zero_copy_granted(zero_copy: u128, enabled: u128) -> (b: bool)
    ensures
        b == (zero_copy == 0 || holds(enabled, zero_copy)),
{
    zero_copy == 0 || enabled & zero_copy == zero_copy
}

/// What became of GPU-native HAP decoding.
#[derive(Clone, Copy, PartialEq, Eq, Structural, Debug)]
pub enum HapOutcome {
    Granted,
    /// The device refused the feature.
    Refused,
    /// The device lacks it.
    Missing,
}

pub fn hap_outcome(hap: u128, enabled: u128) -> (r: HapOutcome)
    ensures
        r == (if hap == 0 {
            HapOutcome::Missing
        } else if holds(enabled, hap) {
            HapOutcome::Granted
        } else {
            HapOutcome::Refused
        }),
{
    if hap == 0 {
        HapOutcome::Missing
    } else if enabled & hap == hap {
        HapOutcome::Granted
    } else {
        HapOutcome::Refused
    }
}

/// A device request that was refused: the features, in print, and why.
pub struct Refusal {
    pub features: String,
    pub reason: String,
}

pub open spec fn refusal_texts(v: Seq<Refusal>) -> Seq<Seq<char>> {
    v.map_values(|r: Refusal| r.features@ + ": "@ + r.reason@)
}

/// Why an acceleration is not available although the device has it: every
/// refused request.
pub fn negotiation_reason(label: &str, failures: &Vec<Refusal>) -> (r: String)
    ensures
        r@ == label@ + " device feature request failed ("@ + join(
            refusal_texts(failures@),
            "; "@,
        ) + ")"@,
{
    let mut parts: Vec<String> = Vec::new();
    let mut i: usize = 0;
    assert(texts(parts@) =~= refusal_texts(failures@).take(0));
    while i < failures.len()
        invariant
            i <= failures@.len(),
            texts(parts@) == refusal_texts(failures@).take(i as int),
        decreases failures@.len() - i,
    {
        let ghost before = parts@;
        let mut part: String = failures[i].features.as_str().to_owned();
        part.append(": ");
        part.append(failures[i].reason.as_str());
        parts.push(part);
        proof {
            assert(texts(parts@) =~= texts(before).push(part@));
            assert(refusal_texts(failures@).take(i + 1) =~= refusal_texts(failures@).take(
                i as int,
            ).push(part@));
        }
        i = i + 1;
    }
    assert(refusal_texts(failures@).take(i as int) =~= refusal_texts(failures@));
    let mut r: String = label.to_owned();
    r.append(" device feature request failed (");
    let all: String = join_of(&parts, "; ");
    r.append(all.as_str());
    r.append(")");
    r
}

/// Why no device could be had: the last refusal.
pub fn device_failure(failures: &Vec<Refusal>) -> (r: String)
    ensures
        r@ == "GPU device request failed: "@ + (if failures@.len() > 0 {
            failures@.last().reason@
        } else {
            "no device candidates were attempted"@
        }),
{
    let mut r: String = "GPU device request failed: ".to_owned();
    let n: usize = failures.len();
    if n > 0 {
        r.append(failures[n - 1].reason.as_str());
    } else {
        r.append("no device candidates were attempted");
    }
    r
}

/// What came of reading the startup project.
pub enum StartupProject {
    Unreadable(String),
    Unparsable(String),
    Read(ShowFile),
}

/// Open the project the program was started with. One that cannot be read, or
/// makes no sense, is reported and changes nothing.
pub fn load_startup_project(
    state: &mut SharedState,
    path: &FilePath,
    project: StartupProject,
) -> (r: Result<(), String>)
    ensures
        match (r, project_failure(*path, project)) {
            (Ok(_), None) => final(state)@ == project_started(
                old(state)@,
                *path,
                project->Read_0@,
            ),
            (Err(e), Some(message)) => e@ == message && final(state)@ == old(state)@,
            _ => false,
        },
{
    match project {
        StartupProject::Unreadable(error) => {
            let mut e: String = "Cannot read startup project '".to_owned();
            e.append(path.text.as_str());
            e.append("': ");
            e.append(error.as_str());
            Err(e)
        },
        StartupProject::Unparsable(error) => {
            let mut e: String = "Cannot parse startup project '".to_owned();
            e.append(path.text.as_str());
            e.append("': ");
            e.append(error.as_str());
            Err(e)
        },
        StartupProject::Read(show) => {
            state.apply_show_file(path, show);
            state.push_recent_file(path);
            Ok(())
        },
    }
}

/// Settle the operator's stance once a startup project was opened.
pub fn apply_startup_show_mode(state: &mut SharedState, show_mode: bool)
    ensures
        final(state)@ == stance_settled(old(state)@, show_mode),
{
    if show_mode {
        state.show_mode = ShowMode::Show;
    }
}

/// Loading a project leaves the operator's stance alone, so a session started
/// locked stays locked, and is not an edit.
pub proof fn loading_keeps_the_mode(s: StateView, path: FilePath, show: ShowView)
    ensures
        s.loaded(path, show).show_mode == s.show_mode,
        !s.loaded(path, show).dirty,
{
}

/// What was kept from earlier sessions.
pub struct SavedSettings {
    pub recent_files: Vec<FilePath>,
    pub last_seen_release_notes: Option<String>,
}

/// The state with what was kept from earlier sessions.
pub open spec fn with_settings(s: StateView, settings: SavedSettings) -> StateView {
    StateView {
        recent_files: settings.recent_files@,
        last_seen_release_notes: text_opt(settings.last_seen_release_notes),
        ..s
    }
}

/// The state with a startup project opened.
pub open spec fn project_started(s: StateView, path: FilePath, show: ShowView) -> StateView {
    StateView { recent_files: recent(s.recent_files, path), ..s.loaded(path, show) }
}

/// The state with the operator's stance settled.
pub open spec fn stance_settled(s: StateView, show_mode: bool) -> StateView {
    if show_mode {
        StateView { show_mode: ShowMode::Show, ..s }
    } else {
        s
    }
}

/// The state once the diagnostics tell where the log is.
pub open spec fn logging(s: StateView, log_file: Seq<char>) -> StateView {
    StateView { diagnostics: DiagnosticsView { log_file, ..s.diagnostics }, ..s }
}

/// Why a session does not begin: the title of the message, and the message.
pub struct StartupFailure {
    pub title: &'static str,
    pub message: String,
}

/// What is wrong with a startup project, if anything.
pub open spec fn project_failure(path: FilePath, project: StartupProject) -> Option<Seq<char>> {
    match project {
        StartupProject::Unreadable(error) => Some(
            "Cannot read startup project '"@ + path.text@ + "': "@ + error@,
        ),
        StartupProject::Unparsable(error) => Some(
            "Cannot parse startup project '"@ + path.text@ + "': "@ + error@,
        ),
        StartupProject::Read(_) => None,
    }
}

/// What the beginning of a session makes of the state, and the title and text
/// of what keeps it from beginning. `alone` tells whether this is the only
/// program that runs.
pub open spec fn session_start(
    s: StateView,
    alone: Result<bool, String>,
    settings: SavedSettings,
    project: Option<(FilePath, StartupProject)>,
    show_mode: bool,
    log_file: Seq<char>,
) -> (StateView, Option<(Seq<char>, Seq<char>)>) {
    let t = with_settings(s, settings);
    match alone {
        Err(error) => (
            s,
            Some(
                (
                    "Could not start CuePool"@,
                    "Cannot establish the CuePool single-instance guard: "@ + error@,
                ),
            ),
        ),
        Ok(false) => (
            s,
            Some(
                (
                    "CuePool is already running"@,
                    "Another instance of CuePool is already running; the project was not opened."@,
                ),
            ),
        ),
        Ok(true) => match project {
            None => (logging(stance_settled(t, show_mode), log_file), None),
            Some((path, StartupProject::Read(show))) => (
                logging(stance_settled(project_started(t, path, show@), show_mode), log_file),
                None,
            ),
            Some((path, bad)) => (
                t,
                Some(
                    (
                        "Could not open project"@,
                        "CuePool startup project load result=failure: "@ + project_failure(
                            path,
                            bad,
                        )->0,
                    ),
                ),
            ),
        },
    }
}

fn apply_settings(state: &mut SharedState, settings: SavedSettings)
    ensures
        final(state)@ == with_settings(old(state)@, settings),
{
    state.recent_files = settings.recent_files;
    state.last_seen_release_notes = settings.last_seen_release_notes;
}

fn note_log(state: &mut SharedState, log_file: String)
    ensures
        final(state)@ == logging(old(state)@, log_file@),
{
    state.diagnostics.log_file = log_file;
}

/// Begin a session: only where no other runs, with the settings of earlier
/// ones, then the startup project, then the operator's stance. The diagnostics
/// tell where its log is.
pub fn start_session(
    state: &mut SharedState,
    alone: Result<bool, String>,
    settings: SavedSettings,
    project: Option<(FilePath, StartupProject)>,
    show_mode: bool,
    log_file: String,
) -> (r: Result<(), StartupFailure>)
    ensures
        ({
            let start = session_start(
                old(state)@,
                alone,
                settings,
                project,
                show_mode,
                log_file@,
            );
            &&& final(state)@ == start.0
            &&& match r {
                Ok(_) => start.1 is None,
                Err(failure) => start.1 == Some((failure.title@, failure.message@)),
            }
        }),
{
    match alone {
        Err(error) => {
            let mut message: String =
                "Cannot establish the CuePool single-instance guard: ".to_owned();
            message.append(error.as_str());
            return Err(StartupFailure { title: "Could not start CuePool", message });
        },
        Ok(false) => {
            return Err(
                StartupFailure {
                    title: "CuePool is already running",
                    message:
                        "Another instance of CuePool is already running; the project was not opened.".to_owned(),
                },
            );
        },
        Ok(true) => {},
    }
    apply_settings(state, settings);
    match project {
        None => {},
        Some((path, project)) => match load_startup_project(state, &path, project) {
            Ok(_) => {},
            Err(error) => {
                let mut message: String =
                    "CuePool startup project load result=failure: ".to_owned();
                message.append(error.as_str());
                return Err(StartupFailure { title: "Could not open project", message });
            },
        },
    }
    apply_startup_show_mode(state, show_mode);
    note_log(state, log_file);
    Ok(())
}

/// A session that begins locked is locked, whatever project it opens.
pub proof fn a_locked_start_is_locked(
    s: StateView,
    settings: SavedSettings,
    project: Option<(FilePath, StartupProject)>,
    log_file: Seq<char>,
)
    ensures
        ({
            let start = session_start(s, Ok(true), settings, project, true, log_file);
            start.1 is None ==> start.0.show_mode == ShowMode::Show
        }),
{
}

/// A second program that is started touches nothing.
pub proof fn a_second_program_touches_nothing(
    s: StateView,
    settings: SavedSettings,
    project: Option<(FilePath, StartupProject)>,
    show_mode: bool,
    log_file: Seq<char>,
)
    ensures
        session_start(s, Ok(false), settings, project, show_mode, log_file).0 == s,
        session_start(s, Ok(false), settings, project, show_mode, log_file).1 is Some,
{
}

/// The wait before a control surface is set up again after it failed this
/// often in a row, in milliseconds: a tenth of a second, doubled each time,
/// five seconds at most.
pub open spec fn retry_delay(failures: nat) -> nat
    decreases failures,
{
    if failures <= 1 {
        100
    } else if 2 * retry_delay((failures - 1) as nat) > 5000 {
        5000
    } else {
        2 * retry_delay((failures - 1) as nat)
    }
}

pub fn control_surface_retry_delay(failures: u32) -> (ms: u64)
    ensures
        ms == retry_delay(failures as nat),
{
    let mut delay: u64 = 100;
    let mut i: u32 = 1;
    let n: u32 = if failures < 8 {
        failures
    } else {
        8
    };
    assert(retry_delay(0) == 100 && retry_delay(1) == 100);
    while i < n
        invariant
            1 <= i,
            n <= 8,
            if n == 0 {
                i == 1
            } else {
                i <= n
            },
            delay == retry_delay(i as nat),
            100 <= delay <= 5000,
        decreases n - i,
    {
        let doubled: u64 = delay * 2;
        delay = if doubled > 5000 {
            5000
        } else {
            doubled
        };
        i = i + 1;
    }
    proof {
        if failures > 8 {
            lemma_delay_settles(failures as nat);
        }
    }
    delay
}

proof fn lemma_delay_settles(failures: nat)
    requires
        failures >= 8,
    ensures
        retry_delay(failures) == 5000,
        retry_delay(8) == 5000,
    decreases failures,
{
    reveal_with_fuel(retry_delay, 9);
    if failures > 8 {
        lemma_delay_settles((failures - 1) as nat);
    }
}

/// The wait never shrinks with more failures, and is a tenth of a second at
/// least and five seconds at most.
pub proof fn retry_delay_grows_to_its_cap(failures: nat)
    ensures
        100 <= retry_delay(failures) <= 5000,
        retry_delay(failures) <= retry_delay(failures + 1),
    decreases failures,
{
    if failures > 1 {
        retry_delay_grows_to_its_cap((failures - 1) as nat);
    }
}

/// The graphics adapter and the monitor a failure belongs to, in words.
pub fn gpu_display_context(
    name: &str,
    backend: &str,
    driver: &str,
    driver_info: &str,
    monitor: Option<&str>,
) -> (r: String)
    ensures
        r@ == "adapter='"@ + name@ + "' backend="@ + backend@ + " driver='"@ + driver@
            + "' driver_info='"@ + driver_info@ + "'; monitor="@ + (match monitor {
            Some(m) => m@,
            None => "windowed/unassigned"@,
        }),
{
    let mut r: String = "adapter='".to_owned();
    r.append(name);
    r.append("' backend=");
    r.append(backend);
    r.append(" driver='");
    r.append(driver);
    r.append("' driver_info='");
    r.append(driver_info);
    r.append("'; monitor=");
    match monitor {
        Some(m) => r.append(m),
        None => r.append("windowed/unassigned"),
    }
    r
}

/// A peer cannot shut the program down while cues are active or work is
/// unsaved, and is told which.
pub proof fn a_shutdown_is_refused_for_a_reason(
    dirty: bool,
    active: bool,
    r: Option<&'static str>,
)
    requires
        call_ensures(shutdown_rejection, (dirty, active), r),
    ensures
        r is None <==> !dirty && !active,
        active ==> r is Some && r->0@ == "cues are active; stop playback before shutting down"@,
        dirty && !active ==> r is Some && r->0@
            == "the project has unsaved changes; save or discard them before shutting down"@,
{
}

/// No arguments ask for nothing, and each single one for what it says; an
/// argument that is none of the options is the project.
pub proof fn single_arguments_are_read(args: &Vec<String>, r: Result<CliOptions, String>)
    requires
        call_ensures(parse_cli, (args,), r),
    ensures
        args@.len() == 0 ==> r is Ok && r->Ok_0.project is None && r->Ok_0.zero_copy is None
            && !r->Ok_0.show_mode,
        args@.len() == 1 ==> {
            let a = args@[0]@;
            &&& a == "--show-mode"@ ==> r is Ok && r->Ok_0.show_mode && r->Ok_0.project is None
                && r->Ok_0.zero_copy is None
            &&& a == "--zero-copy"@ ==> r is Ok && r->Ok_0.zero_copy == Some(true)
                && r->Ok_0.project is None && !r->Ok_0.show_mode
            &&& a == "--no-zero-copy"@ ==> r is Ok && r->Ok_0.zero_copy == Some(false)
                && r->Ok_0.project is None && !r->Ok_0.show_mode
            &&& a == "--project"@ ==> r is Err && r->Err_0@ == "Missing path after --project. "@
                + CLI_USAGE@
            &&& a.len() == 0 || a[0] != '-' ==> r is Ok && r->Ok_0.project is Some
                && r->Ok_0.project->0@ == a && r->Ok_0.zero_copy is None && !r->Ok_0.show_mode
            &&& a.len() > 0 && a[0] == '-' && a != "--show-mode"@ && a != "--zero-copy"@ && a
                != "--no-zero-copy"@ && a != "--project"@ ==> r is Err && r->Err_0@
                == "Unknown option '"@ + a + "'. "@ + CLI_USAGE@
        },
{
    let all = texts(args@);
    let o = CliView { project: None, zero_copy: None, show_mode: false };
    assert(all.len() == args@.len());
    reveal_with_fuel(cli_from, 3);
    reveal_strlit("--show-mode");
    reveal_strlit("--zero-copy");
    reveal_strlit("--no-zero-copy");
    reveal_strlit("--project");
    if args@.len() == 1 {
        assert(all[0] == args@[0]@);
        let a = all[0];
        assert("--show-mode"@[2] == 's');
        assert("--zero-copy"@[2] == 'z');
        assert("--no-zero-copy"@[2] == 'n');
        assert("--project"@[2] == 'p');
        assert(a == "--show-mode"@ || a == "--zero-copy"@ || a == "--no-zero-copy"@ || a
            == "--project"@ ==> a[0] == '-');
    }
}

/// Of two arguments the later adds to what the earlier asked for; the project
/// after its option is taken as it is, and neither a second project nor a
/// second choice of where frames stay is accepted.
pub proof fn pairs_of_arguments_are_read(args: &Vec<String>, r: Result<CliOptions, String>)
    requires
        call_ensures(parse_cli, (args,), r),
        args@.len() == 2,
    ensures
        ({
            let a = args@[0]@;
            let b = args@[1]@;
            let zero = |x: Seq<char>| x == "--zero-copy"@ || x == "--no-zero-copy"@;
            let plain = |x: Seq<char>| x.len() == 0 || x[0] != '-';
            &&& a == "--project"@ ==> r is Ok && r->Ok_0.project is Some && r->Ok_0.project->0@
                == b && !r->Ok_0.show_mode && r->Ok_0.zero_copy is None
            &&& zero(a) && zero(b) ==> r is Err && r->Err_0@
                == "Only one of --zero-copy and --no-zero-copy may be provided. "@ + CLI_USAGE@
            &&& plain(a) && plain(b) ==> r is Err && r->Err_0@
                == "Only one project path may be provided. "@ + CLI_USAGE@
            &&& plain(a) && b == "--show-mode"@ ==> r is Ok && r->Ok_0.show_mode
                && r->Ok_0.project is Some && r->Ok_0.project->0@ == a
            &&& a == "--show-mode"@ && plain(b) ==> r is Ok && r->Ok_0.show_mode
                && r->Ok_0.project is Some && r->Ok_0.project->0@ == b
            &&& a == "--show-mode"@ && zero(b) ==> r is Ok && r->Ok_0.show_mode
                && r->Ok_0.zero_copy == Some(b == "--zero-copy"@)
            &&& zero(a) && plain(b) ==> r is Ok && r->Ok_0.zero_copy == Some(
                a == "--zero-copy"@,
            ) && r->Ok_0.project is Some && r->Ok_0.project->0@ == b && !r->Ok_0.show_mode
        }),
{
    let all = texts(args@);
    assert(all.len() == args@.len());
    reveal_with_fuel(cli_from, 4);
    reveal_strlit("--show-mode");
    reveal_strlit("--zero-copy");
    reveal_strlit("--no-zero-copy");
    reveal_strlit("--project");
    assert(all[0] == args@[0]@);
    assert(all[1] == args@[1]@);
    assert("--show-mode"@[2] == 's' && "--show-mode"@[0] == '-');
    assert("--zero-copy"@[2] == 'z' && "--zero-copy"@[0] == '-');
    assert("--no-zero-copy"@[2] == 'n' && "--no-zero-copy"@[0] == '-');
    assert("--project"@[2] == 'p' && "--project"@[0] == '-');
}

/// The version is told where it alone is asked for.
pub proof fn the_version_is_asked_for_alone(args: &Vec<String>, b: bool)
    requires
        call_ensures(version_requested, (args,), b),
    ensures
        b <==> args@.len() == 1 && args@[0]@ == "--version"@,
{
    let all = texts(args@);
    assert(all.len() == args@.len());
    if args@.len() == 1 {
        assert(all[0] == args@[0]@);
        if args@[0]@ == "--version"@ {
            assert(all =~= seq!["--version"@]);
        }
    }
    if all == seq!["--version"@] {
        assert(all[0] == "--version"@);
    }
}

/// The project of the command line is the file that is named, from the working
/// directory where the path does not stand for itself; it has to be a project
/// and a file.
pub proof fn the_named_project_is_opened(
    path: FilePath,
    absolute: bool,
    joined: FilePath,
    extension: Option<&str>,
    is_file: bool,
    r: Result<FilePath, String>,
    named: bool,
)
    requires
        call_ensures(resolve_cli_project_path, (path, absolute, joined, extension, is_file), r),
        call_ensures(is_project_extension, (extension,), named),
    ensures
        ({
            let resolved = if absolute {
                path
            } else {
                joined
            };
            &&& named <==> extension is Some && same_ignoring_case(extension->0@, "qproj"@)
            &&& r is Ok <==> named && is_file
            &&& r is Ok ==> r->Ok_0 == resolved
            &&& !named ==> r->Err_0@ == "Cannot open CLI project '"@ + resolved.text@
                + "': expected a .qproj file"@
            &&& named && !is_file ==> r->Err_0@ == "Cannot open CLI project '"@ + resolved.text@
                + "': path is not an existing file"@
        }),
{
}

/// The command line decides where frames stay, and the environment where it
/// says nothing; the backend for them is tried where they are to stay, and on
/// Windows.
pub proof fn the_command_line_decides(
    cli: Option<bool>,
    env: ZeroCopyPreference,
    r: ZeroCopyPreference,
    windows: bool,
    enabled: bool,
    b: bool,
)
    requires
        call_ensures(resolve_zero_copy_preference, (cli, env), r),
        call_ensures(prefer_dx12_backend, (windows, enabled), b),
    ensures
        cli == Some(true) ==> r is Enabled,
        cli == Some(false) ==> r is Disabled,
        cli is None ==> r == env,
        !b <==> !windows && !enabled,
{
}

/// Both accelerations are asked for first, then each, then none, and no set
/// twice.
pub proof fn fewer_features_are_asked_for_each_time(zero_copy: u128, hap: u128, r: Vec<u128>)
    requires
        call_ensures(optional_feature_candidates, (zero_copy, hap), r),
    ensures
        r@.len() > 0,
        r@[0] == zero_copy | hap,
        r@.contains(zero_copy),
        r@.contains(hap),
        r@.contains(0u128),
        r@.no_duplicates(),
        zero_copy != 0 && hap != 0 && zero_copy != hap && zero_copy | hap != zero_copy && zero_copy
            | hap != hap && zero_copy | hap != 0 ==> r@ =~= seq![zero_copy | hap, zero_copy, hap, 0],
{
    feature_candidates_end_in_none(zero_copy, hap);
    let a = seq![zero_copy | hap];
    let b = with_once(a, zero_copy);
    let c = with_once(b, hap);
    let d = with_once(c, 0);
    assert(b.contains(zero_copy)) by {
        if !a.contains(zero_copy) {
            assert(b[1] == zero_copy);
        }
    }
    assert(c.contains(zero_copy)) by {
        let k = choose|k: int| 0 <= k < b.len() && b[k] == zero_copy;
        assert(c[k] == zero_copy);
    }
    assert(d.contains(zero_copy)) by {
        let k = choose|k: int| 0 <= k < c.len() && c[k] == zero_copy;
        assert(d[k] == zero_copy);
    }
    assert(c.contains(hap)) by {
        if !b.contains(hap) {
            assert(c[b.len() as int] == hap);
        }
    }
    assert(d.contains(hap)) by {
        let k = choose|k: int| 0 <= k < c.len() && c[k] == hap;
        assert(d[k] == hap);
    }
    if zero_copy != 0 && hap != 0 && zero_copy != hap && zero_copy | hap != zero_copy && zero_copy
        | hap != hap && zero_copy | hap != 0 {
        assert(!a.contains(zero_copy));
        assert(b =~= seq![zero_copy | hap, zero_copy]);
        assert(!b.contains(hap));
        assert(c =~= seq![zero_copy | hap, zero_copy, hap]);
        assert(!c.contains(0));
        assert(d =~= seq![zero_copy | hap, zero_copy, hap, 0]);
    }
}

/// An acceleration is granted where all its features are; none that needs
/// nothing is refused, and HAP without a feature is missing.
pub proof fn features_are_granted_whole(
    zero_copy: u128,
    hap: u128,
    enabled: u128,
    b: bool,
    h: HapOutcome,
)
    requires
        call_ensures(zero_copy_granted, (zero_copy, enabled), b),
        call_ensures(hap_outcome, (hap, enabled), h),
    ensures
        zero_copy == 0 ==> b,
        zero_copy != 0 ==> (b <==> enabled & zero_copy == zero_copy),
        hap == 0 <==> h is Missing,
        hap != 0 ==> (h is Granted <==> enabled & hap == hap),
        hap != 0 ==> (h is Refused <==> enabled & hap != hap),
{
}

/// A device that cannot be had is told of by the last refusal.
pub proof fn the_last_refusal_is_told(failures: &Vec<Refusal>, r: String)
    requires
        call_ensures(device_failure, (failures,), r),
    ensures
        failures@.len() == 0 ==> r@ == "GPU device request failed: "@
            + "no device candidates were attempted"@,
        failures@.len() > 0 ==> r@ == "GPU device request failed: "@ + failures@[failures@.len()
            - 1].reason@,
{
}

/// A startup project that was read is the current one, unchanged, and first
/// among the recent ones; one that was not is reported and changes nothing.
pub proof fn a_startup_project_is_opened(
    state: &mut SharedState,
    path: &FilePath,
    project: StartupProject,
    r: Result<(), String>,
)
    requires
        call_ensures(load_startup_project, (state, path, project), r),
    ensures
        ({
            let s = old(state)@;
            let t = final(state)@;
            &&& r is Ok <==> project is Read
            &&& project matches StartupProject::Read(show) ==> t.show_file == show@
                && t.project_path == Some(*path) && !t.dirty && t.selected_cue_id is None
                && t.recent_files.len() > 0 && t.recent_files[0] == *path
                && t.project_generation != s.project_generation
            &&& project matches StartupProject::Unreadable(error) ==> r->Err_0@
                == "Cannot read startup project '"@ + path.text@ + "': "@ + error@
            &&& project matches StartupProject::Unparsable(error) ==> r->Err_0@
                == "Cannot parse startup project '"@ + path.text@ + "': "@ + error@
            &&& r is Err ==> t == s
            &&& t.show_mode == s.show_mode
            &&& t.command_queue == s.command_queue
        }),
{
}

/// A start that asks for it is locked in Show mode; another leaves the mode.
pub proof fn a_start_settles_the_mode(state: &mut SharedState, show_mode: bool)
    requires
        call_ensures(apply_startup_show_mode, (state, show_mode), ()),
    ensures
        show_mode ==> final(state)@.show_mode == ShowMode::Show,
        !show_mode ==> final(state)@ == old(state)@,
        final(state)@.show_file == old(state)@.show_file,
        final(state)@.dirty == old(state)@.dirty,
{
}

/// A session begins only where no other runs and its project can be read; it
/// has the settings of earlier ones, its project and its mode then. Where it
/// does not begin, the reason is named.
pub proof fn a_session_begins_as_asked(
    state: &mut SharedState,
    alone: Result<bool, String>,
    settings: SavedSettings,
    project: Option<(FilePath, StartupProject)>,
    show_mode: bool,
    log_file: String,
    r: Result<(), StartupFailure>,
)
    requires
        call_ensures(
            start_session,
            (state, alone, settings, project, show_mode, log_file),
            r,
        ),
    ensures
        ({
            let s = old(state)@;
            let t = final(state)@;
            let single = alone is Ok && alone->Ok_0;
            &&& r is Ok <==> single && (project is None || (project->0).1 is Read)
            &&& !single ==> t == s
            &&& alone is Err ==> r->Err_0.title@ == "Could not start CuePool"@
                && r->Err_0.message@ == "Cannot establish the CuePool single-instance guard: "@
                + alone->Err_0@
            &&& alone is Ok && !alone->Ok_0 ==> r->Err_0.title@ == "CuePool is already running"@
            &&& single && r is Err ==> r->Err_0.title@ == "Could not open project"@ && t.show_file
                == s.show_file && t.show_mode == s.show_mode
            &&& r is Ok ==> {
                &&& t.diagnostics.log_file == log_file@
                &&& show_mode ==> t.show_mode == ShowMode::Show
                &&& !show_mode ==> t.show_mode == s.show_mode
                &&& t.last_seen_release_notes == text_opt(settings.last_seen_release_notes)
                &&& project is None ==> t.recent_files == settings.recent_files@ && t.show_file
                    == s.show_file && t.project_path == s.project_path
                &&& project is Some ==> t.project_path == Some((project->0).0) && t.show_file == (
                (project->0).1->Read_0)@ && !t.dirty && t.recent_files.len() > 0
                    && t.recent_files[0] == (project->0).0
            }
        }),
{
}

/// The wait after a failure is a tenth of a second, doubled with each further
/// one, and never more than five seconds.
pub proof fn waits_double_up_to_five_seconds(failures: u32, a: u64, b: u64)
    requires
        failures < u32::MAX,
        call_ensures(control_surface_retry_delay, (failures,), a),
        call_ensures(control_surface_retry_delay, ((failures + 1) as u32,), b),
    ensures
        failures <= 1 ==> a == 100,
        failures >= 1 && a * 2 <= 5000 ==> b == a * 2,
        failures >= 1 && a * 2 > 5000 ==> b == 5000,
        100 <= a <= 5000,
{
    retry_delay_grows_to_its_cap(failures as nat);
}

/// The display a failure belongs to is told, or that there is none.
pub proof fn the_display_is_named(
    name: &str,
    backend: &str,
    driver: &str,
    info: &str,
    monitor: Option<&str>,
    r: String,
)
    requires
        call_ensures(gpu_display_context, (name, backend, driver, info, monitor), r),
    ensures
        ({
            let head = "adapter='"@ + name@ + "' backend="@ + backend@ + " driver='"@ + driver@
                + "' driver_info='"@ + info@ + "'; monitor="@;
            &&& monitor is Some ==> r@ == head + monitor->0@
            &&& monitor is None ==> r@ == head + "windowed/unassigned"@
        }),
{
}

/// Quitting asks first where there is unsaved work or anything plays, and only
/// then.
pub proof fn quitting_asks_where_work_is_at_stake(dirty: bool, active_cues: bool, b: bool)
    requires
        call_ensures(quit_needs_confirmation, (dirty, active_cues), b),
    ensures
        dirty ==> b,
        active_cues ==> b,
        b ==> dirty || active_cues,
{
}

/// Every refused request is told, in order, with its features and its reason.
pub proof fn every_refusal_is_told(
    label: &str,
    failures: &Vec<Refusal>,
    more: &Vec<Refusal>,
    last: Refusal,
    r: String,
    s: String,
    told: Seq<char>,
)
    requires
        call_ensures(negotiation_reason, (label, failures), r),
        call_ensures(negotiation_reason, (label, more), s),
        more@ == failures@.push(last),
        r@ == label@ + " device feature request failed ("@ + told + ")"@,
    ensures
        failures@.len() == 0 ==> told.len() == 0,
        failures@.len() == 0 ==> s@ == label@ + " device feature request failed ("@ + (
        last.features@ + ": "@ + last.reason@) + ")"@,
        failures@.len() > 0 ==> s@ == label@ + " device feature request failed ("@ + (told + "; "@
            + (last.features@ + ": "@ + last.reason@)) + ")"@,
{
    let a = refusal_texts(failures@);
    let b = refusal_texts(more@);
    let start = label@ + " device feature request failed ("@;
    assert(b.drop_last() =~= a);
    assert(b.last() == last.features@ + ": "@ + last.reason@);
    assert(r@ == start + join(a, "; "@) + ")"@);
    let k = start.len() as int;
    let e = r@.len() - ")"@.len();
    assert(r@.subrange(k, e) =~= told);
    assert(r@.subrange(k, e) =~= join(a, "; "@));
    if failures@.len() == 0 {
        assert(a.len() == 0);
        assert(join(b, "; "@) == b.last());
    }
}

} // verus!

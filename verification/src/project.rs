//! The application around the shared state, and opening a project without a
//! question.

use vstd::prelude::*;

use crate::commands::{apply_project_show, missing_text, opened};
use crate::identity_card::Cards;
use crate::path::FilePath;
use crate::qid::Qid;
use crate::show::{has_cue, ShowFile};
use crate::startup::{is_project_extension, project_extension};
use crate::state::{initial, Moment, SharedState, StateView, RELEASE_NOTES_VERSION};
use crate::text::slice_opt;

verus! {

/// The largest project that is opened without a question, in bytes.
pub const MAX_AUTOMATION_PROJECT_BYTES: u64 = 16_777_216;

/// The operator's application.
pub struct CuePoolApp {
    pub state: SharedState,
    pub cards: Cards,
    /// When the diagnostics were copied.
    pub status_copied_at: Option<Moment>,
    /// A field had the keyboard when the last frame ended.
    pub keyboard_focus_at_frame_end: bool,
}

impl CuePoolApp {
    /// The application as the program starts, with the launch card to come.
    pub fn new() -> (r: CuePoolApp)
        ensures
            initial(r.state@),
            r.cards == (Cards { pending: true, launched_at: None, invoked_at: None }),
            r.status_copied_at is None,
            !r.keyboard_focus_at_frame_end,
    {
        CuePoolApp {
            state: SharedState::new(),
            cards: Cards { pending: true, launched_at: None, invoked_at: None },
            status_copied_at: None,
            keyboard_focus_at_frame_end: false,
        }
    }

    /// The application with a show in it, and neither card nor release notes.
    pub fn with_show_file(show: ShowFile, path: Option<FilePath>) -> (r: CuePoolApp)
        ensures
            exists|s: StateView| #[trigger]
                initial(s) && r.state@ == (StateView {
                    show_file: show@,
                    project_path: path,
                    last_seen_release_notes: Some(RELEASE_NOTES_VERSION@),
                    ..s
                }),
            r.cards == (Cards { pending: false, launched_at: None, invoked_at: None }),
            r.status_copied_at is None,
            !r.keyboard_focus_at_frame_end,
    {
        let mut state: SharedState = SharedState::default();
        let ghost s = state@;
        let ghost shown = show@;
        state.show_file = show;
        state.project_path = path;
        state.last_seen_release_notes = Some(RELEASE_NOTES_VERSION.to_owned());
        assert(initial(s) && state@ == (StateView {
            show_file: shown,
            project_path: path,
            last_seen_release_notes: Some(RELEASE_NOTES_VERSION@),
            ..s
        }));
        CuePoolApp {
            state,
            cards: Cards { pending: false, launched_at: None, invoked_at: None },
            status_copied_at: None,
            keyboard_focus_at_frame_end: false,
        }
    }

    pub fn state(&self) -> (r: &SharedState)
        ensures
            *r == self.state,
    {
        &self.state
    }

    /// Select a cue by its number.
    pub fn select_cue(&mut self, id: Qid) -> (r: Result<(), String>)
        ensures
            final(self).cards == old(self).cards,
            final(self).status_copied_at == old(self).status_copied_at,
            final(self).keyboard_focus_at_frame_end == old(self).keyboard_focus_at_frame_end,
            match r {
                Ok(_) => has_cue(old(self).state@.show_file.cues, id@) && final(self).state@ == (
                StateView { selected_cue_id: Some(id), ..old(self).state@ }),
                Err(e) => !has_cue(old(self).state@.show_file.cues, id@) && e@ == missing_text(id)
                    && final(self).state@ == old(self).state@,
            },
    {
        crate::commands::select_cue(&mut self.state, id)
    }

    /// Make a project that was prepared the current one. `found` is what the
    /// file is like now: its length and when it was changed.
    pub fn apply_unattended_project(
        &mut self,
        project: PreparedProject,
        found: Result<(u64, Option<u64>), String>,
    ) -> (r: Result<(), String>)
        ensures
            final(self).cards == old(self).cards,
            final(self).status_copied_at == old(self).status_copied_at,
            final(self).keyboard_focus_at_frame_end == old(self).keyboard_focus_at_frame_end,
            r is Ok == (unattended_error(old(self).state@, project, found) is None),
            match r {
                Ok(_) => final(self).state@ == opened(
                    old(self).state@,
                    project.path,
                    project.show@,
                ),
                Err(e) => Some(e@) == unattended_error(old(self).state@, project, found) && final(
                    self).state@ == old(self).state@,
            },
    {
        if self.state.dirty {
            return Err("current project has unsaved changes".to_owned());
        }
        match found {
            Err(error) => {
                let mut e: String =
                    "project changed after validation; failed to inspect '".to_owned();
                e.append(project.path.text.as_str());
                e.append("': ");
                e.append(error.as_str());
                return Err(e);
            },
            Ok((len, modified)) => {
                if len != project.file_len || !same_time(modified, project.modified) {
                    return Err(
                        "project changed after validation; submit the command again".to_owned(),
                    );
                }
            },
        }
        apply_project_show(&mut self.state, &project.path, project.show);
        Ok(())
    }

    /// Open a project without a question, unless there is work to lose.
    /// `prepared` is the project as it was read, or why it could not be.
    pub fn open_project_unattended(
        &mut self,
        prepared: Result<PreparedProject, String>,
        found: Result<(u64, Option<u64>), String>,
    ) -> (r: Result<(), String>)
        ensures
            final(self).cards == old(self).cards,
            final(self).status_copied_at == old(self).status_copied_at,
            final(self).keyboard_focus_at_frame_end == old(self).keyboard_focus_at_frame_end,
            r is Ok == (opening_error(old(self).state@, prepared, found) is None),
            match r {
                Ok(_) => prepared matches Ok(p) && final(self).state@ == opened(
                    old(self).state@,
                    p.path,
                    p.show@,
                ),
                Err(e) => Some(e@) == opening_error(old(self).state@, prepared, found) && final(
                    self).state@ == old(self).state@,
            },
    {
        if self.state.dirty {
            return Err("current project has unsaved changes".to_owned());
        }
        match prepared {
            Err(error) => Err(error),
            Ok(project) => self.apply_unattended_project(project, found),
        }
    }

    /// Whether the operator asked for the About card.
    pub fn about_requested(&self) -> (b: bool)
        ensures
            b == self.state@.panels.about,
    {
        self.state.panels.about
    }
}

/// Why a project is not opened without a question: there is work to lose, it
/// could not be read, or its file is no longer what was read.
pub open spec fn opening_error(
    s: StateView,
    prepared: Result<PreparedProject, String>,
    found: Result<(u64, Option<u64>), String>,
) -> Option<Seq<char>> {
    if s.dirty {
        Some("current project has unsaved changes"@)
    } else {
        match prepared {
            Err(e) => Some(e@),
            Ok(project) => unattended_error(s, project, found),
        }
    }
}

fn same_time(a: Option<u64>, b: Option<u64>) -> (r: bool)
    ensures
        r == (a == b),
{
    match (a, b) {
        (Some(a), Some(b)) => a == b,
        (None, None) => true,
        _ => false,
    }
}

/// A project that was read and found to be in order. What its file was like
/// then is kept.
pub struct PreparedProject {
    pub path: FilePath,
    pub show: ShowFile,
    pub file_len: u64,
    /// When the file was changed, where that is known.
    pub modified: Option<u64>,
}

/// Why a prepared project is not opened: there is work to lose, or the file is
/// no longer what was read.
pub open spec fn unattended_error(
    s: StateView,
    project: PreparedProject,
    found: Result<(u64, Option<u64>), String>,
) -> Option<Seq<char>> {
    if s.dirty {
        Some("current project has unsaved changes"@)
    } else {
        match found {
            Err(e) => Some(
                "project changed after validation; failed to inspect '"@ + project.path.text@
                    + "': "@ + e@,
            ),
            Ok((len, modified)) => if len != project.file_len || modified != project.modified {
                Some("project changed after validation; submit the command again"@)
            } else {
                None
            },
        }
    }
}

/// Why a path does not name a project that may be opened without a question.
pub open spec fn path_error(
    absolute: bool,
    extension: Option<Seq<char>>,
    local: bool,
) -> Option<Seq<char>> {
    if !absolute {
        Some("project path must be absolute"@)
    } else if !project_extension(extension) {
        Some("project path must name a .qproj file"@)
    } else if !local {
        Some("project path must use a local drive"@)
    } else {
        None
    }
}

/// Whether a path names a project that may be opened without a question: an
/// absolute path to a project on a local drive.
pub fn check_unattended_path(absolute: bool, extension: Option<&str>, local: bool) -> (r: Result<
    (),
    String,
>)
    ensures
        r is Ok == (path_error(absolute, slice_opt(extension), local) is None),
        r matches Err(e) ==> Some(e@) == path_error(absolute, slice_opt(extension), local),
{
    if !absolute {
        Err("project path must be absolute".to_owned())
    } else if !is_project_extension(extension) {
        Err("project path must name a .qproj file".to_owned())
    } else if !local {
        Err("project path must use a local drive".to_owned())
    } else {
        Ok(())
    }
}

/// Why a file is not opened without a question: it is none, or too large.
pub open spec fn file_error(is_file: bool, len: u64) -> Option<Seq<char>> {
    if !is_file {
        Some("project path must name a regular file"@)
    } else if len > MAX_AUTOMATION_PROJECT_BYTES {
        Some("project exceeds the 16 MiB automation limit"@)
    } else {
        None
    }
}

/// Whether a file may be opened without a question. What is read is held to the
/// same limit: the file may grow in between.
pub fn check_unattended_file(is_file: bool, len: u64) -> (r: Result<(), String>)
    ensures
        r is Ok == (file_error(is_file, len) is None),
        r matches Err(e) ==> Some(e@) == file_error(is_file, len),
{
    if !is_file {
        Err("project path must name a regular file".to_owned())
    } else if len > MAX_AUTOMATION_PROJECT_BYTES {
        Err("project exceeds the 16 MiB automation limit".to_owned())
    } else {
        Ok(())
    }
}

/// What is tried with a project's file.
#[derive(Clone, Copy, PartialEq, Eq, Structural, Debug)]
pub enum FileStep {
    Resolve,
    Inspect,
    Open,
    Read,
    Parse,
}

pub open spec fn step_verb(step: FileStep) -> Seq<char> {
    match step {
        FileStep::Resolve => "resolve"@,
        FileStep::Inspect => "inspect"@,
        FileStep::Open => "open"@,
        FileStep::Read => "read"@,
        FileStep::Parse => "parse"@,
    }
}

/// What is told where a step with a project's file failed.
pub fn step_failed(step: FileStep, path: &str, error: &str) -> (r: String)
    ensures
        r@ == failed_text(step, path@, error@),
{
    let mut r: String = "failed to ".to_owned();
    match step {
        FileStep::Resolve => r.append("resolve"),
        FileStep::Inspect => r.append("inspect"),
        FileStep::Open => r.append("open"),
        FileStep::Read => r.append("read"),
        FileStep::Parse => r.append("parse"),
    }
    r.append(" '");
    r.append(path);
    r.append("': ");
    r.append(error);
    r
}

/// What the text of a project's file came to.
pub enum ProjectText {
    Unopened(String),
    Unread(String),
    /// So many bytes were read; one more than the limit at most.
    Read { len: u64, show: Result<ShowFile, String> },
}

/// How far a project's file could be followed, and what was found.
pub enum ProjectFile {
    Unresolved(String),
    Uninspected { canonical: FilePath, error: String },
    Inspected {
        canonical: FilePath,
        is_file: bool,
        len: u64,
        modified: Option<u64>,
        text: ProjectText,
    },
}

pub open spec fn failed_text(step: FileStep, path: Seq<char>, error: Seq<char>) -> Seq<char> {
    "failed to "@ + step_verb(step) + " '"@ + path + "': "@ + error
}

/// Why a file that was followed is no project that may be opened without a
/// question: the first thing that is wrong with it.
pub open spec fn contents_error(path: Seq<char>, file: ProjectFile) -> Option<Seq<char>> {
    match file {
        ProjectFile::Unresolved(e) => Some(failed_text(FileStep::Resolve, path, e@)),
        ProjectFile::Uninspected { canonical, error } => Some(
            failed_text(FileStep::Inspect, canonical.text@, error@),
        ),
        ProjectFile::Inspected { canonical, is_file, len, text, .. } => if file_error(
            is_file,
            len,
        ) is Some {
            file_error(is_file, len)
        } else {
            match text {
                ProjectText::Unopened(e) => Some(
                    failed_text(FileStep::Open, canonical.text@, e@),
                ),
                ProjectText::Unread(e) => Some(failed_text(FileStep::Read, canonical.text@, e@)),
                ProjectText::Read { len, show } => if file_error(true, len) is Some {
                    file_error(true, len)
                } else {
                    match show {
                        Err(e) => Some(failed_text(FileStep::Parse, canonical.text@, e@)),
                        Ok(_) => None,
                    }
                },
            }
        },
    }
}

/// Why a project is not prepared: its path, or else its file.
pub open spec fn preparation_error(
    path: Seq<char>,
    absolute: bool,
    extension: Option<Seq<char>>,
    local: bool,
    file: ProjectFile,
) -> Option<Seq<char>> {
    match path_error(absolute, extension, local) {
        Some(e) => Some(e),
        None => contents_error(path, file),
    }
}

/// Whether a prepared project is what its file held.
pub open spec fn prepared_from(file: ProjectFile, p: PreparedProject) -> bool {
    file matches ProjectFile::Inspected { canonical, len, modified, text, .. } && text
        matches ProjectText::Read { show: Ok(show), .. } && p == (PreparedProject {
        path: canonical,
        show,
        file_len: len,
        modified,
    })
}

/// Prepare a project that is opened without a question. `file` is what was
/// found at the path, as far as it was followed.
pub fn prepare_unattended_project(
    path: &str,
    absolute: bool,
    extension: Option<&str>,
    local: bool,
    file: ProjectFile,
) -> (r: Result<PreparedProject, String>)
    ensures
        ({
            let error = preparation_error(path@, absolute, slice_opt(extension), local, file);
            match r {
                Ok(p) => error is None && prepared_from(file, p),
                Err(e) => error == Some(e@),
            }
        }),
{
    if let Err(e) = check_unattended_path(absolute, extension, local) {
        return Err(e);
    }
    match file {
        ProjectFile::Unresolved(e) => Err(step_failed(FileStep::Resolve, path, e.as_str())),
        ProjectFile::Uninspected { canonical, error } => Err(
            step_failed(FileStep::Inspect, canonical.text.as_str(), error.as_str()),
        ),
        ProjectFile::Inspected { canonical, is_file, len, modified, text } => {
            if let Err(e) = check_unattended_file(is_file, len) {
                return Err(e);
            }
            let name: &str = canonical.text.as_str();
            match text {
                ProjectText::Unopened(e) => Err(step_failed(FileStep::Open, name, e.as_str())),
                ProjectText::Unread(e) => Err(step_failed(FileStep::Read, name, e.as_str())),
                ProjectText::Read { len: read, show } => {
                    if let Err(e) = check_unattended_file(true, read) {
                        return Err(e);
                    }
                    match show {
                        Err(e) => Err(step_failed(FileStep::Parse, name, e.as_str())),
                        Ok(show) => Ok(
                            PreparedProject { path: canonical, show, file_len: len, modified },
                        ),
                    }
                },
            }
        },
    }
}

/// A clean project is replaced only by the very file that was read; unsaved
/// work never is.
pub proof fn unattended_opening_loses_nothing(
    s: StateView,
    project: PreparedProject,
    found: Result<(u64, Option<u64>), String>,
)
    requires
        unattended_error(s, project, found) is None,
    ensures
        !s.dirty,
        found == Ok::<(u64, Option<u64>), String>((project.file_len, project.modified)),
{
}

/// A project is opened without a question only where there is nothing to lose
/// and the file is what was read; it is the current one then, and a project
/// that is refused changes nothing.
pub proof fn a_prepared_project_is_opened(
    app: &mut CuePoolApp,
    project: PreparedProject,
    found: Result<(u64, Option<u64>), String>,
    r: Result<(), String>,
)
    requires
        call_ensures(CuePoolApp::apply_unattended_project, (app, project, found), r),
    ensures
        ({
            let s = old(app).state@;
            let t = final(app).state@;
            let unchanged = found is Ok && (found->Ok_0).0 == project.file_len && (found->Ok_0).1
                == project.modified;
            &&& r is Ok <==> !s.dirty && unchanged
            &&& r is Ok ==> t.show_file == project.show@ && t.project_path == Some(project.path)
                && !t.dirty && t.selected_cue_id is None && t.recent_files.len() > 0
                && t.recent_files[0] == project.path
            &&& r is Err ==> t == s
            &&& s.dirty ==> r->Err_0@ == "current project has unsaved changes"@
            &&& !s.dirty && found is Err ==> r->Err_0@
                == "project changed after validation; failed to inspect '"@ + project.path.text@
                + "': "@ + found->Err_0@
            &&& !s.dirty && found is Ok && !unchanged ==> r->Err_0@
                == "project changed after validation; submit the command again"@
            &&& final(app).cards == old(app).cards
        }),
{
}

/// A project that could not be prepared is not opened, for the reason given.
pub proof fn an_unprepared_project_is_refused(
    app: &mut CuePoolApp,
    prepared: Result<PreparedProject, String>,
    found: Result<(u64, Option<u64>), String>,
    r: Result<(), String>,
)
    requires
        call_ensures(CuePoolApp::open_project_unattended, (app, prepared, found), r),
    ensures
        ({
            let s = old(app).state@;
            let t = final(app).state@;
            &&& s.dirty ==> r is Err && r->Err_0@ == "current project has unsaved changes"@
            &&& !s.dirty && prepared is Err ==> r is Err && r->Err_0@ == prepared->Err_0@
            &&& r is Err ==> t == s
            &&& r is Ok <==> !s.dirty && prepared is Ok && found is Ok && (found->Ok_0).0
                == prepared->Ok_0.file_len && (found->Ok_0).1 == prepared->Ok_0.modified
            &&& r is Ok ==> t.show_file == prepared->Ok_0.show@ && t.project_path == Some(
                prepared->Ok_0.path,
            ) && !t.dirty
        }),
{
}

/// A path is that of a project that may be opened where it is absolute, ends
/// like a project's and lies on a local drive; a file where it is one and has
/// no more than sixteen mebibytes.
pub proof fn projects_are_checked_before_they_are_opened(
    absolute: bool,
    extension: Option<&str>,
    local: bool,
    r: Result<(), String>,
    is_file: bool,
    len: u64,
    f: Result<(), String>,
)
    requires
        call_ensures(check_unattended_path, (absolute, extension, local), r),
        call_ensures(check_unattended_file, (is_file, len), f),
    ensures
        ({
            let named = extension is Some && crate::text::same_ignoring_case(
                extension->0@,
                "qproj"@,
            );
            &&& r is Ok <==> absolute && named && local
            &&& !absolute ==> r->Err_0@ == "project path must be absolute"@
            &&& absolute && !named ==> r->Err_0@ == "project path must name a .qproj file"@
            &&& absolute && named && !local ==> r->Err_0@
                == "project path must use a local drive"@
            &&& f is Ok <==> is_file && len <= 16 * 1024 * 1024
            &&& !is_file ==> f->Err_0@ == "project path must name a regular file"@
            &&& is_file && len > 16 * 1024 * 1024 ==> f->Err_0@
                == "project exceeds the 16 MiB automation limit"@
        }),
{
}

/// A project is prepared where its path may be opened and its file could be
/// followed, opened, read within the limit and understood; it is what the file
/// held, and what is wrong first is told.
pub proof fn a_project_is_prepared_from_its_file(
    path: &str,
    absolute: bool,
    extension: Option<&str>,
    local: bool,
    file: ProjectFile,
    r: Result<PreparedProject, String>,
)
    requires
        call_ensures(prepare_unattended_project, (path, absolute, extension, local, file), r),
    ensures
        ({
            let named = extension is Some && crate::text::same_ignoring_case(
                extension->0@,
                "qproj"@,
            );
            let allowed = absolute && named && local;
            &&& !allowed ==> r is Err
            &&& allowed && file is Unresolved ==> r is Err && r->Err_0@ == "failed to "@
                + "resolve"@ + " '"@ + path@ + "': "@ + file->Unresolved_0@
            &&& file matches ProjectFile::Uninspected { canonical, error } ==> allowed ==> r is Err
                && r->Err_0@ == "failed to "@ + "inspect"@ + " '"@ + canonical.text@ + "': "@
                + error@
            &&& file matches ProjectFile::Inspected { canonical, is_file, len, modified, text }
                ==> {
                let sized = is_file && len <= 16 * 1024 * 1024;
                &&& r is Ok <==> allowed && sized && text is Read && text->len <= 16 * 1024 * 1024
                    && text->show is Ok
                &&& r is Ok ==> r->Ok_0.path == canonical && r->Ok_0.show == text->show->Ok_0
                    && r->Ok_0.file_len == len && r->Ok_0.modified == modified
                &&& allowed && sized && text is Unopened ==> r->Err_0@ == "failed to "@ + "open"@
                    + " '"@ + canonical.text@ + "': "@ + text->Unopened_0@
                &&& allowed && sized && text is Unread ==> r->Err_0@ == "failed to "@ + "read"@
                    + " '"@ + canonical.text@ + "': "@ + text->Unread_0@
                &&& allowed && sized && text is Read && text->len <= 16 * 1024 * 1024
                    && text->show is Err ==> r->Err_0@ == "failed to "@ + "parse"@ + " '"@
                    + canonical.text@ + "': "@ + text->show->Err_0@
            }
        }),
{
}

/// An application starts with the first card to come, or with a show and
/// neither card nor notes.
pub proof fn applications_start_as_asked(
    fresh: CuePoolApp,
    show: ShowFile,
    path: Option<FilePath>,
    with: CuePoolApp,
)
    requires
        call_ensures(CuePoolApp::new, (), fresh),
        call_ensures(CuePoolApp::with_show_file, (show, path), with),
    ensures
        fresh.cards.pending,
        fresh.cards.launched_at is None && fresh.cards.invoked_at is None,
        fresh.state@.show_file.cues.len() == 0,
        fresh.state@.project_path is None,
        !fresh.state@.dirty,
        !with.cards.pending,
        with.cards.launched_at is None && with.cards.invoked_at is None,
        with.state@.show_file == show@,
        with.state@.project_path == path,
        with.state@.last_seen_release_notes == Some(RELEASE_NOTES_VERSION@),
        !with.state@.dirty,
        with.state@.selected_cue_id is None,
        with.state@.command_queue.len() == 0,
{
}

/// The application selects by number as its state does, and tells whether the
/// About card is asked for.
pub proof fn an_application_selects_by_number(
    app: &mut CuePoolApp,
    asked: &CuePoolApp,
    id: Qid,
    r: Result<(), String>,
    k: int,
    b: bool,
)
    requires
        call_ensures(CuePoolApp::select_cue, (app, id), r),
        call_ensures(CuePoolApp::about_requested, (asked,), b),
    ensures
        crate::commands::first_row(old(app).state@.show_file.cues, id@, k) ==> r is Ok && final(
            app).state@.selected_cue_id == Some(id),
        crate::commands::no_row(old(app).state@.show_file.cues, id@) ==> r is Err && final(
            app).state@ == old(app).state@,
        final(app).state@.show_file == old(app).state@.show_file,
        b <==> asked.state@.panels.about,
{
    let cues = old(app).state@.show_file.cues;
    if crate::commands::first_row(cues, id@, k) {
        crate::commands::lemma_first_row(cues, id@, k);
    }
    if crate::commands::no_row(cues, id@) {
        crate::commands::lemma_no_row(cues, id@);
    }
}

/// A step that failed is told by its verb, the path and the error.
pub proof fn a_failed_step_is_told(step: FileStep, path: &str, error: &str, r: String)
    requires
        call_ensures(step_failed, (step, path, error), r),
    ensures
        ({
            &&& step is Resolve ==> r@ == "failed to "@ + "resolve"@ + " '"@ + path@ + "': "@
                + error@
            &&& step is Inspect ==> r@ == "failed to "@ + "inspect"@ + " '"@ + path@ + "': "@
                + error@
            &&& step is Open ==> r@ == "failed to "@ + "open"@ + " '"@ + path@ + "': "@ + error@
            &&& step is Read ==> r@ == "failed to "@ + "read"@ + " '"@ + path@ + "': "@ + error@
            &&& step is Parse ==> r@ == "failed to "@ + "parse"@ + " '"@ + path@ + "': "@ + error@
        }),
{
}

} // verus!

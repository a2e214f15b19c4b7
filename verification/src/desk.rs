//! The operator's desk: keys, menus, questions and notices, and what each of
//! them does to the state.

use vstd::prelude::*;

use crate::commands::{apply_project_import, imported_state};
use crate::control::selected;
use crate::diagnostics::Rgb;
use crate::ieee::Single;
use crate::path::{clone_path_opt, FilePath};
use crate::qid::Qid;
use crate::show::{
    AudioOutputDriver, Cue, CueKind, RemoteNode, ShowFile, ShowSettings, ShowView,
};
use crate::state::{
    alert_fits, audio_driver_command, AppCommand, CueType, ImportRequest, ImportSections, Moment,
    Panels, SharedState, ShowMode, StateView, RELEASE_NOTES_VERSION,
};
use crate::text::{decimal, push_decimal, same, slice_opt};

verus! {

/// The keys pressed in a frame, and the modifiers held.
#[derive(Clone, Copy, PartialEq, Eq, Structural, Debug)]
pub struct Keys {
    /// Control, or Command on a Mac.
    pub command: bool,
    pub shift: bool,
    pub alt: bool,
    /// No modifier is held at all.
    pub bare: bool,
    pub n: bool,
    pub o: bool,
    pub s: bool,
    pub d: bool,
    pub t: bool,
    pub z: bool,
    pub delete: bool,
    pub backspace: bool,
    pub up: bool,
    pub down: bool,
    pub home: bool,
    pub end: bool,
    pub space: bool,
    pub escape: bool,
}

pub open spec fn when(b: bool, command: AppCommand) -> Seq<AppCommand> {
    if b {
        seq![command]
    } else {
        Seq::empty()
    }
}

pub open spec fn opening(picked: Option<FilePath>) -> Seq<AppCommand> {
    match picked {
        Some(path) => seq![AppCommand::OpenProject { path }],
        None => Seq::empty(),
    }
}

/// The shortcuts that collide with nothing a text field takes.
pub open spec fn menu_shortcuts(k: Keys, picked: Option<FilePath>) -> Seq<AppCommand> {
    when(k.command && k.n, AppCommand::NewProject) + (if k.command && k.o {
        opening(picked)
    } else {
        Seq::empty()
    }) + when(k.command && k.s, AppCommand::SaveProject) + when(
        k.command && k.d,
        AppCommand::DuplicateCue { qid: None },
    ) + when(k.command && k.t, AppCommand::AddCue { cue_type: CueType::Sound })
}

/// The step of the selection that bare keys ask for.
pub open spec fn selection_shortcut(k: Keys) -> Seq<AppCommand> {
    if !k.bare {
        Seq::empty()
    } else if k.up {
        seq![AppCommand::SelectPreviousCue]
    } else if k.down {
        seq![AppCommand::SelectNextCue]
    } else if k.home {
        seq![AppCommand::SelectFirstCue]
    } else if k.end {
        seq![AppCommand::SelectLastCue]
    } else {
        Seq::empty()
    }
}

/// The shortcuts that a text field takes while it is edited.
pub open spec fn field_shortcuts(k: Keys) -> Seq<AppCommand> {
    when(
        k.command && k.z,
        if k.shift {
            AppCommand::Redo
        } else {
            AppCommand::Undo
        },
    ) + when(k.delete || k.backspace, AppCommand::DeleteCue { qid: None }) + when(
        k.command && k.up,
        AppCommand::MoveCueUp { qid: None },
    ) + when(k.command && k.down, AppCommand::MoveCueDown { qid: None }) + selection_shortcut(k)
        + when(!k.command && !k.alt && k.space, AppCommand::Go) + when(
        !k.command && !k.alt && k.escape,
        AppCommand::Stop,
    )
}

/// What the keys of a frame ask for. Nothing while a card or the release notes
/// cover the desk, so that the key that dismisses them does nothing behind
/// them.
pub open spec fn shortcut_commands(
    k: Keys,
    covered: bool,
    editing: bool,
    picked: Option<FilePath>,
) -> Seq<AppCommand> {
    if covered {
        Seq::empty()
    } else if editing {
        menu_shortcuts(k, picked)
    } else {
        menu_shortcuts(k, picked) + field_shortcuts(k)
    }
}

/// Whether a field is edited. Escape takes the focus away before it is seen
/// here, so the frame before counts too.
pub fn editing_text(wanted: bool, at_frame_end: bool) -> (b: bool)
    ensures
        b == (wanted || at_frame_end),
{
    wanted || at_frame_end
}

/// Whether the operator is to pick a project to open.
pub fn wants_open_dialog(k: &Keys, covered: bool) -> (b: bool)
    ensures
        b == (!covered && k.command && k.o),
{
    !covered && k.command && k.o
}

/// What the keys of a frame ask for. `picked` is the project picked, where one
/// was asked for.
pub fn shortcuts(k: &Keys, covered: bool, editing: bool, picked: Option<FilePath>) -> (r: Vec<
    AppCommand,
>)
    ensures
        r@ == shortcut_commands(*k, covered, editing, picked),
{
    if covered {
        return Vec::new();
    }
    let mut r: Vec<AppCommand> = menu_commands(k, picked);
    if editing {
        return r;
    }
    let mut f: Vec<AppCommand> = field_commands(k);
    r.append(&mut f);
    r
}

fn push_when(r: &mut Vec<AppCommand>, b: bool, command: AppCommand)
    ensures
        final(r)@ == old(r)@ + when(b, command),
{
    let ghost before = r@;
    if b {
        r.push(command);
    }
    assert(r@ =~= before + when(b, command));
}

fn menu_commands(k: &Keys, picked: Option<FilePath>) -> (r: Vec<AppCommand>)
    ensures
        r@ == menu_shortcuts(*k, picked),
{
    let mut r: Vec<AppCommand> = Vec::new();
    push_when(&mut r, k.command && k.n, AppCommand::NewProject);
    assert(r@ =~= when(k.command && k.n, AppCommand::NewProject));
    let ghost before = r@;
    if k.command && k.o {
        if let Some(path) = picked {
            r.push(AppCommand::OpenProject { path });
        }
    }
    assert(r@ =~= before + (if k.command && k.o {
        opening(picked)
    } else {
        Seq::empty()
    }));
    push_when(&mut r, k.command && k.s, AppCommand::SaveProject);
    push_when(&mut r, k.command && k.d, AppCommand::DuplicateCue { qid: None });
    push_when(&mut r, k.command && k.t, AppCommand::AddCue { cue_type: CueType::Sound });
    r
}

fn field_commands(k: &Keys) -> (r: Vec<AppCommand>)
    ensures
        r@ == field_shortcuts(*k),
{
    let mut r: Vec<AppCommand> = Vec::new();
    let history: AppCommand = if k.shift {
        AppCommand::Redo
    } else {
        AppCommand::Undo
    };
    let ghost h = history;
    push_when(&mut r, k.command && k.z, history);
    assert(r@ =~= when(k.command && k.z, h));
    push_when(&mut r, k.delete || k.backspace, AppCommand::DeleteCue { qid: None });
    push_when(&mut r, k.command && k.up, AppCommand::MoveCueUp { qid: None });
    push_when(&mut r, k.command && k.down, AppCommand::MoveCueDown { qid: None });
    let ghost edits = r@;
    if k.bare {
        if k.up {
            r.push(AppCommand::SelectPreviousCue);
        } else if k.down {
            r.push(AppCommand::SelectNextCue);
        } else if k.home {
            r.push(AppCommand::SelectFirstCue);
        } else if k.end {
            r.push(AppCommand::SelectLastCue);
        }
    }
    assert(r@ =~= edits + selection_shortcut(*k));
    push_when(&mut r, !k.command && !k.alt && k.space, AppCommand::Go);
    push_when(&mut r, !k.command && !k.alt && k.escape, AppCommand::Stop);
    r
}

/// While a field is edited no key runs the show, walks the list or takes an
/// edit back; and nothing at all happens behind a card.
pub proof fn typing_never_runs_the_show(k: Keys, picked: Option<FilePath>, i: int)
    requires
        0 <= i < shortcut_commands(k, false, true, picked).len(),
    ensures
        ({
            let c = shortcut_commands(k, false, true, picked)[i];
            !(c is Go) && !(c is Stop) && !(c is Undo) && !(c is Redo) && !(c is DeleteCue)
                && !(c is MoveCueUp) && !(c is MoveCueDown) && !(c is SelectPreviousCue)
                && !(c is SelectNextCue)
        }),
        shortcut_commands(k, true, true, picked).len() == 0,
        shortcut_commands(k, true, false, picked).len() == 0,
{
}

/// The alert that is shown: one that has expired is taken away. How long it is
/// still shown is returned.
pub fn expire_alert(state: &mut SharedState, now: Moment) -> (r: Option<u64>)
    ensures
        ({
            let alert = old(state)@.operator_alert;
            if alert is Some && alert->0.expires_at > now {
                r == Some((alert->0.expires_at - now) as u64) && final(state)@ == old(state)@
            } else {
                r is None && final(state)@ == (StateView { operator_alert: None, ..old(state)@ })
            }
        }),
{
    let left: Option<u64> = match &state.operator_alert {
        Some(alert) => {
            if alert.expires_at > now {
                Some(alert.expires_at - now)
            } else {
                None
            }
        },
        None => None,
    };
    if left.is_none() {
        state.operator_alert = None;
    }
    left
}

/// The operator dismisses the alert.
pub fn dismiss_alert(state: &mut SharedState)
    ensures
        final(state)@ == (StateView { operator_alert: None, ..old(state)@ }),
{
    state.operator_alert = None;
}

/// What a frame of the settings window came to.
pub struct SettingsFrame {
    /// The window stays open.
    pub open: bool,
    /// The settings as they are after the frame.
    pub settings: ShowSettings,
    pub changed: bool,
    /// Audio levels are among what changed.
    pub levels: bool,
    /// The audio driver and the device that were picked.
    pub driver: Option<AudioOutputDriver>,
    pub device: Option<String>,
    /// The rows of the remote machines that are to be forgotten.
    pub forget: Vec<usize>,
}

/// The first `n` remote machines without those of the given rows.
pub open spec fn remembered(nodes: Seq<RemoteNode>, forget: Seq<usize>, n: int) -> Seq<RemoteNode>
    decreases n,
{
    if n <= 0 {
        Seq::empty()
    } else if exists|i: int| 0 <= i < forget.len() && forget[i] == n - 1 {
        remembered(nodes, forget, n - 1)
    } else {
        remembered(nodes, forget, n - 1).push(nodes[n - 1])
    }
}

fn holds_row(rows: &Vec<usize>, row: usize) -> (b: bool)
    ensures
        b == (exists|i: int| 0 <= i < rows@.len() && rows@[i] == row),
{
    let mut i: usize = 0;
    while i < rows.len()
        invariant
            i <= rows@.len(),
            forall|j: int| 0 <= j < i ==> rows@[j] != row,
        decreases rows@.len() - i,
    {
        if rows[i] == row {
            return true;
        }
        i = i + 1;
    }
    false
}

fn forget_nodes(nodes: Vec<RemoteNode>, forget: &Vec<usize>) -> (r: Vec<RemoteNode>)
    ensures
        r@ == remembered(nodes@, forget@, nodes@.len() as int),
{
    let ghost all = nodes@;
    let n: usize = nodes.len();
    let mut r: Vec<RemoteNode> = Vec::new();
    let mut row: usize = 0;
    for node in it: nodes
        invariant
            it.seq() == all,
            row == it.index(),
            n == all.len(),
            r@ == remembered(all, forget@, row as int),
    {
        if !holds_row(forget, row) {
            r.push(node);
        }
        row = row + 1;
    }
    r
}

/// The state with another command asked for.
pub open spec fn queued(s: StateView, command: AppCommand) -> StateView {
    StateView { command_queue: s.command_queue.push(command), ..s }
}

pub open spec fn queued_opt(s: StateView, command: Option<AppCommand>) -> StateView {
    match command {
        Some(c) => queued(s, c),
        None => s,
    }
}

fn queue(state: &mut SharedState, command: AppCommand)
    ensures
        final(state)@ == queued(old(state)@, command),
{
    state.command_queue.push(command);
}

fn queue_opt(state: &mut SharedState, command: Option<AppCommand>)
    ensures
        final(state)@ == queued_opt(old(state)@, command),
{
    if let Some(c) = command {
        queue(state, c);
    }
}

/// The command that switches the audio driver, where another one was picked.
pub open spec fn driver_command(
    current: AudioOutputDriver,
    picked: Option<AudioOutputDriver>,
) -> Option<AppCommand> {
    match picked {
        Some(driver) if driver != current => Some(AppCommand::SetAudioDriver(driver)),
        _ => None,
    }
}

pub open spec fn device_command(picked: Option<String>) -> Option<AppCommand> {
    match picked {
        Some(name) => Some(AppCommand::SetAudioDevice(name)),
        None => None,
    }
}

pub open spec fn levels_command(levels: bool) -> Option<AppCommand> {
    if levels {
        Some(AppCommand::ApplyAudioSettings)
    } else {
        None
    }
}

/// The state with what a frame of the settings window left of the settings.
pub open spec fn settings_edited(s: StateView, f: SettingsFrame) -> StateView {
    let nodes = s.show_file.remote_nodes;
    StateView {
        show_file: ShowView {
            show_settings: f.settings,
            remote_nodes: remembered(nodes, f.forget@, nodes.len() as int),
            ..s.show_file
        },
        panels: Panels { settings: f.open, ..s.panels },
        dirty: s.dirty || f.changed || f.forget@.len() > 0,
        ..s
    }
}

/// The state once a frame of the settings window is taken over.
pub open spec fn settings_taken(s: StateView, f: SettingsFrame) -> StateView {
    queued_opt(
        queued_opt(
            queued_opt(settings_edited(s, f), levels_command(f.levels)),
            driver_command(f.settings.audio_output_driver, f.driver),
        ),
        device_command(f.device),
    )
}

fn edit_settings(
    state: &mut SharedState,
    open: bool,
    settings: ShowSettings,
    changed: bool,
    forget: &Vec<usize>,
)
    ensures
        ({
            let s = old(state)@;
            let nodes = s.show_file.remote_nodes;
            final(state)@ == (StateView {
                show_file: ShowView {
                    show_settings: settings,
                    remote_nodes: remembered(nodes, forget@, nodes.len() as int),
                    ..s.show_file
                },
                panels: Panels { settings: open, ..s.panels },
                dirty: s.dirty || changed || forget@.len() > 0,
                ..s
            })
        }),
{
    let p: Panels = state.panels;
    state.panels = Panels { settings: open, ..p };
    state.dirty = state.dirty || changed || forget.len() > 0;
    state.show_file.show_settings = settings;
    let mut nodes: Vec<RemoteNode> = Vec::new();
    std::mem::swap(&mut nodes, &mut state.show_file.remote_nodes);
    state.show_file.remote_nodes = forget_nodes(nodes, forget);
}

/// Take over what a frame of the settings window came to.
pub fn settings_frame(state: &mut SharedState, f: SettingsFrame)
    ensures
        final(state)@ == settings_taken(old(state)@, f),
{
    let driver: Option<AppCommand> = match f.driver {
        Some(picked) => audio_driver_command(f.settings.audio_output_driver, picked),
        None => None,
    };
    let device: Option<AppCommand> = match f.device {
        Some(name) => Some(AppCommand::SetAudioDevice(name)),
        None => None,
    };
    let levels: Option<AppCommand> = if f.levels {
        Some(AppCommand::ApplyAudioSettings)
    } else {
        None
    };
    edit_settings(state, f.open, f.settings, f.changed, &f.forget);
    queue_opt(state, levels);
    queue_opt(state, driver);
    queue_opt(state, device);
}

/// What the waveform window shows.
#[derive(Clone, Copy, PartialEq, Eq, Structural, Debug)]
pub enum WaveformShown {
    /// Nothing with a sound is selected.
    Nothing,
    /// The waveform of the media is still made.
    Waiting,
    Waveform,
}

/// The media file of a cue that can be heard.
pub open spec fn heard_path(cue: Option<Cue>) -> Option<Seq<char>> {
    match cue {
        Some(cue) => match cue.kind {
            CueKind::Sound { path, .. } => Some(path@),
            CueKind::Video { path, .. } => Some(path@),
            _ => None,
        },
        None => None,
    }
}

/// The media file whose waveform is shown: that of the selected cue.
pub fn waveform_path(state: &SharedState) -> (r: Option<&str>)
    ensures
        slice_opt(r) == heard_path(selected(state@)),
{
    match state.selected_cue() {
        Some(cue) => match &cue.kind {
            CueKind::Sound { path, .. } => Some(path.as_str()),
            CueKind::Video { path, .. } => Some(path.as_str()),
            _ => None,
        },
        None => {
            proof {
                if state@.selected_cue_id is Some {
                    crate::show::lemma_has_cue(state@.show_file.cues, state@.selected_cue_id->0@);
                }
            }
            None
        },
    }
}

/// What the waveform window shows. `made` tells whether the waveform of the
/// media is there.
pub fn waveform_shown(path: Option<&str>, made: bool) -> (r: WaveformShown)
    ensures
        r == (if path is None || path->0@.len() == 0 {
            WaveformShown::Nothing
        } else if made {
            WaveformShown::Waveform
        } else {
            WaveformShown::Waiting
        }),
{
    match path {
        Some(path) => {
            if path.is_empty() {
                WaveformShown::Nothing
            } else if made {
                WaveformShown::Waveform
            } else {
                WaveformShown::Waiting
            }
        },
        None => WaveformShown::Nothing,
    }
}

/// The windows that are opened and closed from the desk.
#[derive(Clone, Copy, PartialEq, Eq, Structural, Debug)]
pub enum DeskWindow {
    Settings,
    Log,
    About,
    Changes,
    Status,
    Waveform,
    Video,
    Projection,
    Lighting,
    Recorder,
}

/// The windows once one is opened or closed.
pub open spec fn panels_with(p: Panels, w: DeskWindow, open: bool) -> Panels {
    match w {
        DeskWindow::Settings => Panels { settings: open, ..p },
        DeskWindow::Log => Panels { log: open, ..p },
        DeskWindow::About => Panels { about: open, ..p },
        DeskWindow::Changes => Panels { changes: open, ..p },
        DeskWindow::Status => Panels { status: open, ..p },
        DeskWindow::Waveform => Panels { waveform: open, ..p },
        DeskWindow::Video => Panels { video: open, ..p },
        DeskWindow::Projection => Panels { projection: open, ..p },
        DeskWindow::Lighting => Panels { lighting: open, ..p },
        DeskWindow::Recorder => Panels { recorder: open, ..p },
    }
}

fn with_panel(p: Panels, w: DeskWindow, open: bool) -> (r: Panels)
    ensures
        r == panels_with(p, w, open),
{
    match w {
        DeskWindow::Settings => Panels { settings: open, ..p },
        DeskWindow::Log => Panels { log: open, ..p },
        DeskWindow::About => Panels { about: open, ..p },
        DeskWindow::Changes => Panels { changes: open, ..p },
        DeskWindow::Status => Panels { status: open, ..p },
        DeskWindow::Waveform => Panels { waveform: open, ..p },
        DeskWindow::Video => Panels { video: open, ..p },
        DeskWindow::Projection => Panels { projection: open, ..p },
        DeskWindow::Lighting => Panels { lighting: open, ..p },
        DeskWindow::Recorder => Panels { recorder: open, ..p },
    }
}

/// The state once a window is opened or closed.
pub open spec fn window_set(s: StateView, w: DeskWindow, open: bool) -> StateView {
    StateView { panels: panels_with(s.panels, w, open), ..s }
}

/// Open or close a window.
pub fn set_window(state: &mut SharedState, w: DeskWindow, open: bool)
    ensures
        final(state)@ == window_set(old(state)@, w, open),
{
    state.panels = with_panel(state.panels, w, open);
}

/// An entry of the menus.
pub enum MenuItem {
    New,
    /// A project was picked to open; one of the recent ones too.
    Open(FilePath),
    /// Another project was read to import from.
    Import { name: String, show: ShowFile },
    Save,
    SaveAs(FilePath),
    Autosave(bool),
    /// A place was picked to pack into; this is its folder, by `pack_folder`.
    Pack(FilePath),
    Undo,
    Redo,
    Window(DeskWindow, bool),
}

pub open spec fn import_asked(s: StateView, name: String, show: ShowFile) -> StateView {
    let sections = ImportSections { projection: true, lighting: true, show_settings: true };
    StateView { import_request: Some(ImportRequest { name, show, sections }), ..s }
}

pub open spec fn autosave_set(s: StateView, on: bool) -> StateView {
    let settings = ShowSettings { autosave_enabled: on, ..s.show_file.show_settings };
    StateView {
        show_file: ShowView { show_settings: settings, ..s.show_file },
        dirty: true,
        ..s
    }
}

/// The state once an entry of the menus was chosen.
pub open spec fn chosen(s: StateView, item: MenuItem) -> StateView {
    match item {
        MenuItem::New => queued(s, AppCommand::NewProject),
        MenuItem::Open(path) => queued(s, AppCommand::OpenProject { path }),
        MenuItem::Import { name, show } => import_asked(s, name, show),
        MenuItem::Save => queued(s, AppCommand::SaveProject),
        MenuItem::SaveAs(path) => queued(s, AppCommand::SaveProjectAs { path }),
        MenuItem::Autosave(on) => autosave_set(s, on),
        MenuItem::Pack(path) => queued(s, AppCommand::PackProject { path }),
        MenuItem::Undo => if s.undo_redo.undo.len() > 0 {
            queued(s, AppCommand::Undo)
        } else {
            s
        },
        MenuItem::Redo => if s.undo_redo.redo.len() > 0 {
            queued(s, AppCommand::Redo)
        } else {
            s
        },
        MenuItem::Window(w, open) => if w == DeskWindow::Video {
            queued(window_set(s, w, open), AppCommand::ToggleVideoWindow)
        } else {
            window_set(s, w, open)
        },
    }
}

fn ask_import(state: &mut SharedState, name: String, show: ShowFile)
    ensures
        final(state)@ == import_asked(old(state)@, name, show),
{
    let sections: ImportSections = ImportSections {
        projection: true,
        lighting: true,
        show_settings: true,
    };
    state.import_request = Some(ImportRequest { name, show, sections });
}

fn set_autosave(state: &mut SharedState, on: bool)
    ensures
        final(state)@ == autosave_set(old(state)@, on),
{
    state.show_file.show_settings.autosave_enabled = on;
    state.dirty = true;
}

/// Choose an entry of the menus. Undo and redo are there only while there is
/// something to take back or bring back.
pub fn menu_bar(state: &mut SharedState, item: MenuItem)
    ensures
        final(state)@ == chosen(old(state)@, item),
{
    match item {
        MenuItem::New => queue(state, AppCommand::NewProject),
        MenuItem::Open(path) => queue(state, AppCommand::OpenProject { path }),
        MenuItem::Import { name, show } => ask_import(state, name, show),
        MenuItem::Save => queue(state, AppCommand::SaveProject),
        MenuItem::SaveAs(path) => queue(state, AppCommand::SaveProjectAs { path }),
        MenuItem::Autosave(on) => set_autosave(state, on),
        MenuItem::Pack(path) => queue(state, AppCommand::PackProject { path }),
        MenuItem::Undo => {
            if state.undo_redo.can_undo() {
                queue(state, AppCommand::Undo);
            }
        },
        MenuItem::Redo => {
            if state.undo_redo.can_redo() {
                queue(state, AppCommand::Redo);
            }
        },
        MenuItem::Window(w, open) => {
            set_window(state, w, open);
            if w == DeskWindow::Video {
                queue(state, AppCommand::ToggleVideoWindow);
            }
        },
    }
}

/// What the operator answers to the question whether to quit.
#[derive(Clone, Copy, PartialEq, Eq, Structural, Debug)]
pub enum QuitChoice {
    Save,
    Discard,
    Cancel,
}

/// The answer to the question whether to quit: a button, or cancel where the
/// question was closed some other way.
pub fn quit_choice(button: Option<QuitChoice>, closed: bool) -> (r: Option<QuitChoice>)
    ensures
        r == (if button is Some {
            button
        } else if closed {
            Some(QuitChoice::Cancel)
        } else {
            None
        }),
{
    if button.is_some() {
        button
    } else if closed {
        Some(QuitChoice::Cancel)
    } else {
        None
    }
}

/// The state once the program may quit.
pub open spec fn quitting(s: StateView) -> StateView {
    StateView { pending_close_confirm: false, quit: true, ..s }
}

/// The state once the operator answered whether to quit. To save comes first
/// where that was asked for, so that answer alone changes nothing.
pub open spec fn quit_answered(s: StateView, choice: Option<QuitChoice>) -> StateView {
    match choice {
        Some(QuitChoice::Discard) => quitting(s),
        Some(QuitChoice::Cancel) => StateView { pending_close_confirm: false, ..s },
        _ => s,
    }
}

/// The operator answered whether to quit. Whether the project is to be saved
/// first is returned.
pub fn answer_quit(state: &mut SharedState, choice: Option<QuitChoice>) -> (save: bool)
    ensures
        save == (choice == Some(QuitChoice::Save)),
        final(state)@ == quit_answered(old(state)@, choice),
{
    match choice {
        Some(QuitChoice::Save) => true,
        Some(QuitChoice::Discard) => {
            state.pending_close_confirm = false;
            state.quit = true;
            false
        },
        Some(QuitChoice::Cancel) => {
            state.pending_close_confirm = false;
            false
        },
        None => false,
    }
}

/// Where the project is saved before the program quits: where it came from, or
/// under a name that was found for it.
pub open spec fn save_path(s: StateView, found: Result<FilePath, String>) -> Result<FilePath, String> {
    match s.project_path {
        Some(path) => Ok(path),
        None => found,
    }
}

/// Where the project is saved before the program quits.
pub fn save_target(state: &SharedState, found: Result<FilePath, String>) -> (r: Result<
    FilePath,
    String,
>)
    ensures
        r == save_path(state@, found),
{
    match clone_path_opt(&state.project_path) {
        Some(path) => Ok(path),
        None => found,
    }
}

/// The state once the project was, or was not, saved before quitting: the
/// program quits only where it was.
pub open spec fn after_save(s: StateView, error: Option<Seq<char>>, now: Moment) -> StateView {
    match error {
        None => quitting(s),
        Some(e) => s.alerted("Could not save before quitting: "@ + e, now),
    }
}

/// The project was, or was not, saved before quitting.
pub fn save_and_quit(state: &mut SharedState, error: Option<&str>, now: Moment)
    requires
        alert_fits(now),
    ensures
        final(state)@ == after_save(
            old(state)@,
            match error {
                Some(e) => Some(e@),
                None => None,
            },
            now,
        ),
{
    match error {
        None => {
            state.pending_close_confirm = false;
            state.quit = true;
        },
        Some(e) => {
            let mut message: String = "Could not save before quitting: ".to_owned();
            message.append(e);
            state.report_operator_error(message, now);
        },
    }
}

/// The program quits only on the operator's word, and never over a failed save.
pub proof fn quitting_is_agreed(s: StateView, choice: Option<QuitChoice>, error: Seq<char>, now: Moment)
    requires
        !s.quit,
    ensures
        quit_answered(s, choice).quit == (choice == Some(QuitChoice::Discard)),
        !after_save(s, Some(error), now).quit,
        after_save(s, None, now).quit,
{
}

/// What would be lost, in words.
pub open spec fn loss_text(dirty: bool, running: bool) -> Seq<char> {
    if dirty && running {
        "There are cues playing and you have unsaved changes."@
    } else if dirty {
        "You have unsaved changes."@
    } else if running {
        "There are cues currently playing."@
    } else {
        "Discard the current project?"@
    }
}

/// The question whether to discard the project.
pub fn discard_message(state: &SharedState) -> (r: String)
    ensures
        r@ == loss_text(state@.dirty, state@.active_cues.len() > 0) + " Discard and continue?"@,
{
    let running: bool = state.active_cues.len() > 0;
    let mut r: String = if state.dirty && running {
        "There are cues playing and you have unsaved changes.".to_owned()
    } else if state.dirty {
        "You have unsaved changes.".to_owned()
    } else if running {
        "There are cues currently playing.".to_owned()
    } else {
        "Discard the current project?".to_owned()
    };
    r.append(" Discard and continue?");
    r
}

/// The heading of the question whether to discard the project.
pub fn discard_heading(command: &AppCommand) -> (r: &'static str)
    ensures
        r@ == (if *command is NewProject {
            "New Project"@
        } else {
            "Open Project"@
        }),
{
    match command {
        AppCommand::NewProject => "New Project",
        _ => "Open Project",
    }
}

/// The state once the operator answered whether to discard the project: the
/// command that waited runs without asking again, or is dropped.
pub open spec fn discard_answered(s: StateView, agreed: bool) -> StateView {
    let t = StateView { pending_discard_confirm: None, ..s };
    match s.pending_discard_confirm {
        Some(command) if agreed => queued(StateView { discard_confirmed: true, ..t }, command),
        _ => t,
    }
}

/// The operator answered whether to discard the project.
pub fn answer_discard(state: &mut SharedState, agreed: bool)
    ensures
        final(state)@ == discard_answered(old(state)@, agreed),
{
    match state.pending_discard_confirm.take() {
        Some(command) => {
            if agreed {
                state.discard_confirmed = true;
                queue(state, command);
            }
        },
        None => {},
    }
}

/// What a frame of the import window came to.
pub enum ImportFrame {
    /// The window stays; these parts are ticked.
    Open(ImportSections),
    /// Import; the show has the ticked parts copied into it.
    Import(ImportSections, ShowFile),
    Cancel,
}

/// Whether there is something to import.
pub fn import_enabled(sections: &ImportSections) -> (b: bool)
    ensures
        b == (sections.projection || sections.lighting || sections.show_settings),
{
    sections.projection || sections.lighting || sections.show_settings
}

/// The state once a frame of the import window is taken over.
pub open spec fn import_answered(s: StateView, f: ImportFrame) -> StateView {
    match f {
        ImportFrame::Open(sections) => StateView {
            import_request: match s.import_request {
                Some(r) => Some(ImportRequest { sections, ..r }),
                None => None,
            },
            ..s
        },
        ImportFrame::Import(sections, show) => StateView {
            import_request: None,
            ..imported_state(s, show@, sections)
        },
        ImportFrame::Cancel => StateView { import_request: None, ..s },
    }
}

/// Take over what a frame of the import window came to.
pub fn import_frame(state: &mut SharedState, f: ImportFrame)
    ensures
        final(state)@ == import_answered(old(state)@, f),
{
    match f {
        ImportFrame::Open(sections) => {
            let request: Option<ImportRequest> = state.import_request.take();
            state.import_request = match request {
                Some(r) => Some(ImportRequest { sections, ..r }),
                None => None,
            };
        },
        ImportFrame::Import(sections, show) => {
            apply_project_import(state, show, sections);
            state.import_request = None;
        },
        ImportFrame::Cancel => {
            state.import_request = None;
        },
    }
}

/// Whether the release notes are shown: once for each series, and not over the
/// card the program starts with.
pub fn shows_release_notes(state: &SharedState, launching: bool) -> (b: bool)
    ensures
        b == (!launching && state@.last_seen_release_notes != Some(RELEASE_NOTES_VERSION@)),
{
    let seen: bool = match &state.last_seen_release_notes {
        Some(v) => same(v.as_str(), RELEASE_NOTES_VERSION),
        None => false,
    };
    !launching && !seen
}

/// The operator has read the release notes.
pub fn acknowledge_release_notes(state: &mut SharedState)
    ensures
        final(state)@ == (StateView {
            last_seen_release_notes: Some(RELEASE_NOTES_VERSION@),
            ..old(state)@
        }),
{
    state.last_seen_release_notes = Some(RELEASE_NOTES_VERSION.to_owned());
}

/// The words of the status bar on what plays.
pub open spec fn playing_text(active: nat) -> Seq<char> {
    if active > 0 {
        "▶ Playing "@ + decimal(active) + " cue"@ + (if active == 1 {
            ""@
        } else {
            "s"@
        })
    } else {
        "Ready"@
    }
}

/// What the status bar shows.
pub struct StatusBar {
    pub status: String,
    pub mode: &'static str,
    pub mode_colour: Rgb,
    pub cues: String,
    pub unsaved: bool,
    pub audio: &'static str,
    pub audio_colour: Rgb,
    /// The master volume is shown: it is not at unity.
    pub master: bool,
}

/// Whether a bar shows the state. `master_db` is the master volume.
pub open spec fn bar_shows(s: StateView, master_db: Single, bar: StatusBar) -> bool {
    let active = s.active_cues.len();
    let green = Rgb { r: 100, g: 220, b: 100 };
    &&& bar.status@ == playing_text(active)
    &&& s.show_mode == ShowMode::Edit ==> bar.mode@ == "🖊 Edit"@ && bar.mode_colour == (Rgb {
        r: 120,
        g: 180,
        b: 255,
    })
    &&& s.show_mode == ShowMode::Show ==> bar.mode@ == "▶ Show"@ && bar.mode_colour == green
    &&& bar.cues@ == decimal(s.show_file.cues.len()) + " cues"@
    &&& bar.unsaved == s.dirty
    &&& active > 0 ==> bar.audio@ == "Audio: On"@ && bar.audio_colour == green
    &&& active == 0 ==> bar.audio@ == "Audio: Off"@ && bar.audio_colour == (Rgb {
        r: 120,
        g: 120,
        b: 120,
    })
    &&& bar.master == (master_db.bits != 0 && master_db.bits != 0x8000_0000)
}

/// What the status bar shows.
pub fn status_bar(state: &SharedState, master_db: Single) -> (bar: StatusBar)
    ensures
        bar_shows(state@, master_db, bar),
{
    let active: usize = state.active_cues.len();
    let green: Rgb = Rgb { r: 100, g: 220, b: 100 };
    let status: String = if active > 0 {
        let mut t: String = "▶ Playing ".to_owned();
        push_decimal(&mut t, active as u64);
        t.append(" cue");
        if active == 1 {
            t.append("");
        } else {
            t.append("s");
        }
        t
    } else {
        "Ready".to_owned()
    };
    let mut cues: String = String::new();
    push_decimal(&mut cues, state.show_file.cues.len() as u64);
    cues.append(" cues");
    assert(cues@ =~= decimal(state@.show_file.cues.len()) + " cues"@);
    StatusBar {
        status,
        mode: match state.show_mode {
            ShowMode::Edit => "🖊 Edit",
            ShowMode::Show => "▶ Show",
        },
        mode_colour: match state.show_mode {
            ShowMode::Edit => Rgb { r: 120, g: 180, b: 255 },
            ShowMode::Show => green,
        },
        cues,
        unsaved: state.dirty,
        audio: if active > 0 {
            "Audio: On"
        } else {
            "Audio: Off"
        },
        audio_colour: if active > 0 {
            green
        } else {
            Rgb { r: 120, g: 120, b: 120 }
        },
        master: master_db.bits != 0 && master_db.bits != 0x8000_0000,
    }
}

proof fn lemma_in_both(a: Seq<AppCommand>, b: Seq<AppCommand>, x: AppCommand)
    ensures
        (a + b).contains(x) <==> a.contains(x) || b.contains(x),
{
    let all = a + b;
    if a.contains(x) {
        let i = choose|i: int| 0 <= i < a.len() && a[i] == x;
        assert(all[i] == x);
    }
    if b.contains(x) {
        let i = choose|i: int| 0 <= i < b.len() && b[i] == x;
        assert(all[a.len() + i] == x);
    }
    if all.contains(x) {
        let i = choose|i: int| 0 <= i < all.len() && all[i] == x;
        if i < a.len() {
            assert(a[i] == x);
        } else {
            assert(b[i - a.len()] == x);
        }
    }
}

proof fn lemma_when(b: bool, c: AppCommand, x: AppCommand)
    ensures
        (when(b, c)).contains(x) <==> b && x == c,
{
    if b {
        assert(when(b, c)[0] == c);
    }
}

proof fn lemma_menu_keys(k: Keys, picked: Option<FilePath>, x: AppCommand)
    ensures
        menu_shortcuts(k, picked).contains(x) <==> k.command && {
            ||| k.n && x is NewProject
            ||| k.o && picked is Some && x == (AppCommand::OpenProject { path: picked->0 })
            ||| k.s && x is SaveProject
            ||| k.d && x == (AppCommand::DuplicateCue { qid: None })
            ||| k.t && x == (AppCommand::AddCue { cue_type: CueType::Sound })
        },
{
    let a = when(k.command && k.n, AppCommand::NewProject);
    let b = if k.command && k.o {
        opening(picked)
    } else {
        Seq::empty()
    };
    let c = when(k.command && k.s, AppCommand::SaveProject);
    let d = when(k.command && k.d, AppCommand::DuplicateCue { qid: None });
    let e = when(k.command && k.t, AppCommand::AddCue { cue_type: CueType::Sound });
    lemma_in_both(a, b, x);
    lemma_in_both(a + b, c, x);
    lemma_in_both(a + b + c, d, x);
    lemma_in_both(a + b + c + d, e, x);
    lemma_when(k.command && k.n, AppCommand::NewProject, x);
    lemma_when(k.command && k.s, AppCommand::SaveProject, x);
    lemma_when(k.command && k.d, AppCommand::DuplicateCue { qid: None }, x);
    lemma_when(k.command && k.t, AppCommand::AddCue { cue_type: CueType::Sound }, x);
    if k.command && k.o && picked is Some {
        assert(b[0] == (AppCommand::OpenProject { path: picked->0 }));
    }
}

proof fn lemma_field_keys(k: Keys, x: AppCommand)
    ensures
        field_shortcuts(k).contains(x) <==> {
            ||| k.command && k.z && !k.shift && x is Undo
            ||| k.command && k.z && k.shift && x is Redo
            ||| (k.delete || k.backspace) && x == (AppCommand::DeleteCue { qid: None })
            ||| k.command && k.up && x == (AppCommand::MoveCueUp { qid: None })
            ||| k.command && k.down && x == (AppCommand::MoveCueDown { qid: None })
            ||| k.bare && k.up && x is SelectPreviousCue
            ||| k.bare && !k.up && k.down && x is SelectNextCue
            ||| k.bare && !k.up && !k.down && k.home && x is SelectFirstCue
            ||| k.bare && !k.up && !k.down && !k.home && k.end && x is SelectLastCue
            ||| !k.command && !k.alt && k.space && x is Go
            ||| !k.command && !k.alt && k.escape && x is Stop
        },
{
    let history = if k.shift {
        AppCommand::Redo
    } else {
        AppCommand::Undo
    };
    let a = when(k.command && k.z, history);
    let b = when(k.delete || k.backspace, AppCommand::DeleteCue { qid: None });
    let c = when(k.command && k.up, AppCommand::MoveCueUp { qid: None });
    let d = when(k.command && k.down, AppCommand::MoveCueDown { qid: None });
    let e = selection_shortcut(k);
    let f = when(!k.command && !k.alt && k.space, AppCommand::Go);
    let g = when(!k.command && !k.alt && k.escape, AppCommand::Stop);
    lemma_in_both(a, b, x);
    lemma_in_both(a + b, c, x);
    lemma_in_both(a + b + c, d, x);
    lemma_in_both(a + b + c + d, e, x);
    lemma_in_both(a + b + c + d + e, f, x);
    lemma_in_both(a + b + c + d + e + f, g, x);
    lemma_when(k.command && k.z, history, x);
    lemma_when(k.delete || k.backspace, AppCommand::DeleteCue { qid: None }, x);
    lemma_when(k.command && k.up, AppCommand::MoveCueUp { qid: None }, x);
    lemma_when(k.command && k.down, AppCommand::MoveCueDown { qid: None }, x);
    lemma_when(!k.command && !k.alt && k.space, AppCommand::Go, x);
    lemma_when(!k.command && !k.alt && k.escape, AppCommand::Stop, x);
    if e.len() > 0 {
        assert(e.contains(e[0]));
    }
}

/// A key asks for its command and for no other: none while something covers
/// the desk, and of those that a text field takes none while one is edited.
pub proof fn keys_ask_for_their_command(
    k: &Keys,
    covered: bool,
    editing: bool,
    picked: Option<FilePath>,
    r: Vec<AppCommand>,
    x: AppCommand,
)
    requires
        call_ensures(shortcuts, (k, covered, editing, picked), r),
    ensures
        covered ==> r@.len() == 0,
        r@.contains(x) <==> !covered && {
            ||| k.command && k.n && x is NewProject
            ||| k.command && k.o && picked is Some && x == (AppCommand::OpenProject {
                path: picked->0,
            })
            ||| k.command && k.s && x is SaveProject
            ||| k.command && k.d && x == (AppCommand::DuplicateCue { qid: None })
            ||| k.command && k.t && x == (AppCommand::AddCue { cue_type: CueType::Sound })
            ||| !editing && {
                ||| k.command && k.z && !k.shift && x is Undo
                ||| k.command && k.z && k.shift && x is Redo
                ||| (k.delete || k.backspace) && x == (AppCommand::DeleteCue { qid: None })
                ||| k.command && k.up && x == (AppCommand::MoveCueUp { qid: None })
                ||| k.command && k.down && x == (AppCommand::MoveCueDown { qid: None })
                ||| k.bare && k.up && x is SelectPreviousCue
                ||| k.bare && !k.up && k.down && x is SelectNextCue
                ||| k.bare && !k.up && !k.down && k.home && x is SelectFirstCue
                ||| k.bare && !k.up && !k.down && !k.home && k.end && x is SelectLastCue
                ||| !k.command && !k.alt && k.space && x is Go
                ||| !k.command && !k.alt && k.escape && x is Stop
            }
        },
{
    lemma_menu_keys(*k, picked, x);
    lemma_field_keys(*k, x);
    lemma_in_both(menu_shortcuts(*k, picked), field_shortcuts(*k), x);
}

/// A field is edited while it was at either end of the frame, and a project is
/// picked where the key asks for it.
pub proof fn fields_and_pickers_follow_the_frame(
    wanted: bool,
    at_end: bool,
    e: bool,
    k: &Keys,
    covered: bool,
    o: bool,
)
    requires
        call_ensures(editing_text, (wanted, at_end), e),
        call_ensures(wants_open_dialog, (k, covered), o),
    ensures
        !e <==> !wanted && !at_end,
        o <==> k.command && k.o && !covered,
{
}

/// An alert is shown until its time has come, and is gone from then on.
pub proof fn an_alert_lasts_its_time(state: &mut SharedState, now: Moment, r: Option<u64>)
    requires
        call_ensures(expire_alert, (state, now), r),
    ensures
        ({
            let s = old(state)@;
            let t = final(state)@;
            &&& s.operator_alert is None ==> r is None && t.operator_alert is None
            &&& s.operator_alert is Some && now < s.operator_alert->0.expires_at ==> r is Some
                && r->0 + now == s.operator_alert->0.expires_at && t.operator_alert
                == s.operator_alert
            &&& s.operator_alert is Some && now >= s.operator_alert->0.expires_at ==> r is None
                && t.operator_alert is None
            &&& t.show_file == s.show_file
            &&& t.command_queue == s.command_queue
        }),
{
}

/// A dismissed alert is gone.
pub proof fn a_dismissed_alert_is_gone(state: &mut SharedState)
    requires
        call_ensures(dismiss_alert, (state,), ()),
    ensures
        final(state)@.operator_alert is None,
        final(state)@.show_file == old(state)@.show_file,
        final(state)@.command_queue == old(state)@.command_queue,
        final(state)@.selected_cue_id == old(state)@.selected_cue_id,
{
}

/// What the settings window leaves is taken over: the settings, whether there
/// is work to save, and the commands for what was picked, in their order.
pub proof fn settings_are_taken_over(state: &mut SharedState, f: SettingsFrame)
    requires
        call_ensures(settings_frame, (state, f), ()),
    ensures
        ({
            let s = old(state)@;
            let t = final(state)@;
            let levels = if f.levels {
                seq![AppCommand::ApplyAudioSettings]
            } else {
                Seq::empty()
            };
            let driver = if f.driver is Some && f.driver->0 != f.settings.audio_output_driver {
                seq![AppCommand::SetAudioDriver(f.driver->0)]
            } else {
                Seq::empty()
            };
            let device = if f.device is Some {
                seq![AppCommand::SetAudioDevice(f.device->0)]
            } else {
                Seq::empty()
            };
            &&& t.show_file.show_settings == f.settings
            &&& t.panels.settings == f.open
            &&& t.dirty <==> s.dirty || f.changed || f.forget@.len() > 0
            &&& t.command_queue == s.command_queue + levels + driver + device
            &&& t.show_file.cues == s.show_file.cues
            &&& f.forget@.len() == 0 ==> t.show_file.remote_nodes == s.show_file.remote_nodes
            &&& t.selected_cue_id == s.selected_cue_id
            &&& t.panels.log == s.panels.log
            &&& t.panels.video == s.panels.video
        }),
{
    let s = old(state)@;
    let q0 = s.command_queue;
    let t = final(state)@;
    let a = levels_command(f.levels);
    let b = driver_command(f.settings.audio_output_driver, f.driver);
    let c = device_command(f.device);
    let levels = if f.levels {
        seq![AppCommand::ApplyAudioSettings]
    } else {
        Seq::empty()
    };
    let driver = if f.driver is Some && f.driver->0 != f.settings.audio_output_driver {
        seq![AppCommand::SetAudioDriver(f.driver->0)]
    } else {
        Seq::empty()
    };
    let device = if f.device is Some {
        seq![AppCommand::SetAudioDevice(f.device->0)]
    } else {
        Seq::empty()
    };
    assert(t.command_queue =~= q0 + levels + driver + device);
    if f.forget@.len() == 0 {
        lemma_none_forgotten(
            s.show_file.remote_nodes,
            f.forget@,
            s.show_file.remote_nodes.len() as int,
        );
        assert(s.show_file.remote_nodes.take(s.show_file.remote_nodes.len() as int)
            =~= s.show_file.remote_nodes);
    }
}

proof fn lemma_none_forgotten(nodes: Seq<RemoteNode>, forget: Seq<usize>, n: int)
    requires
        forget.len() == 0,
        0 <= n <= nodes.len(),
    ensures
        remembered(nodes, forget, n) == nodes.take(n),
    decreases n,
{
    if n > 0 {
        lemma_none_forgotten(nodes, forget, n - 1);
        assert(nodes.take(n) =~= nodes.take(n - 1).push(nodes[n - 1]));
    } else {
        assert(remembered(nodes, forget, n) =~= nodes.take(n));
    }
}

/// Of the remote machines exactly those of the rows that were named are
/// forgotten.
pub proof fn named_machines_are_forgotten(state: &mut SharedState, f: SettingsFrame, row: usize)
    requires
        call_ensures(settings_frame, (state, f), ()),
        row < old(state)@.show_file.remote_nodes.len(),
    ensures
        ({
            let before = old(state)@.show_file.remote_nodes;
            let after = final(state)@.show_file.remote_nodes;
            &&& after.len() <= before.len()
            &&& !f.forget@.contains(row) ==> after.contains(before[row as int])
            &&& forall|j: int|
                0 <= j < after.len() ==> kept_machine(before, f.forget@, #[trigger] after[j])
        }),
{
    let before = old(state)@.show_file.remote_nodes;
    assert(before.len() == old(state).show_file.remote_nodes.len());
    lemma_remembered(before, f.forget@, before.len() as int);
}

/// Whether the machine is one of those whose row was not named.
pub open spec fn kept_machine(
    nodes: Seq<RemoteNode>,
    forget: Seq<usize>,
    node: RemoteNode,
) -> bool {
    exists|row: usize|
        row < nodes.len() && !(#[trigger] forget.contains(row)) && nodes[row as int] == node
}

proof fn lemma_remembered(nodes: Seq<RemoteNode>, forget: Seq<usize>, n: int)
    requires
        0 <= n <= nodes.len(),
        nodes.len() <= usize::MAX,
    ensures
        ({
            let r = remembered(nodes, forget, n);
            &&& r.len() <= n
            &&& forall|row: usize|
                row < n && !(#[trigger] forget.contains(row)) ==> r.contains(nodes[row as int])
            &&& forall|j: int|
                0 <= j < r.len() ==> kept_machine(nodes, forget, #[trigger] r[j])
        }),
    decreases n,
{
    if n > 0 {
        lemma_remembered(nodes, forget, n - 1);
        let before = remembered(nodes, forget, n - 1);
        let r = remembered(nodes, forget, n);
        let last = (n - 1) as usize;
        assert forall|row: usize|
            row < n && !(#[trigger] forget.contains(row)) implies r.contains(nodes[row as int]) by {
            if row < n - 1 {
                assert(before.contains(nodes[row as int]));
                let i = choose|i: int| 0 <= i < before.len() && before[i] == nodes[row as int];
                assert(r[i] == nodes[row as int]);
            } else {
                assert(forall|i: int| 0 <= i < forget.len() ==> forget[i] != n - 1) by {
                    assert forall|i: int| 0 <= i < forget.len() implies forget[i] != n - 1 by {
                        if forget[i] == n - 1 {
                            assert(forget.contains(row));
                        }
                    }
                }
                assert(r.last() == nodes[n - 1]);
            }
        }
        assert forall|j: int| 0 <= j < r.len() implies kept_machine(
            nodes,
            forget,
            #[trigger] r[j],
        ) by {
            if j < before.len() {
                assert(r[j] == before[j]);
            } else {
                assert(r[j] == nodes[n - 1]);
                assert(!forget.contains(last)) by {
                    if forget.contains(last) {
                        let i = choose|i: int| 0 <= i < forget.len() && forget[i] == last;
                        assert(forget[i] == n - 1);
                    }
                }
            }
        }
    }
}

/// The waveform is that of the selected sound or video; it is shown once it is
/// made.
pub proof fn the_waveform_is_of_the_selected_cue(
    state: &SharedState,
    r: Option<&str>,
    path: Option<&str>,
    made: bool,
    w: WaveformShown,
    id: Qid,
    k: int,
)
    requires
        call_ensures(waveform_path, (state,), r),
        call_ensures(waveform_shown, (path, made), w),
    ensures
        state@.selected_cue_id is None ==> r is None,
        state@.selected_cue_id == Some(id) && crate::commands::first_row(
            state@.show_file.cues,
            id@,
            k,
        ) ==> {
            let kind = state@.show_file.cues[k].kind;
            &&& kind is Sound ==> r is Some && r->0@ == kind->Sound_path@
            &&& kind is Video ==> r is Some && r->0@ == kind->Video_path@
            &&& !(kind is Sound || kind is Video) ==> r is None
        },
        path is None ==> w is Nothing,
        path is Some && path->0@.len() == 0 ==> w is Nothing,
        path is Some && path->0@.len() > 0 ==> (if made {
            w is Waveform
        } else {
            w is Waiting
        }),
{
    if state@.selected_cue_id == Some(id) && crate::commands::first_row(
        state@.show_file.cues,
        id@,
        k,
    ) {
        crate::commands::lemma_first_row(state@.show_file.cues, id@, k);
    }
}

/// Opening or closing a window is about that window alone.
pub proof fn windows_open_one_by_one(state: &mut SharedState, w: DeskWindow, open: bool)
    requires
        call_ensures(set_window, (state, w, open), ()),
    ensures
        ({
            let p = old(state)@.panels;
            let q = final(state)@.panels;
            &&& q.settings == (if w is Settings { open } else { p.settings })
            &&& q.log == (if w is Log { open } else { p.log })
            &&& q.about == (if w is About { open } else { p.about })
            &&& q.changes == (if w is Changes { open } else { p.changes })
            &&& q.status == (if w is Status { open } else { p.status })
            &&& q.waveform == (if w is Waveform { open } else { p.waveform })
            &&& q.video == (if w is Video { open } else { p.video })
            &&& q.projection == (if w is Projection { open } else { p.projection })
            &&& q.lighting == (if w is Lighting { open } else { p.lighting })
            &&& q.recorder == (if w is Recorder { open } else { p.recorder })
            &&& final(state)@.command_queue == old(state)@.command_queue
            &&& final(state)@.show_file == old(state)@.show_file
        }),
{
}

/// An entry of the menus queues the command of its name with the path that was
/// picked; undo and redo do so only where there is something to take back or
/// to bring back.
pub proof fn menus_queue_their_command(state: &mut SharedState, item: MenuItem)
    requires
        call_ensures(menu_bar, (state, item), ()),
    ensures
        ({
            let s = old(state)@;
            let t = final(state)@;
            let q = s.command_queue;
            &&& item is New ==> t.command_queue == q.push(AppCommand::NewProject)
            &&& item matches MenuItem::Open(path) ==> t.command_queue == q.push(
                AppCommand::OpenProject { path },
            )
            &&& item is Save ==> t.command_queue == q.push(AppCommand::SaveProject)
            &&& item matches MenuItem::SaveAs(path) ==> t.command_queue == q.push(
                AppCommand::SaveProjectAs { path },
            )
            &&& item matches MenuItem::Pack(path) ==> t.command_queue == q.push(
                AppCommand::PackProject { path },
            )
            &&& item is Undo ==> t.command_queue == (if s.undo_redo.undo.len() > 0 {
                q.push(AppCommand::Undo)
            } else {
                q
            })
            &&& item is Redo ==> t.command_queue == (if s.undo_redo.redo.len() > 0 {
                q.push(AppCommand::Redo)
            } else {
                q
            })
            &&& item matches MenuItem::Window(w, open) ==> t.command_queue == (if w is Video {
                q.push(AppCommand::ToggleVideoWindow)
            } else {
                q
            }) && t.panels == panels_with(s.panels, w, open)
            &&& item matches MenuItem::Autosave(on) ==> t.command_queue == q && t.dirty
                && t.show_file.show_settings.autosave_enabled == on
            &&& item matches MenuItem::Import { name, show } ==> t.command_queue == q
                && t.import_request is Some && t.import_request->0.name == name
                && t.import_request->0.show == show && t.import_request->0.sections.projection
                && t.import_request->0.sections.lighting
                && t.import_request->0.sections.show_settings
            &&& !(item is Autosave) ==> t.show_file == s.show_file && t.dirty == s.dirty
            &&& !(item is Import) ==> t.import_request == s.import_request
            &&& !(item is Window) ==> t.panels == s.panels
            &&& t.show_file.cues == s.show_file.cues
            &&& t.selected_cue_id == s.selected_cue_id
            &&& t.undo_redo == s.undo_redo
        }),
{
}

/// The program quits where the operator discards the work, or once it was
/// saved; a question that is closed some other way is a no.
pub proof fn quitting_follows_the_answer(
    state: &mut SharedState,
    button: Option<QuitChoice>,
    closed: bool,
    choice: Option<QuitChoice>,
    save: bool,
)
    requires
        call_ensures(quit_choice, (button, closed), choice),
        call_ensures(answer_quit, (state, choice), save),
    ensures
        ({
            let s = old(state)@;
            let t = final(state)@;
            &&& button is Some ==> choice == button
            &&& button is None && closed ==> choice == Some(QuitChoice::Cancel)
            &&& button is None && !closed ==> choice is None
            &&& save <==> choice == Some(QuitChoice::Save)
            &&& choice == Some(QuitChoice::Discard) ==> t.quit && !t.pending_close_confirm
            &&& choice == Some(QuitChoice::Cancel) ==> t.quit == s.quit
                && !t.pending_close_confirm
            &&& save || choice is None ==> t == s
            &&& t.show_file == s.show_file
            &&& t.dirty == s.dirty
        }),
{
}

/// A project that is saved before quitting goes where it came from, else to the
/// name that was found; the program quits only where that worked.
pub proof fn a_save_comes_before_quitting(
    state: &mut SharedState,
    found: Result<FilePath, String>,
    r: Result<FilePath, String>,
    error: Option<&str>,
    now: Moment,
    asked: &SharedState,
)
    requires
        alert_fits(now),
        call_ensures(save_target, (asked, found), r),
        call_ensures(save_and_quit, (state, error, now), ()),
    ensures
        asked@.project_path is Some ==> r == Ok::<FilePath, String>(asked@.project_path->0),
        asked@.project_path is None ==> r == found,
        error is None ==> final(state)@.quit && !final(state)@.pending_close_confirm,
        error is Some ==> final(state)@.quit == old(state)@.quit
            && final(state)@.pending_close_confirm == old(state)@.pending_close_confirm
            && final(state)@.operator_alert is Some && final(state)@.operator_alert->0.message
            == "Could not save before quitting: "@ + error->0@,
        final(state)@.show_file == old(state)@.show_file,
{
}

/// The question whether to discard the project says what would be lost, under
/// the name of the command.
pub proof fn the_question_says_what_is_lost(
    state: &SharedState,
    r: String,
    command: &AppCommand,
    h: &'static str,
)
    requires
        call_ensures(discard_message, (state,), r),
        call_ensures(discard_heading, (command,), h),
    ensures
        ({
            let running = state@.active_cues.len() > 0;
            let end = " Discard and continue?"@;
            &&& state@.dirty && running ==> r@
                == "There are cues playing and you have unsaved changes."@ + end
            &&& state@.dirty && !running ==> r@ == "You have unsaved changes."@ + end
            &&& !state@.dirty && running ==> r@ == "There are cues currently playing."@ + end
            &&& !state@.dirty && !running ==> r@ == "Discard the current project?"@ + end
            &&& *command is NewProject ==> h@ == "New Project"@
            &&& *command is OpenProject ==> h@ == "Open Project"@
        }),
{
}

/// The command that waited for the operator runs without asking again where
/// they agreed, and is dropped where they did not.
pub proof fn the_waiting_command_is_answered(state: &mut SharedState, agreed: bool)
    requires
        call_ensures(answer_discard, (state, agreed), ()),
    ensures
        ({
            let s = old(state)@;
            let t = final(state)@;
            let waits = s.pending_discard_confirm is Some;
            &&& t.pending_discard_confirm is None
            &&& waits && agreed ==> t.discard_confirmed && t.command_queue
                == s.command_queue.push(s.pending_discard_confirm->0)
            &&& !(waits && agreed) ==> t.discard_confirmed == s.discard_confirmed
                && t.command_queue == s.command_queue
            &&& t.show_file == s.show_file
            &&& t.dirty == s.dirty
        }),
{
}

/// An import goes ahead with the parts that are ticked, where any is, and is
/// over then; a cancelled one changes nothing.
pub proof fn an_import_takes_the_ticked_parts(
    state: &mut SharedState,
    f: ImportFrame,
    sections: &ImportSections,
    b: bool,
)
    requires
        call_ensures(import_frame, (state, f), ()),
        call_ensures(import_enabled, (sections,), b),
    ensures
        ({
            let s = old(state)@;
            let t = final(state)@;
            &&& b <==> sections.projection || sections.lighting || sections.show_settings
            &&& f matches ImportFrame::Open(ticked) ==> {
                &&& t.import_request is Some == s.import_request is Some
                &&& s.import_request is Some ==> t.import_request->0.sections == ticked
                    && t.import_request->0.name == s.import_request->0.name
                    && t.import_request->0.show == s.import_request->0.show
                &&& t.show_file == s.show_file && t.dirty == s.dirty
            }
            &&& f matches ImportFrame::Import(ticked, show) ==> {
                &&& t.import_request is None
                &&& t.show_file == show@
                &&& t.dirty
                &&& (t.project_generation != s.project_generation) == (ticked.projection
                    || ticked.lighting)
                &&& !ticked.show_settings ==> t.command_queue == s.command_queue
            }
            &&& f is Cancel ==> t.import_request is None && t.show_file == s.show_file && t.dirty
                == s.dirty && t.undo_redo == s.undo_redo
        }),
{
}

/// The release notes are shown until they were read, and not over the card the
/// program starts with.
pub proof fn release_notes_are_shown_until_read(
    state: &mut SharedState,
    after: &SharedState,
    before: &SharedState,
    launching: bool,
    b: bool,
    c: bool,
)
    requires
        call_ensures(shows_release_notes, (before, launching), b),
        call_ensures(acknowledge_release_notes, (state,), ()),
        after@ == final(state)@,
        call_ensures(shows_release_notes, (after, launching), c),
    ensures
        launching ==> !b,
        before@.last_seen_release_notes is None && !launching ==> b,
        !c,
        final(state)@.show_file == old(state)@.show_file,
{
}

/// The status bar tells how many cues play and how many there are, the mode and
/// whether there is work to save.
pub proof fn the_status_bar_tells_the_state(state: &SharedState, db: Single, bar: StatusBar)
    requires
        call_ensures(status_bar, (state, db), bar),
    ensures
        ({
            let n = state@.active_cues.len();
            &&& n == 0 ==> bar.status@ == "Ready"@ && bar.audio@ == "Audio: Off"@
            &&& n == 1 ==> bar.status@ == "▶ Playing "@ + decimal(n) + " cue"@ + ""@
            &&& n > 1 ==> bar.status@ == "▶ Playing "@ + decimal(n) + " cue"@ + "s"@
            &&& n > 0 ==> bar.audio@ == "Audio: On"@
            &&& bar.cues@ == decimal(state@.show_file.cues.len()) + " cues"@
            &&& bar.unsaved == state@.dirty
            &&& state@.show_mode is Edit ==> bar.mode@ == "🖊 Edit"@
            &&& state@.show_mode is Show ==> bar.mode@ == "▶ Show"@
            &&& !bar.master <==> db.bits == 0 || db.bits == 0x8000_0000
        }),
{
}

} // verus!

//! The state shared between the operator's windows and the show engine, and
//! the commands that travel between them.

use vstd::prelude::*;

use crate::diagnostics::{no_diagnostics, Diagnostics, DiagnosticsView, VideoDiagnostics};
use crate::ieee::{Double, Single};
use crate::path::{clone_path_opt, FilePath};
use crate::qid::Qid;
use crate::show::{
    default_show, find_cue, has_cue, position, AudioOutputDriver, Cue, ShowFile, ShowView,
    TriggerMode,
};
use crate::text::{same, text_opt};
use crate::undo::{HistoryView, Snapshot, SnapshotView, UndoRedo};

verus! {

/// A moment on the program's clock, in nanoseconds since it started.
pub type Moment = u64;

/// How long an alert stays on screen.
pub const OPERATOR_ALERT_NANOS: u64 = 10_000_000_000;

/// How many recent projects are remembered.
pub const RECENT_FILES: usize = 10;

/// The generation of the release notes that are shown, once for each.
pub const RELEASE_NOTES_VERSION: &'static str = "0.13";

/// Runtime state of an active cue.
#[derive(Clone, Copy, PartialEq, Eq, Structural, Debug)]
pub enum CueState {
    Ready,
    Delay,
    Playing,
    PlayingLooped,
    Paused,
    Done,
}

impl Default for CueState {
    fn default() -> (r: Self)
        ensures
            r == CueState::Ready,
    {
        CueState::Ready
    }
}

/// The kinds of cue the operator can add.
#[derive(Clone, Copy, PartialEq, Eq, Structural, Debug)]
pub enum CueType {
    Sound,
    Video,
    Stop,
    Volume,
    Group,
    Dummy,
    TimeCode,
    Network,
    Text,
    Image,
    Goto,
    Lighting,
    DmxShow,
    PixelMap,
}

/// The operator's stance: editing the show, or running it.
#[derive(Clone, Copy, PartialEq, Eq, Structural, Debug)]
pub enum ShowMode {
    Edit,
    Show,
}

/// A cue that is running now.
#[derive(Debug)]
pub struct ActiveCueInfo {
    /// One playback; a cue may be running more than once.
    pub instance_id: u64,
    pub qid: Qid,
    pub name: String,
    pub paused: bool,
    pub position_secs: Single,
    pub length_secs: Option<Single>,
    pub state: CueState,
}

/// A runtime error shown to the operator until it expires.
#[derive(Debug)]
pub struct OperatorAlert {
    pub message: String,
    pub expires_at: Moment,
}

pub struct AlertView {
    pub message: Seq<char>,
    pub expires_at: Moment,
}

impl View for OperatorAlert {
    type V = AlertView;

    open spec fn view(&self) -> AlertView {
        AlertView { message: self.message@, expires_at: self.expires_at }
    }
}

/// The parts of another show that an import copies.
#[derive(Clone, Copy, PartialEq, Eq, Structural, Debug)]
pub struct ImportSections {
    pub projection: bool,
    pub lighting: bool,
    pub show_settings: bool,
}

/// An import the operator has yet to confirm.
#[derive(Debug)]
pub struct ImportRequest {
    pub name: String,
    pub show: ShowFile,
    pub sections: ImportSections,
}

/// Which windows are open.
#[derive(Clone, Copy, PartialEq, Eq, Structural, Debug)]
pub struct Panels {
    pub settings: bool,
    pub log: bool,
    pub about: bool,
    pub changes: bool,
    pub status: bool,
    pub waveform: bool,
    pub video: bool,
    pub projection: bool,
    pub lighting: bool,
    pub recorder: bool,
}

/// A wish of the operator or of a remote peer.
#[allow(inconsistent_fields)]
#[derive(Debug)]
pub enum AppCommand {
    NewProject,
    OpenProject { path: FilePath },
    SaveProject,
    SaveProjectAs { path: FilePath },
    PackProject { path: FilePath },
    Go,
    Stop,
    Pause,
    SelectCue(Qid),
    SelectPreviousCue,
    SelectNextCue,
    SelectFirstCue,
    SelectLastCue,
    Undo,
    Redo,
    AddCue { cue_type: CueType },
    /// Cue commands name their target; without one they mean the selection.
    DeleteCue { qid: Option<Qid> },
    DuplicateCue { qid: Option<Qid> },
    MoveCueUp { qid: Option<Qid> },
    MoveCueDown { qid: Option<Qid> },
    UngroupCue { qid: Qid },
    MoveCue { from_idx: usize, to_idx: usize, parent: Option<Qid> },
    SetMasterVolume(Single),
    QueryMasterVolume { reply_to: String, request_id: i32 },
    SetAudioDriver(AudioOutputDriver),
    SetAudioDevice(String),
    ApplyAudioSettings,
    ToggleVideoWindow,
    ToggleVideoFullscreen,
    ToggleProjectionWindow,
    OpenProjectionOutputs,
    Preload,
    UpdateCueQid { qid: Qid, new_qid: Qid },
    UpdateCueName { qid: Qid, name: String },
    UpdateCueTrigger { qid: Qid, trigger: TriggerMode },
    LearnMidiTrigger { qid: Qid },
    CaptureTimecodeTrigger { qid: Qid },
    LightingLivePush { snapshot: Vec<(u32, rustjay_lighting::FixtureLook)> },
    RecorderRecord { file: String },
    RecorderDiscard,
    RecorderRevert { file: String },
    RecorderSetMonitor(bool),
    RecorderPreview { file: String },
    RecorderStopPreview,
    RecorderClearLive,
    RecorderScrub { frame: Option<rustjay_lighting::MaskedFrame> },
    FrameStep,
    FrameStepBack,
    SeekCue { instance_id: u64, secs: Single },
    SetCueLevel { qid: Qid, volume: Single, pan: Single },
}

impl AppCommand {
    /// The commands that change the cue list. Undo and redo are among them:
    /// in a show they could only take back work done before it.
    pub open spec fn is_cue_edit(self) -> bool {
        ||| self is Undo
        ||| self is Redo
        ||| self is AddCue
        ||| self is DeleteCue
        ||| self is DuplicateCue
        ||| self is MoveCueUp
        ||| self is MoveCueDown
        ||| self is UngroupCue
        ||| self is MoveCue
        ||| self is UpdateCueQid
        ||| self is UpdateCueName
        ||| self is UpdateCueTrigger
    }

    pub fn edits_cues(&self) -> (b: bool)
        ensures
            b == self.is_cue_edit(),
    {
        match self {
            AppCommand::Undo => true,
            AppCommand::Redo => true,
            AppCommand::AddCue { .. } => true,
            AppCommand::DeleteCue { .. } => true,
            AppCommand::DuplicateCue { .. } => true,
            AppCommand::MoveCueUp { .. } => true,
            AppCommand::MoveCueDown { .. } => true,
            AppCommand::UngroupCue { .. } => true,
            AppCommand::MoveCue { .. } => true,
            AppCommand::UpdateCueQid { .. } => true,
            AppCommand::UpdateCueName { .. } => true,
            AppCommand::UpdateCueTrigger { .. } => true,
            _ => false,
        }
    }
}

/// State shared between the operator's windows and the engine.
#[derive(Debug)]
pub struct SharedState {
    pub show_file: ShowFile,
    pub project_path: Option<FilePath>,
    pub selected_cue_id: Option<Qid>,
    pub command_queue: Vec<AppCommand>,
    pub show_mode: ShowMode,
    pub dirty: bool,
    pub undo_redo: UndoRedo,
    pub active_cues: Vec<ActiveCueInfo>,
    /// Projects opened or saved lately, the latest first.
    pub recent_files: Vec<FilePath>,
    /// The release notes the operator has acknowledged.
    pub last_seen_release_notes: Option<String>,
    pub panels: Panels,
    pub audio_device_name: String,
    /// Why there is no audio, where the output could not be opened.
    pub audio_error: Option<String>,
    pub recorder_file: String,
    pub recorder_monitor: bool,
    /// Whether MIDI controllers drive DMX channels, and of which universe.
    pub recorder_midi_enabled: bool,
    pub recorder_midi_universe: u16,
    pub recorder_error: Option<String>,
    /// What the status window shows.
    pub diagnostics: Diagnostics,
    /// A take that is to be opened in the editor, asked for once.
    pub open_take_editor: Option<String>,
    /// The show clock; frozen while paused, absent until the first Go.
    pub show_time: Option<Double>,
    pub show_paused: bool,
    /// The next armed timecode trigger.
    pub next_timecode: Option<(Qid, Double)>,
    /// The window was closed with work to lose: ask before quitting.
    pub pending_close_confirm: bool,
    /// A command that would discard work waits for the operator's answer.
    pub pending_discard_confirm: Option<AppCommand>,
    /// The operator has agreed; the waiting command runs without asking.
    pub discard_confirmed: bool,
    pub quit: bool,
    pub operator_alert: Option<OperatorAlert>,
    /// The cue that takes the next MIDI event as its trigger.
    pub pending_midi_learn: Option<Qid>,
    /// The cue that takes the current show time as its trigger.
    pub pending_timecode_capture: Option<Qid>,
    /// Counts project loads, so that the outputs are rebuilt for each.
    pub project_generation: u64,
    pub identify_outputs: bool,
    pub lighting_live: bool,
    pub import_request: Option<ImportRequest>,
}

#[verifier::ext_equal]
pub struct StateView {
    pub show_file: ShowView,
    pub project_path: Option<FilePath>,
    pub selected_cue_id: Option<Qid>,
    pub command_queue: Seq<AppCommand>,
    pub show_mode: ShowMode,
    pub dirty: bool,
    pub undo_redo: HistoryView,
    pub active_cues: Seq<ActiveCueInfo>,
    pub recent_files: Seq<FilePath>,
    pub last_seen_release_notes: Option<Seq<char>>,
    pub panels: Panels,
    pub audio_device_name: Seq<char>,
    pub audio_error: Option<Seq<char>>,
    pub recorder_file: String,
    pub recorder_monitor: bool,
    pub recorder_midi_enabled: bool,
    pub recorder_midi_universe: u16,
    pub recorder_error: Option<Seq<char>>,
    pub diagnostics: DiagnosticsView,
    pub open_take_editor: Option<Seq<char>>,
    pub show_time: Option<Double>,
    pub show_paused: bool,
    pub next_timecode: Option<(Qid, Double)>,
    pub pending_close_confirm: bool,
    pub pending_discard_confirm: Option<AppCommand>,
    pub discard_confirmed: bool,
    pub quit: bool,
    pub operator_alert: Option<AlertView>,
    pub pending_midi_learn: Option<Qid>,
    pub pending_timecode_capture: Option<Qid>,
    pub project_generation: u64,
    pub identify_outputs: bool,
    pub lighting_live: bool,
    pub import_request: Option<ImportRequest>,
}

impl View for SharedState {
    type V = StateView;

    open spec fn view(&self) -> StateView {
        StateView {
            show_file: self.show_file@,
            project_path: self.project_path,
            selected_cue_id: self.selected_cue_id,
            command_queue: self.command_queue@,
            show_mode: self.show_mode,
            dirty: self.dirty,
            undo_redo: self.undo_redo@,
            active_cues: self.active_cues@,
            recent_files: self.recent_files@,
            last_seen_release_notes: text_opt(self.last_seen_release_notes),
            panels: self.panels,
            audio_device_name: self.audio_device_name@,
            audio_error: text_opt(self.audio_error),
            recorder_file: self.recorder_file,
            recorder_monitor: self.recorder_monitor,
            recorder_midi_enabled: self.recorder_midi_enabled,
            recorder_midi_universe: self.recorder_midi_universe,
            recorder_error: text_opt(self.recorder_error),
            diagnostics: self.diagnostics@,
            open_take_editor: text_opt(self.open_take_editor),
            show_time: self.show_time,
            show_paused: self.show_paused,
            next_timecode: self.next_timecode,
            pending_close_confirm: self.pending_close_confirm,
            pending_discard_confirm: self.pending_discard_confirm,
            discard_confirmed: self.discard_confirmed,
            quit: self.quit,
            operator_alert: match self.operator_alert {
                Some(a) => Some(a@),
                None => None,
            },
            pending_midi_learn: self.pending_midi_learn,
            pending_timecode_capture: self.pending_timecode_capture,
            project_generation: self.project_generation,
            identify_outputs: self.identify_outputs,
            lighting_live: self.lighting_live,
            import_request: self.import_request,
        }
    }
}

/// Whether the clock leaves room for an alert to expire.
pub open spec fn alert_fits(now: Moment) -> bool {
    now + OPERATOR_ALERT_NANOS <= u64::MAX
}

/// The paths of `list` other than the one `key` stands for.
pub open spec fn without_path(list: Seq<FilePath>, key: Seq<char>) -> Seq<FilePath>
    decreases list.len(),
{
    if list.len() == 0 {
        Seq::empty()
    } else {
        let rest = without_path(list.drop_last(), key);
        if list.last().key@ == key {
            rest
        } else {
            rest.push(list.last())
        }
    }
}

/// `list` with `path` in front, once, and no longer than is remembered.
pub open spec fn recent(list: Seq<FilePath>, path: FilePath) -> Seq<FilePath> {
    let all = seq![path] + without_path(list, path.key@);
    if all.len() > RECENT_FILES {
        all.take(RECENT_FILES as int)
    } else {
        all
    }
}

/// No path occurs twice.
pub open spec fn paths_unique(list: Seq<FilePath>) -> bool {
    forall|i: int, j: int|
        0 <= i < j < list.len() ==> (#[trigger] list[i]).key@ != (#[trigger] list[j]).key@
}

proof fn lemma_without_path(list: Seq<FilePath>, key: Seq<char>)
    ensures
        without_path(list, key).len() <= list.len(),
        forall|i: int|
            0 <= i < without_path(list, key).len() ==> (#[trigger] without_path(
                list,
                key,
            )[i]).key@ != key,
        forall|i: int|
            0 <= i < without_path(list, key).len() ==> list.contains(
                #[trigger] without_path(list, key)[i],
            ),
        paths_unique(list) ==> paths_unique(without_path(list, key)),
    decreases list.len(),
{
    if list.len() > 0 {
        let front = list.drop_last();
        lemma_without_path(front, key);
        let rest = without_path(front, key);
        assert forall|i: int| 0 <= i < without_path(list, key).len() implies list.contains(
            #[trigger] without_path(list, key)[i],
        ) by {
            let r = without_path(list, key);
            if i < rest.len() {
                assert(front.contains(rest[i]));
                let k = choose|k: int| 0 <= k < front.len() && front[k] == rest[i];
                assert(list[k] == r[i]);
            } else {
                assert(list[list.len() - 1] == r[i]);
            }
        }
        if paths_unique(list) {
            assert(paths_unique(front));
            let r = without_path(list, key);
            assert forall|i: int, j: int| 0 <= i < j < r.len() implies (#[trigger] r[i]).key@ != (
            #[trigger] r[j]).key@ by {
                if j == rest.len() {
                    assert(front.contains(rest[i]));
                    let k = choose|k: int| 0 <= k < front.len() && front[k] == rest[i];
                    assert(list[k] == r[i]);
                    assert(list[list.len() - 1] == r[j]);
                }
            }
        }
    }
}

/// The recent files start with the latest one, hold none twice, and no more
/// than are remembered.
pub proof fn recent_files_are_few_and_distinct(list: Seq<FilePath>, path: FilePath)
    requires
        paths_unique(list),
    ensures
        recent(list, path).len() <= RECENT_FILES,
        recent(list, path)[0] == path,
        paths_unique(recent(list, path)),
{
    lemma_without_path(list, path.key@);
    let rest = without_path(list, path.key@);
    let r = recent(list, path);
    assert forall|i: int, j: int| 0 <= i < j < r.len() implies (#[trigger] r[i]).key@ != (
    #[trigger] r[j]).key@ by {
        assert(r[j] == rest[j - 1]);
        if i > 0 {
            assert(r[i] == rest[i - 1]);
        }
    }
}

/// Whether the audio settings are about to be applied.
pub open spec fn audio_apply_queued(queue: Seq<AppCommand>) -> bool {
    exists|i: int| 0 <= i < queue.len() && (#[trigger] queue[i]) is ApplyAudioSettings
}

/// `queue` with a wish to apply the audio settings in it, once.
pub open spec fn with_audio_apply(queue: Seq<AppCommand>) -> Seq<AppCommand> {
    if audio_apply_queued(queue) {
        queue
    } else {
        queue.push(AppCommand::ApplyAudioSettings)
    }
}

impl StateView {
    /// The state as a snapshot for the edit history.
    pub open spec fn snapshot(self) -> SnapshotView {
        SnapshotView {
            show_file: self.show_file,
            project_path: self.project_path,
            selected_cue_id: self.selected_cue_id,
            dirty: self.dirty,
            merge_key: None,
        }
    }

    /// The state with a snapshot of itself recorded.
    pub open spec fn recorded(self) -> StateView {
        StateView { undo_redo: self.undo_redo.recorded(self.snapshot()), ..self }
    }

    /// The state with a snapshot of itself recorded as part of a run of edits.
    pub open spec fn recorded_as(self, key: Seq<char>) -> StateView {
        StateView {
            undo_redo: self.undo_redo.recorded(
                SnapshotView { merge_key: Some(key), ..self.snapshot() },
            ),
            ..self
        }
    }

    /// The state with another record of the video that is decoded.
    pub open spec fn with_video(self, video: Option<VideoDiagnostics>) -> StateView {
        StateView { diagnostics: DiagnosticsView { video, ..self.diagnostics }, ..self }
    }

    pub open spec fn alerted(self, message: Seq<char>, now: Moment) -> StateView {
        StateView {
            operator_alert: Some(
                AlertView { message, expires_at: (now + OPERATOR_ALERT_NANOS) as u64 },
            ),
            ..self
        }
    }

    /// The state with other cues, and work to save.
    pub open spec fn edited(self, cues: Seq<Cue>) -> StateView {
        StateView { show_file: ShowView { cues, ..self.show_file }, dirty: true, ..self }
    }

    /// The state after a project was loaded.
    pub open spec fn loaded(self, path: FilePath, show: ShowView) -> StateView {
        StateView {
            show_file: show,
            project_path: Some(path),
            selected_cue_id: None,
            dirty: false,
            project_generation: if self.project_generation == u64::MAX {
                0
            } else {
                (self.project_generation + 1) as u64
            },
            ..self
        }
    }

    /// The state that a snapshot describes: the operator's mode, the history
    /// and everything beside the project stay. Where the audio output changes,
    /// the audio settings are to be applied.
    pub open spec fn restored(self, s: SnapshotView) -> StateView {
        let was = self.show_file.show_settings;
        let is = s.show_file.show_settings;
        StateView {
            show_file: s.show_file,
            project_path: s.project_path,
            selected_cue_id: s.selected_cue_id,
            dirty: s.dirty,
            command_queue: if was.audio_output_driver != is.audio_output_driver
                || was.audio_output_device@ != is.audio_output_device@ {
                with_audio_apply(self.command_queue)
            } else {
                self.command_queue
            },
            ..self
        }
    }
}

/// Applying a snapshot never changes the operator's mode.
pub proof fn restoring_keeps_the_mode(state: StateView, s: SnapshotView)
    ensures
        state.restored(s).show_mode == state.show_mode,
{
}

/// A snapshot of a state, applied to it, changes nothing.
pub proof fn restoring_the_present_changes_nothing(state: StateView)
    ensures
        state.restored(state.snapshot()) == state,
{
}

impl Snapshot {
    pub fn from_state(state: &SharedState) -> (s: Snapshot)
        ensures
            s@ == state@.snapshot(),
    {
        Snapshot {
            show_file: state.show_file.clone(),
            project_path: clone_path_opt(&state.project_path),
            selected_cue_id: state.selected_cue_id,
            dirty: state.dirty,
            merge_key: None,
        }
    }

    /// Make `state` what the snapshot says.
    pub fn apply(self, state: &mut SharedState)
        ensures
            final(state)@ == old(state)@.restored(self@),
    {
        let changed: bool = state.show_file.show_settings.audio_output_driver
            != self.show_file.show_settings.audio_output_driver || !same(
            state.show_file.show_settings.audio_output_device.as_str(),
            self.show_file.show_settings.audio_output_device.as_str(),
        );
        let ghost s = self@;
        state.show_file = self.show_file;
        state.project_path = self.project_path;
        state.selected_cue_id = self.selected_cue_id;
        state.dirty = self.dirty;
        if changed {
            queue_audio_settings_apply(state);
        }
        assert(state@ =~= old(state)@.restored(s));
    }
}

/// Have the audio settings applied, unless that is on its way.
pub fn queue_audio_settings_apply(state: &mut SharedState)
    ensures
        final(state)@ == (StateView {
            command_queue: with_audio_apply(old(state)@.command_queue),
            ..old(state)@
        }),
{
    let mut i: usize = 0;
    while i < state.command_queue.len()
        invariant
            i <= state.command_queue@.len(),
            forall|j: int|
                0 <= j < i ==> !((#[trigger] state.command_queue@[j]) is ApplyAudioSettings),
        decreases state.command_queue@.len() - i,
    {
        if matches!(state.command_queue[i], AppCommand::ApplyAudioSettings) {
            assert(state.command_queue@[i as int] is ApplyAudioSettings);
            return;
        }
        i = i + 1;
    }
    state.command_queue.push(AppCommand::ApplyAudioSettings);
    assert(state@ =~= (StateView {
        command_queue: with_audio_apply(old(state)@.command_queue),
        ..old(state)@
    }));
}

/// The command that switches the audio driver, where another one was picked.
pub fn audio_driver_command(
    current: AudioOutputDriver,
    selected: AudioOutputDriver,
) -> (r: Option<AppCommand>)
    ensures
        r == (if current != selected {
            Some(AppCommand::SetAudioDriver(selected))
        } else {
            None
        }),
{
    if current != selected {
        Some(AppCommand::SetAudioDriver(selected))
    } else {
        None
    }
}

/// Whether `s` is the state a session starts with.
pub open spec fn initial(s: StateView) -> bool {
    &&& default_show(s.show_file)
    &&& s.project_path is None
    &&& s.selected_cue_id is None
    &&& s.command_queue == Seq::<AppCommand>::empty()
    &&& s.show_mode == ShowMode::Edit
    &&& !s.dirty
    &&& s.undo_redo == (HistoryView {
        undo: Seq::empty(),
        redo: Seq::empty(),
        max_depth: 50,
        suppress: false,
    })
    &&& s.active_cues == Seq::<ActiveCueInfo>::empty()
    &&& s.recent_files == Seq::<FilePath>::empty()
    &&& s.last_seen_release_notes is None
    &&& s.panels == closed_panels()
    &&& s.audio_device_name == ""@
    &&& s.audio_error is None
    &&& s.recorder_file@ == ""@
    &&& s.recorder_monitor
    &&& !s.recorder_midi_enabled
    &&& s.recorder_midi_universe == 1
    &&& s.recorder_error is None
    &&& s.diagnostics == no_diagnostics()
    &&& s.open_take_editor is None
    &&& s.show_time is None
    &&& !s.show_paused
    &&& s.next_timecode is None
    &&& !s.pending_close_confirm
    &&& s.pending_discard_confirm is None
    &&& !s.discard_confirmed
    &&& !s.quit
    &&& s.operator_alert is None
    &&& s.pending_midi_learn is None
    &&& s.pending_timecode_capture is None
    &&& s.project_generation == 0
    &&& !s.identify_outputs
    &&& !s.lighting_live
    &&& s.import_request is None
}

pub open spec fn closed_panels() -> Panels {
    Panels {
        settings: false,
        log: false,
        about: false,
        changes: false,
        status: false,
        waveform: false,
        video: false,
        projection: false,
        lighting: false,
        recorder: false,
    }
}

impl Default for SharedState {
    fn default() -> (s: Self)
        ensures
            initial(s@),
    {
        SharedState {
            show_file: ShowFile::default(),
            project_path: None,
            selected_cue_id: None,
            command_queue: Vec::new(),
            show_mode: ShowMode::Edit,
            dirty: false,
            undo_redo: UndoRedo::default(),
            active_cues: Vec::new(),
            recent_files: Vec::new(),
            last_seen_release_notes: None,
            panels: Panels {
                settings: false,
                log: false,
                about: false,
                changes: false,
                status: false,
                waveform: false,
                video: false,
                projection: false,
                lighting: false,
                recorder: false,
            },
            audio_device_name: "".to_owned(),
            audio_error: None,
            recorder_file: "".to_owned(),
            recorder_monitor: true,
            recorder_midi_enabled: false,
            recorder_midi_universe: 1,
            recorder_error: None,
            diagnostics: Diagnostics::default(),
            open_take_editor: None,
            show_time: None,
            show_paused: false,
            next_timecode: None,
            pending_close_confirm: false,
            pending_discard_confirm: None,
            discard_confirmed: false,
            quit: false,
            operator_alert: None,
            pending_midi_learn: None,
            pending_timecode_capture: None,
            project_generation: 0,
            identify_outputs: false,
            lighting_live: false,
            import_request: None,
        }
    }
}

impl SharedState {
    pub fn new() -> (s: SharedState)
        ensures
            initial(s@),
    {
        SharedState::default()
    }

    /// Tell the operator of a runtime error.
    pub fn report_operator_error(&mut self, message: String, now: Moment)
        requires
            alert_fits(now),
        ensures
            final(self)@ == old(self)@.alerted(message@, now),
    {
        self.operator_alert = Some(
            OperatorAlert { message, expires_at: now + OPERATOR_ALERT_NANOS },
        );
    }

    /// Put another video into the diagnostics, or none.
    pub fn record_video(&mut self, video: Option<VideoDiagnostics>)
        ensures
            final(self)@ == old(self)@.with_video(video),
    {
        self.diagnostics.video = video;
    }

    /// Put a path in front of the recent ones.
    pub fn push_recent_file(&mut self, path: &FilePath)
        ensures
            final(self)@ == (StateView {
                recent_files: recent(old(self)@.recent_files, *path),
                ..old(self)@
            }),
    {
        let ghost list = self.recent_files@;
        let mut all: Vec<FilePath> = Vec::new();
        all.push(path.clone());
        let mut i: usize = 0;
        assert(list.take(0) =~= Seq::<FilePath>::empty());
        assert(all@ =~= seq![*path] + without_path(list.take(0), path.key@));
        while i < self.recent_files.len()
            invariant
                self@ == old(self)@,
                list == self.recent_files@,
                i <= list.len(),
                all@ == seq![*path] + without_path(list.take(i as int), path.key@),
            decreases list.len() - i,
        {
            proof {
                assert(list.take(i + 1).drop_last() =~= list.take(i as int));
                assert(list.take(i + 1).last() == list[i as int]);
            }
            if !self.recent_files[i].same(path) {
                let ghost before = all@;
                all.push(self.recent_files[i].clone());
                assert(all@ =~= seq![*path] + without_path(list.take(i + 1), path.key@));
            }
            i = i + 1;
        }
        assert(list.take(i as int) =~= list);
        all.truncate(RECENT_FILES);
        assert(all@ =~= recent(list, *path));
        self.recent_files = all;
        assert(self@ =~= (StateView {
            recent_files: recent(old(self)@.recent_files, *path),
            ..old(self)@
        }));
    }

    /// Make `show`, read from `path`, the current project.
    pub fn apply_show_file(&mut self, path: &FilePath, show: ShowFile)
        ensures
            final(self)@ == old(self)@.loaded(*path, show@),
    {
        self.show_file = show;
        self.project_path = Some(path.clone());
        self.selected_cue_id = None;
        self.dirty = false;
        self.project_generation = if self.project_generation == u64::MAX {
            0
        } else {
            self.project_generation + 1
        };
        assert(self@ =~= old(self)@.loaded(*path, show@));
    }

    /// Make what a project file was read as the current project; a file that
    /// could not be read changes nothing.
    pub fn load_show_file(
        &mut self,
        path: &FilePath,
        parsed: Result<ShowFile, String>,
    ) -> (r: Result<(), String>)
        ensures
            match parsed {
                Ok(show) => r is Ok && final(self)@ == old(self)@.loaded(*path, show@),
                Err(e) => r == Err::<(), String>(e) && final(self)@ == old(self)@,
            },
    {
        match parsed {
            Ok(show) => {
                self.apply_show_file(path, show);
                Ok(())
            },
            Err(e) => Err(e),
        }
    }

    /// The selected cue.
    pub fn selected_cue(&self) -> (r: Option<&Cue>)
        ensures
            match (r, self@.selected_cue_id) {
                (Some(c), Some(id)) => {
                    let i = position(self@.show_file.cues, id@);
                    i < self@.show_file.cues.len() && *c == self@.show_file.cues[i as int]
                },
                (None, Some(id)) => !has_cue(self@.show_file.cues, id@),
                (None, None) => true,
                (Some(_), None) => false,
            },
    {
        match self.selected_cue_id {
            Some(id) => match find_cue(&self.show_file.cues, &id) {
                Some(i) => Some(&self.show_file.cues[i]),
                None => None,
            },
            None => None,
        }
    }

    /// The selected cue, to be changed.
    pub fn selected_cue_mut(&mut self) -> (r: Option<&mut Cue>)
        ensures
            match (r, old(self)@.selected_cue_id) {
                (Some(c), Some(id)) => {
                    let cues = old(self)@.show_file.cues;
                    let i = position(cues, id@);
                    &&& i < cues.len()
                    &&& *c == cues[i as int]
                    &&& final(self)@ == (StateView {
                        show_file: ShowView {
                            cues: cues.update(i as int, *final(c)),
                            ..old(self)@.show_file
                        },
                        ..old(self)@
                    })
                },
                (None, Some(id)) => !has_cue(old(self)@.show_file.cues, id@)
                    && final(self)@ == old(self)@,
                (None, None) => final(self)@ == old(self)@,
                (Some(_), None) => false,
            },
    {
        match self.selected_cue_id {
            Some(id) => match find_cue(&self.show_file.cues, &id) {
                Some(i) => Some(&mut self.show_file.cues[i]),
                None => None,
            },
            None => None,
        }
    }
}

/// The commands that edit cues are told from all others.
pub proof fn edits_are_told_from_other_commands(cmd: &AppCommand, b: bool)
    requires
        call_ensures(AppCommand::edits_cues, (cmd,), b),
    ensures
        b <==> *cmd is Undo || *cmd is Redo || *cmd is AddCue || *cmd is DeleteCue
            || *cmd is DuplicateCue || *cmd is MoveCueUp || *cmd is MoveCueDown
            || *cmd is UngroupCue || *cmd is MoveCue || *cmd is UpdateCueQid
            || *cmd is UpdateCueName || *cmd is UpdateCueTrigger,
{
}

/// A snapshot of a state holds its project, and applied to another state makes
/// that project the current one; the mode, the history and what is beside the
/// project stay. Audio is set up anew exactly where its output is another.
pub proof fn a_snapshot_brings_the_project_back(
    from: &SharedState,
    s: Snapshot,
    state: &mut SharedState,
)
    requires
        call_ensures(Snapshot::from_state, (from,), s),
        call_ensures(Snapshot::apply, (s, state), ()),
    ensures
        ({
            let f = from@;
            let a = old(state)@;
            let b = final(state)@;
            let same = a.show_file.show_settings.audio_output_driver
                == f.show_file.show_settings.audio_output_driver
                && a.show_file.show_settings.audio_output_device@
                == f.show_file.show_settings.audio_output_device@;
            &&& b.show_file == f.show_file
            &&& b.project_path == f.project_path
            &&& b.selected_cue_id == f.selected_cue_id
            &&& b.dirty == f.dirty
            &&& s@.merge_key is None
            &&& b.show_mode == a.show_mode
            &&& b.undo_redo == a.undo_redo
            &&& b.active_cues == a.active_cues
            &&& b.recent_files == a.recent_files
            &&& same ==> b.command_queue == a.command_queue
            &&& !same ==> audio_apply_queued(b.command_queue)
        }),
{
    let q = final(state)@.command_queue;
    if q.len() == old(state)@.command_queue.len() + 1 {
        assert(q[q.len() - 1] is ApplyAudioSettings);
    }
}

/// The wish to set audio up is on the queue once, behind what was there.
pub proof fn audio_is_asked_for_once(state: &mut SharedState, again: &mut SharedState)
    requires
        call_ensures(queue_audio_settings_apply, (state,), ()),
        old(again)@ == final(state)@,
        call_ensures(queue_audio_settings_apply, (again,), ()),
    ensures
        ({
            let q = old(state)@.command_queue;
            let r = final(state)@.command_queue;
            &&& final(again)@.command_queue == r
            &&& (exists|i: int| 0 <= i < q.len() && (#[trigger] q[i]) is ApplyAudioSettings) ==> r
                == q
            &&& (forall|i: int| 0 <= i < q.len() ==> !((#[trigger] q[i]) is ApplyAudioSettings))
                ==> r == q.push(AppCommand::ApplyAudioSettings)
            &&& final(state)@.show_file == old(state)@.show_file
        }),
{
    let q = old(state)@.command_queue;
    let r = final(state)@.command_queue;
    if !audio_apply_queued(q) {
        assert(r[q.len() as int] is ApplyAudioSettings);
    }
}

/// Another driver is switched to, and the same one is not.
pub proof fn another_driver_is_switched_to(
    current: AudioOutputDriver,
    selected: AudioOutputDriver,
    r: Option<AppCommand>,
)
    requires
        call_ensures(audio_driver_command, (current, selected), r),
    ensures
        current == selected ==> r is None,
        current != selected ==> r == Some(AppCommand::SetAudioDriver(selected)),
{
}

/// An error is shown in the words given, for ten seconds.
pub proof fn an_error_is_shown_for_a_while(state: &mut SharedState, message: String, now: Moment)
    requires
        alert_fits(now),
        call_ensures(SharedState::report_operator_error, (state, message, now), ()),
    ensures
        final(state)@.operator_alert is Some,
        final(state)@.operator_alert->0.message == message@,
        final(state)@.operator_alert->0.expires_at == now + 10_000_000_000,
        final(state)@.show_file == old(state)@.show_file,
        final(state)@.command_queue == old(state)@.command_queue,
        final(state)@.dirty == old(state)@.dirty,
        final(state)@.selected_cue_id == old(state)@.selected_cue_id,
{
}

/// What is told of the video is what was put there last.
pub proof fn the_video_on_record_is_the_latest(
    state: &mut SharedState,
    video: Option<VideoDiagnostics>,
)
    requires
        call_ensures(SharedState::record_video, (state, video), ()),
    ensures
        final(state)@.diagnostics.video == video,
        final(state)@.diagnostics.log_file == old(state)@.diagnostics.log_file,
        final(state)@.show_file == old(state)@.show_file,
        final(state)@.operator_alert == old(state)@.operator_alert,
{
}

/// A path that is pushed comes first and once; the others follow, and no more
/// than ten are kept.
pub proof fn the_latest_file_comes_first(state: &mut SharedState, path: &FilePath)
    requires
        call_ensures(SharedState::push_recent_file, (state, path), ()),
    ensures
        ({
            let before = old(state)@.recent_files;
            let after = final(state)@.recent_files;
            &&& after.len() > 0
            &&& after[0] == *path
            &&& after.len() <= 10
            &&& after.len() <= before.len() + 1
            &&& forall|j: int|
                1 <= j < after.len() ==> (#[trigger] after[j]).key@ != path.key@
                    && before.contains(after[j])
            &&& (forall|i: int|
                0 <= i < before.len() ==> (#[trigger] before[i]).key@ != path.key@)
                && before.len() < 10 ==> after == seq![*path] + before
            &&& final(state)@.show_file == old(state)@.show_file
            &&& final(state)@.project_path == old(state)@.project_path
            &&& final(state)@.dirty == old(state)@.dirty
        }),
{
    let before = old(state)@.recent_files;
    let after = final(state)@.recent_files;
    let rest = without_path(before, path.key@);
    lemma_without_path(before, path.key@);
    assert forall|j: int| 1 <= j < after.len() implies (#[trigger] after[j]).key@ != path.key@
        && before.contains(after[j]) by {
        assert(after[j] == rest[j - 1]);
    }
    if forall|i: int| 0 <= i < before.len() ==> (#[trigger] before[i]).key@ != path.key@ {
        lemma_none_without_path(before, path.key@);
    }
}

proof fn lemma_none_without_path(list: Seq<FilePath>, key: Seq<char>)
    requires
        forall|i: int| 0 <= i < list.len() ==> (#[trigger] list[i]).key@ != key,
    ensures
        without_path(list, key) == list,
    decreases list.len(),
{
    if list.len() > 0 {
        let front = list.drop_last();
        assert forall|i: int| 0 <= i < front.len() implies (#[trigger] front[i]).key@ != key by {
            assert(front[i] == list[i]);
        }
        lemma_none_without_path(front, key);
        assert(list.last() == list[list.len() - 1]);
        assert(without_path(list, key) =~= list);
    } else {
        assert(without_path(list, key) =~= list);
    }
}

/// A show that was read is the current project, unchanged and with nothing
/// selected; a file that could not be read changes nothing.
pub proof fn a_read_show_is_current(
    state: &mut SharedState,
    loaded: &mut SharedState,
    path: &FilePath,
    show: ShowFile,
    parsed: Result<ShowFile, String>,
    r: Result<(), String>,
)
    requires
        call_ensures(SharedState::apply_show_file, (state, path, show), ()),
        call_ensures(SharedState::load_show_file, (loaded, path, parsed), r),
    ensures
        ({
            let s = old(state)@;
            let t = final(state)@;
            let a = old(loaded)@;
            let b = final(loaded)@;
            &&& t.show_file == show@
            &&& t.project_path == Some(*path)
            &&& t.selected_cue_id is None
            &&& !t.dirty
            &&& t.project_generation != s.project_generation
            &&& t.show_mode == s.show_mode
            &&& t.undo_redo == s.undo_redo
            &&& t.command_queue == s.command_queue
            &&& r is Ok == parsed is Ok
            &&& parsed is Ok ==> b.show_file == parsed->Ok_0@ && b.project_path == Some(*path)
                && !b.dirty && b.selected_cue_id is None
            &&& parsed is Err ==> r->Err_0 == parsed->Err_0 && b == a
        }),
{
}

/// The selected cue is the first one with the selected number, and none where
/// there is no such cue.
pub proof fn the_selected_cue_is_found(state: &SharedState, r: Option<&Cue>, k: int)
    requires
        call_ensures(SharedState::selected_cue, (state,), r),
    ensures
        state@.selected_cue_id is None ==> r is None,
        state@.selected_cue_id is Some ==> {
            let id = (state@.selected_cue_id->0)@;
            let cues = state@.show_file.cues;
            &&& r is Some ==> (*r->0).base.qid@ == id && cues.contains(*r->0)
            &&& (0 <= k < cues.len() && cues[k].base.qid@ == id && forall|j: int|
                0 <= j < k ==> (#[trigger] cues[j]).base.qid@ != id) ==> r is Some && *r->0
                == cues[k]
            &&& (forall|j: int| 0 <= j < cues.len() ==> (#[trigger] cues[j]).base.qid@ != id)
                ==> r is None
        },
{
    if state@.selected_cue_id is Some {
        let id = (state@.selected_cue_id->0)@;
        let cues = state@.show_file.cues;
        crate::show::lemma_position(cues, id);
        let p = position(cues, id) as int;
        if p < cues.len() {
            assert(cues.contains(cues[p]));
            assert(cues[p].base.qid@ == id);
        }
        if 0 <= k < cues.len() && cues[k].base.qid@ == id {
            if p < k {
                assert(cues[p].base.qid@ == id);
            } else if p > k {
                assert(cues[k].base.qid@ != id);
            }
            assert(has_cue(cues, id));
        }
    }
}

/// A session starts unlocked, with an empty project that is saved nowhere and
/// fifty steps of history.
pub proof fn a_session_starts_empty(s: SharedState)
    requires
        call_ensures(SharedState::new, (), s),
    ensures
        s@.show_file.cues.len() == 0,
        s@.project_path is None,
        s@.selected_cue_id is None,
        s@.command_queue.len() == 0,
        s@.show_mode == ShowMode::Edit,
        !s@.dirty,
        s@.undo_redo.undo.len() == 0 && s@.undo_redo.redo.len() == 0,
        s@.undo_redo.max_depth == 50,
        !s@.undo_redo.suppress,
        s@.active_cues.len() == 0,
        s@.recent_files.len() == 0,
        s@.operator_alert is None,
        s@.pending_discard_confirm is None,
        !s@.pending_close_confirm && !s@.discard_confirmed && !s@.quit,
        s@.project_generation == 0,
        s@.recorder_monitor && !s@.recorder_midi_enabled && s@.recorder_midi_universe == 1,
        s@.show_time is None && !s@.show_paused,
        !s@.panels.settings && !s@.panels.log && !s@.panels.about && !s@.panels.video,
{
}

} // verus!
